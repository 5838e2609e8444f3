use prefix_slice::{give_ownership, mutate_reference, slicing, takes_and_gives_back};

#[test]
fn empty_text_gives_empty_prefix() {
    assert_eq!(slicing(""), "");
}

#[test]
fn marker_at_start_gives_empty_prefix() {
    assert_eq!(slicing("r"), "");
}

#[test]
fn text_without_marker_is_returned_whole() {
    assert_eq!(slicing("hello people"), "hello people");
}

#[test]
fn the_word_world_contains_the_marker() {
    assert_eq!(slicing("world"), "wo");
    assert_eq!(slicing("world with r in it"), "wo");
}

#[test]
fn marker_free_part_then_marker_then_tail() {
    assert_eq!(slicing("hello worm"), "hello wo");
}

#[test]
fn only_the_first_marker_counts() {
    assert_eq!(slicing("error"), "e");
}

#[test]
fn marker_at_the_end() {
    assert_eq!(slicing("for"), "fo");
}

#[test]
fn multibyte_characters_before_the_marker() {
    assert_eq!(slicing("héllo r"), "héllo ");
    assert_eq!(slicing("日本語"), "日本語");
}

#[test]
fn give_ownership_hands_out_world() {
    assert_eq!(give_ownership(), "world");
}

#[test]
fn takes_and_gives_back_returns_the_same_value() {
    let s = String::from("hello");
    assert_eq!(takes_and_gives_back(s), "hello");
}

#[test]
fn mutate_reference_appends_the_fixed_suffix() {
    let mut s = String::from("Hello world");
    mutate_reference(&mut s);
    assert_eq!(s, "Hello world(added) world!");
}
