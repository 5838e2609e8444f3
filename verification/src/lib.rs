//! A small string library built around one operation: taking the prefix of a
//! text that ends just before the first occurrence of a fixed marker
//! character, together with a few helpers that move `String` values around.

use vstd::prelude::*;

verus! {

/// The fixed marker character that terminates the returned prefix.
pub open spec fn marker() -> char {
    'r'
}

/// Holds when the text contains no occurrence of the marker.
pub open spec fn marker_free(s: Seq<char>) -> bool {
    forall|i: int| 0 <= i < s.len() ==> s[i] != marker()
}

/// The position of the first marker in the text, or its length when the
/// marker never occurs.
pub open spec fn first_marker_index(s: Seq<char>) -> int
    decreases s.len(),
{
    if s.len() == 0 || s[0] == marker() {
        0
    } else {
        1 + first_marker_index(s.drop_first())
    }
}

/// The prefix of the text that ends just before the first marker; the whole
/// text when the marker never occurs.
pub open spec fn prefix_before_marker(s: Seq<char>) -> Seq<char> {
    s.subrange(0, first_marker_index(s))
}

/// `first_marker_index` is a valid cut point: everything before it differs
/// from the marker, and when it lies inside the text it points at a marker.
pub proof fn lemma_first_marker_index(s: Seq<char>)
    ensures
        0 <= first_marker_index(s) <= s.len(),
        forall|i: int| 0 <= i < first_marker_index(s) ==> s[i] != marker(),
        first_marker_index(s) < s.len() ==> s[first_marker_index(s)] == marker(),
    decreases s.len(),
{
    if s.len() == 0 || s[0] == marker() {
    } else {
        let rest = s.drop_first();
        lemma_first_marker_index(rest);
        assert forall|i: int| 0 <= i < first_marker_index(s) implies s[i] != marker() by {
            if i > 0 {
                assert(s[i] == rest[i - 1]);
            }
        }
        if first_marker_index(s) < s.len() {
            assert(s[first_marker_index(s)] == rest[first_marker_index(rest)]);
        }
    }
}

/// Returns the prefix of `my_string` that ends just before its first
/// occurrence of the marker, or the whole of `my_string` when the marker
/// never occurs.
pub fn slicing(my_string: &str) -> (ret: &str)
    ensures
        ret@ == prefix_before_marker(my_string@),
{
    let len: usize = my_string.unicode_len();
    let mut i: usize = 0;
    while i < len
        invariant
            i <= len,
            len == my_string@.len(),
            forall|j: int| 0 <= j < i ==> my_string@[j] != marker(),
        decreases len - i,
    {
        let c = my_string.get_char(i);
        if c == 'r' {
            proof {
                lemma_first_marker_index(my_string@);
                assert(first_marker_index(my_string@) == i);
            }
            return my_string.substring_char(0, i);
        }
        i += 1;
    }
    proof {
        lemma_first_marker_index(my_string@);
        assert(prefix_before_marker(my_string@) =~= my_string@);
    }
    my_string
}

/// A marker-free text is returned whole.
pub proof fn lemma_marker_free_prefix_is_whole(s: Seq<char>)
    requires
        marker_free(s),
    ensures
        prefix_before_marker(s) == s,
{
    lemma_first_marker_index(s);
    assert(prefix_before_marker(s) =~= s);
}

/// A text made of a marker-free part, the marker, and any tail has exactly
/// that part as its prefix.
pub proof fn lemma_prefix_of_split(a: Seq<char>, b: Seq<char>)
    requires
        marker_free(a),
    ensures
        prefix_before_marker(a + seq![marker()] + b) == a,
{
    let s = a + seq![marker()] + b;
    lemma_first_marker_index(s);
    assert(s[a.len() as int] == marker());
    assert forall|j: int| 0 <= j < a.len() implies s[j] != marker() by {
        assert(s[j] == a[j]);
    }
    assert(first_marker_index(s) == a.len());
    assert(prefix_before_marker(s) =~= a);
}

/// Hands a freshly made `String` to the caller.
pub fn give_ownership() -> (ret: String)
    ensures
        ret@ == "world"@,
{
    let my_string = String::from_str("world");
    my_string
}

/// Takes a `String` and returns the very same value.
pub fn takes_and_gives_back(complex: String) -> (ret: String)
    ensures
        ret == complex,
{
    complex
}

/// Extends the referenced `String` in place with a fixed suffix.
pub fn mutate_reference(my_mut_string: &mut String)
    ensures
        final(my_mut_string)@ == old(my_mut_string)@ + "(added) world!"@,
{
    my_mut_string.append("(added) world!");
}

} // verus!
