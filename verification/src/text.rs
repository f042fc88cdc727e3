//! Trusted boundary to string routines the verifier gives no model for:
//! grapheme segmentation (from the `unicode-segmentation` crate) and a few
//! `String` building blocks of std. Everything else in the crate is proved
//! against the contracts stated here.

use unicode_segmentation::UnicodeSegmentation;
use vstd::prelude::*;

verus! {

/// The grapheme clusters of a string, in order. What the clusters are is
/// decided by the segmentation algorithm alone; this crate only relies on
/// the facts stated in `segment_graphemes`.
pub uninterp spec fn grapheme_clusters(s: Seq<char>) -> Seq<Seq<char>>;

/// Concatenation of a sequence of cluster contents back into one string.
pub open spec fn flat_seq(gs: Seq<Seq<char>>) -> Seq<char>
    decreases gs.len(),
{
    if gs.len() == 0 {
        Seq::<char>::empty()
    } else {
        gs[0] + flat_seq(gs.drop_first())
    }
}

/// Relies on `unicode_segmentation::UnicodeSegmentation::graphemes` (extended
/// clusters): the clusters are non-empty substrings of `s` that concatenate
/// back to `s`, in order.
#[verifier::external_body]
pub(crate) fn segment_graphemes(s: &str) -> (r: Vec<String>)
    ensures
        r@.map_values(|g: String| g@) == grapheme_clusters(s@),
        flat_seq(r@.map_values(|g: String| g@)) == s@,
{
    s.graphemes(true).map(String::from).collect()
}

/// Relies on `String::push`: appends one character.
#[verifier::external_body]
pub(crate) fn push_char(s: &mut String, c: char)
    ensures
        final(s)@ == old(s)@.push(c),
{
    s.push(c)
}

/// Relies on `String::push_str`: appends the characters of `t`.
#[verifier::external_body]
pub(crate) fn push_str_onto(s: &mut String, t: &str)
    ensures
        final(s)@ == old(s)@ + t@,
{
    s.push_str(t)
}

/// Relies on `String::pop`: removes and returns the last character, if any.
#[verifier::external_body]
pub(crate) fn pop_char(s: &mut String) -> (r: Option<char>)
    ensures
        old(s)@.len() == 0 ==> final(s)@ == old(s)@ && r is None,
        old(s)@.len() > 0 ==> final(s)@ == old(s)@.drop_last() && r == Some(old(s)@.last()),
{
    s.pop()
}

/// Relies on `str::chars` collected into a `Vec`: the characters of `s`, in
/// order.
#[verifier::external_body]
pub(crate) fn chars_of(s: &str) -> (v: Vec<char>)
    ensures
        v@ == s@,
{
    s.chars().collect()
}

/// Relies on `String::from_iter` over characters: builds the string whose
/// characters are exactly `v`, in order.
#[verifier::external_body]
pub(crate) fn string_from_chars(v: &Vec<char>) -> (s: String)
    ensures
        s@ == v@,
{
    v.iter().collect()
}

/// `flat_seq` distributes over appending one cluster at the end.
pub proof fn lemma_flat_push(gs: Seq<Seq<char>>, x: Seq<char>)
    ensures
        flat_seq(gs.push(x)) == flat_seq(gs) + x,
    decreases gs.len(),
{
    if gs.len() == 0 {
        assert(gs.push(x).drop_first() =~= Seq::<Seq<char>>::empty());
        assert(gs.push(x)[0] == x);
        assert(flat_seq(Seq::<Seq<char>>::empty()) == Seq::<char>::empty());
        assert(flat_seq(gs.push(x)) == gs.push(x)[0] + flat_seq(gs.push(x).drop_first()));
        assert(flat_seq(gs.push(x)) == x + Seq::<char>::empty());
        assert(x + Seq::<char>::empty() =~= Seq::<char>::empty() + x);
    } else {
        let rest = gs.drop_first();
        assert(gs.push(x).drop_first() =~= rest.push(x));
        lemma_flat_push(rest, x);
        assert(flat_seq(gs.push(x)) == gs.push(x)[0] + flat_seq(rest.push(x)));
        assert(gs.push(x)[0] == gs[0]);
        assert(flat_seq(gs) == gs[0] + flat_seq(rest));
        assert(gs[0] + (flat_seq(rest) + x) =~= (gs[0] + flat_seq(rest)) + x);
    }
}

} // verus!
