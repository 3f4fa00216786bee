//! Text helpers shared by the session types: ASCII case folding for
//! identifier comparison, and the lowercase form under which subscriptions
//! are recorded.

use vstd::prelude::*;

verus! {

/// An ASCII upper-case letter becomes its lower-case counterpart; every other
/// character stays as it is.
pub open spec fn fold_char(c: char) -> char {
    if 'A' <= c && c <= 'Z' {
        ((c as u32) + 32) as char
    } else {
        c
    }
}

/// A text with every character folded by [`fold_char`].
pub open spec fn fold_ascii(s: Seq<char>) -> Seq<char> {
    Seq::new(s.len(), |i: int| fold_char(s[i]))
}

/// Two texts match when they differ at most in the case of ASCII letters.
pub open spec fn same_ignoring_case(a: Seq<char>, b: Seq<char>) -> bool {
    fold_ascii(a) == fold_ascii(b)
}

/// The lowercase form of a text, as the standard library computes it.
pub uninterp spec fn lowercase_of(s: Seq<char>) -> Seq<char>;

/// Calls `str::eq_ignore_ascii_case`. The standard library documents the
/// result as the equality of the two texts after `to_ascii_lowercase`, which
/// maps `A`..=`Z` to `a`..=`z` and leaves every other character alone.
#[verifier::external_body]
pub(crate) fn eq_ignore_ascii_case(a: &str, b: &str) -> (r: bool)
    ensures
        r == same_ignoring_case(a@, b@),
{
    a.eq_ignore_ascii_case(b)
}

/// Calls `str::to_lowercase`. The result follows the Unicode lowercase
/// mapping, which is a function of the text alone; it is named, not spelled
/// out.
#[verifier::external_body]
pub(crate) fn to_lowercase(s: &str) -> (r: String)
    ensures
        r@ == lowercase_of(s@),
{
    s.to_lowercase()
}

/// The texts of a list as plain values, in order.
pub open spec fn texts_view(items: Seq<String>) -> Seq<Seq<char>> {
    Seq::new(items.len(), |i: int| items[i]@)
}

/// A copy of a list of texts.
pub fn clone_texts(items: &Vec<String>) -> (r: Vec<String>)
    ensures
        r@ == items@,
{
    let mut out: Vec<String> = Vec::new();
    let mut i: usize = 0;
    while i < items.len()
        invariant
            i <= items.len(),
            out@ == items@.subrange(0, i as int),
        decreases items.len() - i,
    {
        out.push(items[i].clone());
        assert(out@ =~= items@.subrange(0, i + 1));
        i += 1;
    }
    assert(out@ =~= items@);
    out
}

/// A copy of an optional text.
pub fn clone_optional_text(item: &Option<String>) -> (r: Option<String>)
    ensures
        r == *item,
{
    match item {
        Some(s) => Some(s.clone()),
        None => None,
    }
}

/// A copy of a list of bytes.
pub fn clone_bytes(items: &Vec<u8>) -> (r: Vec<u8>)
    ensures
        r@ == items@,
{
    let mut out: Vec<u8> = Vec::new();
    let mut i: usize = 0;
    while i < items.len()
        invariant
            i <= items.len(),
            out@ == items@.subrange(0, i as int),
        decreases items.len() - i,
    {
        out.push(items[i]);
        assert(out@ =~= items@.subrange(0, i + 1));
        i += 1;
    }
    assert(out@ =~= items@);
    out
}

} // verus!
