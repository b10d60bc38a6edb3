use vstd::prelude::*;

verus! {

/// The text that a byte sequence reads as, each invalid UTF-8 sequence
/// standing as U+FFFD.
pub uninterp spec fn lossy_of(b: Seq<u8>) -> Seq<char>;

/// The text with leading and trailing Unicode white space removed.
pub uninterp spec fn trimmed_of(s: Seq<char>) -> Seq<char>;

/// Relies on `String::from_utf8_lossy`: its text depends on the bytes alone.
#[verifier::external_body]
pub(crate) fn lossy_text(b: &[u8]) -> (r: String)
    ensures
        r@ == lossy_of(b@),
{
    String::from_utf8_lossy(b).into_owned()
}

/// Relies on `str::trim`: its result depends on the text alone.
#[verifier::external_body]
pub(crate) fn trim_text(s: &str) -> (r: &str)
    ensures
        r@ == trimmed_of(s@),
{
    s.trim()
}

/// Relies on `str::strip_prefix`: the rest of `s` when it begins with `p`.
#[verifier::external_body]
pub(crate) fn strip_prefix<'a>(s: &'a str, p: &str) -> (r: Option<&'a str>)
    ensures
        match r {
            Some(rest) => s@.len() >= p@.len() && s@.take(p@.len() as int) == p@
                && rest@ == s@.skip(p@.len() as int),
            None => !(s@.len() >= p@.len() && s@.take(p@.len() as int) == p@),
        },
{
    s.strip_prefix(p)
}

} // verus!
