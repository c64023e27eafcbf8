//! Encodings that outside crates compute: base64, form encoding, and the
//! resolution of one URL against another.
//!
//! None of them is restated here. Each has a name for its result, and the
//! functions that use one say what they return over that name.

use vstd::prelude::*;

verus! {

/// The base64 text of a sequence of bytes, in the standard alphabet and with padding.
pub uninterp spec fn base64_text(bytes: Seq<u8>) -> Seq<char>;

/// The form encoding (`application/x-www-form-urlencoded`) of two
/// name/value pairs, in order.
pub uninterp spec fn urlencoded_pairs(
    name1: Seq<char>,
    value1: Seq<char>,
    name2: Seq<char>,
    value2: Seq<char>,
) -> Seq<char>;

/// The URL that `reference` stands for when it is found at the URL `base`;
/// `None` where `base` is no absolute URL or `reference` cannot be resolved.
pub uninterp spec fn joined_url(base: Seq<char>, reference: Seq<char>) -> Option<Seq<char>>;

/// `base64::encode`: the text is a function of the bytes alone. The crate
/// gives up only where the size of the text does not fit in `usize`, which
/// no slice is long enough to cause.
#[verifier::external_body]
pub(crate) fn base64_encode(bytes: &[u8]) -> (out: String)
    ensures
        out@ == base64_text(bytes@),
{
    base64::encode(bytes)
}

/// `url::form_urlencoded::Serializer`, begun on an empty string, given two
/// pairs with `append_pair` and ended with `finish`: the text is a function
/// of the four strings alone.
#[verifier::external_body]
pub(crate) fn form_pairs(name1: &str, value1: &str, name2: &str, value2: &str) -> (out: String)
    ensures
        out@ == urlencoded_pairs(name1@, value1@, name2@, value2@),
{
    url::form_urlencoded::Serializer::new(String::new())
        .append_pair(name1, value1)
        .append_pair(name2, value2)
        .finish()
}

/// `url::Url::parse` on `base`, then `Url::join` with `reference`, then the
/// URL as a string: the outcome is a function of the two strings alone, and
/// `None` where either call fails.
#[verifier::external_body]
pub(crate) fn join_url(base: &str, reference: &str) -> (out: Option<String>)
    ensures
        match joined_url(base@, reference@) {
            Some(text) => out is Some && out->0@ == text,
            None => out is None,
        },
{
    match url::Url::parse(base) {
        Ok(parsed) => match parsed.join(reference) {
            Ok(joined) => Some(joined.to_string()),
            Err(_) => None,
        },
        Err(_) => None,
    }
}

} // verus!
