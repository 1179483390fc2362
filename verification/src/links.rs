//! Addresses: resolving the references that a playlist holds against the playlist's own address.
use crate::text::{chars_of, starts_with};
use vstd::prelude::*;

verus! {

/// What the `url` crate makes of a text: the serialization of the absolute URL that
/// `url::Url::parse` reads from it, or the text of the error.
pub uninterp spec fn parsed_url(text: Seq<char>) -> Result<Seq<char>, Seq<char>>;

/// What the `url` crate makes of a reference: the serialization of the URL that `url::Url::join`
/// gives for `reference` with the URL that `base` writes, or the text of the error.
pub uninterp spec fn joined_url(base: Seq<char>, reference: Seq<char>) -> Result<Seq<char>, Seq<char>>;

/// A result of texts as a result of character sequences.
pub open spec fn text_result(result: Result<String, String>) -> Result<Seq<char>, Seq<char>> {
    match result {
        Ok(text) => Ok(text@),
        Err(error) => Err(error@),
    }
}

/// The address is taken as it stands: it begins with `http`.
pub open spec fn is_absolute(uri: Seq<char>) -> bool {
    "http"@.is_prefix_of(uri)
}

/// The address of a segment: its URI where that is absolute, else the joined address, else, where
/// joining failed, the URI again.
pub open spec fn segment_address(uri: Seq<char>, joined: Result<Seq<char>, Seq<char>>) -> Seq<char> {
    if is_absolute(uri) {
        uri
    } else {
        match joined {
            Ok(address) => address,
            Err(_) => uri,
        }
    }
}

/// Calls `url::Url::parse`. Believed of it: what it gives for a text, taken as the URL's
/// serialization or the error's message, depends on the text alone. Which texts are URLs, and how
/// they are serialized, is left to the `url` crate.
#[verifier::external_body]
pub(crate) fn parse_url(text: &str) -> (parsed: Result<String, String>)
    ensures
        text_result(parsed) == parsed_url(text@),
{
    match url::Url::parse(text) {
        Ok(address) => Ok(String::from(address)),
        Err(error) => Err(error.to_string()),
    }
}

/// Calls `url::Url::join` on the URL that `base` writes. Believed of it: what it gives, taken as
/// the URL's serialization or the error's message, depends on the two texts alone; where `base`
/// is no URL, the error is the one of parsing `base`.
#[verifier::external_body]
pub(crate) fn join_url(base: &str, reference: &str) -> (joined: Result<String, String>)
    ensures
        text_result(joined) == joined_url(base@, reference@),
        parsed_url(base@) is Err ==> text_result(joined) == parsed_url(base@),
{
    let base_url = match url::Url::parse(base) {
        Ok(address) => address,
        Err(error) => return Err(error.to_string()),
    };
    match base_url.join(reference) {
        Ok(address) => Ok(String::from(address)),
        Err(error) => Err(error.to_string()),
    }
}

/// Whether an address is taken as it stands.
pub fn is_absolute_address(uri: &str) -> (absolute: bool)
    ensures
        absolute == is_absolute(uri@),
{
    let chars: Vec<char> = chars_of(uri);
    starts_with(chars.as_slice(), "http")
}

/// The address of a segment, from its URI and what joining the URI to the playlist's address gave.
pub fn choose_segment_address(uri: &str, joined: Result<String, String>) -> (address: String)
    ensures
        address@ == segment_address(uri@, text_result(joined)),
{
    if is_absolute_address(uri) {
        return uri.to_string();
    }
    match joined {
        Ok(address) => address,
        Err(_) => uri.to_string(),
    }
}

/// The address of a segment of the playlist at `playlist_url`.
pub fn resolve_segment(playlist_url: &str, uri: &str) -> (address: String)
    ensures
        address@ == segment_address(uri@, joined_url(playlist_url@, uri@)),
{
    if is_absolute_address(uri) {
        uri.to_string()
    } else {
        choose_segment_address(uri, join_url(playlist_url, uri))
    }
}

} // verus!
