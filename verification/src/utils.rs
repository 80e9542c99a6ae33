//! The forms in which the listen address and the backend's URL are taken.

use crate::json::outcome_view;
use crate::server::option_view;
use crate::text::{join, starts_with, strip_all, trim_start_matches};
use vstd::prelude::*;
use vstd::string::*;

verus! {

/// The lower-case form of a text, as Unicode defines it.
pub uninterp spec fn lowercase_of(s: Seq<char>) -> Seq<char>;

/// The listen address for a given text in lower case: refused if it names the
/// scheme `https`, else the text without any leading `http://`.
pub open spec fn listen_address(lowered: Seq<char>) -> Result<Seq<char>, Seq<char>> {
    if "https://"@.is_prefix_of(lowered) {
        Err("HTTPS is not supported for local server"@)
    } else {
        Ok(strip_all(lowered, "http://"@))
    }
}

/// The backend's URL for a given text and its lower-case form: the text
/// itself if it names the scheme `http` or `https`, in whatever case, else the
/// text with `http://` before it.
pub open spec fn server_url(server: Seq<char>, lowered: Seq<char>) -> Seq<char> {
    if "http://"@.is_prefix_of(lowered) || "https://"@.is_prefix_of(lowered) {
        server
    } else {
        "http://"@ + server
    }
}

/// Calls `str::to_lowercase`. Trusted: that the result depends on the text
/// alone, and is therefore the named one.
#[verifier::external_body]
fn to_lowercase(s: &str) -> (lowered: String)
    ensures
        lowered@ == lowercase_of(s@),
{
    s.to_lowercase()
}

/// The listen address for a text that is in lower case already.
pub fn listen_address_from(lowered: &str) -> (address: Result<String, String>)
    ensures
        outcome_view(address) == listen_address(lowered@),
{
    if starts_with(lowered, "https://") {
        Err("HTTPS is not supported for local server".to_owned())
    } else {
        Ok(trim_start_matches(lowered, "http://"))
    }
}

/// The address to listen on: `listen` in lower case without a leading
/// `http://`. An address with the scheme `https` is refused.
pub fn parse_listen_address(listen: &str) -> (address: Result<String, String>)
    ensures
        outcome_view(address) == listen_address(lowercase_of(listen@)),
{
    let lowered = to_lowercase(listen);
    listen_address_from(lowered.as_str())
}

/// The backend's URL for a text of which the lower-case form is known.
pub fn server_url_from(server: &str, lowered: &str) -> (url: String)
    ensures
        url@ == server_url(server@, lowered@),
{
    if starts_with(lowered, "http://") || starts_with(lowered, "https://") {
        server.to_owned()
    } else {
        join("http://", server)
    }
}

/// The backend's URL, if a backend is given: with the scheme `http` where the
/// text names none.
pub fn parse_server_url(server: &Option<String>) -> (url: Option<String>)
    ensures
        option_view(url) == match option_view(*server) {
            Some(text) => Some(server_url(text, lowercase_of(text))),
            None => None,
        },
{
    match server {
        Some(text) => {
            let lowered = to_lowercase(text.as_str());
            Some(server_url_from(text.as_str(), lowered.as_str()))
        },
        None => None,
    }
}

} // verus!
