//! Server base URLs, parsed and joined with request paths by the url crate.
use url::ParseError;
use url::Url;

use vstd::prelude::*;

verus! {

#[verifier::external_type_specification]
#[verifier::external_body]
pub struct ExUrl(Url);

#[verifier::external_type_specification]
#[verifier::external_body]
pub struct ExParseError(ParseError);

/// The serialization of the URL that `Url::parse` reads from `text`, or
/// nothing where it refuses the text.
pub uninterp spec fn parsed_url(text: Seq<char>) -> Option<Seq<char>>;

/// The serialization of the URL with serialization `base` once its path is
/// set to `path` (the query and fragment stay).
pub uninterp spec fn url_with_path(base: Seq<char>, path: Seq<char>) -> Seq<char>;

/// The most characters that a base URL and a path may have together to be
/// joined: the url crate keeps offsets as `u32`, and each character takes at
/// most twelve bytes once percent-encoded.
pub const MAX_JOINED_CHARS: usize = 0x1000_0000;

/// The base URL of a server, parsed. Only `parse_url` makes one, so `text`
/// is always the serialization of `url`.
#[derive(Debug)]
pub(crate) struct ServerUrl {
    /// The parsed URL.
    url: Url,
    /// Its serialization.
    text: String,
}

impl View for ServerUrl {
    type V = Seq<char>;

    /// The URL's serialization.
    closed spec fn view(&self) -> Seq<char> {
        self.text@
    }
}

impl ServerUrl {
    /// The URL's serialization.
    pub fn as_str(&self) -> (r: &str)
        ensures
            r@ == self@,
    {
        self.text.as_str()
    }
}

/// Relies on `url::Url::parse`: whether it accepts `text`, and the
/// serialization (`Url::as_str`) of what it reads.
#[verifier::external_body]
pub(crate) fn parse_url(text: &str) -> (r: Result<ServerUrl, ParseError>)
    ensures
        match r {
            Ok(u) => parsed_url(text@) == Some(u@),
            Err(_) => parsed_url(text@) is None,
        },
{
    let url = Url::parse(text)?;
    let text = url.as_str().to_owned();
    Ok(ServerUrl { url, text })
}

/// Relies on `url::Url::set_path`: the URL with its path replaced by `path`.
/// It panics once the URL would pass 4 GiB, hence the bound.
#[verifier::external_body]
pub(crate) fn with_path(base: &ServerUrl, path: &str) -> (r: String)
    requires
        base@.len() + path@.len() <= MAX_JOINED_CHARS,
    ensures
        r@ == url_with_path(base@, path@),
{
    let mut url = base.url.clone();
    url.set_path(path);
    url.into()
}

} // verus!
