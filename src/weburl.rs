//! A parsed URL, seen by the proofs as the text that the `url` crate serializes it to.

use vstd::prelude::*;

verus! {

#[verifier::external_type_specification]
#[verifier::external_body]
pub struct ExUrl(url::Url);

#[verifier::external_type_specification]
#[verifier::external_body]
pub struct ExParseError(url::ParseError);

/// The serialization that `url::Url::parse` gives for a text, or `None` where it
/// refuses the text.
pub uninterp spec fn url_parse(input: Seq<char>) -> Option<Seq<char>>;

/// The fragment that `url::Url::fragment` reads off the URL with a given serialization.
pub uninterp spec fn url_fragment(serialization: Seq<char>) -> Option<Seq<char>>;

/// The serialization of a URL after `url::Url::set_fragment` replaced its fragment.
pub uninterp spec fn url_with_fragment(serialization: Seq<char>, fragment: Seq<char>) -> Seq<char>;

/// A URL that the `url` crate accepted. Its text is always the serialization of
/// the parsed value held beside it: every constructor sets both from one value.
#[derive(Debug)]
pub struct ParsedUrl {
    inner: url::Url,
    text: String,
}

impl View for ParsedUrl {
    type V = Seq<char>;

    closed spec fn view(&self) -> Seq<char> {
        self.text@
    }
}

/// Why a text is not a URL.
#[derive(Debug)]
pub struct UrlError {
    pub error: url::ParseError,
}

/// Relies on `url::Url::parse`: it accepts or refuses a text, and serializes what
/// it accepts, as a function of the text alone.
#[verifier::external_body]
fn parse_url(input: &str) -> (r: Result<ParsedUrl, url::ParseError>)
    ensures
        r is Ok <==> url_parse(input@) is Some,
        r matches Ok(u) ==> u@ == url_parse(input@)->0,
{
    match url::Url::parse(input) {
        Ok(u) => Ok(ParsedUrl { text: u.as_str().to_string(), inner: u }),
        Err(e) => Err(e),
    }
}

/// Relies on `url::Url::fragment`: the text after the `#` that starts the
/// fragment, which the serialization determines.
#[verifier::external_body]
fn fragment_of(u: &ParsedUrl) -> (r: Option<String>)
    ensures
        r is Some <==> url_fragment(u@) is Some,
        r matches Some(f) ==> f@ == url_fragment(u@)->0,
{
    match u.inner.fragment() {
        Some(f) => Some(f.to_string()),
        None => None,
    }
}

/// Relies on `url::Url::set_fragment`: it drops any fragment and writes the new
/// one. It panics only where the text before the fragment reaches 4 GiB, which
/// a text of under 2^30 characters cannot.
#[verifier::external_body]
fn set_fragment(u: ParsedUrl, fragment: &str) -> (r: ParsedUrl)
    requires
        u@.len() < 0x4000_0000,
    ensures
        r@ == url_with_fragment(u@, fragment@),
{
    let mut inner = u.inner;
    inner.set_fragment(Some(fragment));
    ParsedUrl { text: inner.as_str().to_string(), inner }
}

impl ParsedUrl {
    /// Parses a URL.
    pub fn parse(input: &str) -> (r: Result<ParsedUrl, UrlError>)
        ensures
            r is Ok <==> url_parse(input@) is Some,
            r matches Ok(u) ==> u@ == url_parse(input@)->0,
    {
        match parse_url(input) {
            Ok(u) => Ok(u),
            Err(error) => Err(UrlError { error }),
        }
    }

    /// The URL's serialization.
    pub fn as_str(&self) -> (r: &str)
        ensures
            r@ == self@,
    {
        self.text.as_str()
    }

    /// The URL's fragment, without its `#`.
    pub fn fragment(&self) -> (r: Option<String>)
        ensures
            r is Some <==> url_fragment(self@) is Some,
            r matches Some(f) ==> f@ == url_fragment(self@)->0,
    {
        fragment_of(self)
    }

    /// The URL with its fragment replaced by `fragment`.
    pub fn with_fragment(self, fragment: &str) -> (r: ParsedUrl)
        requires
            self@.len() < 0x4000_0000,
        ensures
            r@ == url_with_fragment(self@, fragment@),
    {
        set_fragment(self, fragment)
    }

    /// The URL's serialization, as an owned string.
    pub fn to_text(&self) -> (r: String)
        ensures
            r@ == self@,
    {
        self.text.clone()
    }
}

} // verus!
