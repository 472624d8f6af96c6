//! Media types, held by their normalized text.
use vstd::prelude::*;
use vstd::string::*;

verus! {

/// The error of the `mime` crate's parser.
#[verifier::external_type_specification]
#[verifier::external_body]
pub struct ExMimeFromStrError(mime::FromStrError);

/// The text of the media type that a string parses to, `None` where it is none.
pub uninterp spec fn mime_parsed(input: Seq<char>) -> Option<Seq<char>>;

/// `<mime::Mime as FromStr>::from_str` reads a media type, and its `Display` gives the
/// text it holds, in lower case but for some parameter values. The contract names that text.
#[verifier::external_body]
fn parse_text(input: &str) -> (r: Result<String, mime::FromStrError>)
    ensures
        match r {
            Ok(t) => mime_parsed(input@) == Some(t@),
            Err(_) => mime_parsed(input@) is None,
        },
{
    input.parse::<mime::Mime>().map(|m| m.to_string())
}

/// `mime::APPLICATION_JSON` is the media type `application/json`.
#[verifier::external_body]
fn json_text() -> (r: String)
    ensures
        r@ == "application/json"@,
{
    mime::APPLICATION_JSON.to_string()
}

/// A media type. Two are equal where their texts are.
#[derive(Debug)]
pub struct MediaType {
    text: String,
}

impl MediaType {
    /// The text of the media type.
    pub closed spec fn view(&self) -> Seq<char> {
        self.text@
    }

    /// Reads a media type.
    pub fn parse(input: &str) -> (r: Result<MediaType, mime::FromStrError>)
        ensures
            match r {
                Ok(m) => mime_parsed(input@) == Some(m@),
                Err(_) => mime_parsed(input@) is None,
            },
    {
        match parse_text(input) {
            Ok(t) => Ok(MediaType { text: t }),
            Err(e) => Err(e),
        }
    }

    /// The media type of JSON documents.
    pub fn json() -> (r: MediaType)
        ensures
            r@ == "application/json"@,
    {
        MediaType { text: json_text() }
    }

    /// The text of the media type.
    pub fn as_str(&self) -> (r: &str)
        ensures
            r@ == self@,
    {
        self.text.as_str()
    }
}

impl Clone for MediaType {
    fn clone(&self) -> (r: Self)
        ensures
            r@ == self@,
    {
        MediaType { text: self.text.clone() }
    }
}

impl PartialEq for MediaType {
    fn eq(&self, other: &Self) -> (r: bool)
    {
        self.text == other.text
    }
}

impl Eq for MediaType {}

impl vstd::std_specs::cmp::PartialEqSpecImpl for MediaType {
    open spec fn obeys_eq_spec() -> bool {
        true
    }

    open spec fn eq_spec(&self, other: &Self) -> bool {
        self@ == other@
    }
}

/// Whether two media types that may be absent are the same.
pub fn same_media(a: &Option<MediaType>, b: &Option<MediaType>) -> (r: bool)
    ensures
        r == (media_text(*a) == media_text(*b)),
{
    match (a, b) {
        (Some(x), Some(y)) => crate::text::str_eq(x.as_str(), y.as_str()),
        (None, None) => true,
        _ => false,
    }
}

/// The text of a media type that may be absent.
pub open spec fn media_text(m: Option<MediaType>) -> Option<Seq<char>> {
    match m {
        Some(m) => Some(m@),
        None => None,
    }
}

} // verus!
