//! Absolute URLs, held by their serialization.
use vstd::prelude::*;
use vstd::string::*;

verus! {

/// The error of the `url` crate's parser.
#[verifier::external_type_specification]
#[verifier::external_body]
pub struct ExUrlParseError(url::ParseError);

/// The serialization of the URL that a text parses to, `None` where it is no absolute URL.
pub uninterp spec fn url_parsed(input: Seq<char>) -> Option<Seq<char>>;

/// The serialization of the URL that `input` resolves to against the URL that `base`
/// parses to, `None` where `base` is no absolute URL or `input` does not resolve.
pub uninterp spec fn url_joined(base: Seq<char>, input: Seq<char>) -> Option<Seq<char>>;

/// The fragment of the URL that a text parses to, `None` where it has none or the text
/// is no absolute URL.
pub uninterp spec fn url_fragment(text: Seq<char>) -> Option<Seq<char>>;

/// The serialization of the URL that `text` parses to, with its fragment replaced.
pub uninterp spec fn url_with_fragment(text: Seq<char>, fragment: Seq<char>) -> Seq<char>;

/// The longest serialization whose fragment can be replaced: the `url` crate counts
/// bytes in 32 bits, and a character takes at most four bytes.
pub const MAX_URL_CHARS: usize = 0x3fff_ffff;

/// `url::Url::parse` reads an absolute URL. The contract names the serialization it
/// gives, and says that a serialization read again gives itself, which the crate asserts
/// of every URL in `check_invariants`.
#[verifier::external_body]
fn parse_text(input: &str) -> (r: Result<String, url::ParseError>)
    ensures
        match r {
            Ok(t) => url_parsed(input@) == Some(t@) && url_parsed(t@) == Some(t@),
            Err(_) => url_parsed(input@) is None,
        },
{
    url::Url::parse(input).map(|u| u.into())
}

/// `url::Url::join` resolves a reference against a base URL, which is read from its
/// serialization first. The contract names the serialization of the result, and says
/// that it reads back as itself.
#[verifier::external_body]
fn join_text(base: &str, input: &str) -> (r: Result<String, url::ParseError>)
    ensures
        match r {
            Ok(t) => url_joined(base@, input@) == Some(t@) && url_parsed(t@) == Some(t@),
            Err(_) => url_joined(base@, input@) is None,
        },
{
    url::Url::parse(base)?.join(input).map(|u| u.into())
}

/// `url::Url::fragment` gives what follows the `#` of a URL, which is read from its
/// serialization first. The contract only names the result.
#[verifier::external_body]
fn fragment_text(text: &str) -> (r: Option<String>)
    ensures
        match r {
            Some(f) => url_fragment(text@) == Some(f@),
            None => url_fragment(text@) is None,
        },
{
    url::Url::parse(text).ok()?.fragment().map(|f| f.to_string())
}

/// `url::Url::set_fragment` replaces the fragment of a URL, which is read from its
/// serialization first. The contract names the serialization of the result, and says
/// that it reads back as itself. The crate fails on a serialization of 4 GiB or more,
/// which the bound on the length leaves out.
#[verifier::external_body]
fn set_fragment_text(text: &str, fragment: &str) -> (r: String)
    requires
        url_parsed(text@) == Some(text@),
        text@.len() <= MAX_URL_CHARS,
    ensures
        r@ == url_with_fragment(text@, fragment@),
        url_parsed(r@) == Some(r@),
{
    let mut u = url::Url::parse(text).unwrap();
    u.set_fragment(Some(fragment));
    u.into()
}

/// `Display` of `url::ParseError` writes the error in words.
#[verifier::external_body]
pub(crate) fn error_text(e: &url::ParseError) -> String {
    format!("{}", e)
}

/// An absolute URL.
#[derive(Debug)]
pub struct Url {
    text: String,
}

impl Url {
    #[verifier::type_invariant]
    spec fn inv(self) -> bool {
        url_parsed(self.text@) == Some(self.text@)
    }

    /// The serialization of the URL.
    pub closed spec fn view(&self) -> Seq<char> {
        self.text@
    }

    /// Whether a text is the serialization of a URL.
    pub open spec fn is_serialization(text: Seq<char>) -> bool {
        url_parsed(text) == Some(text)
    }

    /// Reads an absolute URL.
    pub fn parse(input: &str) -> (r: Result<Url, url::ParseError>)
        ensures
            match r {
                Ok(u) => url_parsed(input@) == Some(u@) && Self::is_serialization(u@),
                Err(_) => url_parsed(input@) is None,
            },
    {
        match parse_text(input) {
            Ok(t) => Ok(Url { text: t }),
            Err(e) => Err(e),
        }
    }

    /// Resolves a reference against this URL.
    pub fn join(&self, input: &str) -> (r: Result<Url, url::ParseError>)
        ensures
            match r {
                Ok(u) => url_joined(self@, input@) == Some(u@) && Self::is_serialization(u@),
                Err(_) => url_joined(self@, input@) is None,
            },
    {
        match join_text(self.text.as_str(), input) {
            Ok(t) => Ok(Url { text: t }),
            Err(e) => Err(e),
        }
    }

    /// The serialization of the URL.
    pub fn as_str(&self) -> (r: &str)
        ensures
            r@ == self@,
            Self::is_serialization(self@),
    {
        proof {
            use_type_invariant(self);
        }
        self.text.as_str()
    }

    /// What follows the `#` of the URL.
    pub fn fragment(&self) -> (r: Option<String>)
        ensures
            match r {
                Some(f) => url_fragment(self@) == Some(f@),
                None => url_fragment(self@) is None,
            },
    {
        fragment_text(self.text.as_str())
    }

    /// Whether the serialization is short enough for its fragment to be replaced.
    pub fn fits(&self) -> (r: bool)
        ensures
            r == (self@.len() <= MAX_URL_CHARS),
    {
        self.text.as_str().unicode_len() <= MAX_URL_CHARS
    }

    /// This URL with its fragment replaced.
    pub fn with_fragment(&self, fragment: &str) -> (r: Url)
        requires
            self@.len() <= MAX_URL_CHARS,
        ensures
            r@ == url_with_fragment(self@, fragment@),
            Self::is_serialization(r@),
    {
        proof {
            use_type_invariant(self);
        }
        Url { text: set_fragment_text(self.text.as_str(), fragment) }
    }
}

impl Clone for Url {
    fn clone(&self) -> (r: Self)
        ensures
            r@ == self@,
    {
        proof {
            use_type_invariant(self);
        }
        Url { text: self.text.clone() }
    }
}

impl PartialEq for Url {
    fn eq(&self, other: &Self) -> (r: bool)
    {
        self.text == other.text
    }
}

impl Eq for Url {}

impl vstd::std_specs::cmp::PartialEqSpecImpl for Url {
    open spec fn obeys_eq_spec() -> bool {
        true
    }

    open spec fn eq_spec(&self, other: &Self) -> bool {
        self@ == other@
    }
}

} // verus!
