use vstd::prelude::*;

verus! {

/// The parts of a parsed URL that the page and origin policies read.
#[derive(Clone, Debug, PartialEq, Eq)]
pub struct UrlParts {
    /// The serialized URL.
    pub serialization: String,
    pub scheme: String,
    /// The host as text, if any.
    pub host: Option<String>,
    /// The explicit port, if any.
    pub port: Option<u16>,
    /// The explicit port, else the scheme's default port, if any.
    pub known_port: Option<u16>,
    pub path: String,
    pub query: Option<String>,
    pub fragment: Option<String>,
    /// The origin's scheme, host and port; `None` for an opaque origin,
    /// which equals no other origin.
    pub origin: Option<(String, String, u16)>,
}

/// A parsed URL as values.
pub struct UrlView {
    pub serialization: Seq<char>,
    pub scheme: Seq<char>,
    pub host: Option<Seq<char>>,
    pub port: Option<u16>,
    pub known_port: Option<u16>,
    pub path: Seq<char>,
    pub query: Option<Seq<char>>,
    pub fragment: Option<Seq<char>>,
    pub origin: Option<(Seq<char>, Seq<char>, u16)>,
}

/// The characters of an optional string.
pub open spec fn opt_chars(o: Option<String>) -> Option<Seq<char>> {
    match o {
        Some(s) => Some(s@),
        None => None,
    }
}

/// A tuple origin as values.
pub open spec fn origin_view(o: Option<(String, String, u16)>) -> Option<(Seq<char>, Seq<char>, u16)> {
    match o {
        Some(t) => Some((t.0@, t.1@, t.2)),
        None => None,
    }
}

impl View for UrlParts {
    type V = UrlView;

    open spec fn view(&self) -> UrlView {
        UrlView {
            serialization: self.serialization@,
            scheme: self.scheme@,
            host: opt_chars(self.host),
            port: self.port,
            known_port: self.known_port,
            path: self.path@,
            query: opt_chars(self.query),
            fragment: opt_chars(self.fragment),
            origin: origin_view(self.origin),
        }
    }
}

/// What `url::Url::parse` gives for an input: the parsed URL, or the text of
/// the parse error.
pub uninterp spec fn url_parse_result(input: Seq<char>) -> Result<UrlView, Seq<char>>;

/// `url::Url::parse`, with the URL read into `UrlParts` (serialization,
/// scheme, `host_str`, `port`, `port_or_known_default`, path, query,
/// fragment and tuple origin) and the error into its display text. Trusted:
/// the result is `url_parse_result` of the input; the WHATWG parsing rules
/// are not restated.
#[verifier::external_body]
fn url_parse(input: &str) -> (r: Result<UrlParts, String>)
    ensures
        match r {
            Ok(u) => url_parse_result(input@) == Ok::<UrlView, Seq<char>>(u@),
            Err(e) => url_parse_result(input@) == Err::<UrlView, Seq<char>>(e@),
        },
{
    let url = match url::Url::parse(input) {
        Ok(url) => url,
        Err(error) => return Err(error.to_string()),
    };
    let origin = match url.origin() {
        url::Origin::Tuple(scheme, host, port) => Some((scheme, host.to_string(), port)),
        url::Origin::Opaque(_) => None,
    };
    Ok(UrlParts { serialization: url.as_str().to_owned(), scheme: url.scheme().to_owned(),
        host: url.host_str().map(str::to_owned), port: url.port(),
        known_port: url.port_or_known_default(), path: url.path().to_owned(),
        query: url.query().map(str::to_owned), fragment: url.fragment().map(str::to_owned), origin })
}

} // verus!

verus! {

impl UrlParts {
    /// Parses an absolute URL.
    pub fn parse(input: &str) -> (r: Result<UrlParts, String>)
        ensures
            match r {
                Ok(u) => url_parse_result(input@) == Ok::<UrlView, Seq<char>>(u@),
                Err(e) => url_parse_result(input@) == Err::<UrlView, Seq<char>>(e@),
            },
    {
        url_parse(input)
    }
}

} // verus!
