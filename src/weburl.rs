//! Absolute URLs and `application/x-www-form-urlencoded` parameter lists,
//! seen by the proofs through their text.
use vstd::prelude::*;

verus! {

#[verifier::external_type_specification]
#[verifier::external_body]
pub struct ExUrl(url::Url);

/// A parameter list as the proofs see it: (key, value) pairs.
pub type Pairs = Seq<(Seq<char>, Seq<char>)>;

/// The text of each pair of `v`.
pub open spec fn pairs_view(v: Seq<(String, String)>) -> Pairs {
    v.map_values(|p: (String, String)| (p.0@, p.1@))
}

/// The serialization of `s` parsed as an absolute URL, `None` when it is not one.
pub uninterp spec fn url_parse(s: Seq<char>) -> Option<Seq<char>>;

/// The decoded query pairs of the URL serialized as `u`, in order.
pub uninterp spec fn url_query_pairs(u: Seq<char>) -> Pairs;

/// The fragment of the URL serialized as `u`.
pub uninterp spec fn url_fragment(u: Seq<char>) -> Option<Seq<char>>;

/// The URL serialized as `u` with its query replaced by `q` (removed when `None`).
pub uninterp spec fn url_set_query(u: Seq<char>, q: Option<Seq<char>>) -> Seq<char>;

/// The URL serialized as `u` with its fragment replaced by `f` (removed when `None`).
pub uninterp spec fn url_set_fragment(u: Seq<char>, f: Option<Seq<char>>) -> Seq<char>;

/// The decoded pairs of the form-encoded text `s`, in order.
pub uninterp spec fn form_parse(s: Seq<char>) -> Pairs;

/// The form encoding of `pairs`: `key=value` items joined by `&`.
pub uninterp spec fn form_serialize(pairs: Pairs) -> Seq<char>;

pub open spec fn opt_view(o: Option<&str>) -> Option<Seq<char>> {
    match o {
        Some(s) => Some(s@),
        None => None,
    }
}

/// A parsed absolute URL and its serialization. Only the functions below
/// build or change one, and each keeps `text` equal to `url.as_str()`.
#[derive(Debug)]
pub(crate) struct WebUrl {
    url: url::Url,
    text: String,
}

impl View for WebUrl {
    type V = Seq<char>;

    closed spec fn view(&self) -> Seq<char> {
        self.text@
    }
}

impl WebUrl {
    /// Relies on `url::Url::parse` (and `Url::as_str` for its serialization).
    #[verifier::external_body]
    pub(crate) fn parse(s: &str) -> (r: Result<WebUrl, url::ParseError>)
        ensures
            match r {
                Ok(u) => url_parse(s@) == Some(u@),
                Err(_) => url_parse(s@) is None,
            },
    {
        match url::Url::parse(s) {
            Ok(url) => {
                let text = url.as_str().to_owned();
                Ok(WebUrl { url, text })
            },
            Err(e) => Err(e),
        }
    }

    /// Relies on `url::Url::query_pairs`.
    #[verifier::external_body]
    pub(crate) fn query_pairs(&self) -> (r: Vec<(String, String)>)
        ensures
            pairs_view(r@) == url_query_pairs(self@),
    {
        self.url.query_pairs().map(|(k, v)| (k.into_owned(), v.into_owned())).collect()
    }

    /// Relies on `url::Url::fragment`.
    #[verifier::external_body]
    pub(crate) fn fragment(&self) -> (r: Option<&str>)
        ensures
            opt_view(r) == url_fragment(self@),
    {
        self.url.fragment()
    }

    /// Relies on `url::Url::set_query` (and `Url::as_str` for the new serialization).
    #[verifier::external_body]
    pub(crate) fn set_query(&mut self, q: Option<&str>)
        ensures
            final(self)@ == url_set_query(old(self)@, opt_view(q)),
    {
        self.url.set_query(q);
        self.text = self.url.as_str().to_owned();
    }

    /// Relies on `url::Url::set_fragment` (and `Url::as_str` for the new serialization).
    #[verifier::external_body]
    pub(crate) fn set_fragment(&mut self, f: Option<&str>)
        ensures
            final(self)@ == url_set_fragment(old(self)@, opt_view(f)),
    {
        self.url.set_fragment(f);
        self.text = self.url.as_str().to_owned();
    }

    /// The serialization.
    pub(crate) fn as_str(&self) -> (r: &str)
        ensures
            r@ == self@,
    {
        self.text.as_str()
    }
}

/// Relies on `url::form_urlencoded::parse`: empty text yields no pairs.
#[verifier::external_body]
pub(crate) fn form_parse_str(s: &str) -> (r: Vec<(String, String)>)
    ensures
        pairs_view(r@) == form_parse(s@),
        s@.len() == 0 ==> r@.len() == 0,
{
    url::form_urlencoded::parse(s.as_bytes()).map(|(k, v)| (k.into_owned(), v.into_owned())).collect()
}

/// Relies on `url::form_urlencoded::Serializer::extend_pairs` and `finish`. Each
/// pair writes at least its `=`, so a non-empty list gives non-empty text.
#[verifier::external_body]
pub(crate) fn form_serialize_pairs(pairs: &Vec<(String, String)>) -> (r: String)
    ensures
        r@ == form_serialize(pairs_view(pairs@)),
        pairs@.len() > 0 ==> r@.len() > 0,
{
    url::form_urlencoded::Serializer::new(String::new()).extend_pairs(pairs.iter()).finish()
}

} // verus!
