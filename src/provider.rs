//! One provider's rules, whether they apply to a URL, and the rewrite they make.
use vstd::prelude::*;
use vstd::string::StrSliceExecFns;
use crate::decode::{repeatedly_urldecode, resolve};
use crate::error::{Error, Fault};
use crate::params::{
    active_rules, pattern_views, retain_unmatched, serialize_params, serialized, survivors,
};
use crate::pattern::{any_matches, regex_capture1, regex_delete_all, regex_is_match, Pattern, PatternSet};
use crate::text::same_text;
use crate::weburl::{
    form_parse, form_parse_str, url_fragment, url_parse, url_query_pairs, url_set_fragment,
    url_set_query, WebUrl,
};

verus! {

/// What the proofs see of a [`Provider`]: each pattern as its text and flag.
pub struct ProviderModel {
    pub url_pattern: (Seq<char>, bool),
    pub rules: Seq<(Seq<char>, bool)>,
    pub raw_rules: Seq<(Seq<char>, bool)>,
    pub referral_marketing: Seq<(Seq<char>, bool)>,
    pub exceptions: (Seq<Seq<char>>, bool),
    pub redirections: Seq<(Seq<char>, bool)>,
}

/// The rules for one family of sites. Fixed once built.
#[derive(Debug)]
pub struct Provider {
    url_pattern: Pattern,
    rules: Vec<Pattern>,
    raw_rules: Vec<Pattern>,
    referral_marketing: Vec<Pattern>,
    exceptions: PatternSet,
    redirections: Vec<Pattern>,
}

impl View for Provider {
    type V = ProviderModel;

    closed spec fn view(&self) -> ProviderModel {
        ProviderModel {
            url_pattern: self.url_pattern@,
            rules: pattern_views(self.rules@),
            raw_rules: pattern_views(self.raw_rules@),
            referral_marketing: pattern_views(self.referral_marketing@),
            exceptions: self.exceptions@,
            redirections: pattern_views(self.redirections@),
        }
    }
}

/// Whether the provider governs `url`: its pattern matches, `url` is not
/// `javascript:void(0)`, and no exception matches.
pub open spec fn applies(m: ProviderModel, url: Seq<char>) -> bool {
    regex_is_match(m.url_pattern.0, m.url_pattern.1, url) && !(url == "javascript:void(0)"@
        || any_matches(m.exceptions, url))
}

/// The redirection found by the first of `rs[i..]` that matches `url`: its
/// non-empty group 1, or the fault naming that pattern; `None` when none matches.
pub open spec fn redirect_from(rs: Seq<(Seq<char>, bool)>, url: Seq<char>, i: int) -> Option<
    Result<Seq<char>, Fault>,
>
    decreases rs.len() - i,
{
    if i < 0 || i >= rs.len() {
        None
    } else {
        match regex_capture1(rs[i].0, rs[i].1, url) {
            None => redirect_from(rs, url, i + 1),
            Some(Some(c)) => if c.len() > 0 {
                Some(Ok(c))
            } else {
                Some(Err(Fault::MissingCapture(rs[i].0)))
            },
            Some(None) => Some(Err(Fault::MissingCapture(rs[i].0))),
        }
    }
}

/// `s` after deleting every match of each of `rs`, in order.
pub open spec fn apply_raw(rs: Seq<(Seq<char>, bool)>, s: Seq<char>) -> Seq<char>
    decreases rs.len(),
{
    if rs.len() == 0 {
        s
    } else {
        regex_delete_all(rs.last().0, rs.last().1, apply_raw(rs.drop_last(), s))
    }
}

/// The removal rules in force: referral rules join when `strip` holds.
pub open spec fn active_model(m: ProviderModel, strip: bool) -> Seq<(Seq<char>, bool)> {
    if strip {
        m.rules + m.referral_marketing
    } else {
        m.rules
    }
}

/// `text` parsed as a URL, with the query and fragment pairs that an active rule
/// fully matches removed, then serialized again.
pub open spec fn filter_params(m: ProviderModel, text: Seq<char>, strip: bool) -> Result<
    Seq<char>,
    Fault,
> {
    match url_parse(text) {
        None => Err(Fault::UrlSyntax),
        Some(u) => {
            let active = active_model(m, strip);
            let query = survivors(url_query_pairs(u), active);
            let frag_text = match url_fragment(u) {
                Some(f) => f,
                None => ""@,
            };
            let fragment = survivors(form_parse(frag_text), active);
            Ok(url_set_fragment(url_set_query(u, serialized(query)), serialized(fragment)))
        },
    }
}

/// The rewrite a provider makes of a URL it governs: the resolved redirection
/// target when a redirection fires, else the raw deletions and the parameter
/// filter.
pub open spec fn rewrite(m: ProviderModel, url: Seq<char>, strip: bool) -> Result<
    Seq<char>,
    Fault,
> {
    match redirect_from(m.redirections, url, 0) {
        Some(Ok(target)) => resolve(target),
        Some(Err(f)) => Err(f),
        None => filter_params(m, apply_raw(m.raw_rules, url), strip),
    }
}

impl Provider {
    /// A provider governing the URLs that `url_pattern` matches, unless one of
    /// `exceptions` matches too.
    pub fn new(
        url_pattern: Pattern,
        rules: Vec<Pattern>,
        raw_rules: Vec<Pattern>,
        referral_marketing: Vec<Pattern>,
        exceptions: PatternSet,
        redirections: Vec<Pattern>,
    ) -> (r: Provider)
        ensures
            r@ == (ProviderModel {
                url_pattern: url_pattern@,
                rules: pattern_views(rules@),
                raw_rules: pattern_views(raw_rules@),
                referral_marketing: pattern_views(referral_marketing@),
                exceptions: exceptions@,
                redirections: pattern_views(redirections@),
            }),
    {
        Provider { url_pattern, rules, raw_rules, referral_marketing, exceptions, redirections }
    }

    /// Tells whether this provider governs `url`.
    pub fn match_url(&self, url: &str) -> (r: bool)
        ensures
            r == applies(self@, url@),
    {
        self.url_pattern.is_match(url) && !self.match_exception(url)
    }

    fn match_exception(&self, url: &str) -> (r: bool)
        ensures
            r == (url@ == "javascript:void(0)"@ || any_matches(self@.exceptions, url@)),
    {
        same_text(url, "javascript:void(0)") || self.exceptions.is_match(url)
    }

    /// The group 1 text of the first redirection pattern that matches `url`.
    fn get_redirection<'a>(&self, url: &'a str) -> (r: Result<Option<&'a str>, Error>)
        ensures
            match r {
                Ok(Some(t)) => redirect_from(self@.redirections, url@, 0) == Some(
                    Ok::<Seq<char>, Fault>(t@),
                ),
                Ok(None) => redirect_from(self@.redirections, url@, 0) is None,
                Err(e) => redirect_from(self@.redirections, url@, 0) == Some(
                    Err::<Seq<char>, Fault>(e.fault()),
                ),
            },
    {
        let ghost rs = self@.redirections;
        let mut i: usize = 0;
        while i < self.redirections.len()
            invariant
                rs == pattern_views(self.redirections@),
                i <= rs.len(),
                redirect_from(rs, url@, 0) == redirect_from(rs, url@, i as int),
            decreases rs.len() - i,
        {
            let r = &self.redirections[i];
            match r.capture1(url) {
                None => {},
                Some(Some(c)) => {
                    if c.unicode_len() > 0 {
                        return Ok(Some(c));
                    }
                    return Err(Error::RedirectionHasNoCapturingGroup(r.as_str().to_owned()));
                },
                Some(None) => {
                    return Err(Error::RedirectionHasNoCapturingGroup(r.as_str().to_owned()));
                },
            }
            i += 1;
        }
        Ok(None)
    }
    /// Deletes every match of each raw rule from `url`, rule after rule.
    fn apply_raw_rules(&self, url: &str) -> (r: String)
        ensures
            r@ == apply_raw(self@.raw_rules, url@),
    {
        let ghost rs = self@.raw_rules;
        let mut text: String = url.to_owned();
        let mut i: usize = 0;
        while i < self.raw_rules.len()
            invariant
                rs == pattern_views(self.raw_rules@),
                i <= rs.len(),
                text@ == apply_raw(rs.subrange(0, i as int), url@),
            decreases rs.len() - i,
        {
            let next = self.raw_rules[i].delete_all(text.as_str());
            proof {
                assert(rs.subrange(0, i as int + 1).drop_last() =~= rs.subrange(0, i as int));
            }
            text = next;
            i += 1;
        }
        proof {
            assert(rs.subrange(0, rs.len() as int) =~= rs);
        }
        text
    }

    /// Parses `text` as a URL, drops the query and fragment pairs whose key an
    /// active rule fully matches, and serializes the result.
    fn filter_url_params(&self, text: &str, strip: bool) -> (r: Result<String, Error>)
        ensures
            match r {
                Ok(t) => filter_params(self@, text@, strip) == Ok::<Seq<char>, Fault>(t@),
                Err(e) => filter_params(self@, text@, strip) == Err::<Seq<char>, Fault>(
                    e.fault(),
                ),
            },
    {
        let mut parsed = match WebUrl::parse(text) {
            Ok(u) => u,
            Err(e) => {
                return Err(Error::UrlSyntax(e));
            },
        };
        let fields = parsed.query_pairs();
        let fragments = match parsed.fragment() {
            Some(f) => form_parse_str(f),
            None => form_parse_str(""),
        };
        let fields = retain_unmatched(&fields, &self.rules, &self.referral_marketing, strip);
        let fragments = retain_unmatched(&fragments, &self.rules, &self.referral_marketing, strip);
        assert(active_rules(self.rules@, self.referral_marketing@, strip) == active_model(
            self@,
            strip,
        ));
        let query = serialize_params(&fields);
        let fragment = serialize_params(&fragments);
        match &query {
            Some(q) => parsed.set_query(Some(q.as_str())),
            None => parsed.set_query(None),
        }
        match &fragment {
            Some(f) => parsed.set_fragment(Some(f.as_str())),
            None => parsed.set_fragment(None),
        }
        Ok(parsed.as_str().to_owned())
    }

    /// The rewrite this provider makes of `url`: the resolved target of the
    /// first redirection that fires, else `url` after the raw rules with its
    /// tracked parameters removed.
    pub fn remove_fields_from_url(&self, url: &str, strip_referral_marketing: bool) -> (r: Result<
        String,
        Error,
    >)
        ensures
            match r {
                Ok(t) => rewrite(self@, url@, strip_referral_marketing) == Ok::<Seq<char>, Fault>(
                    t@,
                ),
                Err(e) => rewrite(self@, url@, strip_referral_marketing) == Err::<
                    Seq<char>,
                    Fault,
                >(e.fault()),
            },
    {
        match self.get_redirection(url) {
            Err(e) => {
                return Err(e);
            },
            Ok(Some(target)) => {
                return repeatedly_urldecode(target);
            },
            Ok(None) => {},
        }
        let text = self.apply_raw_rules(url);
        self.filter_url_params(text.as_str(), strip_referral_marketing)
    }
}

} // verus!
