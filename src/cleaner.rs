//! The cleaning driver: one left-to-right pass over the providers.
use vstd::prelude::*;
use std::borrow::Cow;
use crate::error::{Error, Fault};
use crate::provider::{applies, rewrite, Provider, ProviderModel};
use crate::text::{has_prefix, same_text, starts_with};
use vstd::string::StringExecFns;

verus! {

/// The models of a list of providers.
pub open spec fn provider_views(v: Seq<Provider>) -> Seq<ProviderModel> {
    v.map_values(|p: Provider| p@)
}

/// One pass over `ms` in order, threading the URL through each provider that
/// governs it; the first fault ends the pass.
pub open spec fn clean_pass(ms: Seq<ProviderModel>, url: Seq<char>, strip: bool) -> Result<
    Seq<char>,
    Fault,
>
    decreases ms.len(),
{
    if ms.len() == 0 {
        Ok(url)
    } else {
        match clean_pass(ms.drop_last(), url, strip) {
            Err(f) => Err(f),
            Ok(cur) => if applies(ms.last(), cur) {
                rewrite(ms.last(), cur, strip)
            } else {
                Ok(cur)
            },
        }
    }
}

/// The result of cleaning `url`: `data:` URLs are returned as they are,
/// anything else goes through one pass over the providers.
pub open spec fn cleaned(ms: Seq<ProviderModel>, url: Seq<char>, strip: bool) -> Result<
    Seq<char>,
    Fault,
> {
    if has_prefix(url, "data:"@) {
        Ok(url)
    } else {
        clean_pass(ms, url, strip)
    }
}

/// Whether `m` leaves `url` as it is: it does not govern it, or its rewrite
/// gives back the same text.
pub open spec fn step_keeps(m: ProviderModel, url: Seq<char>, strip: bool) -> bool {
    !applies(m, url) || rewrite(m, url, strip) == Ok::<Seq<char>, Fault>(url)
}

/// Whether no provider of `ms` changes `url`: while nothing changes, each
/// provider sees `url` itself.
pub open spec fn untouched(ms: Seq<ProviderModel>, url: Seq<char>, strip: bool) -> bool {
    forall|i: int| 0 <= i < ms.len() ==> step_keeps(#[trigger] ms[i], url, strip)
}

proof fn lemma_untouched_step(ms: Seq<ProviderModel>, url: Seq<char>, strip: bool, i: int)
    requires
        0 <= i < ms.len(),
    ensures
        untouched(ms.subrange(0, i + 1), url, strip) == (untouched(ms.subrange(0, i), url, strip)
            && step_keeps(ms[i], url, strip)),
{
    let a = ms.subrange(0, i + 1);
    if untouched(a, url, strip) {
        assert(step_keeps(a[i], url, strip));
        assert forall|j: int| 0 <= j < i implies step_keeps(
            #[trigger] ms.subrange(0, i)[j],
            url,
            strip,
        ) by {
            assert(step_keeps(a[j], url, strip));
        }
    }
    if untouched(ms.subrange(0, i), url, strip) && step_keeps(ms[i], url, strip) {
        assert forall|j: int| 0 <= j < i + 1 implies step_keeps(#[trigger] a[j], url, strip) by {
            if j < i {
                assert(step_keeps(ms.subrange(0, i)[j], url, strip));
            }
        }
    }
}

/// A pass in which no provider changes the URL gives it back.
proof fn lemma_untouched_pass(ms: Seq<ProviderModel>, url: Seq<char>, strip: bool)
    requires
        untouched(ms, url, strip),
    ensures
        clean_pass(ms, url, strip) == Ok::<Seq<char>, Fault>(url),
    decreases ms.len(),
{
    if ms.len() > 0 {
        assert(untouched(ms.drop_last(), url, strip)) by {
            assert forall|j: int| 0 <= j < ms.drop_last().len() implies step_keeps(
                #[trigger] ms.drop_last()[j],
                url,
                strip,
            ) by {
                assert(step_keeps(ms[j], url, strip));
            }
        }
        lemma_untouched_pass(ms.drop_last(), url, strip);
        assert(step_keeps(ms[ms.len() - 1], url, strip));
    }
}

/// A fault met part way through the pass is the outcome of the whole pass.
proof fn lemma_fault_persists(ms: Seq<ProviderModel>, j: int, url: Seq<char>, strip: bool)
    requires
        0 <= j <= ms.len(),
        clean_pass(ms.subrange(0, j), url, strip) is Err,
    ensures
        clean_pass(ms, url, strip) == clean_pass(ms.subrange(0, j), url, strip),
    decreases ms.len(),
{
    if j == ms.len() {
        assert(ms.subrange(0, j) =~= ms);
    } else {
        assert(ms.drop_last().subrange(0, j) =~= ms.subrange(0, j));
        lemma_fault_persists(ms.drop_last(), j, url, strip);
    }
}

/// The spans of `s` as a link finder with default options splits it: each
/// span's text, and whether it is a URL.
pub uninterp spec fn link_spans(s: Seq<char>) -> Seq<(Seq<char>, bool)>;

pub open spec fn spans_view(v: Seq<(&str, bool)>) -> Seq<(Seq<char>, bool)> {
    v.map_values(|sp: (&str, bool)| (sp.0@, sp.1))
}

/// The texts of `spans` one after another.
pub open spec fn joined_spans(spans: Seq<(Seq<char>, bool)>) -> Seq<char>
    decreases spans.len(),
{
    if spans.len() == 0 {
        Seq::empty()
    } else {
        joined_spans(spans.drop_last()) + spans.last().0
    }
}

/// Relies on `linkify::LinkFinder::new().spans`: consecutive spans that
/// together make up the whole input, each marked as a URL or not.
#[verifier::external_body]
fn find_spans<'a>(s: &'a str) -> (r: Vec<(&'a str, bool)>)
    ensures
        spans_view(r@) == link_spans(s@),
        joined_spans(spans_view(r@)) == s@,
{
    linkify::LinkFinder::new().spans(s).map(
        |sp| (sp.as_str(), matches!(sp.kind(), Some(linkify::LinkKind::Url))),
    ).collect()
}

/// What becomes of one span: a URL is cleaned, other text is kept.
pub open spec fn span_outcome(ms: Seq<ProviderModel>, strip: bool, sp: (Seq<char>, bool)) -> Result<
    Seq<char>,
    Fault,
> {
    if sp.1 {
        cleaned(ms, sp.0, strip)
    } else {
        Ok(sp.0)
    }
}

pub open spec fn span_outcomes(ms: Seq<ProviderModel>, strip: bool, spans: Seq<(Seq<char>, bool)>) -> Seq<
    Result<Seq<char>, Fault>,
> {
    spans.map_values(|sp: (Seq<char>, bool)| span_outcome(ms, strip, sp))
}

/// The successful outcomes' texts, one after another.
pub open spec fn ok_text(outs: Seq<Result<Seq<char>, Fault>>) -> Seq<char>
    decreases outs.len(),
{
    if outs.len() == 0 {
        Seq::empty()
    } else {
        ok_text(outs.drop_last()) + match outs.last() {
            Ok(t) => t,
            Err(_) => Seq::empty(),
        }
    }
}

/// The faults among the outcomes, in order.
pub open spec fn faults(outs: Seq<Result<Seq<char>, Fault>>) -> Seq<Fault>
    decreases outs.len(),
{
    if outs.len() == 0 {
        Seq::empty()
    } else {
        match outs.last() {
            Ok(_) => faults(outs.drop_last()),
            Err(f) => faults(outs.drop_last()).push(f),
        }
    }
}

pub open spec fn error_faults(es: Seq<Error>) -> Seq<Fault> {
    es.map_values(|e: Error| e.fault())
}

/// Whether a span comes through cleaning uncopied: it is plain text, a
/// `data:` URL, or a URL that no provider changes.
pub open spec fn span_kept(ms: Seq<ProviderModel>, strip: bool, sp: (Seq<char>, bool)) -> bool {
    !sp.1 || has_prefix(sp.0, "data:"@) || untouched(ms, sp.0, strip)
}

pub open spec fn all_kept(ms: Seq<ProviderModel>, strip: bool, spans: Seq<(Seq<char>, bool)>) -> bool {
    forall|i: int| 0 <= i < spans.len() ==> span_kept(ms, strip, #[trigger] spans[i])
}

proof fn lemma_all_kept_step(ms: Seq<ProviderModel>, strip: bool, spans: Seq<(Seq<char>, bool)>, i: int)
    requires
        0 <= i < spans.len(),
    ensures
        all_kept(ms, strip, spans.subrange(0, i + 1)) == (all_kept(ms, strip, spans.subrange(0, i))
            && span_kept(ms, strip, spans[i])),
{
    let a = spans.subrange(0, i + 1);
    if all_kept(ms, strip, a) {
        assert(span_kept(ms, strip, a[i]));
        assert forall|j: int| 0 <= j < i implies span_kept(
            ms,
            strip,
            #[trigger] spans.subrange(0, i)[j],
        ) by {
            assert(span_kept(ms, strip, a[j]));
        }
    }
    if all_kept(ms, strip, spans.subrange(0, i)) && span_kept(ms, strip, spans[i]) {
        assert forall|j: int| 0 <= j < i + 1 implies span_kept(ms, strip, #[trigger] a[j]) by {
            if j < i {
                assert(span_kept(ms, strip, spans.subrange(0, i)[j]));
            }
        }
    }
}

/// Whether each outcome is its span's own text, unchanged and without error.
pub open spec fn all_unchanged(outs: Seq<Result<Seq<char>, Fault>>, spans: Seq<(Seq<char>, bool)>) -> bool {
    forall|i: int| 0 <= i < outs.len() ==> #[trigger] outs[i] == Ok::<Seq<char>, Fault>(spans[i].0)
}

proof fn lemma_all_unchanged_step(
    outs: Seq<Result<Seq<char>, Fault>>,
    spans: Seq<(Seq<char>, bool)>,
    i: int,
)
    requires
        0 <= i < outs.len(),
        outs.len() == spans.len(),
    ensures
        all_unchanged(outs.subrange(0, i + 1), spans.subrange(0, i + 1)) == (all_unchanged(
            outs.subrange(0, i),
            spans.subrange(0, i),
        ) && outs[i] == Ok::<Seq<char>, Fault>(spans[i].0)),
{
    let a = outs.subrange(0, i + 1);
    let b = spans.subrange(0, i + 1);
    if all_unchanged(a, b) {
        assert(a[i] == Ok::<Seq<char>, Fault>(b[i].0));
        assert forall|j: int| 0 <= j < i implies #[trigger] outs.subrange(0, i)[j] == Ok::<
            Seq<char>,
            Fault,
        >(spans.subrange(0, i)[j].0) by {
            assert(a[j] == Ok::<Seq<char>, Fault>(b[j].0));
        }
    }
    if all_unchanged(outs.subrange(0, i), spans.subrange(0, i)) && outs[i] == Ok::<
        Seq<char>,
        Fault,
    >(spans[i].0) {
        assert forall|j: int| 0 <= j < i + 1 implies #[trigger] a[j] == Ok::<Seq<char>, Fault>(
            b[j].0,
        ) by {
            if j < i {
                assert(outs.subrange(0, i)[j] == Ok::<Seq<char>, Fault>(spans.subrange(0, i)[j].0));
            }
        }
    }
}

proof fn lemma_unchanged_without_faults(
    outs: Seq<Result<Seq<char>, Fault>>,
    spans: Seq<(Seq<char>, bool)>,
)
    requires
        outs.len() == spans.len(),
        all_unchanged(outs, spans),
    ensures
        faults(outs).len() == 0,
    decreases outs.len(),
{
    if outs.len() > 0 {
        assert(all_unchanged(outs.drop_last(), spans.drop_last())) by {
            assert forall|j: int| 0 <= j < outs.drop_last().len() implies #[trigger] outs.drop_last()[j]
                == Ok::<Seq<char>, Fault>(spans.drop_last()[j].0) by {
                assert(outs[j] == Ok::<Seq<char>, Fault>(spans[j].0));
            }
        }
        lemma_unchanged_without_faults(outs.drop_last(), spans.drop_last());
        assert(outs[outs.len() - 1] == Ok::<Seq<char>, Fault>(spans[outs.len() - 1].0));
    }
}

/// The cleaning outcome `r` as the proofs see it.
pub open spec fn result_view(r: Result<Cow<'_, str>, Error>) -> Result<Seq<char>, Fault> {
    match r {
        Ok(c) => Ok(c@),
        Err(e) => Err(e.fault()),
    }
}

/// Removes tracking parameters from URLs, following an ordered list of
/// providers. Built once and then only read.
#[derive(Debug)]
pub struct UrlCleaner {
    providers: Vec<Provider>,
    strip_referral_marketing: bool,
}

impl View for UrlCleaner {
    type V = (Seq<ProviderModel>, bool);

    closed spec fn view(&self) -> (Seq<ProviderModel>, bool) {
        (provider_views(self.providers@), self.strip_referral_marketing)
    }
}

fn cow_str<'b>(c: &'b Cow<'_, str>) -> (r: &'b str)
    ensures
        r@ == c@,
{
    match c {
        Cow::Borrowed(b) => b,
        Cow::Owned(o) => o.as_str(),
    }
}

impl UrlCleaner {
    /// A cleaner applying `providers` in their order, keeping referral
    /// parameters.
    pub fn new(providers: Vec<Provider>) -> (r: UrlCleaner)
        ensures
            r@ == (provider_views(providers@), false),
    {
        UrlCleaner { providers, strip_referral_marketing: false }
    }

    /// Sets whether referral and marketing parameters are removed too.
    pub fn strip_referral_marketing(self, value: bool) -> (r: UrlCleaner)
        ensures
            r@ == (self@.0, value),
    {
        UrlCleaner { providers: self.providers, strip_referral_marketing: value }
    }

    /// Whether referral and marketing parameters are removed too.
    pub fn strips_referral_marketing(&self) -> (r: bool)
        ensures
            r == self@.1,
    {
        self.strip_referral_marketing
    }

    /// Cleans a string that is exactly one URL. The input comes back borrowed,
    /// uncopied, exactly when it is a `data:` URL or no provider changed it.
    pub fn clear_single_url<'a>(&self, url: &'a str) -> (r: Result<Cow<'a, str>, Error>)
        ensures
            result_view(r) == cleaned(self@.0, url@, self@.1),
            r matches Ok(Cow::Borrowed(b)) ==> b@ == url@,
            (r matches Ok(Cow::Borrowed(_))) <==> (has_prefix(url@, "data:"@) || untouched(
                self@.0,
                url@,
                self@.1,
            )),
    {
        if starts_with(url, "data:") {
            return Ok(Cow::Borrowed(url));
        }
        let ghost ms = self@.0;
        let strip = self.strip_referral_marketing;
        let mut result: Cow<'a, str> = Cow::Borrowed(url);
        let mut i: usize = 0;
        while i < self.providers.len()
            invariant
                ms == provider_views(self.providers@),
                strip == self@.1,
                !has_prefix(url@, "data:"@),
                i <= ms.len(),
                clean_pass(ms.subrange(0, i as int), url@, strip) == Ok::<Seq<char>, Fault>(
                    result@,
                ),
                result matches Cow::Borrowed(b) ==> b@ == url@,
                (result matches Cow::Borrowed(_)) <==> untouched(
                    ms.subrange(0, i as int),
                    url@,
                    strip,
                ),
            decreases ms.len() - i,
        {
            let p = &self.providers[i];
            proof {
                assert(ms.subrange(0, i as int + 1).drop_last() =~= ms.subrange(0, i as int));
                assert(ms.subrange(0, i as int + 1).last() == p@);
                lemma_untouched_step(ms, url@, strip, i as int);
            }
            let was_borrowed = matches!(result, Cow::Borrowed(_));
            let cur = cow_str(&result);
            if p.match_url(cur) {
                match p.remove_fields_from_url(cur, strip) {
                    Ok(next) => {
                        if !(was_borrowed && same_text(next.as_str(), url)) {
                            result = Cow::Owned(next);
                        }
                    },
                    Err(e) => {
                        proof {
                            lemma_fault_persists(ms, i as int + 1, url@, strip);
                            if untouched(ms, url@, strip) {
                                lemma_untouched_pass(ms, url@, strip);
                            }
                        }
                        return Err(e);
                    },
                }
            }
            i += 1;
        }
        proof {
            assert(ms.subrange(0, ms.len() as int) =~= ms);
        }
        Ok(result)
    }
    /// Cleans every URL that a link finder discovers in `s`, keeping the text
    /// around them. One URL's failure does not stop the others; the failures are
    /// returned together, in order. The input comes back borrowed exactly when
    /// every URL in it comes back borrowed.
    pub fn clear_text<'a>(&self, s: &'a str) -> (r: Result<Cow<'a, str>, Vec<Error>>)
        ensures
            ({
                let outs = span_outcomes(self@.0, self@.1, link_spans(s@));
                match r {
                    Ok(t) => faults(outs).len() == 0 && t@ == ok_text(outs),
                    Err(es) => faults(outs).len() > 0 && error_faults(es@) == faults(outs),
                }
            }),
            r matches Ok(Cow::Borrowed(b)) ==> b@ == s@,
            (r matches Ok(Cow::Borrowed(_))) <==> all_kept(self@.0, self@.1, link_spans(s@)),
    {
        let spans = find_spans(s);
        let ghost sv = spans_view(spans@);
        let ghost outs = span_outcomes(self@.0, self@.1, sv);
        let mut out = String::new();
        let mut errors: Vec<Error> = Vec::new();
        let mut unchanged = true;
        let mut i: usize = 0;
        while i < spans.len()
            invariant
                sv == spans_view(spans@),
                outs == span_outcomes(self@.0, self@.1, sv),
                i <= sv.len(),
                out@ == ok_text(outs.subrange(0, i as int)),
                error_faults(errors@) == faults(outs.subrange(0, i as int)),
                unchanged ==> out@ == joined_spans(sv.subrange(0, i as int)),
                unchanged ==> all_unchanged(outs.subrange(0, i as int), sv.subrange(0, i as int)),
                unchanged <==> all_kept(self@.0, self@.1, sv.subrange(0, i as int)),
            decreases sv.len() - i,
        {
            let sp = spans[i];
            let ghost pre = outs.subrange(0, i as int);
            proof {
                assert(outs.subrange(0, i as int + 1).drop_last() =~= pre);
                assert(sv.subrange(0, i as int + 1).drop_last() =~= sv.subrange(0, i as int));
                assert(sv[i as int] == (sp.0@, sp.1));
                lemma_all_unchanged_step(outs, sv, i as int);
                lemma_all_kept_step(self@.0, self@.1, sv, i as int);
            }
            if sp.1 {
                match self.clear_single_url(sp.0) {
                    Ok(c) => {
                        if let Cow::Owned(_) = &c {
                            unchanged = false;
                        }
                        out.append(cow_str(&c));
                    },
                    Err(e) => {
                        unchanged = false;
                        errors.push(e);
                        proof {
                            assert(error_faults(errors@) =~= error_faults(errors@.drop_last()).push(
                                e.fault(),
                            ));
                        }
                    },
                }
            } else {
                out.append(sp.0);
            }
            i += 1;
        }
        proof {
            assert(outs.subrange(0, sv.len() as int) =~= outs);
            assert(sv.subrange(0, sv.len() as int) =~= sv);
            if unchanged {
                lemma_unchanged_without_faults(outs, sv);
            }
            assert(sv.subrange(0, sv.len() as int) =~= sv);
        }
        if errors.len() > 0 {
            Err(errors)
        } else if unchanged {
            Ok(Cow::Borrowed(s))
        } else {
            Ok(Cow::Owned(out))
        }
    }
}

} // verus!
