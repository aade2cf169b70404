//! Properties of cleaning that hold for every input.
use vstd::prelude::*;
use crate::cleaner::{clean_pass, cleaned};
use crate::decode::{percent_decode_utf8, resolve, with_scheme};
use crate::error::Fault;
use crate::params::{dropped_by, full_match, serialized, survivors};
use crate::provider::{active_model, filter_params};
use crate::pattern::{regex_capture1, regex_find};
use crate::provider::{apply_raw, applies, redirect_from, rewrite, ProviderModel};
use crate::text::has_prefix;
use crate::weburl::{
    form_parse, form_serialize, url_fragment, url_parse, url_query_pairs, url_set_fragment,
    url_set_query, Pairs,
};

verus! {

/// A `data:` URL comes out of cleaning exactly as it went in.
pub proof fn lemma_data_url_unchanged(ms: Seq<ProviderModel>, url: Seq<char>, strip: bool)
    requires
        has_prefix(url, "data:"@),
    ensures
        cleaned(ms, url, strip) == Ok::<Seq<char>, Fault>(url),
{
}

proof fn lemma_pass_without_match(ms: Seq<ProviderModel>, url: Seq<char>, strip: bool)
    requires
        forall|i: int| 0 <= i < ms.len() ==> !applies(#[trigger] ms[i], url),
    ensures
        clean_pass(ms, url, strip) == Ok::<Seq<char>, Fault>(url),
    decreases ms.len(),
{
    if ms.len() > 0 {
        assert forall|i: int| 0 <= i < ms.drop_last().len() implies !applies(
            #[trigger] ms.drop_last()[i],
            url,
        ) by {
            assert(ms.drop_last()[i] == ms[i]);
        }
        lemma_pass_without_match(ms.drop_last(), url, strip);
        assert(!applies(ms[ms.len() - 1], url));
    }
}

/// Cleaning a cleaned URL again gives it back unchanged once no provider
/// governs it.
pub proof fn lemma_clean_again_when_no_provider_applies(
    ms: Seq<ProviderModel>,
    url: Seq<char>,
    out: Seq<char>,
    strip: bool,
)
    requires
        cleaned(ms, url, strip) == Ok::<Seq<char>, Fault>(out),
        forall|i: int| 0 <= i < ms.len() ==> !applies(#[trigger] ms[i], out),
    ensures
        cleaned(ms, out, strip) == Ok::<Seq<char>, Fault>(out),
{
    lemma_pass_without_match(ms, out, strip);
}

/// A pair survives the filter when, for every active rule, the match found
/// in its key (if any) is shorter than the key, as when it covers only a
/// prefix or a suffix.
pub proof fn lemma_partial_match_keeps_pair(pairs: Pairs, rules: Seq<(Seq<char>, bool)>, i: int)
    requires
        0 <= i < pairs.len(),
        forall|j: int|
            0 <= j < rules.len() ==> match #[trigger] regex_find(rules[j].0, rules[j].1, pairs[i].0) {
                Some(m) => m.len() < pairs[i].0.len(),
                None => true,
            },
    ensures
        survivors(pairs, rules).contains(pairs[i]),
    decreases pairs.len(),
{
    let key = pairs[i].0;
    assert(!dropped_by(rules, key)) by {
        if dropped_by(rules, key) {
            let j = choose|j: int| 0 <= j < rules.len() && #[trigger] full_match(rules[j], key);
            assert(match regex_find(rules[j].0, rules[j].1, key) {
                Some(m) => m.len() < key.len(),
                None => true,
            });
        }
    }
    let rest = survivors(pairs.drop_last(), rules);
    if i == pairs.len() - 1 {
        assert(rest.push(pairs.last())[rest.len() as int] == pairs[i]);
    } else {
        assert(pairs.drop_last()[i] == pairs[i]);
        lemma_partial_match_keeps_pair(pairs.drop_last(), rules, i);
        let k = choose|k: int| 0 <= k < rest.len() && rest[k] == pairs[i];
        if !dropped_by(rules, pairs.last().0) {
            assert(rest.push(pairs.last())[k] == pairs[i]);
        }
    }
}

proof fn lemma_decode_layers(layers: Seq<Seq<char>>)
    requires
        layers.len() >= 1,
        percent_decode_utf8(layers[0]) == Some(layers[0]),
        forall|k: int|
            1 <= k < layers.len() ==> percent_decode_utf8(#[trigger] layers[k]) == Some(layers[k - 1])
                && (layers[k - 1] == layers[k] || layers[k - 1].len() < layers[k].len()),
    ensures
        resolve(layers.last()) == Ok::<Seq<char>, Fault>(with_scheme(layers[0])),
    decreases layers.len(),
{
    if layers.len() > 1 {
        let inner = layers.drop_last();
        assert forall|k: int| 1 <= k < inner.len() implies percent_decode_utf8(#[trigger] inner[k])
            == Some(inner[k - 1]) && (inner[k - 1] == inner[k] || inner[k - 1].len()
            < inner[k].len()) by {
            assert(inner[k] == layers[k] && inner[k - 1] == layers[k - 1]);
        }
        lemma_decode_layers(inner);
        let k: int = layers.len() - 1;
        assert(percent_decode_utf8(layers[k]) == Some(layers[k - 1]));
        if layers[k - 1] == layers[k] {
            assert(layers.last() == inner.last());
        }
    }
}

/// A redirection target that was percent-encoded layer upon layer decodes back
/// to the innermost target, behind `http://` exactly when that target does not
/// begin with `http`. `layers[0]` is the target, which holds nothing to decode;
/// each later layer decodes to the one before it, and encoding never shortens.
pub proof fn lemma_layered_redirection_target(
    m: ProviderModel,
    url: Seq<char>,
    strip: bool,
    layers: Seq<Seq<char>>,
)
    requires
        layers.len() >= 1,
        percent_decode_utf8(layers[0]) == Some(layers[0]),
        forall|k: int|
            1 <= k < layers.len() ==> percent_decode_utf8(#[trigger] layers[k]) == Some(layers[k - 1])
                && (layers[k - 1] == layers[k] || layers[k - 1].len() < layers[k].len()),
        redirect_from(m.redirections, url, 0) == Some(Ok::<Seq<char>, Fault>(layers.last())),
    ensures
        has_prefix(layers[0], "http"@) ==> rewrite(m, url, strip) == Ok::<Seq<char>, Fault>(
            layers[0],
        ),
        !has_prefix(layers[0], "http"@) ==> rewrite(m, url, strip) == Ok::<Seq<char>, Fault>(
            "http://"@ + layers[0],
        ),
{
    lemma_decode_layers(layers);
}

/// A parameter list is written as a bare key only when it is a single pair
/// with an empty value; two or more pairs are always form-encoded.
pub proof fn lemma_bare_key_only_for_single_empty_value(pairs: Pairs)
    ensures
        pairs.len() >= 2 ==> serialized(pairs) == Some(form_serialize(pairs)),
        pairs.len() == 1 && pairs[0].1.len() > 0 ==> serialized(pairs) == Some(
            form_serialize(pairs),
        ),
        pairs.len() == 1 && pairs[0].1.len() == 0 && pairs[0].0.len() > 0 ==> serialized(pairs)
            == Some(pairs[0].0),
{
}

/// A provider whose only redirection pattern matches without a capture group
/// makes cleaning fail with that pattern, whatever the URL it governs.
pub proof fn lemma_redirection_without_group_fails(m: ProviderModel, url: Seq<char>, strip: bool)
    requires
        m.redirections.len() == 1,
        regex_capture1(m.redirections[0].0, m.redirections[0].1, url) == Some(
            None::<Seq<char>>,
        ),
        applies(m, url),
        !has_prefix(url, "data:"@),
    ensures
        rewrite(m, url, strip) == Err::<Seq<char>, Fault>(
            Fault::MissingCapture(m.redirections[0].0),
        ),
        cleaned(seq![m], url, strip) == Err::<Seq<char>, Fault>(
            Fault::MissingCapture(m.redirections[0].0),
        ),
{
    let f = Fault::MissingCapture(m.redirections[0].0);
    assert(seq![m].drop_last() =~= Seq::<ProviderModel>::empty());
    assert(seq![m].last() == m);
    assert(clean_pass(Seq::<ProviderModel>::empty(), url, strip) == Ok::<Seq<char>, Fault>(url));
    assert(redirect_from(m.redirections, url, 0) == Some(Err::<Seq<char>, Fault>(f)));
    assert(rewrite(m, url, strip) == Err::<Seq<char>, Fault>(f));
}

/// When the raw rules leave text that is not an absolute URL, cleaning fails
/// with a URL syntax fault instead of returning that text.
pub proof fn lemma_raw_rules_breaking_url_fail(m: ProviderModel, url: Seq<char>, strip: bool)
    requires
        redirect_from(m.redirections, url, 0) is None,
        url_parse(apply_raw(m.raw_rules, url)) is None,
        applies(m, url),
        !has_prefix(url, "data:"@),
    ensures
        cleaned(seq![m], url, strip) == Err::<Seq<char>, Fault>(Fault::UrlSyntax),
{
    assert(seq![m].drop_last() =~= Seq::<ProviderModel>::empty());
    assert(seq![m].last() == m);
    assert(clean_pass(Seq::<ProviderModel>::empty(), url, strip) == Ok::<Seq<char>, Fault>(url));
    assert(rewrite(m, url, strip) == Err::<Seq<char>, Fault>(Fault::UrlSyntax));
}

/// How many times `x` occurs in `pairs`.
pub open spec fn occurrences(pairs: Pairs, x: (Seq<char>, Seq<char>)) -> nat
    decreases pairs.len(),
{
    if pairs.len() == 0 {
        0
    } else {
        occurrences(pairs.drop_last(), x) + if pairs.last() == x {
            1nat
        } else {
            0nat
        }
    }
}

/// A pair whose key no active rule fully matches (any match covers only a
/// part of it) keeps every one of its occurrences through the filter.
pub proof fn lemma_unmatched_pair_keeps_its_count(
    pairs: Pairs,
    rules: Seq<(Seq<char>, bool)>,
    x: (Seq<char>, Seq<char>),
)
    requires
        forall|j: int|
            0 <= j < rules.len() ==> match #[trigger] regex_find(rules[j].0, rules[j].1, x.0) {
                Some(m) => m.len() < x.0.len(),
                None => true,
            },
    ensures
        occurrences(survivors(pairs, rules), x) == occurrences(pairs, x),
    decreases pairs.len(),
{
    assert(!dropped_by(rules, x.0)) by {
        if dropped_by(rules, x.0) {
            let j = choose|j: int| 0 <= j < rules.len() && #[trigger] full_match(rules[j], x.0);
            assert(match regex_find(rules[j].0, rules[j].1, x.0) {
                Some(m) => m.len() < x.0.len(),
                None => true,
            });
        }
    }
    if pairs.len() > 0 {
        lemma_unmatched_pair_keeps_its_count(pairs.drop_last(), rules, x);
        let rest = survivors(pairs.drop_last(), rules);
        if !dropped_by(rules, pairs.last().0) {
            assert(rest.push(pairs.last()).drop_last() =~= rest);
        }
    }
}

/// When the query yields no pairs (as `?&&&&` does), the cleaned URL has no
/// query at all.
pub proof fn lemma_empty_query_is_removed(m: ProviderModel, url: Seq<char>, strip: bool, u: Seq<char>)
    requires
        redirect_from(m.redirections, url, 0) is None,
        url_parse(apply_raw(m.raw_rules, url)) == Some(u),
        url_query_pairs(u).len() == 0,
    ensures
        ({
            let frag_text = match url_fragment(u) {
                Some(f) => f,
                None => ""@,
            };
            rewrite(m, url, strip) == Ok::<Seq<char>, Fault>(
                url_set_fragment(
                    url_set_query(u, None),
                    serialized(survivors(form_parse(frag_text), active_model(m, strip))),
                ),
            )
        }),
{
    assert(survivors(url_query_pairs(u), active_model(m, strip)).len() == 0);
}

/// A fragment that reads as one key with an empty value, a bare anchor that no
/// active rule fully matches, is written back as that key alone.
pub proof fn lemma_bare_anchor_is_kept(
    m: ProviderModel,
    url: Seq<char>,
    strip: bool,
    u: Seq<char>,
    f: Seq<char>,
    key: Seq<char>,
)
    requires
        redirect_from(m.redirections, url, 0) is None,
        url_parse(apply_raw(m.raw_rules, url)) == Some(u),
        url_fragment(u) == Some(f),
        form_parse(f) == seq![(key, Seq::<char>::empty())],
        key.len() > 0,
        !dropped_by(active_model(m, strip), key),
    ensures
        rewrite(m, url, strip) == Ok::<Seq<char>, Fault>(
            url_set_fragment(
                url_set_query(
                    u,
                    serialized(survivors(url_query_pairs(u), active_model(m, strip))),
                ),
                Some(key),
            ),
        ),
{
    let ps = form_parse(f);
    let active = active_model(m, strip);
    assert(ps.drop_last() =~= Seq::<(Seq<char>, Seq<char>)>::empty());
    assert(ps.last() == (key, Seq::<char>::empty()));
    assert(survivors(ps.drop_last(), active) == Seq::<(Seq<char>, Seq<char>)>::empty());
    assert(Seq::<(Seq<char>, Seq<char>)>::empty().push(ps.last()) =~= ps);
    assert(survivors(ps, active) == ps);
}

} // verus!
