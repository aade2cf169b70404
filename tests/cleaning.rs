use clearurls::{Error, Pattern, PatternSet, Provider, UrlCleaner};

fn ci(src: &str) -> Pattern {
    Pattern::case_insensitive(src).unwrap()
}

fn cis(srcs: &[&str]) -> Vec<Pattern> {
    srcs.iter().map(|s| ci(s)).collect()
}

fn set(srcs: &[&str]) -> PatternSet {
    PatternSet::new(srcs.iter().map(|s| s.to_string()).collect(), true).unwrap()
}

/// A small rule corpus covering the sites that the tests below visit.
fn sample_cleaner() -> UrlCleaner {
    let global = Provider::new(
        ci(".*"),
        cis(&[
            "(?:%3F)?utm(?:_[a-z_]*)?",
            "(?:%3F)?ga_[a-z_]+",
            "(?:%3F)?yclid",
            "(?:%3F)?_openstat",
            "(?:%3F)?fb_action_(?:types|ids)",
            "(?:%3F)?fb_(?:source|ref)",
            "(?:%3F)?fbclid",
            "(?:%3F)?gclid",
            "(?:%3F)?mkt_tok",
        ]),
        vec![],
        cis(&["(?:%3F)?ref"]),
        set(&["^https?:\\/\\/myaccount\\.google(?:\\.[a-z]{2,}){1,}"]),
        vec![],
    );
    let google = Provider::new(
        ci("^https?:\\/\\/(?:[a-z0-9-]+\\.)*?google(?:\\.[a-z]{2,}){1,}"),
        cis(&["ved", "bi[a-z]*", "gfe_[a-z]*", "ei", "source", "gs_[a-z]*", "oq", "esrc", "uact"]),
        vec![],
        vec![],
        set(&[]),
        cis(&[
            "^https?:\\/\\/(?:[a-z0-9-]+\\.)*?google(?:\\.[a-z]{2,}){1,}\\/url\\?.*?(?:url|q)=(https?[^&]+)",
            "^https?:\\/\\/(?:[a-z0-9-]+\\.)*?google(?:\\.[a-z]{2,}){1,}\\/.*?adurl=([^&]+)",
            "^https?:\\/\\/(?:[a-z0-9-]+\\.)*?google(?:\\.[a-z]{2,}){1,}\\/amp\\/s\\/([^&]+)",
        ]),
    );
    let amazon = Provider::new(
        ci("^https?:\\/\\/(?:[a-z0-9-]+\\.)*?amazon(?:\\.[a-z]{2,}){1,}"),
        cis(&["p[df]_rd_[a-z]*", "algo(?:rithm)?", "content-id", "qid", "srs?", "ref_?", "tag"]),
        cis(&["\\/ref=[^\\/?]*"]),
        vec![],
        set(&[]),
        vec![],
    );
    UrlCleaner::new(vec![google, amazon, global])
}

#[test]
fn test_single_url() {
    let cleaner = sample_cleaner();

    let test = |original: &str, expected: &str| {
        let result = cleaner.clear_single_url(original).unwrap().into_owned();
        assert_eq!(result, expected);
    };

    test(
        "https://deezer.com/track/891177062?utm_source=deezer",
        "https://deezer.com/track/891177062",
    );

    // double url encoded parameter
    test(
        "https://www.google.com/url?q=https%253A%252F%252Fpypi.org%252Fproject%252FUnalix",
        "https://pypi.org/project/Unalix",
    );

    test(
        "https://www.google.com/amp/s/de.statista.com/infografik/amp/22496/anzahl-der-gesamten-positiven-corona-tests-und-positivenrate/",
        "http://de.statista.com/infografik/amp/22496/anzahl-der-gesamten-positiven-corona-tests-und-positivenrate/",
    );

    test(
        "https://www.amazon.com/gp/B08CH7RHDP/ref=as_li_ss_tl",
        "https://www.amazon.com/gp/B08CH7RHDP",
    );

    test(
        "https://myaccount.google.com/?utm_source=google",
        "https://myaccount.google.com/?utm_source=google",
    );

    test("http://example.com/?p1=&p2=", "http://example.com/?p1=&p2=");

    test(
        "http://example.com/?p1=value&p1=othervalue",
        "http://example.com/?p1=value&p1=othervalue",
    );

    test("http://example.com/?&&&&", "http://example.com/");

    test(
        "https://docs.julialang.org/en/v1/stdlib/REPL/#Key-bindings",
        "https://docs.julialang.org/en/v1/stdlib/REPL/#Key-bindings",
    );

    test(
        "https://www.amazon.com/Kobo-Glare-Free-Touchscreen-ComfortLight-Adjustable/dp/B0BCXLQNCC/ref=pd_ci_mcx_mh_mcx_views_0?pd_rd_w=Dx5dF&content-id=amzn1.sym.225b4624-972d-4629-9040-f1bf9923dd95%3Aamzn1.symc.40e6a10e-cbc4-4fa5-81e3-4435ff64d03b&pf_rd_p=225b4624-972d-4629-9040-f1bf9923dd95&pf_rd_r=A7JSDJGYR33BN5GRCV7V&pd_rd_wg=xW6Yf&pd_rd_r=4b8a3532-9e28-4857-a929-5e572d2c765f&pd_rd_i=B0BCXLQNCC",
        "https://www.amazon.com/Kobo-Glare-Free-Touchscreen-ComfortLight-Adjustable/dp/B0BCXLQNCC",
    );

    // should not be changed
    test(
        "https://papers.ssrn.com/sol3/papers.cfm?abstract_id=1144182",
        "https://papers.ssrn.com/sol3/papers.cfm?abstract_id=1144182",
    );
    test("javascript:void(0)", "javascript:void(0)");
    test("data:,Hello%2C%20World%21", "data:,Hello%2C%20World%21");
    test(
        "data:text/plain;base64,SGVsbG8sIFdvcmxkIQ==",
        "data:text/plain;base64,SGVsbG8sIFdvcmxkIQ==",
    );
}

#[test]
fn test_linkify() {
    let cleaner = sample_cleaner();

    let test = |msg: &str, input: &str, expected: &str| {
        let result = cleaner
            .clear_text(input)
            .unwrap_or_else(|e| panic!("error in test {msg}: {}", e.len()));

        assert_eq!(
            result, expected,
            "Testing {msg}, with original input '{input}'"
        );
    };

    test(
        "0 links",
        "This is a markdown text.",
        "This is a markdown text.",
    );

    test(
        "2 links",
        "This is a [markdown link](http://example.com/?&&&&), and another: http://example.com?utm_source=1",
        "This is a [markdown link](http://example.com/), and another: http://example.com/",
    );

    let err = cleaner.clear_text("This is a [markdown link](http://example.com/?&&&&), and another: https://google.co.uk/url?foo=bar&q=http%F0");
    assert!(matches!(
        err.unwrap_err()[..],
        [Error::PercentDecodeUtf8Error(_)]
    ));
}

#[test]
fn data_urls_pass_through_untouched() {
    let cleaner = sample_cleaner();
    let url = "data:text/html,<a href=\"x?utm_source=1\">x</a>#utm_medium=2";
    let r = cleaner.clear_single_url(url).unwrap();
    assert!(matches!(r, std::borrow::Cow::Borrowed(_)));
    assert_eq!(r, url);
}

#[test]
fn cleaning_a_cleaned_url_again_changes_nothing() {
    let cleaner = sample_cleaner();
    for url in [
        "https://deezer.com/track/891177062?utm_source=deezer",
        "https://www.google.com/url?q=https%253A%252F%252Fpypi.org%252Fproject%252FUnalix",
        "http://example.com/?p1=&p2=&utm_medium=x#a=1&fbclid=2",
    ] {
        let once = cleaner.clear_single_url(url).unwrap().into_owned();
        let twice = cleaner.clear_single_url(&once).unwrap().into_owned();
        assert_eq!(once, twice);
    }
}

#[test]
fn unmatched_url_comes_back_borrowed() {
    let cleaner = UrlCleaner::new(vec![Provider::new(
        ci("^https://example\\.org"),
        cis(&["utm_source"]),
        vec![],
        vec![],
        set(&[]),
        vec![],
    )]);
    let url = "https://example.com/?utm_source=1";
    let r = cleaner.clear_single_url(url).unwrap();
    assert!(matches!(r, std::borrow::Cow::Borrowed(_)));
    assert_eq!(r, url);
}

#[test]
fn providers_apply_in_order_in_one_pass() {
    // the first provider rewrites into a shape that only it would clean
    let first = Provider::new(
        ci("^https://a\\.example/"),
        cis(&["x"]),
        vec![],
        vec![],
        set(&[]),
        cis(&["^https://b\\.example/go\\?to=(.+)$"]),
    );
    let second = Provider::new(
        ci("^https://b\\.example/"),
        vec![],
        vec![],
        vec![],
        set(&[]),
        cis(&["^https://b\\.example/go\\?to=(.+)$"]),
    );
    let cleaner = UrlCleaner::new(vec![first, second]);
    let r = cleaner
        .clear_single_url("https://b.example/go?to=https%3A%2F%2Fa.example%2F%3Fx%3D1")
        .unwrap();
    assert_eq!(r, "https://a.example/?x=1");
}

#[test]
fn text_without_links_is_borrowed() {
    let cleaner = sample_cleaner();
    let r = cleaner.clear_text("nothing to see here").unwrap();
    assert!(matches!(r, std::borrow::Cow::Borrowed(_)));
}

#[test]
fn text_collects_every_failure_in_order() {
    let cleaner = sample_cleaner();
    let errs = cleaner
        .clear_text("one https://google.co.uk/url?q=http%F0 two https://google.co.uk/url?q=http%C3 three")
        .unwrap_err();
    assert_eq!(errs.len(), 2);
    assert!(errs.iter().all(|e| matches!(e, Error::PercentDecodeUtf8Error(_))));
}

#[test]
fn referral_rules_apply_only_when_enabled() {
    let url = "https://example.com/?ref=abc&id=3";
    let keep = sample_cleaner();
    assert_eq!(keep.clear_single_url(url).unwrap(), "https://example.com/?ref=abc&id=3");
    let strip = sample_cleaner().strip_referral_marketing(true);
    assert_eq!(strip.clear_single_url(url).unwrap(), "https://example.com/?id=3");
}

#[test]
fn rewrite_to_same_text_stays_borrowed() {
    let cleaner = sample_cleaner();
    for url in [
        "https://papers.ssrn.com/sol3/papers.cfm?abstract_id=1144182",
        "http://example.com/?p1=&p2=",
        "https://docs.julialang.org/en/v1/stdlib/REPL/#Key-bindings",
    ] {
        let r = cleaner.clear_single_url(url).unwrap();
        assert!(matches!(r, std::borrow::Cow::Borrowed(_)), "{url}");
        assert_eq!(r, url);
    }
    let r = cleaner.clear_single_url("http://example.com/?&&&&").unwrap();
    assert!(matches!(r, std::borrow::Cow::Owned(_)));
}

#[test]
fn text_is_borrowed_only_when_every_url_keeps_its_text() {
    let cleaner = sample_cleaner();
    let s = "see http://example.com/?p1=&p2= and https://papers.ssrn.com/x?abstract_id=1";
    let r = cleaner.clear_text(s).unwrap();
    assert!(matches!(r, std::borrow::Cow::Borrowed(_)));
    assert_eq!(r, s);
    let r = cleaner
        .clear_text("see http://example.com/?p1=&p2= and http://example.com/?utm_source=x")
        .unwrap();
    assert!(matches!(r, std::borrow::Cow::Owned(_)));
    assert_eq!(r, "see http://example.com/?p1=&p2= and http://example.com/");
}
