use clearurls::{Error, Pattern, PatternSet, Provider, UrlCleaner};

fn p(src: &str) -> Pattern {
    Pattern::new(src).unwrap()
}

fn no_exceptions() -> PatternSet {
    PatternSet::new(vec![], false).unwrap()
}

#[test]
fn test_referral_marketing_setter() {
    let cleaner = UrlCleaner::new(vec![]);
    assert!(!cleaner.strips_referral_marketing());
    let cleaner = cleaner.strip_referral_marketing(true);
    assert!(cleaner.strips_referral_marketing());
}

#[test]
fn test_strip_referral_marketing() {
    let provider = Provider::new(
        p("https://example.com"),
        vec![],
        vec![],
        vec![p("ref")],
        no_exceptions(),
        vec![],
    );
    let res = provider
        .remove_fields_from_url("https://example.com?ref=1", true)
        .unwrap();
    assert_eq!(res.as_str(), "https://example.com/");
}

#[test]
fn test_invalid_redirection() {
    let provider = Provider::new(
        p("^https?://(?:[a-z0-9-]+\\.)*?google(?:\\.[a-z]{2,}){1,}"),
        vec![],
        vec![],
        vec![p("ref")],
        no_exceptions(),
        // this regex is missing a capturing group around the last https...
        vec![p("^https?://(?:[a-z0-9-]+\\.)*?google(?:\\.[a-z]{2,}){1,}/url\\?.*?(?:url|q)=https?[^&]+")],
    );
    let err = provider
        .remove_fields_from_url(
            "https://google.co.uk/url?foo=bar&q=http%3A%2F%2Fexample.com%2Fimage.png&bar=foo",
            false,
        )
        .unwrap_err();
    assert!(matches!(err, Error::RedirectionHasNoCapturingGroup(_)));
    assert_eq!(err.message(), "redirection regex ^https?://(?:[a-z0-9-]+\\.)*?google(?:\\.[a-z]{2,}){1,}/url\\?.*?(?:url|q)=https?[^&]+ has no capture group");
}

#[test]
fn test_invalid_urldecode() {
    let provider = Provider::new(
        p("^https?://(?:[a-z0-9-]+\\.)*?google(?:\\.[a-z]{2,}){1,}"),
        vec![],
        vec![],
        vec![p("ref")],
        no_exceptions(),
        vec![p("^https?://(?:[a-z0-9-]+\\.)*?google(?:\\.[a-z]{2,}){1,}/url\\?.*?(?:url|q)=(https?[^&]+)")],
    );
    // a byte F0 is not valid utf 8
    let err = provider
        .remove_fields_from_url("https://google.co.uk/url?foo=bar&q=http%F0", false)
        .unwrap_err();
    assert!(matches!(err, Error::PercentDecodeUtf8Error(_)));
    assert_eq!(
        err.message(),
        "percent decoding resulted in non-UTF-8 bytes: incomplete utf-8 byte sequence from index 4"
    );
}

#[test]
fn test_raw_rules_unchanged() {
    let provider = Provider::new(
        p("^https?://pantip.com"),
        vec![],
        vec![p("#lead.*")],
        vec![],
        no_exceptions(),
        vec![],
    );
    let res = provider.remove_fields_from_url("https://pantip.com/", false);
    assert_eq!(res.unwrap().as_str(), "https://pantip.com/");
}

#[test]
fn test_raw_rules_produce_invalid_url() {
    let provider = Provider::new(
        p("https://example.com"),
        vec![],
        vec![p("https://")],
        vec![],
        no_exceptions(),
        vec![],
    );
    let err = provider
        .remove_fields_from_url("https://example.com", false)
        .unwrap_err();
    assert!(matches!(err, Error::UrlSyntax(_)));
}

#[test]
fn test_remove_fields_from_url_errors() {
    let cleaner = UrlCleaner::new(vec![Provider::new(
        p(".*"),
        vec![],
        vec![],
        vec![],
        no_exceptions(),
        vec![],
    )]);
    let err = cleaner.clear_single_url("//example.com").unwrap_err();
    assert!(matches!(err, Error::UrlSyntax(_)));
    assert_eq!(err.message(), "error parsing url: relative URL without a base");
}

#[test]
fn raw_rules_delete_in_order() {
    let provider = Provider::new(
        p("^https://pantip\\.com"),
        vec![],
        vec![p("#lead.*"), p("/topic")],
        vec![],
        no_exceptions(),
        vec![],
    );
    let res = provider
        .remove_fields_from_url("https://pantip.com/topic/123#lead=abc", false)
        .unwrap();
    assert_eq!(res, "https://pantip.com/123");
}

#[test]
fn empty_capture_counts_as_missing() {
    let provider = Provider::new(
        p("^https://r\\.example/"),
        vec![],
        vec![],
        vec![],
        no_exceptions(),
        vec![p("^https://r\\.example/\\?u=([a-z]*)")],
    );
    let err = provider
        .remove_fields_from_url("https://r.example/?u=&x=1", false)
        .unwrap_err();
    assert!(matches!(err, Error::RedirectionHasNoCapturingGroup(ref s) if s == "^https://r\\.example/\\?u=([a-z]*)"));
}

#[test]
fn first_matching_redirection_wins() {
    let provider = Provider::new(
        p("^https://r\\.example/"),
        vec![],
        vec![],
        vec![],
        no_exceptions(),
        vec![p("[?&]a=([^&]+)"), p("[?&]b=([^&]+)")],
    );
    let res = provider
        .remove_fields_from_url("https://r.example/?b=one.example&a=two.example", false)
        .unwrap();
    assert_eq!(res, "http://two.example");
}

#[test]
fn layered_encoding_decodes_to_target() {
    let provider = Provider::new(
        p("^https://r\\.example/"),
        vec![],
        vec![],
        vec![],
        no_exceptions(),
        vec![p("\\?u=([^&]+)")],
    );
    // scheme-less target, encoded three times
    let res = provider
        .remove_fields_from_url("https://r.example/?u=example.com%25252Fa%25253Fb%25253D1", false)
        .unwrap();
    assert_eq!(res, "http://example.com/a?b=1");
    // target with a scheme, encoded twice
    let res = provider
        .remove_fields_from_url("https://r.example/?u=https%253A%252F%252Fexample.com%252F", false)
        .unwrap();
    assert_eq!(res, "https://example.com/");
    // target with a scheme and nothing to decode
    let res = provider
        .remove_fields_from_url("https://r.example/?u=http://x.example/", false)
        .unwrap();
    assert_eq!(res, "http://x.example/");
}

#[test]
fn partial_key_matches_do_not_remove() {
    let provider = Provider::new(
        p(".*"),
        vec![p("utm"), p("source"), p("id")],
        vec![],
        vec![],
        no_exceptions(),
        vec![],
    );
    let res = provider
        .remove_fields_from_url("https://example.com/?utm_source=1&id=2&xid=3#source_x=4&id=5", false)
        .unwrap();
    assert_eq!(res, "https://example.com/?utm_source=1&xid=3#source_x=4");
}

#[test]
fn bare_key_only_for_one_empty_value() {
    let provider = Provider::new(p(".*"), vec![p("drop")], vec![], vec![], no_exceptions(), vec![]);
    let clean = |u: &str| provider.remove_fields_from_url(u, false).unwrap();
    assert_eq!(clean("https://example.com/#anchor"), "https://example.com/#anchor");
    assert_eq!(clean("https://example.com/?flag=&drop=1"), "https://example.com/?flag");
    assert_eq!(clean("https://example.com/?a=&b="), "https://example.com/?a=&b=");
    assert_eq!(clean("https://example.com/?a=1"), "https://example.com/?a=1");
    assert_eq!(clean("https://example.com/?a=x%20y&b=%26"), "https://example.com/?a=x+y&b=%26");
    assert_eq!(clean("https://example.com/?drop=1#drop"), "https://example.com/");
}

#[test]
fn exceptions_and_void_link_disable_provider() {
    let provider = Provider::new(
        p(".*"),
        vec![p("utm_source")],
        vec![],
        vec![],
        PatternSet::new(vec!["^https://keep\\.example".to_string(), "nope".to_string()], false).unwrap(),
        vec![],
    );
    assert!(provider.match_url("https://other.example/?utm_source=1"));
    assert!(!provider.match_url("https://keep.example/?utm_source=1"));
    assert!(!provider.match_url("javascript:void(0)"));
    assert!(provider.match_url("javascript:void(1)"));
}
