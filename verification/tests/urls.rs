use mamkilover::address::{
    parse_with_default_scheme, starts_with_scheme, with_default_scheme, write_host, ParseError, Url,
};
use mamkilover::form::write_query;

fn url(text: &str) -> Url {
    Url::parse(text).ok().unwrap()
}

fn pairs(list: &[(&str, &str)]) -> Vec<(String, String)> {
    list.iter().map(|(name, value)| (name.to_string(), value.to_string())).collect()
}

#[test]
fn urls_are_normalized() {
    assert_eq!(url("HTTPS://X.com").as_str(), "https://x.com/");
    assert_eq!(url("https://x.com:443/a/../b").as_str(), "https://x.com/b");
    assert_eq!(url("  https://x.com/a b ").as_str(), "https://x.com/a%20b");
    assert_eq!(url("https://bücher.example/").as_str(), "https://xn--bcher-kva.example/");
}

#[test]
fn texts_that_are_no_urls() {
    assert_eq!(Url::parse("x.com").err(), Some(ParseError::RelativeUrlWithoutBase));
    assert_eq!(Url::parse("").err(), Some(ParseError::RelativeUrlWithoutBase));
    assert_eq!(Url::parse("https://").err(), Some(ParseError::EmptyHost));
    assert_eq!(Url::parse("https://x.com:99999/").err(), Some(ParseError::InvalidPort));
    assert_eq!(Url::parse("https://[::g]/").err(), Some(ParseError::InvalidIpv6Address));
    assert_eq!(Url::parse("https://1.2.3.999/").err(), Some(ParseError::InvalidIpv4Address));
    assert_eq!(Url::parse("foo://a b/").err(), Some(ParseError::InvalidDomainCharacter));
    assert_eq!(Url::parse("https://a b/").err(), Some(ParseError::IdnaError));
}

#[test]
fn hosts() {
    assert_eq!(url("https://www.X.com/a").host_str(), Some("www.x.com".to_string()));
    assert_eq!(url("https://[::1]/").host_str(), Some("[::1]".to_string()));
    assert_eq!(url("mailto:a@x.com").host_str(), None);
}

#[test]
fn hosts_are_replaced() {
    let changed = url("https://x.com/a?b=c#d").with_host("i.fixupx.com").unwrap();
    assert_eq!(changed.as_str(), "https://i.fixupx.com/a?b=c#d");
    let changed = url("http://u:p@x.com:8080/").with_host("Y.com").unwrap();
    assert_eq!(changed.as_str(), "http://u:p@y.com:8080/");
}

#[test]
fn invalid_hosts_are_refused() {
    assert!(url("https://x.com/").with_host("").is_none());
    assert!(url("https://x.com/").with_host("a b").is_none());
    assert!(url("https://x.com/").with_host(":80").is_none());
}

#[test]
fn copies_and_outside_values() {
    let x = url("https://x.com");
    assert_eq!(x.copy().as_str(), "https://x.com/");
    assert_eq!(x.outside().as_str(), "https://x.com/");
    assert_eq!(Url::new(x.outside().clone()).as_str(), "https://x.com/");
}

#[test]
fn parts_fit_into_urls() {
    let x = url("https://x.com/?a=b#c");
    assert!(x.can_take_host("i.fixupx.com"));
    assert!(x.can_take_host(&"a".repeat(0x100_0000)));
    assert!(url("https://x.com/").can_take_host(""));
    assert!(x.can_take_query(None));
    assert!(x.can_take_query(Some("a=b")));
}

#[test]
fn hosts_as_they_are_written() {
    let written = |special, host: &str| write_host(special, host);
    for host in ["i.fixupx.com", "fixtiktok.com", "a-1.b2", "x"] {
        assert_eq!(written(true, host), Some(host.to_string()));
        assert_eq!(written(false, host), Some(host.to_string()));
    }
    assert_eq!(written(true, "A.com:80"), Some("a.com".to_string()));
    assert_eq!(written(false, "A.com:80"), Some("A.com".to_string()));
    assert_eq!(written(true, "bücher.example"), Some("xn--bcher-kva.example".to_string()));
    assert_eq!(written(false, "ü"), Some("%C3%BC".to_string()));
    assert_eq!(written(true, "0x7f.1"), Some("127.0.0.1".to_string()));
    assert_eq!(written(true, "[::0:1]"), Some("[::1]".to_string()));
    assert_eq!(written(false, "[::0:1]"), Some("[::1]".to_string()));
    assert_eq!(written(true, "[::1"), None);
    assert_eq!(written(true, ":80"), None);
    assert_eq!(written(false, ":80"), None);
    assert_eq!(written(true, ""), None);
    assert_eq!(written(false, ""), Some(String::new()));
    assert_eq!(written(true, "a b"), None);
    assert_eq!(written(false, "a b"), None);
}

#[test]
fn special_schemes() {
    for scheme in ["http", "https", "ws", "wss", "ftp", "file"] {
        assert!(url(&format!("{}://x.com/", scheme)).has_special_scheme());
    }
    for scheme in ["foo", "httpss", "h"] {
        assert!(!url(&format!("{}://x.com/", scheme)).has_special_scheme());
    }
}

#[test]
fn other_schemes_take_other_hosts() {
    let changed = url("foo://u:p@h:80/p?q#f").with_host("A b").map(|url| url.as_str().to_string());
    assert_eq!(changed, None);
    let changed = url("foo://u:p@h:80/p?q#f").with_host("A").unwrap();
    assert_eq!(changed.as_str(), "foo://u:p@A:80/p?q#f");
    let changed = url("ftp://u:p@h:80/p?q#f").with_host("A").unwrap();
    assert_eq!(changed.as_str(), "ftp://u:p@a:80/p?q#f");
    let changed = url("file://h/p").with_host("localhost").unwrap();
    assert_eq!(changed.as_str(), "file://localhost/p");
    assert_eq!(changed.host_str(), Some("localhost".to_string()));
    assert!(url("foo://h/p").with_host("").unwrap().host_str().is_none());
}

#[test]
fn hosts_that_are_written_and_not_read() {
    let label: String = (0..1000).map(|i| char::from_u32(0x4E00 + 20 * i).unwrap()).collect();
    let long = url(&format!("https://{}/?s=1", label));
    assert!(Url::parse(long.as_str()).is_err());
    assert_eq!(long.query_pairs(), pairs(&[("s", "1")]));
    let changed = long.with_query(Some("t=2"));
    assert_eq!(changed.host_str(), long.host_str());
    assert_eq!(changed.query_pairs(), pairs(&[("t", "2")]));
    let changed = url("https://a/?s=1").with_host(&label).unwrap();
    assert_eq!(changed.query_pairs(), pairs(&[("s", "1")]));
    assert_eq!(changed.host_str(), long.host_str());
}

#[test]
fn queries_are_decoded() {
    assert_eq!(
        url("https://x.com/?a=1&b=two+words&c=%C3%A9&d&=e&&a=2#f=g").query_pairs(),
        pairs(&[
            ("a", "1"),
            ("b", "two words"),
            ("c", "é"),
            ("d", ""),
            ("", "e"),
            ("a", "2"),
        ])
    );
    assert!(url("https://x.com/").query_pairs().is_empty());
    assert!(url("https://x.com/?").query_pairs().is_empty());
}

#[test]
fn queries_are_replaced() {
    let x = url("https://x.com/a?b=c#d");
    assert_eq!(x.with_query(Some("e=f&g")).as_str(), "https://x.com/a?e=f&g#d");
    assert_eq!(x.with_query(Some("")).as_str(), "https://x.com/a?#d");
    assert_eq!(x.with_query(None).as_str(), "https://x.com/a#d");
}

#[test]
fn queries_are_written() {
    assert_eq!(write_query(&Vec::new()), "");
    assert_eq!(write_query(&pairs(&[("a", "1"), ("b c", "é&=")])), "a=1&b+c=%C3%A9%26%3D");
    assert_eq!(write_query(&pairs(&[("", "")])), "=");
}

#[test]
fn written_queries_are_read_back() {
    let list = pairs(&[("", ""), ("a", "b=c&d"), ("ü 😀", "%41+"), ("a", ""), ("", "x")]);
    let query = write_query(&list);
    let changed = url("https://x.com/#f").with_query(Some(&query));
    assert_eq!(changed.query_pairs(), list);
    assert_eq!(changed.host_str(), Some("x.com".to_string()));
}

#[test]
fn query_bytes_that_are_no_text() {
    assert_eq!(
        url("https://x.com/?a=%FF&%zz=%4").query_pairs(),
        pairs(&[("a", "\u{FFFD}"), ("%zz", "%4")])
    );
}

#[test]
fn schemes_at_the_start() {
    for text in ["https://x.com", "a://", "git+ssh://x", " \n http://x", "X-1.y://", "ht\ttp:\r/\n/x"] {
        assert!(starts_with_scheme(text));
    }
    for text in ["", "x.com", "x.com/?u=http://y.com", "://x", "1a://x", "a:/x", "a:", "a b://x", "a\t:/x"] {
        assert!(!starts_with_scheme(text));
    }
}

#[test]
fn missing_schemes_are_filled_in() {
    assert_eq!(with_default_scheme("x.com/a"), "https://x.com/a");
    assert_eq!(with_default_scheme("http://x.com"), "http://x.com");
    assert_eq!(with_default_scheme("mailto:a@x.com"), "https://mailto:a@x.com");
    assert_eq!(
        parse_with_default_scheme("x.com/a").ok().unwrap().as_str(),
        "https://x.com/a"
    );
    assert_eq!(
        parse_with_default_scheme("x.com/?u=http://y.com").ok().unwrap().as_str(),
        "https://x.com/?u=http://y.com"
    );
    assert_eq!(
        parse_with_default_scheme("http://x.com").ok().unwrap().as_str(),
        "http://x.com/"
    );
    assert_eq!(
        parse_with_default_scheme("ht\ttp://x.com").ok().unwrap().as_str(),
        "http://x.com/"
    );
    assert_eq!(with_default_scheme("ht\ttp://x.com"), "ht\ttp://x.com");
    assert_eq!(
        parse_with_default_scheme("x\n.com").ok().unwrap().as_str(),
        "https://x.com/"
    );
    assert_eq!(parse_with_default_scheme("").err(), Some(ParseError::EmptyHost));
    assert_eq!(parse_with_default_scheme("://x").err(), Some(ParseError::EmptyHost));
}

#[test]
fn written_urls_are_read_again() {
    for text in [
        "x.com",
        "http://U:p@x.com:81/a/../b?c d#e f",
        "https://bücher.example/ü?ü#ü",
        "ftp://x.com:21/%7e",
        "ws://X.com/./a",
        "wss://[::0:1]:444",
        "foo://U@x.com:0080?q",
        "git+ssh://ü/ ü#",
    ] {
        let first = parse_with_default_scheme(text).ok().unwrap();
        let again = parse_with_default_scheme(first.as_str()).ok().unwrap();
        assert_eq!(again.as_str(), first.as_str());
        assert_eq!(again.outside(), first.outside());
    }
}
