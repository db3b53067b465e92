use wink::urls::parse_url;

#[test]
fn parse_url_prepends_scheme() {
    assert_eq!(parse_url("example.com"), "https://example.com");
}

#[test]
fn parse_url_keeps_https() {
    assert_eq!(parse_url("https://example.com"), "https://example.com");
}

#[test]
fn parse_url_keeps_http() {
    assert_eq!(parse_url("http://example.com"), "http://example.com");
}

#[test]
fn parse_url_empty_input() {
    assert_eq!(parse_url(""), "https://");
}

#[test]
fn parse_url_idempotent_samples() {
    let samples = vec![
        "example.com",
        "https://example.com",
        "http://a.b/c?d=e",
        "",
        "http:/almost",
        "HTTPS://caps.example",
    ];
    for s in samples {
        let once = parse_url(s);
        let twice = parse_url(&once);
        assert_eq!(twice, once);
    }
}
