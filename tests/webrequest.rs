use curl_repeat::cli::{ArgError, Args, HttpMethod};
use curl_repeat::request::{
    normalize_url, parse_tls_version, split_header, BuildError, HttpVersion, TlsVersion, WebClient,
};

fn words(w: &[&str]) -> Vec<String> {
    w.iter().map(|s| s.to_string()).collect()
}

#[test]
fn test_approve_cmd() {
    let args = Args::try_parse_from(&words(&[
        "cmd",
        "localhost",
        "--data", "string-data",
        "-A", "custom/user-agent",
        "-H", "Content-Type: application/json",
        "-H", "Cookie: 123456789",
    ]));

    assert!(args.is_ok());
    if let Ok(a) = args { println!("{:#?}", a) }
}

#[test]
fn test_build() {
    let arg = vec![
            "cmd",
            "localhost",
            "--data", "string-data",
            "-A", "custom/user-agent",
            "-H", "Content-Type: application/json",
            "-H", "Cookie: 123456789",
        ].into_iter()
      .map(String::from)
      .collect::<Vec<String>>();

    let _client = WebClient::build(&arg);
}

#[test]
fn parsed_fields() {
    let a = Args::try_parse_from(&words(&[
        "cmd", "-X", "post", "--tls-max=1.2", "-k", "--http2", "example.com", "-dbody",
        "--header", "A: b",
    ]))
    .unwrap();
    assert_eq!(a.url, "example.com");
    assert_eq!(a.method, HttpMethod::Post);
    assert_eq!(a.tls_max.as_deref(), Some("1.2"));
    assert!(a.insecure && a.http2 && !a.http3);
    assert_eq!(a.data.as_deref(), Some("body"));
    assert_eq!(a.header, vec!["A: b".to_string()]);
    assert_eq!(a.user_agent, None);
}

#[test]
fn default_method_is_get() {
    let a = Args::try_parse_from(&words(&["cmd", "localhost"])).unwrap();
    assert_eq!(a.method, HttpMethod::Get);
    assert!(a.header.is_empty());
}

#[test]
fn refused_command_lines() {
    let e = |w: &[&str]| Args::try_parse_from(&words(w)).unwrap_err();
    assert_eq!(e(&["cmd"]), ArgError::MissingUrl);
    assert_eq!(e(&["cmd", "a", "b"]), ArgError::UnexpectedPositional { index: 2 });
    assert_eq!(e(&["cmd", "a", "--bogus"]), ArgError::UnknownArgument { index: 2 });
    assert_eq!(e(&["cmd", "a", "-d"]), ArgError::MissingValue { index: 2 });
    assert_eq!(e(&["cmd", "a", "-X", "fetch"]), ArgError::InvalidValue { index: 3 });
    assert_eq!(e(&["cmd", "a", "-k", "--insecure"]), ArgError::Repeated { index: 3 });
    assert_eq!(e(&["cmd", "a", "-d", "x", "--data=y"]), ArgError::Repeated { index: 4 });
    assert_eq!(e(&["cmd", "--insecure=yes", "a"]), ArgError::InvalidValue { index: 1 });
    assert_eq!(e(&["cmd", "--help"]), ArgError::HelpRequested);
}

#[test]
fn double_dash_ends_options() {
    let a = Args::try_parse_from(&words(&["cmd", "--", "-weird"])).unwrap();
    assert_eq!(a.url, "-weird");
}

#[test]
fn build_resolves_the_request() {
    let w = WebClient::build(&words(&[
        "cmd", "localhost:8080/x", "-X", "put", "--tlsv1.1", "--tlsv1.3", "--tls-max", "1.3",
        "--http1.1", "-H", "Content-Type:  application/json ", "-A", "ua",
    ]))
    .unwrap();
    assert_eq!(w.url, "http://localhost:8080/x");
    assert_eq!(w.method, HttpMethod::Put);
    assert_eq!(w.min_tls, Some(TlsVersion::Tls13));
    assert_eq!(w.max_tls, Some(TlsVersion::Tls13));
    assert_eq!(w.version, Some(HttpVersion::Http11));
    assert_eq!(w.user_agent.as_deref(), Some("ua"));
    assert_eq!(w.headers, vec![("Content-Type".to_string(), "application/json".to_string())]);
}

#[test]
fn build_errors() {
    let b = |w: &[&str]| WebClient::build(&words(w)).unwrap_err();
    assert_eq!(b(&["cmd", "a", "--tls-max", "2.0"]), BuildError::InvalidTlsMax);
    assert_eq!(b(&["cmd", "a", "-H", "ok: 1", "-H", "broken"]), BuildError::MalformedHeader { index: 1 });
    assert_eq!(b(&["cmd", "http://[::1"]), BuildError::InvalidUrl);
    assert_eq!(b(&["cmd"]), BuildError::Args(ArgError::MissingUrl));
}

#[test]
fn url_gets_a_scheme_when_it_has_none() {
    assert_eq!(normalize_url("example.com"), "http://example.com");
    assert_eq!(normalize_url("https://example.com"), "https://example.com");
}

#[test]
fn tls_versions() {
    assert_eq!(parse_tls_version("1.0"), Some(TlsVersion::Tls10));
    assert_eq!(parse_tls_version("1.3"), Some(TlsVersion::Tls13));
    assert_eq!(parse_tls_version("1.4"), None);
    assert_eq!(parse_tls_version("1.30"), None);
}

#[test]
fn header_split_takes_the_second_field() {
    assert_eq!(
        split_header(" Cookie : 123456789 "),
        Some(("Cookie".to_string(), "123456789".to_string()))
    );
    assert_eq!(
        split_header("Referer: http://x"),
        Some(("Referer".to_string(), "http".to_string()))
    );
    assert_eq!(split_header("no colon"), None);
}
