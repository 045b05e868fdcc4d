use evo_kiosk::nav_policy::{
    allowed_origin_of, decide_navigation, is_blocked, origin_of, PolicyRequest, UrlParts,
};
use evo_kiosk::{navigation_allowed, parse_allowed_origin};

fn parts(scheme: &str, host: Option<&str>, port: Option<u16>) -> UrlParts {
    UrlParts {
        scheme: scheme.to_string(),
        host: host.map(str::to_string),
        port,
    }
}

#[test]
fn parse_allowed_origin_defaults_port_80() {
    assert_eq!(
        parse_allowed_origin("http://127.0.0.1/").as_deref(),
        Some("http://127.0.0.1:80")
    );
}

#[test]
fn parse_allowed_origin_defaults_port_443() {
    assert_eq!(
        parse_allowed_origin("https://kiosk.local/").as_deref(),
        Some("https://kiosk.local:443")
    );
}

#[test]
fn parse_allowed_origin_preserves_explicit_port() {
    assert_eq!(
        parse_allowed_origin("http://127.0.0.1:8443/ui/").as_deref(),
        Some("http://127.0.0.1:8443")
    );
}

#[test]
fn parse_allowed_origin_refuses_non_http() {
    assert_eq!(parse_allowed_origin("file:///opt/ui/index.html"), None);
    assert_eq!(parse_allowed_origin("data:text/html,<h1>x</h1>"), None);
    assert_eq!(parse_allowed_origin("about:blank"), None);
}

#[test]
fn navigation_allowed_matches_same_origin_default_port() {
    let allowed = parse_allowed_origin("http://127.0.0.1/");
    assert!(navigation_allowed(
        "http://127.0.0.1/library",
        allowed.as_deref()
    ));
    assert!(navigation_allowed(
        "http://127.0.0.1:80/queue",
        allowed.as_deref()
    ));
}

#[test]
fn navigation_allowed_refuses_other_host() {
    let allowed = parse_allowed_origin("http://127.0.0.1/");
    assert!(!navigation_allowed(
        "http://192.0.2.10/library",
        allowed.as_deref()
    ));
}

#[test]
fn navigation_allowed_refuses_other_port() {
    let allowed = parse_allowed_origin("http://127.0.0.1/");
    assert!(!navigation_allowed(
        "http://127.0.0.1:8443/library",
        allowed.as_deref()
    ));
}

#[test]
fn navigation_allowed_refuses_other_scheme() {
    let allowed = parse_allowed_origin("http://127.0.0.1/");
    assert!(!navigation_allowed(
        "https://127.0.0.1/library",
        allowed.as_deref()
    ));
}

#[test]
fn navigation_allowed_about_blank_always_passes() {
    let allowed = parse_allowed_origin("http://127.0.0.1/");
    assert!(navigation_allowed("about:blank", allowed.as_deref()));
    assert!(navigation_allowed("about:blank", None));
}

#[test]
fn navigation_allowed_refuses_data_urls() {
    let allowed = parse_allowed_origin("http://127.0.0.1/");
    assert!(!navigation_allowed(
        "data:text/html,<h1>x</h1>",
        allowed.as_deref()
    ));
    assert!(!navigation_allowed(
        "data:text/html,<script>alert(1)</script>",
        allowed.as_deref()
    ));
    assert!(!navigation_allowed("data:text/html,<h1>x</h1>", None));
}

#[test]
fn navigation_allowed_refuses_non_blank_about_forms() {
    let allowed = parse_allowed_origin("http://127.0.0.1/");
    assert!(!navigation_allowed("about:crash", allowed.as_deref()));
    assert!(!navigation_allowed("about:config", allowed.as_deref()));
    assert!(!navigation_allowed("about:memory", allowed.as_deref()));
    assert!(!navigation_allowed("about:blank#x", allowed.as_deref()));
    assert!(!navigation_allowed("about:blank?y=1", allowed.as_deref()));
}

#[test]
fn navigation_allowed_refuses_when_no_origin_configured() {
    assert!(!navigation_allowed("http://127.0.0.1/", None));
    assert!(!navigation_allowed("https://example.com/", None));
    assert!(!navigation_allowed("data:text/html,x", None));
    assert!(!navigation_allowed("about:crash", None));
}

#[test]
fn navigation_allowed_refuses_malformed_url() {
    let allowed = parse_allowed_origin("http://127.0.0.1/");
    assert!(!navigation_allowed("not a url", allowed.as_deref()));
    assert!(!navigation_allowed("http://", allowed.as_deref()));
}

#[test]
fn origins_come_from_the_parsed_url_not_from_its_text() {
    assert_eq!(
        parse_allowed_origin("  HTTPS://Kiosk.LOCAL:443/a?b#c").as_deref(),
        Some("https://kiosk.local:443")
    );
    assert_eq!(
        parse_allowed_origin("http://user:pw@[::1]:8080/").as_deref(),
        Some("http://[::1]:8080")
    );
    let allowed = parse_allowed_origin("http://127.0.0.1/");
    assert!(navigation_allowed("HTTP://127.0.0.1", allowed.as_deref()));
    assert!(!navigation_allowed("DATA:text/html,x", allowed.as_deref()));
    assert!(!navigation_allowed("ftp://127.0.0.1:80/", allowed.as_deref()));
    assert!(!navigation_allowed("file:///etc/hosts", allowed.as_deref()));
}

#[test]
fn origin_of_writes_the_port_out() {
    let http = parts("http", Some("h"), None);
    assert_eq!(origin_of(&http).as_deref(), Some("http://h:80"));
    let https = parts("https", Some("h"), None);
    assert_eq!(origin_of(&https).as_deref(), Some("https://h:443"));
    let other = parts("ftp", Some("h"), Some(65535));
    assert_eq!(origin_of(&other).as_deref(), Some("ftp://h:65535"));
    assert_eq!(origin_of(&parts("data", None, None)), None);
}

#[test]
fn only_web_urls_have_an_allowed_origin() {
    assert_eq!(
        allowed_origin_of(&parts("https", Some("h"), Some(8443))).as_deref(),
        Some("https://h:8443")
    );
    assert_eq!(allowed_origin_of(&parts("ftp", Some("h"), None)), None);
    assert_eq!(allowed_origin_of(&parts("http", None, None)), None);
}

#[test]
fn decide_navigation_looks_at_the_given_parts() {
    let url = parts("http", Some("h"), None);
    assert!(decide_navigation("x", Some(&url), Some("http://h:80")));
    assert!(!decide_navigation("x", Some(&url), Some("http://h:81")));
    assert!(!decide_navigation("x", Some(&url), None));
    assert!(!decide_navigation("x", None, Some("http://h:80")));
    assert!(!decide_navigation("data:x", Some(&url), Some("http://h:80")));
    assert!(!decide_navigation("about:x", Some(&url), Some("http://h:80")));
    assert!(decide_navigation("about:blank", None, None));
    let hostless = parts("http", None, None);
    assert!(!decide_navigation("x", Some(&hostless), Some("http://h:80")));
}

#[test]
fn new_windows_are_blocked_and_other_requests_are_not() {
    let allowed = parse_allowed_origin("http://127.0.0.1/");
    let allowed = allowed.as_deref();
    assert!(is_blocked(&PolicyRequest::NewWindow, allowed));
    assert!(!is_blocked(&PolicyRequest::Other, allowed));
    let inside = PolicyRequest::Navigation {
        target: Some("http://127.0.0.1/queue".to_string()),
    };
    assert!(!is_blocked(&inside, allowed));
    let outside = PolicyRequest::Navigation {
        target: Some("http://example.com/".to_string()),
    };
    assert!(is_blocked(&outside, allowed));
    assert!(is_blocked(
        &PolicyRequest::Navigation { target: None },
        allowed
    ));
}

#[test]
fn exactly_about_blank_and_the_same_allowed_origin_pass() {
    let texts = [
        "about:blank",
        "about:config",
        "data:text/html,x",
        "http://127.0.0.1/",
        "http://127.0.0.1:80/a?b#c",
        "http://127.0.0.1:8080/",
        "https://127.0.0.1/",
        "https://127.0.0.1:443/x",
        "http://user@127.0.0.1/",
        "http://[::1]/",
        "ftp://127.0.0.1:80/",
        "file:///etc",
        "nonsense",
        "",
    ];
    for u in texts {
        let allowed = parse_allowed_origin(u);
        for t in texts {
            let want =
                t == "about:blank" || (allowed.is_some() && parse_allowed_origin(t) == allowed);
            assert_eq!(
                navigation_allowed(t, allowed.as_deref()),
                want,
                "{t} under {u}"
            );
        }
    }
}

#[test]
fn an_origin_is_its_own_origin() {
    for u in [
        "http://127.0.0.1/",
        "https://Kiosk.LOCAL:8443/a/b?c#d",
        "http://user:pw@h:0/",
        "http://[1:0:0:2::3]:81/x",
        "http://0x7f.1/",
        "http://a_b..c./",
        "http://-a--b!$~.x/",
        "http://a-xn--b.axn--c/",
        "http://b\u{fc}cher.example/",
    ] {
        let origin = parse_allowed_origin(u).unwrap();
        assert_eq!(
            parse_allowed_origin(&origin).as_deref(),
            Some(origin.as_str()),
            "{u}"
        );
        let rest = origin.split_once("://").unwrap().1;
        assert!(!rest.contains(['/', '\\', '?', '#', '@']), "{u}");
    }
}

#[test]
fn a_very_long_encoded_label_does_not_read_back() {
    // A thousand ideographs far apart take more than 2000 characters to
    // encode, and the parser decodes no label of that length.
    let label: String = (0..1000u32)
        .map(|i| char::from_u32(0x4e00 + (i * 389 % 1000) * 20).unwrap())
        .collect();
    let origin = parse_allowed_origin(&format!("http://{label}/")).unwrap();
    assert!(origin.contains("xn--"));
    assert!(origin.len() > 2000);
    assert_eq!(parse_allowed_origin(&origin), None);
}
