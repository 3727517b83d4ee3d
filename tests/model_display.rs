use badgateway::text::text_lines;
use badgateway::{format_size, truncate_str, Auth, AuthKind, Method, Response};

#[test]
fn format_size_bytes() {
    assert_eq!(format_size(0), "0 B");
    assert_eq!(format_size(1023), "1023 B");
}

#[test]
fn format_size_kilobytes() {
    assert_eq!(format_size(1024), "1.0 KB");
    assert_eq!(format_size(1536), "1.5 KB");
    assert_eq!(format_size(1280), "1.2 KB");
    assert_eq!(format_size(1792), "1.8 KB");
    assert_eq!(format_size(1024 * 1024 - 1), "1024.0 KB");
}

#[test]
fn format_size_megabytes() {
    assert_eq!(format_size(1024 * 1024), "1.0 MB");
    assert_eq!(format_size(5 * 1024 * 1024 + 512 * 1024), "5.5 MB");
}

#[test]
fn truncate_keeps_short_text() {
    assert_eq!(truncate_str("abc", 3), "abc");
    assert_eq!(truncate_str("", 0), "");
}

#[test]
fn truncate_cuts_long_text() {
    assert_eq!(truncate_str("https://example.com/long", 10), "https:/...");
    assert_eq!(truncate_str("abcd", 2), "...");
}

#[test]
fn method_names_round_trip() {
    for m in Method::all() {
        assert_eq!(Method::from_upper(m.as_str()), m);
    }
    assert_eq!(Method::from_upper("get"), Method::GET);
    assert_eq!(Method::from_upper("PATCH"), Method::PATCH);
    assert_eq!(Method::default(), Method::GET);
}

#[test]
fn body_verbs() {
    assert!(Method::POST.sends_body());
    assert!(!Method::OPTIONS.sends_body());
}

#[test]
fn form_auth_needs_its_field() {
    assert_eq!(Auth::from_form(AuthKind::Bearer, "", "u", "p"), Auth::NoAuth);
    assert_eq!(Auth::from_form(AuthKind::Bearer, "t", "", ""), Auth::Bearer { token: "t".to_string() });
    assert_eq!(Auth::from_form(AuthKind::Basic, "t", "", "p"), Auth::NoAuth);
    assert_eq!(
        Auth::from_form(AuthKind::Basic, "", "u", ""),
        Auth::Basic { username: "u".to_string(), password: String::new() }
    );
    assert_eq!(Auth::from_form(AuthKind::NoAuth, "t", "u", "p"), Auth::NoAuth);
    assert_eq!(AuthKind::Basic.label(), "Basic Auth");
}

#[test]
fn lines_split_like_str_lines() {
    assert_eq!(text_lines("a\r\nb\n\nc\n"), vec!["a", "b", "", "c"]);
    assert!(text_lines("").is_empty());
    assert_eq!(text_lines("x\r"), vec!["x\r"]);
}

#[test]
fn response_size_is_byte_length() {
    let r = Response::new(200, "OK".to_string(), vec![], "é!".to_string(), 5);
    assert_eq!(r.size, 3);
    assert_eq!(r.status, 200);
}

#[test]
fn format_size_largest_count() {
    assert_eq!(format_size(usize::MAX), "17592186044416.0 MB");
}
