use badgateway::{prepare_request, url_with_params, Auth, Method, RequestSpec};

fn spec(method: Method, body: &str) -> RequestSpec {
    RequestSpec {
        method,
        url: "https://x.test/p".to_string(),
        headers: vec![],
        params: vec![],
        body: body.to_string(),
        auth: Auth::NoAuth,
    }
}

fn lines(ls: &[&str]) -> Vec<String> {
    ls.iter().map(|l| l.to_string()).collect()
}

#[test]
fn query_appended_after_question_mark() {
    assert_eq!(url_with_params("https://x.test/p", &lines(&["a=1", "b=2"])), "https://x.test/p?a=1&b=2");
}

#[test]
fn query_appended_after_ampersand_when_url_has_query() {
    assert_eq!(url_with_params("https://x.test/p?z=0", &lines(&["a=1", "b=2"])), "https://x.test/p?z=0&a=1&b=2");
}

#[test]
fn query_skips_blank_lines_and_lines_without_equals() {
    assert_eq!(url_with_params("http://h", &lines(&["", "  ", "flag", "k=v"])), "http://h?k=v");
    assert_eq!(url_with_params("http://h", &lines(&["", "noeq"])), "http://h");
    assert_eq!(url_with_params("http://h", &Vec::new()), "http://h");
}

#[test]
fn query_is_not_encoded() {
    assert_eq!(url_with_params("http://h", &lines(&["q=a b&c"])), "http://h?q=a b&c");
}

#[test]
fn body_never_sent_without_body_verbs() {
    for m in [Method::GET, Method::HEAD, Method::DELETE, Method::OPTIONS] {
        assert_eq!(prepare_request(&spec(m, "payload")).body, None);
    }
}

#[test]
fn body_sent_exactly_with_body_verbs() {
    for m in [Method::POST, Method::PUT, Method::PATCH] {
        let r = prepare_request(&spec(m, " {\"a\": 1}\n"));
        assert_eq!(r.body, Some(" {\"a\": 1}\n".to_string()));
        assert_eq!(r.method, m);
        assert_eq!(prepare_request(&spec(m, "")).body, None);
    }
}

#[test]
fn headers_split_at_first_colon_and_trimmed() {
    let mut s = spec(Method::GET, "");
    s.headers = lines(&["  X-A :  b:c  ", "no colon here", "Accept:text/html"]);
    let r = prepare_request(&s);
    assert_eq!(
        r.headers,
        vec![
            ("X-A".to_string(), "b:c".to_string()),
            ("Accept".to_string(), "text/html".to_string()),
        ]
    );
}

#[test]
fn bearer_header_comes_first() {
    let mut s = spec(Method::GET, "");
    s.auth = Auth::Bearer { token: "tok".to_string() };
    s.headers = lines(&["Authorization: mine", "Authorization: mine"]);
    let r = prepare_request(&s);
    assert_eq!(
        r.headers,
        vec![
            ("Authorization".to_string(), "Bearer tok".to_string()),
            ("Authorization".to_string(), "mine".to_string()),
            ("Authorization".to_string(), "mine".to_string()),
        ]
    );
}

#[test]
fn basic_header_is_base64_of_credentials() {
    let mut s = spec(Method::GET, "");
    s.auth = Auth::Basic { username: "alice".to_string(), password: "secret".to_string() };
    let r = prepare_request(&s);
    assert_eq!(r.headers, vec![("Authorization".to_string(), "Basic YWxpY2U6c2VjcmV0".to_string())]);
}

#[test]
fn url_gets_query_in_prepared_request() {
    let mut s = spec(Method::GET, "");
    s.params = lines(&["a=1"]);
    assert_eq!(prepare_request(&s).url, "https://x.test/p?a=1");
}
