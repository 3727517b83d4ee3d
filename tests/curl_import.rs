use badgateway::{parse_curl, Auth, Method, RequestSpec};

#[test]
fn import_rejects_text_that_is_not_curl() {
    assert!(parse_curl("not a curl command").is_none());
}

#[test]
fn import_bearer_post_with_body() {
    let p = parse_curl(
        "curl -X POST https://api.example.com/x -H \"Authorization: Bearer abc123\" -d '{\"a\":1}'",
    )
    .unwrap();
    assert_eq!(p.method, Method::POST);
    assert_eq!(p.url, "https://api.example.com/x");
    assert_eq!(p.auth, Some(Auth::Bearer { token: "abc123".to_string() }));
    assert_eq!(p.body, "{\"a\":1}");
    assert!(p.headers.is_empty());
}

#[test]
fn import_user_gives_basic_auth() {
    let p = parse_curl("curl -u alice:secret https://x.test").unwrap();
    assert_eq!(
        p.auth,
        Some(Auth::Basic { username: "alice".to_string(), password: "secret".to_string() })
    );
    assert_eq!(p.method, Method::GET);
    assert_eq!(p.url, "https://x.test");
}

#[test]
fn import_data_promotes_get_to_post() {
    let p = parse_curl("curl https://x.test -d foo=bar").unwrap();
    assert_eq!(p.method, Method::POST);
    assert_eq!(p.body, "foo=bar");
}

#[test]
fn import_data_keeps_explicit_verb() {
    let p = parse_curl("curl -X PUT https://x.test --data-raw abc").unwrap();
    assert_eq!(p.method, Method::PUT);
    assert_eq!(p.body, "abc");
}

#[test]
fn import_without_url_gives_nothing() {
    assert!(parse_curl("curl -X POST -d x").is_none());
    assert!(parse_curl("curl").is_none());
}

#[test]
fn import_leading_space_is_trimmed() {
    let p = parse_curl("   curl https://a.test  \n").unwrap();
    assert_eq!(p.url, "https://a.test");
}

#[test]
fn import_last_url_wins() {
    let p = parse_curl("curl http://first.test https://second.test").unwrap();
    assert_eq!(p.url, "https://second.test");
}

#[test]
fn import_verb_is_case_insensitive() {
    let p = parse_curl("curl --request delete https://x.test").unwrap();
    assert_eq!(p.method, Method::DELETE);
}

#[test]
fn import_unknown_verb_falls_back_to_get() {
    let p = parse_curl("curl -X FETCH https://x.test").unwrap();
    assert_eq!(p.method, Method::GET);
}

#[test]
fn import_plain_headers_kept_in_order() {
    let p = parse_curl("curl https://x.test -H 'Accept: text/plain' --header \"X-A: 1\"").unwrap();
    assert_eq!(p.headers, vec!["Accept: text/plain".to_string(), "X-A: 1".to_string()]);
    assert_eq!(p.auth, None);
}

#[test]
fn import_basic_header_is_decoded() {
    let p = parse_curl("curl https://x.test -H 'authorization: basic YWxpY2U6c2VjcmV0'").unwrap();
    assert_eq!(
        p.auth,
        Some(Auth::Basic { username: "alice".to_string(), password: "secret".to_string() })
    );
    assert!(p.headers.is_empty());
}

#[test]
fn import_basic_header_splits_at_first_colon() {
    let p = parse_curl("curl https://x.test -H 'Authorization: Basic Ym9iOnB3Ong='").unwrap();
    assert_eq!(
        p.auth,
        Some(Auth::Basic { username: "bob".to_string(), password: "pw:x".to_string() })
    );
}

#[test]
fn import_undecodable_basic_header_is_dropped() {
    let p = parse_curl("curl https://x.test -H 'Authorization: Basic !!!'").unwrap();
    assert_eq!(p.auth, None);
    assert!(p.headers.is_empty());
}

#[test]
fn import_other_authorization_scheme_is_kept_as_header() {
    let p = parse_curl("curl https://x.test -H 'Authorization: Digest xyz'").unwrap();
    assert_eq!(p.auth, None);
    assert_eq!(p.headers, vec!["Authorization: Digest xyz".to_string()]);
}

#[test]
fn import_user_without_colon_sets_no_auth() {
    let p = parse_curl("curl -u alice https://x.test").unwrap();
    assert_eq!(p.auth, None);
}

#[test]
fn import_drops_backslashes_outside_quotes() {
    let p = parse_curl("curl https://x.test \\\n -d a\\b 'c\\d'").unwrap();
    assert_eq!(p.body, "ab");
    let q = parse_curl("curl https://x.test -d 'c\\d'").unwrap();
    assert_eq!(q.body, "c\\d");
}

#[test]
fn import_quotes_join_into_one_word() {
    let p = parse_curl("curl https://x.test -d ab\"c d\"'e'").unwrap();
    assert_eq!(p.body, "abc de");
}

#[test]
fn import_flag_without_value_is_ignored() {
    let p = parse_curl("curl https://x.test -X").unwrap();
    assert_eq!(p.method, Method::GET);
}

#[test]
fn import_merges_only_given_fields() {
    let mut spec = RequestSpec {
        method: Method::GET,
        url: "https://old.test".to_string(),
        headers: vec!["Content-Type: application/json".to_string()],
        params: vec!["a=1".to_string()],
        body: "old".to_string(),
        auth: Auth::Bearer { token: "t".to_string() },
    };
    spec.apply_import(parse_curl("curl -X HEAD https://new.test").unwrap());
    assert_eq!(spec.url, "https://new.test");
    assert_eq!(spec.method, Method::HEAD);
    assert_eq!(spec.headers, vec!["Content-Type: application/json".to_string()]);
    assert_eq!(spec.body, "old");
    assert_eq!(spec.auth, Auth::Bearer { token: "t".to_string() });
    spec.apply_import(parse_curl("curl https://n.test -H 'X: 1' -d b -u u:p").unwrap());
    assert_eq!(spec.headers, vec!["X: 1".to_string()]);
    assert_eq!(spec.body, "b");
    assert_eq!(spec.method, Method::POST);
    assert_eq!(spec.auth, Auth::Basic { username: "u".to_string(), password: "p".to_string() });
    assert_eq!(spec.params, vec!["a=1".to_string()]);
}
