use aurora_lights_proxy::auth::{auth_url, cookie_header, failure_detail, session_cookie};

fn pair(name: &str, value: &str) -> (String, String) {
    (name.to_string(), value.to_string())
}

#[test]
fn auth_url_strips_trailing_slashes() {
    assert_eq!(auth_url("http://localhost:3000"), "http://localhost:3000/api/auth/key");
    assert_eq!(auth_url("http://localhost:3000///"), "http://localhost:3000/api/auth/key");
    assert_eq!(auth_url(""), "/api/auth/key");
}

#[test]
fn session_cookie_is_found_by_name() {
    let cookies = vec![pair("other", "x"), pair("connect.sid", "abc"), pair("connect.sid", "def")];
    assert_eq!(session_cookie(&cookies), Some("abc".to_string()));
    assert_eq!(session_cookie(&vec![pair("other", "x")]), None);
    assert_eq!(session_cookie(&vec![]), None);
}

#[test]
fn cookie_header_names_the_session() {
    assert_eq!(cookie_header("abc"), "connect.sid=abc");
}

#[test]
fn failure_detail_prefers_details_then_message() {
    assert_eq!(failure_detail(Some("bad key".into()), Some("m".into())), "bad key");
    assert_eq!(failure_detail(None, Some("m".into())), "m");
    assert_eq!(failure_detail(None, None), "unknown error");
}
