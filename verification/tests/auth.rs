use untis_calendar::auth::{
    construct_oauth_params, cookie_header, extract_field, oauth_params_of, redirect_target,
    refreshed_session, session_cookies, session_header, token_fragment,
};

const URL: &str = "https://example.org/auth?state=abc%3Ddef%3D&nonce=n0nce&scope=openid";
const PAGE: &str = "<input id=\"iserv_oauth_server_authorize_form__token\" name=\"x\" value=\"t0k3n\" />";

fn value_of(params: &[(String, String)], name: &str) -> String {
    params.iter().find(|p| p.0 == name).map(|p| p.1.clone()).unwrap()
}

#[test]
fn oauth_params_are_read_from_address_and_page() {
    let params = construct_oauth_params(URL.to_string(), PAGE.to_string());
    assert_eq!(params.len(), 8);
    assert_eq!(value_of(&params, "accepted"), "");
    assert_eq!(
        value_of(&params, "iserv_oauth_server_authorize_form[client_id]"),
        "15_61zgj5ci0q4ows8swo80so0g4wkckgwsg40owkg4k8cc8cg04k"
    );
    assert_eq!(value_of(&params, "iserv_oauth_server_authorize_form[response_type]"), "code");
    assert_eq!(
        value_of(&params, "iserv_oauth_server_authorize_form[redirect_uri]"),
        "https://oidc.webuntis.com/WebUntis/oidc/callback"
    );
    assert_eq!(value_of(&params, "iserv_oauth_server_authorize_form[state]"), "abc=def=");
    assert_eq!(
        value_of(&params, "iserv_oauth_server_authorize_form[scope]"),
        "openid email iserv:webuntis"
    );
    assert_eq!(value_of(&params, "iserv_oauth_server_authorize_form[nonce]"), "n0nce");
    assert_eq!(value_of(&params, "iserv_oauth_server_authorize_form[_token]"), "t0k3n");
}

#[test]
fn oauth_params_need_every_field() {
    assert!(oauth_params_of(URL, PAGE).is_some());
    assert_eq!(oauth_params_of("https://example.org/auth?nonce=1", PAGE), None);
    assert_eq!(oauth_params_of("https://example.org/auth?state=1", PAGE), None);
    assert_eq!(oauth_params_of(URL, "<html></html>"), None);
    assert_eq!(oauth_params_of(URL, "iserv_oauth_server_authorize_form__token without"), None);
    assert_eq!(
        oauth_params_of(URL, PAGE),
        Some(construct_oauth_params(URL.to_string(), PAGE.to_string()))
    );
}

#[test]
fn field_at_the_end_of_the_address() {
    assert_eq!(extract_field("a?x=1&nonce=last", "nonce=", "&"), Some("last".to_string()));
    assert_eq!(extract_field("a?x=1", "nonce=", "&"), None);
    assert_eq!(extract_field("nonce=&x", "nonce=", "&"), Some(String::new()));
}

#[test]
fn redirect_is_read_from_the_answer() {
    let answer = "<meta http-equiv=\"refresh\" content=\"0;url=https://example.org/next?a=1\">";
    assert_eq!(redirect_target(answer), Some("https://example.org/next?a=1".to_string()));
    assert_eq!(redirect_target("<html>no redirect</html>"), None);
}

#[test]
fn a_page_is_no_token() {
    assert_eq!(refreshed_session("<!doctype html><html>".to_string(), "c=1".to_string()), None);
    assert_eq!(
        refreshed_session("eyJ.abc.def".to_string(), "c=1".to_string()),
        Some(("eyJ.abc.def".to_string(), "c=1".to_string()))
    );
}

#[test]
fn cookies_and_token_fragment() {
    assert_eq!(session_cookies("school=x; ", "JSESSIONID=1"), "school=x; JSESSIONID=1");
    assert_eq!(token_fragment("head.body.signature"), Some("body".to_string()));
    assert_eq!(token_fragment("head."), Some(String::new()));
    assert_eq!(token_fragment("opaque"), None);
}

#[test]
fn cookies_are_sent_back_as_name_and_value() {
    let headers = vec![
        "JSESSIONID=abc123; Path=/WebUntis; Secure; HttpOnly".to_string(),
        " schoolname = \"_x\" ; Max-Age=1209600".to_string(),
        "traceId=7".to_string(),
    ];
    assert_eq!(
        session_header(&headers),
        Some("JSESSIONID=abc123; schoolname=\"_x\"; traceId=7".to_string())
    );
    assert_eq!(session_header(&vec![]), Some(String::new()));
    assert_eq!(session_header(&vec!["a=".to_string()]), Some("a=".to_string()));
}

#[test]
fn a_header_without_a_cookie_gives_nothing() {
    assert_eq!(session_header(&vec!["a=1".to_string(), "no pair".to_string()]), None);
    assert_eq!(session_header(&vec!["=value".to_string()]), None);
    assert_eq!(session_header(&vec![String::new()]), None);
}

#[test]
fn cookie_header_of_given_cookies() {
    let cookies = vec![
        ("a".to_string(), "1".to_string()),
        ("b".to_string(), String::new()),
        ("c".to_string(), "x=y".to_string()),
    ];
    assert_eq!(cookie_header(&cookies), "a=1; b=; c=x=y");
    assert_eq!(cookie_header(&vec![]), "");
}
