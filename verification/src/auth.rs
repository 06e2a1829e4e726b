//! The texts that the login at the provider reads and writes: the fields of
//! the authorisation form, the redirect in a login answer, and the session
//! that a token request gives.

use crate::text::{
    glue, join, join_seq, pair, pair_views, replace, replace_seq, split, split_seq, starts_with,
    starts_with_seq, views,
};
use vstd::prelude::*;
use vstd::string::*;

verus! {

/// What stands in `hay` after the first `key`, up to the next `key` and up
/// to the first `stop`. Meaningful where `key` stands in `hay`.
pub open spec fn field_after(hay: Seq<char>, key: Seq<char>, stop: Seq<char>) -> Seq<char> {
    split_seq(split_seq(hay, key)[1], stop)[0]
}

/// The `state` of an authorisation address, with `%3D` read as `=`.
pub open spec fn state_field(url: Seq<char>) -> Seq<char> {
    replace_seq(field_after(url, "state="@, "&"@), "%3D"@, "="@)
}

/// The `nonce` of an authorisation address.
pub open spec fn nonce_field(url: Seq<char>) -> Seq<char> {
    field_after(url, "nonce="@, "&"@)
}

/// The value of the token field of an authorisation page.
pub open spec fn token_field(text: Seq<char>) -> Seq<char> {
    field_after(split_seq(text, "iserv_oauth_server_authorize_form__token"@)[1], "value=\""@, "\""@)
}

/// The address names a state and a nonce, and the page holds a token field
/// with a value.
pub open spec fn oauth_fields_present(url: Seq<char>, text: Seq<char>) -> bool {
    &&& split_seq(url, "state="@).len() > 1
    &&& split_seq(url, "nonce="@).len() > 1
    &&& split_seq(text, "iserv_oauth_server_authorize_form__token"@).len() > 1
    &&& split_seq(split_seq(text, "iserv_oauth_server_authorize_form__token"@)[1], "value=\""@).len()
        > 1
}

/// The fields of the authorisation form for an address and a page, each
/// with its value.
pub open spec fn oauth_params(url: Seq<char>, text: Seq<char>) -> Seq<(Seq<char>, Seq<char>)> {
    seq![
        ("accepted"@, ""@),
        (
            "iserv_oauth_server_authorize_form[client_id]"@,
            "15_61zgj5ci0q4ows8swo80so0g4wkckgwsg40owkg4k8cc8cg04k"@,
        ),
        ("iserv_oauth_server_authorize_form[response_type]"@, "code"@),
        (
            "iserv_oauth_server_authorize_form[redirect_uri]"@,
            "https://oidc.webuntis.com/WebUntis/oidc/callback"@,
        ),
        ("iserv_oauth_server_authorize_form[state]"@, state_field(url)),
        ("iserv_oauth_server_authorize_form[scope]"@, "openid email iserv:webuntis"@),
        ("iserv_oauth_server_authorize_form[nonce]"@, nonce_field(url)),
        ("iserv_oauth_server_authorize_form[_token]"@, token_field(text)),
    ]
}

/// The second piece of `hay` split at `key`, cut at the first `stop`; `None`
/// where `key` does not stand in `hay`.
pub fn extract_field(hay: &str, key: &str, stop: &str) -> (res: Option<String>)
    ensures
        res is Some <==> split_seq(hay@, key@).len() > 1,
        res matches Some(field) ==> field@ == field_after(hay@, key@, stop@),
{
    let pieces = split(hay, key);
    assert(views(pieces@).len() == pieces@.len());
    if pieces.len() < 2 {
        return None;
    }
    assert(views(pieces@)[1] == pieces@[1]@);
    let mut inner = split(pieces[1].as_str(), stop);
    assert(views(inner@)[0] == inner@[0]@);
    Some(inner.swap_remove(0))
}

/// The fields of the authorisation form where the address and the page hold
/// what they are read from, and `None` where they do not.
pub fn oauth_params_of(url: &str, text: &str) -> (res: Option<Vec<(String, String)>>)
    ensures
        res is Some <==> oauth_fields_present(url@, text@),
        res matches Some(params) ==> pair_views(params@) == oauth_params(url@, text@),
{
    let state = match extract_field(url, "state=", "&") {
        Some(raw) => replace(raw.as_str(), "%3D", "="),
        None => { return None; },
    };
    let nonce = match extract_field(url, "nonce=", "&") {
        Some(nonce) => nonce,
        None => { return None; },
    };
    let forms = split(text, "iserv_oauth_server_authorize_form__token");
    assert(views(forms@).len() == forms@.len());
    if forms.len() < 2 {
        return None;
    }
    assert(views(forms@)[1] == forms@[1]@);
    let token = match extract_field(forms[1].as_str(), "value=\"", "\"") {
        Some(token) => token,
        None => { return None; },
    };
    let mut params: Vec<(String, String)> = Vec::new();
    params.push(pair("accepted", "".to_owned()));
    params.push(
        pair(
            "iserv_oauth_server_authorize_form[client_id]",
            "15_61zgj5ci0q4ows8swo80so0g4wkckgwsg40owkg4k8cc8cg04k".to_owned(),
        ),
    );
    params.push(pair("iserv_oauth_server_authorize_form[response_type]", "code".to_owned()));
    params.push(
        pair(
            "iserv_oauth_server_authorize_form[redirect_uri]",
            "https://oidc.webuntis.com/WebUntis/oidc/callback".to_owned(),
        ),
    );
    params.push(pair("iserv_oauth_server_authorize_form[state]", state));
    params.push(
        pair("iserv_oauth_server_authorize_form[scope]", "openid email iserv:webuntis".to_owned()),
    );
    params.push(pair("iserv_oauth_server_authorize_form[nonce]", nonce));
    params.push(pair("iserv_oauth_server_authorize_form[_token]", token));
    assert(pair_views(params@) =~= oauth_params(url@, text@));
    Some(params)
}

/// The fields of the authorisation form, read from the address that the
/// login was sent to and from the page found there.
pub fn construct_oauth_params(url: String, text: String) -> (params: Vec<(String, String)>)
    requires
        oauth_fields_present(url@, text@),
    ensures
        pair_views(params@) == oauth_params(url@, text@),
{
    oauth_params_of(url.as_str(), text.as_str()).unwrap()
}

/// The address that a login answer redirects to: what follows the first
/// `;url=` in it, up to the closing of the tag. `None` where the answer
/// holds no redirect.
pub fn redirect_target(answer: &str) -> (res: Option<String>)
    ensures
        res is Some <==> split_seq(answer@, ";url="@).len() > 1,
        res matches Some(target) ==> target@ == field_after(answer@, ";url="@, "\">"@),
{
    extract_field(answer, ";url=", "\">")
}

/// The session that the answer to a token request gives: the token and the
/// cookies it was asked with, unless the answer is a page in place of a
/// token.
pub fn refreshed_session(token: String, cookies: String) -> (res: Option<(String, String)>)
    ensures
        res is None <==> starts_with_seq(token@, "<!doctype html>"@),
        res matches Some(session) ==> session.0@ == token@ && session.1@ == cookies@,
{
    if starts_with(token.as_str(), "<!doctype html>") {
        None
    } else {
        Some((token, cookies))
    }
}

/// The cookies of a new session: those that every request to this school
/// carries, followed by those that the login has set.
pub fn session_cookies(school: &str, set_by_login: &str) -> (cookies: String)
    ensures
        cookies@ == school@ + set_by_login@,
{
    glue(school, set_by_login)
}

/// The middle part of a token: what stands between its first and its second
/// dot. `None` for a token without a dot.
pub fn token_fragment(token: &str) -> (res: Option<String>)
    ensures
        res is Some <==> split_seq(token@, "."@).len() > 1,
        res matches Some(part) ==> part@ == split_seq(token@, "."@)[1],
{
    let mut pieces = split(token, ".");
    assert(views(pieces@).len() == pieces@.len());
    if pieces.len() < 2 {
        return None;
    }
    assert(views(pieces@)[1] == pieces@[1]@);
    Some(pieces.swap_remove(1))
}

/// The name and the value of the cookie that a `Set-Cookie` header sets, as
/// the `cookie` crate reads them; `None` for a header that it cannot read.
pub uninterp spec fn cookie_pair_of(header: Seq<char>) -> Option<(Seq<char>, Seq<char>)>;

/// Every header of the list sets a cookie that can be read.
pub open spec fn all_cookies(headers: Seq<Seq<char>>) -> bool {
    forall|i: int| 0 <= i < headers.len() ==> cookie_pair_of(#[trigger] headers[i]) is Some
}

/// The cookies that the headers of the list set, in their order.
pub open spec fn cookies_of(headers: Seq<Seq<char>>) -> Seq<(Seq<char>, Seq<char>)> {
    Seq::new(headers.len(), |i: int| cookie_pair_of(headers[i])->0)
}

/// Each cookie as its name, an equals sign and its value.
pub open spec fn cookie_texts(cookies: Seq<(Seq<char>, Seq<char>)>) -> Seq<Seq<char>> {
    Seq::new(cookies.len(), |i: int| cookies[i].0 + "="@ + cookies[i].1)
}

/// The `Cookie` header that sends the cookies back: each as name and value,
/// with a semicolon and a blank between neighbours.
pub open spec fn cookie_line(cookies: Seq<(Seq<char>, Seq<char>)>) -> Seq<char> {
    join_seq(cookie_texts(cookies), "; "@)
}

/// Reads the name and the value of a cookie from a `Set-Cookie` header with
/// `Cookie::parse`, `Cookie::name` and `Cookie::value` of the `cookie`
/// crate. They depend on the header alone.
#[verifier::external_body]
fn cookie_pair(header: &str) -> (res: Option<(String, String)>)
    ensures
        res is Some <==> cookie_pair_of(header@) is Some,
        res matches Some(found) ==> cookie_pair_of(header@) == Some((found.0@, found.1@)),
{
    let cookie = cookie::Cookie::parse(header).ok()?;
    Some((cookie.name().to_owned(), cookie.value().to_owned()))
}

/// The `Cookie` header that sends the given cookies back.
pub fn cookie_header(cookies: &Vec<(String, String)>) -> (line: String)
    ensures
        line@ == cookie_line(pair_views(cookies@)),
{
    let mut texts: Vec<String> = Vec::new();
    let mut i: usize = 0;
    while i < cookies.len()
        invariant
            i <= cookies.len(),
            views(texts@) == cookie_texts(pair_views(cookies@)).take(i as int),
        decreases cookies.len() - i,
    {
        let ghost before = views(texts@);
        let mut text = cookies[i].0.clone();
        text.append("=");
        text.append(cookies[i].1.as_str());
        texts.push(text);
        assert(views(texts@) =~= before.push(cookies@[i as int].0@ + "="@ + cookies@[i as int].1@));
        assert(views(texts@) =~= cookie_texts(pair_views(cookies@)).take(i + 1));
        i = i + 1;
    }
    assert(cookie_texts(pair_views(cookies@)).take(cookies.len() as int) =~= cookie_texts(
        pair_views(cookies@),
    ));
    join(&texts, "; ")
}

/// The `Cookie` header that sends back the cookies that the `Set-Cookie`
/// headers of an answer set; `None` where one of them cannot be read.
pub fn session_header(headers: &Vec<String>) -> (res: Option<String>)
    ensures
        res is Some <==> all_cookies(views(headers@)),
        res matches Some(line) ==> line@ == cookie_line(cookies_of(views(headers@))),
{
    let mut cookies: Vec<(String, String)> = Vec::new();
    let mut i: usize = 0;
    while i < headers.len()
        invariant
            i <= headers.len(),
            all_cookies(views(headers@).take(i as int)),
            pair_views(cookies@) == cookies_of(views(headers@).take(i as int)),
        decreases headers.len() - i,
    {
        let ghost before = pair_views(cookies@);
        match cookie_pair(headers[i].as_str()) {
            Some(found) => {
                cookies.push(found);
                proof {
                    let seen = views(headers@).take(i + 1);
                    assert forall|k: int| 0 <= k < seen.len() implies cookie_pair_of(
                        #[trigger] seen[k],
                    ) is Some by {
                        if k < i {
                            assert(seen[k] == views(headers@).take(i as int)[k]);
                        }
                    }
                    let earlier = views(headers@).take(i as int);
                    assert(seen[i as int] == headers@[i as int]@);
                    assert(pair_views(cookies@) =~= before.push((found.0@, found.1@)));
                    assert forall|k: int| 0 <= k < i implies cookies_of(seen)[k] == cookies_of(
                        earlier,
                    )[k] by {
                        assert(seen[k] == earlier[k]);
                    }
                    assert(pair_views(cookies@) =~= cookies_of(seen));
                }
            },
            None => {
                assert(cookie_pair_of(views(headers@)[i as int]) is None);
                return None;
            },
        }
        i = i + 1;
    }
    assert(views(headers@).take(headers.len() as int) =~= views(headers@));
    Some(cookie_header(&cookies))
}

} // verus!
