use happy_remote::web_auth::{
    auth_request, auth_result, credential_keys, get_auth_state, is_authenticated, login_redirect_url, redirect_param,
    route_for_path, settings_page, split_char, switch, AuthReplyFields, LoginAction, LoginMsg, LoginPage, Route, Screen,
    UserInfo, read_auth_reply,
};

#[test]
fn redirect_parameter() {
    assert_eq!(redirect_param("?redirect=%2Fhome"), Some("%2Fhome".to_string()));
    assert_eq!(redirect_param("?a=1&redirect=x&redirect=y"), Some("x".to_string()));
    assert_eq!(redirect_param("?redirect"), None);
    assert_eq!(redirect_param("redirect=x"), None);
    assert_eq!(redirect_param(""), None);
    assert_eq!(redirect_param("?redirect="), Some(String::new()));
    assert_eq!(login_redirect_url("http%3A%2F%2Fx"), "/login?redirect=http%3A%2F%2Fx");
}

#[test]
fn splitting() {
    assert_eq!(split_char("a&b&&c", '&'), vec!["a", "b", "", "c"]);
    assert_eq!(split_char("", '&'), vec![""]);
    assert_eq!(split_char("x&", '&'), vec!["x", ""]);
}

#[test]
fn stored_credentials() {
    let s = get_auth_state(Some("t".into()), None, Some("e@x".into()));
    assert!(s.is_authenticated);
    assert!(!get_auth_state(None, Some("u".into()), None).is_authenticated);
    assert!(is_authenticated(&Some("t".into())));
    let plan = s.logout();
    assert_eq!(plan.remove, vec!["happy_token", "happy_user_id", "happy_user_email"]);
    assert_eq!(plan.redirect, "/login");
    assert_eq!(credential_keys().len(), 3);
    assert_eq!(settings_page(&s), ("Unknown".to_string(), "e@x".to_string()));
}

#[test]
fn routes() {
    assert_eq!(route_for_path("/"), Route::Home);
    assert_eq!(route_for_path("/settings"), Route::Settings);
    assert_eq!(route_for_path("/404"), Route::NotFound);
    assert_eq!(route_for_path("/nowhere"), Route::NotFound);
    assert_eq!(switch(Route::Home, true), Screen::Terminal);
    assert_eq!(switch(Route::Home, false), Screen::Login);
    assert_eq!(switch(Route::Dashboard, false), Screen::Login);
    assert_eq!(switch(Route::NotFound, false), Screen::NotFound);
    assert_eq!(switch(Route::Login, true), Screen::Login);
}

#[test]
fn login_form() {
    let mut p = LoginPage::create(Some("/dash".into()));
    assert_eq!(p.view_texts(), ("Sign In", "Don't have an account? Create one", "Sign In"));
    p.update(LoginMsg::EmailChanged("a@b".into()));
    p.update(LoginMsg::PasswordChanged("secret".into()));
    p.update(LoginMsg::ToggleMode);
    assert!(p.is_register);
    let a = { let (shown, a) = p.update(LoginMsg::Submit); assert!(shown); a.unwrap() };
    assert!(matches!(a, LoginAction::Authenticate { ref email, is_register: true, .. } if email == "a@b"));
    assert_eq!(p.view_texts().2, "Please wait...");
    p.update(LoginMsg::Error("bad".into()));
    assert!(!p.loading);
    assert_eq!(p.error, Some("bad".to_string()));
    let user = UserInfo { id: "u1".into(), email: "a@b".into(), name: None };
    let done = p.update(LoginMsg::LoginSuccess { token: "tok".into(), user }).1.unwrap();
    assert!(matches!(done, LoginAction::StoreAndRedirect { ref redirect, ref token, .. } if redirect == "/dash" && token == "tok"));
    let mut q = LoginPage::create(None);
    let user = UserInfo { id: "u".into(), email: "e".into(), name: None };
    let home = q.update(LoginMsg::LoginSuccess { token: "t".into(), user }).1.unwrap();
    assert!(matches!(home, LoginAction::StoreAndRedirect { ref redirect, .. } if redirect == "/"));
}

#[test]
fn login_requests_and_answers() {
    let (endpoint, body) = auth_request("a@b", "pw", "Ann", false);
    assert_eq!(endpoint, "/api/v1/auth/login");
    assert_eq!(body, r#"{"email":"a@b","password":"pw"}"#);
    let (endpoint, body) = auth_request("a@b", "pw", "Ann", true);
    assert_eq!(endpoint, "/api/v1/auth/register");
    assert_eq!(body, r#"{"email":"a@b","password":"pw","name":"Ann"}"#);
    assert_eq!(auth_result(401, "nope", Err("x".into())).unwrap_err(), "Authentication failed: nope");
    assert_eq!(auth_result(200, "", Err("eof".into())).unwrap_err(), "JSON parse error: eof");
    let empty = AuthReplyFields { access_token: None, user_id: None, user_email: None, user_name: None };
    assert_eq!(auth_result(200, "", Ok(empty)).unwrap_err(), "No access token in response");
    let no_id = AuthReplyFields { access_token: Some("t".into()), user_id: None, user_email: None, user_name: None };
    assert_eq!(auth_result(200, "", Ok(no_id)).unwrap_err(), "No user id");
    let no_mail = AuthReplyFields { access_token: Some("t".into()), user_id: Some("u".into()), user_email: None, user_name: None };
    assert_eq!(auth_result(200, "", Ok(no_mail)).unwrap_err(), "No user email");
    let full = AuthReplyFields {
        access_token: Some("t".into()),
        user_id: Some("u".into()),
        user_email: Some("e".into()),
        user_name: Some("n".into()),
    };
    let (token, user) = auth_result(200, "", Ok(full)).unwrap();
    assert_eq!(token, "t");
    assert_eq!((user.id, user.email, user.name), ("u".to_string(), "e".to_string(), Some("n".to_string())));
}

#[test]
fn login_answers_are_read_from_json() {
    let f = read_auth_reply(r#"{"access_token":"t","user":{"id":"u","email":"e@x","name":null}}"#).expect("json");
    assert_eq!(f.access_token.as_deref(), Some("t"));
    assert_eq!(f.user_id.as_deref(), Some("u"));
    assert_eq!(f.user_email.as_deref(), Some("e@x"));
    assert_eq!(f.user_name, None);
    let r = auth_result(200, "", read_auth_reply("oops"));
    assert!(matches!(r, Err(e) if e.starts_with("JSON parse error: ")));
    let missing = read_auth_reply(r#"{"access_token":"t"}"#).expect("json");
    assert!(matches!(auth_result(200, "", Ok(missing)), Err(e) if e == "No user id"));
}
