//! The web client's login: the login page, the stored credentials, the
//! protected routes and the settings page.

use vstd::prelude::*;
use crate::model::opt_str_view;
use crate::text::{str_eq, concat, owned};
use crate::json::{Json, JsonView, get_field, field_of, json_text, json_read, field, text_field, parse_json};

verus! {

/// The index of the first `c` in `s`, or the length of `s` when there is none.
pub open spec fn index_of_char(s: Seq<char>, c: char) -> nat
    decreases s.len(),
{
    if s.len() == 0 {
        0
    } else if s[0] == c {
        0
    } else {
        1 + index_of_char(s.drop_first(), c)
    }
}

/// The pieces of `s` between the characters `c`, as `str::split(c)` gives them.
pub open spec fn split_on(s: Seq<char>, c: char) -> Seq<Seq<char>>
    decreases s.len(),
{
    let i = index_of_char(s, c);
    if i >= s.len() {
        seq![s]
    } else {
        seq![s.take(i as int)] + split_on(s.skip(i as int + 1), c)
    }
}

proof fn lemma_index_of_char(s: Seq<char>, c: char, n: int)
    requires
        0 <= n <= s.len(),
        forall|k: int| 0 <= k < n ==> s[k] != c,
        n == s.len() || s[n] == c,
    ensures
        index_of_char(s, c) == n,
    decreases n,
{
    if n > 0 {
        let t = s.drop_first();
        assert forall|k: int| 0 <= k < n - 1 implies t[k] != c by {
            assert(t[k] == s[k + 1]);
        }
        if n < s.len() {
            assert(t[n - 1] == s[n]);
        }
        lemma_index_of_char(t, c, n - 1);
    }
}

fn find_char(s: &str, from: usize, c: char) -> (r: usize)
    requires
        from <= s@.len(),
    ensures
        from <= r <= s@.len(),
        index_of_char(s@.skip(from as int), c) == r - from,
{
    let n = s.unicode_len();
    let mut j = from;
    while j < n && s.get_char(j) != c
        invariant
            n == s@.len(),
            from <= j <= n,
            forall|k: int| from <= k < j ==> s@[k] != c,
        decreases n - j,
    {
        j = j + 1;
    }
    proof {
        let rest = s@.skip(from as int);
        assert forall|k: int| 0 <= k < j - from implies rest[k] != c by {
            assert(rest[k] == s@[from + k]);
        }
        if j < n {
            assert(rest[j - from] == s@[j as int]);
        }
        lemma_index_of_char(rest, c, j - from);
    }
    j
}

/// The pieces of a text between the characters `c`.
pub fn split_char(s: &str, c: char) -> (r: Vec<String>)
    ensures
        r@.map_values(|p: String| p@) == split_on(s@, c),
{
    let n = s.unicode_len();
    let mut out: Vec<String> = Vec::new();
    let mut start: usize = 0;
    assert(s@.skip(0) =~= s@);
    loop
        invariant
            n == s@.len(),
            start <= n,
            split_on(s@, c) == out@.map_values(|p: String| p@) + split_on(s@.skip(start as int), c),
        decreases n - start,
    {
        let j = find_char(s, start, c);
        let ghost rest = s@.skip(start as int);
        let piece = owned(s.substring_char(start, j));
        assert(piece@ =~= rest.take(j - start));
        let ghost prev = out@.map_values(|p: String| p@);
        out.push(piece);
        if j >= n {
            assert(rest.take(j - start) =~= rest);
            assert(out@.map_values(|p: String| p@) =~= prev + split_on(rest, c));
            return out;
        }
        assert(rest.skip(j - start + 1) =~= s@.skip(j as int + 1));
        assert(out@.map_values(|p: String| p@) =~= prev.push(rest.take(j - start)));
        assert(prev.push(rest.take(j - start)) + split_on(s@.skip(j as int + 1), c) =~=
            prev + (seq![rest.take(j - start)] + split_on(s@.skip(j as int + 1), c)));
        start = j + 1;
    }
}

/// The value of the first `redirect` parameter of a query string (`?a=b&c=d`),
/// still encoded: the first piece with an `=` whose key is `redirect`.
pub open spec fn redirect_in(pieces: Seq<Seq<char>>) -> Option<Seq<char>>
    decreases pieces.len(),
{
    if pieces.len() == 0 {
        None
    } else {
        let p = pieces[0];
        let i = index_of_char(p, '=');
        if i < p.len() && p.take(i as int) == "redirect"@ {
            Some(p.skip(i as int + 1))
        } else {
            redirect_in(pieces.drop_first())
        }
    }
}

/// The encoded redirect target of a query string; a query must start with `?`.
pub open spec fn redirect_param_spec(search: Seq<char>) -> Option<Seq<char>> {
    if search.len() > 0 && search[0] == '?' {
        redirect_in(split_on(search.skip(1), '&'))
    } else {
        None
    }
}

/// The encoded redirect target of a query string.
pub fn redirect_param(search: &str) -> (r: Option<String>)
    ensures
        opt_str_view(r) == redirect_param_spec(search@),
{
    let n = search.unicode_len();
    if n == 0 || search.get_char(0) != '?' {
        return None;
    }
    let params = search.substring_char(1, n);
    assert(params@ =~= search@.skip(1));
    let pieces = split_char(params, '&');
    let ghost pv = pieces@.map_values(|p: String| p@);
    assert(search@.len() > 0 && search@[0] == '?');
    assert(pv == split_on(search@.skip(1), '&'));
    assert(redirect_param_spec(search@) == redirect_in(pv));
    let mut i: usize = 0;
    assert(pv.skip(0) =~= pv);
    while i < pieces.len()
        invariant
            i <= pieces@.len(),
            pv == pieces@.map_values(|p: String| p@),
            redirect_param_spec(search@) == redirect_in(pv),
            redirect_in(pv) == redirect_in(pv.skip(i as int)),
        decreases pieces@.len() - i,
    {
        let p = pieces[i].as_str();
        let m = p.unicode_len();
        let eq = find_char(p, 0, '=');
        assert(p@.skip(0) =~= p@);
        assert(pv.skip(i as int)[0] == p@);
        assert(pv.skip(i as int).drop_first() =~= pv.skip(i as int + 1));
        if eq < m && str_eq(p.substring_char(0, eq), "redirect") {
            assert(p@.subrange(0, eq as int) =~= p@.take(eq as int));
            let v = owned(p.substring_char(eq + 1, m));
            assert(v@ =~= p@.skip(eq as int + 1));
            assert(index_of_char(p@, '=') == eq);
            assert(p@.take(eq as int) == "redirect"@);
            assert(redirect_in(pv.skip(i as int)) == Some(p@.skip(eq as int + 1)));
            return Some(v);
        }
        proof {
            if eq < m {
                assert(p@.subrange(0, eq as int) =~= p@.take(eq as int));
            }
        }
        i = i + 1;
    }
    assert(pv.skip(i as int) =~= Seq::<Seq<char>>::empty());
    None
}

/// The keys under which the browser stores the credentials.
pub open spec fn stored_keys() -> Seq<Seq<char>> {
    seq!["happy_token"@, "happy_user_id"@, "happy_user_email"@]
}

/// The keys under which the browser stores the credentials: token, user id, email.
pub fn credential_keys() -> (r: Vec<&'static str>)
    ensures
        r@.map_values(|k: &'static str| k@) == stored_keys(),
{
    let r = vec!["happy_token", "happy_user_id", "happy_user_email"];
    assert(r@.map_values(|k: &'static str| k@) =~= stored_keys());
    r
}

/// The stored credentials.
#[derive(Debug, Clone)]
pub struct AuthState {
    pub is_authenticated: bool,
    pub token: Option<String>,
    pub user_id: Option<String>,
    pub user_email: Option<String>,
}

/// What logging out does: remove these stored keys, then go to this address.
pub struct LogoutPlan {
    pub remove: Vec<&'static str>,
    pub redirect: &'static str,
}

/// The credentials as stored: logged in exactly when there is a token.
pub fn get_auth_state(token: Option<String>, user_id: Option<String>, user_email: Option<String>) -> (r: AuthState)
    ensures
        r.is_authenticated == token is Some,
        opt_str_view(r.token) == opt_str_view(token),
        opt_str_view(r.user_id) == opt_str_view(user_id),
        opt_str_view(r.user_email) == opt_str_view(user_email),
{
    AuthState { is_authenticated: token.is_some(), token, user_id, user_email }
}

/// Whether a stored token exists.
pub fn is_authenticated(token: &Option<String>) -> (r: bool)
    ensures
        r == token is Some,
{
    token.is_some()
}

impl AuthState {
    /// Logging out removes the stored credentials and goes to the login page.
    pub fn logout(&self) -> (r: LogoutPlan)
        ensures
            r.remove@.map_values(|k: &'static str| k@) == stored_keys(),
            r.redirect@ == "/login"@,
    {
        LogoutPlan { remove: credential_keys(), redirect: "/login" }
    }
}

/// The pages of the web client.
#[derive(Debug, Clone, Copy, PartialEq, Eq, Structural)]
pub enum Route {
    Home,
    Login,
    Dashboard,
    Settings,
    NotFound,
}

/// The page at an address path.
pub open spec fn route_of(path: Seq<char>) -> Route {
    if path == "/"@ {
        Route::Home
    } else if path == "/login"@ {
        Route::Login
    } else if path == "/dashboard"@ {
        Route::Dashboard
    } else if path == "/settings"@ {
        Route::Settings
    } else {
        Route::NotFound
    }
}

/// The page at an address path; unknown paths (and `/404`) are not found.
pub fn route_for_path(path: &str) -> (r: Route)
    ensures
        r == route_of(path@),
{
    if str_eq(path, "/") {
        Route::Home
    } else if str_eq(path, "/login") {
        Route::Login
    } else if str_eq(path, "/dashboard") {
        Route::Dashboard
    } else if str_eq(path, "/settings") {
        Route::Settings
    } else {
        Route::NotFound
    }
}

/// What a route shows.
#[derive(Debug, Clone, Copy, PartialEq, Eq, Structural)]
pub enum Screen {
    Terminal,
    Login,
    Dashboard,
    Settings,
    NotFound,
}

/// Whether a route needs a login.
pub open spec fn is_protected(r: Route) -> bool {
    r == Route::Home || r == Route::Dashboard || r == Route::Settings
}

/// What a route shows: the protected pages need a stored token and show the
/// login page without one.
pub fn switch(route: Route, authenticated: bool) -> (r: Screen)
    ensures
        r == (if is_protected(route) && !authenticated {
            Screen::Login
        } else {
            match route {
                Route::Home => Screen::Terminal,
                Route::Login => Screen::Login,
                Route::Dashboard => Screen::Dashboard,
                Route::Settings => Screen::Settings,
                Route::NotFound => Screen::NotFound,
            }
        }),
{
    match route {
        Route::Home => if authenticated { Screen::Terminal } else { Screen::Login },
        Route::Login => Screen::Login,
        Route::Dashboard => if authenticated { Screen::Dashboard } else { Screen::Login },
        Route::Settings => if authenticated { Screen::Settings } else { Screen::Login },
        Route::NotFound => Screen::NotFound,
    }
}

/// The account rows of the settings page: user id and email, `Unknown` when not stored.
pub fn settings_page(auth: &AuthState) -> (r: (String, String))
    ensures
        r.0@ == match auth.user_id { Some(u) => u@, None => "Unknown"@ },
        r.1@ == match auth.user_email { Some(e) => e@, None => "Unknown"@ },
{
    let id = match &auth.user_id {
        Some(u) => u.clone(),
        None => owned("Unknown"),
    };
    let email = match &auth.user_email {
        Some(e) => e.clone(),
        None => owned("Unknown"),
    };
    (id, email)
}

/// A user as the login answer describes it.
#[derive(Debug, Clone)]
pub struct UserInfo {
    pub id: String,
    pub email: String,
    pub name: Option<String>,
}

/// A request to the login page.
pub enum LoginMsg {
    EmailChanged(String),
    PasswordChanged(String),
    NameChanged(String),
    Submit,
    ToggleMode,
    LoginSuccess { token: String, user: UserInfo },
    Error(String),
}

/// What the page around the login form must do.
pub enum LoginAction {
    /// Send the login or registration request.
    Authenticate { email: String, password: String, name: String, is_register: bool },
    /// Store the token, user id and email, then go to this address.
    StoreAndRedirect { token: String, user_id: String, email: String, redirect: String },
}

/// The state of the login page.
pub struct LoginPage {
    pub email: String,
    pub password: String,
    pub name: String,
    pub is_register: bool,
    pub loading: bool,
    pub error: Option<String>,
    pub redirect_url: Option<String>,
}

impl LoginPage {
    /// An empty sign-in form that returns to `redirect_url` after logging in.
    pub fn create(redirect_url: Option<String>) -> (r: LoginPage)
        ensures
            r.email@.len() == 0,
            r.password@.len() == 0,
            r.name@.len() == 0,
            !r.is_register,
            !r.loading,
            r.error is None,
            opt_str_view(r.redirect_url) == opt_str_view(redirect_url),
    {
        LoginPage {
            email: String::new(),
            password: String::new(),
            name: String::new(),
            is_register: false,
            loading: false,
            error: None,
            redirect_url,
        }
    }

    /// Handles a request; returns whether the form shows anew (always) and what the
    /// page must do.
    pub fn update(&mut self, msg: LoginMsg) -> (r: (bool, Option<LoginAction>))
        ensures
            r.0,
            opt_str_view(final(self).redirect_url) == opt_str_view(old(self).redirect_url),
            match msg {
                LoginMsg::EmailChanged(e) => final(self).email@ == e@ && r.1 is None
                    && final(self).password@ == old(self).password@ && final(self).name@ == old(self).name@,
                LoginMsg::PasswordChanged(p) => final(self).password@ == p@ && r.1 is None
                    && final(self).email@ == old(self).email@ && final(self).name@ == old(self).name@,
                LoginMsg::NameChanged(n) => final(self).name@ == n@ && r.1 is None
                    && final(self).email@ == old(self).email@ && final(self).password@ == old(self).password@,
                LoginMsg::ToggleMode => final(self).is_register == !old(self).is_register && final(self).error is None
                    && r.1 is None && final(self).loading == old(self).loading,
                LoginMsg::Submit => {
                    &&& final(self).loading
                    &&& final(self).error is None
                    &&& final(self).is_register == old(self).is_register
                        &&& (r.1 matches Some(LoginAction::Authenticate { email, password, name, is_register })
                        && email@ == old(self).email@ && password@ == old(self).password@ && name@ == old(self).name@
                        && is_register == old(self).is_register)
                },
                LoginMsg::LoginSuccess { token, user } => {
                    &&& !final(self).loading
                    &&& (r.1 matches Some(LoginAction::StoreAndRedirect { token: t, user_id, email, redirect })
                        && t@ == token@ && user_id@ == user.id@ && email@ == user.email@
                        && redirect@ == (match old(self).redirect_url { Some(u) => u@, None => "/"@ }))
                },
                LoginMsg::Error(e) => !final(self).loading && opt_str_view(final(self).error) == Some(e@) && r.1 is None,
            },
    {
        match msg {
            LoginMsg::EmailChanged(e) => {
                self.email = e;
                (true, None)
            },
            LoginMsg::PasswordChanged(p) => {
                self.password = p;
                (true, None)
            },
            LoginMsg::NameChanged(n) => {
                self.name = n;
                (true, None)
            },
            LoginMsg::ToggleMode => {
                self.is_register = !self.is_register;
                self.error = None;
                (true, None)
            },
            LoginMsg::Submit => {
                self.loading = true;
                self.error = None;
                (true, Some(LoginAction::Authenticate {
                    email: self.email.clone(),
                    password: self.password.clone(),
                    name: self.name.clone(),
                    is_register: self.is_register,
                }))
            },
            LoginMsg::LoginSuccess { token, user } => {
                self.loading = false;
                let redirect = match &self.redirect_url {
                    Some(u) => u.clone(),
                    None => owned("/"),
                };
                (true, Some(LoginAction::StoreAndRedirect { token, user_id: user.id, email: user.email, redirect }))
            },
            LoginMsg::Error(e) => {
                self.loading = false;
                self.error = Some(e);
                (true, None)
            },
        }
    }

    /// The title, the mode switch text and the button text of the form.
    pub fn view_texts(&self) -> (r: (&'static str, &'static str, &'static str))
        ensures
            r.0@ == (if self.is_register { "Create Account"@ } else { "Sign In"@ }),
            r.1@ == (if self.is_register { "Already have an account? Sign In"@ } else { "Don't have an account? Create one"@ }),
            r.2@ == (if self.loading { "Please wait..."@ } else if self.is_register { "Create Account"@ } else { "Sign In"@ }),
    {
        let title = if self.is_register { "Create Account" } else { "Sign In" };
        let toggle = if self.is_register { "Already have an account? Sign In" } else { "Don't have an account? Create one" };
        let button = if self.loading { "Please wait..." } else if self.is_register { "Create Account" } else { "Sign In" };
        (title, toggle, button)
    }
}

/// The endpoint and body of a login or registration request. The values are
/// put into the body as they are, without escaping.
pub open spec fn auth_request_spec(email: Seq<char>, password: Seq<char>, name: Seq<char>, is_register: bool) -> (Seq<char>, Seq<char>) {
    if is_register {
        ("/api/v1/auth/register"@,
            "{\"email\":\""@ + email + "\",\"password\":\""@ + password + "\",\"name\":\""@ + name + "\"}"@)
    } else {
        ("/api/v1/auth/login"@, "{\"email\":\""@ + email + "\",\"password\":\""@ + password + "\"}"@)
    }
}

/// The endpoint and body of a login or registration request.
pub fn auth_request(email: &str, password: &str, name: &str, is_register: bool) -> (r: (String, String))
    ensures
        (r.0@, r.1@) == auth_request_spec(email@, password@, name@, is_register),
{
    let a = concat("{\"email\":\"", email);
    let b = concat(a.as_str(), "\",\"password\":\"");
    let c = concat(b.as_str(), password);
    if is_register {
        let d = concat(c.as_str(), "\",\"name\":\"");
        let e = concat(d.as_str(), name);
        (owned("/api/v1/auth/register"), concat(e.as_str(), "\"}"))
    } else {
        (owned("/api/v1/auth/login"), concat(c.as_str(), "\"}"))
    }
}

/// The fields of a login answer, each present when it is a text.
pub struct AuthReplyFields {
    pub access_token: Option<String>,
    pub user_id: Option<String>,
    pub user_email: Option<String>,
    pub user_name: Option<String>,
}

/// The fields that the login page reads from an answer: the access token and the
/// user's id, email and name, each where it is a text.
pub open spec fn auth_reply_read(v: JsonView, f: AuthReplyFields) -> bool {
    &&& opt_str_view(f.access_token) == json_text(get_field(v, "access_token"@))
    &&& opt_str_view(f.user_id) == json_text(field_of(get_field(v, "user"@), "id"@))
    &&& opt_str_view(f.user_email) == json_text(field_of(get_field(v, "user"@), "email"@))
    &&& opt_str_view(f.user_name) == json_text(field_of(get_field(v, "user"@), "name"@))
}

/// Reads the fields of a login answer.
pub fn auth_reply_of(v: &Json) -> (r: AuthReplyFields)
    ensures
        auth_reply_read(v@, r),
{
    let user = field(v, "user");
    let (id, email, name) = match user {
        Some(u) => (text_field(u, "id"), text_field(u, "email"), text_field(u, "name")),
        None => (None, None, None),
    };
    AuthReplyFields { access_token: text_field(v, "access_token"), user_id: id, user_email: email, user_name: name }
}

/// Reads the text of a login answer: its fields, or the parser's message where the
/// text is not JSON.
pub fn read_auth_reply(text: &str) -> (r: Result<AuthReplyFields, String>)
    ensures
        match json_read(text@) {
            Ok(v) => r matches Ok(f) && auth_reply_read(v, f),
            Err(m) => r matches Err(e) && e@ == m,
        },
{
    match parse_json(text) {
        Ok(v) => Ok(auth_reply_of(&v)),
        Err(m) => Err(m),
    }
}

/// What a login answer comes to: a status other than 200 fails with the
/// answer's text; an answer that is not JSON fails with the parser's message;
/// then the token, user id and email must be there.
pub fn auth_result(status: u16, text: &str, reply: Result<AuthReplyFields, String>) -> (r: Result<(String, UserInfo), String>)
    ensures
        status != 200 ==> (r matches Err(e) && e@ == "Authentication failed: "@ + text@),
        status == 200 ==> match reply {
            Err(p) => (r matches Err(e) && e@ == "JSON parse error: "@ + p@),
            Ok(f) => if f.access_token is None {
                (r matches Err(e) && e@ == "No access token in response"@)
            } else if f.user_id is None {
                (r matches Err(e) && e@ == "No user id"@)
            } else if f.user_email is None {
                (r matches Err(e) && e@ == "No user email"@)
            } else {
                (r matches Ok((t, u)) && t@ == f.access_token->0@ && u.id@ == f.user_id->0@
                    && u.email@ == f.user_email->0@ && opt_str_view(u.name) == opt_str_view(f.user_name))
            },
        },
{
    if status != 200 {
        return Err(concat("Authentication failed: ", text));
    }
    match reply {
        Err(p) => Err(concat("JSON parse error: ", p.as_str())),
        Ok(f) => match (f.access_token, f.user_id, f.user_email) {
            (None, _, _) => Err(owned("No access token in response")),
            (Some(_), None, _) => Err(owned("No user id")),
            (Some(_), Some(_), None) => Err(owned("No user email")),
            (Some(t), Some(id), Some(email)) => Ok((t, UserInfo { id, email, name: f.user_name })),
        },
    }
}

/// The address of the login page that returns to `encoded_url` afterwards.
pub fn login_redirect_url(encoded_url: &str) -> (r: String)
    ensures
        r@ == "/login?redirect="@ + encoded_url@,
{
    concat("/login?redirect=", encoded_url)
}

/// The address path each page is declared at; the not-found page is at `/404`.
pub open spec fn route_path(r: Route) -> Seq<char> {
    match r {
        Route::Home => "/"@,
        Route::Login => "/login"@,
        Route::Dashboard => "/dashboard"@,
        Route::Settings => "/settings"@,
        Route::NotFound => "/404"@,
    }
}

/// Every page is reached at the path it is declared at, and a path reaches a page
/// other than the not-found page only when it is that page's declared path.
pub proof fn lemma_routes_reach_their_pages(r: Route, path: Seq<char>)
    ensures
        route_of(route_path(r)) == r,
        route_of(path) != Route::NotFound ==> path == route_path(route_of(path)),
{
    reveal_strlit("/");
    reveal_strlit("/login");
    reveal_strlit("/dashboard");
    reveal_strlit("/settings");
    reveal_strlit("/404");
    assert("/login"@ != "/"@) by { assert("/login"@.len() != "/"@.len()); }
    assert("/dashboard"@ != "/"@) by { assert("/dashboard"@.len() != "/"@.len()); }
    assert("/dashboard"@ != "/login"@) by { assert("/dashboard"@.len() != "/login"@.len()); }
    assert("/settings"@ != "/"@) by { assert("/settings"@.len() != "/"@.len()); }
    assert("/settings"@ != "/login"@) by { assert("/settings"@[1] != "/login"@[1]); }
    assert("/settings"@ != "/dashboard"@) by { assert("/settings"@.len() != "/dashboard"@.len()); }
    assert("/404"@ != "/"@) by { assert("/404"@.len() != "/"@.len()); }
    assert("/404"@ != "/login"@) by { assert("/404"@.len() != "/login"@.len()); }
    assert("/404"@ != "/dashboard"@) by { assert("/404"@.len() != "/dashboard"@.len()); }
    assert("/404"@ != "/settings"@) by { assert("/404"@.len() != "/settings"@.len()); }
}

} // verus!
