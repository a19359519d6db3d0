//! What each operation of the HTTP surface answers, given what the store
//! and the guard said. The transport around it (reading requests, taking the
//! lock, writing the file, sending responses) is the caller's.

use vstd::prelude::*;
use vstd::string::StringExecFns;
use crate::auth::AuthBody;
use crate::auth::AuthError;
use crate::auth::Claims;
use crate::store::Config;
use crate::store::Link;
use crate::store::StoreError;
use crate::store::distinct_keys;
use crate::store::links_map;

verus! {

/// The name of the cookie that carries the session token.
pub const SESSION_COOKIE: &'static str = "bearer_token";

/// The body of the answer to a login by cookie.
#[derive(Clone, Copy, Debug, PartialEq, Eq, Structural)]
pub struct LoginStatus {
    pub success: bool,
}

/// The body of a request to delete a link.
#[derive(Debug)]
pub struct DeletePayload {
    pub short: String,
}

/// The cookie that a login sets: the session token, out of reach of
/// scripts, sent only to this site and only over TLS.
#[derive(Debug)]
pub struct SessionCookie {
    pub name: String,
    pub value: String,
    pub http_only: bool,
    pub same_site_strict: bool,
    pub secure: bool,
}

/// The answer to a request on the links.
#[derive(Debug)]
pub enum Reply {
    /// 200, with nothing to say.
    Done,
    /// 200, with the links.
    Links(Vec<Link>),
    /// 201, with the link that was created.
    Created(Link),
    /// 307, to the URL that a short key stands for.
    Redirect(String),
    /// 404: the short key is not in the store.
    NotFound,
    /// 502: the store could not be written out.
    BadGateway,
}

/// What a visit of the site's own pages is answered with.
#[derive(Debug)]
pub enum Page {
    /// The start page, for the user who is logged in.
    Index(String),
    /// The login form.
    LoginForm,
    /// A redirect to another path of the site.
    Redirect(String),
}

/// The answer to the question who is logged in.
#[derive(Debug)]
pub struct Welcome {
    pub message: String,
    pub username: String,
}

impl Reply {
    /// The HTTP status of the answer.
    pub open spec fn status_of(self) -> u16 {
        match self {
            Reply::Done => 200,
            Reply::Links(_) => 200,
            Reply::Created(_) => 201,
            Reply::Redirect(_) => 307,
            Reply::NotFound => 404,
            Reply::BadGateway => 502,
        }
    }

    pub fn status(&self) -> (code: u16)
        ensures
            code == self.status_of(),
    {
        match self {
            Reply::Done => 200,
            Reply::Links(_) => 200,
            Reply::Created(_) => 201,
            Reply::Redirect(_) => 307,
            Reply::NotFound => 404,
            Reply::BadGateway => 502,
        }
    }
}

/// The start page: for a user who is logged in the page itself, for anyone
/// else the way to the login form.
pub fn home(claims: Option<Claims>) -> (page: Page)
    ensures
        match claims {
            Some(user) => page matches Page::Index(name) && name@ == user@.username,
            None => page matches Page::Redirect(to) && to@ == "/login"@,
        },
{
    match claims {
        Some(user) => Page::Index(user.username().to_owned()),
        None => Page::Redirect("/login".to_owned()),
    }
}

/// The login page: the form, or the way to the start page for a user who
/// is logged in already.
pub fn login(claims: Option<Claims>) -> (page: Page)
    ensures
        match claims {
            Some(_) => page matches Page::Redirect(to) && to@ == "/"@,
            None => page is LoginForm,
        },
{
    match claims {
        Some(_) => Page::Redirect("/".to_owned()),
        None => Page::LoginForm,
    }
}

/// Tells a user who is logged in their name, with a greeting.
pub fn current_user(claims: Claims) -> (welcome: Welcome)
    ensures
        welcome.username@ == claims@.username,
        welcome.message@ == "Welcome "@ + claims@.username + "!"@,
{
    let message = "Welcome ".to_owned().concat(claims.username()).concat("!");
    Welcome { message, username: claims.username().to_owned() }
}

/// A visit of a short key: a redirect to its URL, or not found.
pub fn goto(config: &Config, short: &str) -> (reply: Reply)
    requires
        config.wf(),
    ensures
        match config@.lookup(short@) {
            Some(url) => reply matches Reply::Redirect(to) && to@ == url,
            None => reply is NotFound,
        },
{
    match config.get_link(short) {
        Some(url) => Reply::Redirect(url.clone()),
        None => Reply::NotFound,
    }
}

/// The list of all links: each short key once, with its URL.
pub fn get_links(config: &Config) -> (reply: Reply)
    requires
        config.wf(),
    ensures
        reply matches Reply::Links(entries) && distinct_keys(entries@) && links_map(entries@)
            == config@.links,
{
    Reply::Links(config.links_iter())
}

/// The answer to the creation of a link, once the link is in the store and
/// the store was written out, or could not be.
pub fn create_link(payload: Link, saved: Result<(), StoreError>) -> (reply: Reply)
    ensures
        match saved {
            Ok(_) => reply matches Reply::Created(link) && link == payload,
            Err(_) => reply is BadGateway,
        },
{
    match saved {
        Ok(_) => Reply::Created(payload),
        Err(_) => Reply::BadGateway,
    }
}

/// The answer to the deletion of a link, given how removing it and writing
/// the store out went.
pub fn delete_link(removed: Result<String, StoreError>) -> (reply: Reply)
    ensures
        match removed {
            Ok(_) => reply is Done,
            Err(StoreError::NotFound) => reply is NotFound,
            Err(StoreError::Persistence) => reply is BadGateway,
        },
{
    match removed {
        Ok(_) => Reply::Done,
        Err(StoreError::NotFound) => Reply::NotFound,
        Err(StoreError::Persistence) => Reply::BadGateway,
    }
}

/// The answer to a login by cookie: the session cookie with the token, or
/// the error of the login.
pub fn login_post(token: Result<AuthBody, AuthError>) -> (answer: Result<
    (SessionCookie, LoginStatus),
    AuthError,
>)
    ensures
        match token {
            Ok(body) => answer matches Ok((cookie, status)) && cookie.name@ == SESSION_COOKIE@
                && cookie.value@ == body@.access_token && cookie.http_only
                && cookie.same_site_strict && cookie.secure && status.success,
            Err(error) => answer matches Err(e) && e == error,
        },
{
    match token {
        Ok(body) => {
            let cookie = SessionCookie {
                name: SESSION_COOKIE.to_owned(),
                value: body.access_token().to_owned(),
                http_only: true,
                same_site_strict: true,
                secure: true,
            };
            Ok((cookie, LoginStatus { success: true }))
        },
        Err(error) => Err(error),
    }
}

} // verus!
