//! Logging in, and the session tokens that stand for a login.
//!
//! A session token is a signed JSON object with four claims: `sub` and
//! `username` (the user's name), `iat` (when it was issued) and `exp` (when
//! it expires), both in seconds since the Unix epoch. It is valid for the
//! holder of the signing secret while the clock is before `exp`.

use vstd::prelude::*;
use crate::password::Password;
use crate::store::credentials_match;
use crate::store::Config;
use crate::token::json_number;
use crate::token::json_numbers;
use crate::token::json_object;
use crate::token::json_put_number;
use crate::token::json_put_text;
use crate::token::json_strings;
use crate::token::json_text;
use crate::token::plain_claims;
use crate::token::read_claims;
use crate::token::sign_claims;
use crate::token::token_payload;
use crate::token::unix_time;

verus! {

/// How long a session token is valid, in seconds: 24 hours.
pub const TOKEN_LIFETIME: u64 = 86400;

/// The secret that signs the session tokens. It is made once, when the
/// process starts, and handed to whoever issues or checks tokens.
pub struct JwtSecret {
    secret: Vec<u8>,
}

impl View for JwtSecret {
    type V = Seq<u8>;

    closed spec fn view(&self) -> Seq<u8> {
        self.secret@
    }
}

impl JwtSecret {
    pub fn new(secret: Vec<u8>) -> (key: JwtSecret)
        ensures
            key@ == secret@,
    {
        JwtSecret { secret }
    }
}

/// What a session token asserts.
#[derive(Debug)]
pub struct Claims {
    sub: String,
    pub username: String,
    iat: u64,
    exp: u64,
}

/// The claims of a session token as plain values.
pub struct ClaimsView {
    pub sub: Seq<char>,
    pub username: Seq<char>,
    pub iat: u64,
    pub exp: u64,
}

impl View for Claims {
    type V = ClaimsView;

    closed spec fn view(&self) -> ClaimsView {
        ClaimsView { sub: self.sub@, username: self.username@, iat: self.iat, exp: self.exp }
    }
}

/// The answer to a successful login.
#[derive(Debug)]
pub struct AuthBody {
    pub access_token: String,
    token_type: String,
}

/// The answer to a successful login as plain values.
pub struct AuthBodyView {
    pub access_token: Seq<char>,
    pub token_type: Seq<char>,
}

impl View for AuthBody {
    type V = AuthBodyView;

    closed spec fn view(&self) -> AuthBodyView {
        AuthBodyView { access_token: self.access_token@, token_type: self.token_type@ }
    }
}

/// A login attempt.
#[derive(Debug)]
pub struct AuthPayload {
    username: String,
    password: Password,
}

/// Why a login or a request was turned away.
#[derive(Clone, Copy, Debug, PartialEq, Eq, Structural)]
pub enum AuthError {
    WrongCredentials,
    MissingCredentials,
    TokenCreation,
    InvalidToken,
}

/// The claims in a token's payload: the four members must be there, the
/// names as strings and the times as integers.
pub open spec fn claims_of(strings: Map<Seq<char>, Seq<char>>, numbers: Map<Seq<char>, u64>) -> Option<
    ClaimsView,
> {
    if strings.contains_key("sub"@) && strings.contains_key("username"@) && numbers.contains_key(
        "iat"@,
    ) && numbers.contains_key("exp"@) {
        Some(
            ClaimsView {
                sub: strings["sub"@],
                username: strings["username"@],
                iat: numbers["iat"@],
                exp: numbers["exp"@],
            },
        )
    } else {
        None
    }
}

/// The claims that `token` carries for the holder of `secret`, whatever the
/// time: nothing where the signature is not the secret's or the payload is
/// not a set of claims.
pub open spec fn token_claims(secret: Seq<u8>, token: Seq<char>) -> Option<ClaimsView> {
    match token_payload(secret, token) {
        Some((strings, numbers)) => claims_of(strings, numbers),
        None => None,
    }
}

/// Claims are good at the time `now` while `now` is before their expiry.
pub open spec fn unexpired(claims: Option<ClaimsView>, now: u64) -> Option<ClaimsView> {
    match claims {
        Some(found) => if now < found.exp {
            Some(found)
        } else {
            None
        },
        None => None,
    }
}

/// The claims that `token` is valid for at the time `now`, if it is valid.
pub open spec fn valid_claims(secret: Seq<u8>, token: Seq<char>, now: u64) -> Option<ClaimsView> {
    unexpired(token_claims(secret, token), now)
}

/// `token` is what a login of `username` at the time `now` gets: it carries
/// the name, `now` as the time of issue, and an expiry 24 hours later.
pub open spec fn issued(secret: Seq<u8>, token: Seq<char>, username: Seq<char>, now: u64) -> bool {
    &&& now + TOKEN_LIFETIME <= u64::MAX
    &&& token_claims(secret, token) == Some(
        ClaimsView {
            sub: username,
            username: username,
            iat: now,
            exp: (now + TOKEN_LIFETIME) as u64,
        },
    )
}

/// What issuing a token to `username` at the time `now` answers: a bearer
/// token that is [`issued`] to the user at that time; or, where `now` is so
/// late that the expiry does not fit the clock's range, that no token could
/// be made.
pub open spec fn issue_answer(
    secret: Seq<u8>,
    username: Seq<char>,
    now: u64,
    answer: Result<AuthBody, AuthError>,
) -> bool {
    if now + TOKEN_LIFETIME <= u64::MAX {
        answer matches Ok(body) && issued(secret, body@.access_token, username, now)
            && body@.token_type == "Bearer"@
    } else {
        answer matches Err(e) && e == AuthError::TokenCreation
    }
}

/// `outcome` hands out exactly `expected`: the claims where there are some,
/// and else the one rejection that every failed check gives.
pub open spec fn grants(outcome: Result<Claims, AuthError>, expected: Option<ClaimsView>) -> bool {
    match expected {
        Some(claims) => outcome matches Ok(got) && got@ == claims,
        None => outcome matches Err(e) && e == AuthError::InvalidToken,
    }
}

/// The first token that is present among `candidates`, in their order.
pub open spec fn first_present(candidates: Seq<Option<String>>) -> Option<Seq<char>>
    decreases candidates.len(),
{
    if candidates.len() == 0 {
        None
    } else {
        match candidates[0] {
            Some(token) => Some(token@),
            None => first_present(candidates.drop_first()),
        }
    }
}

/// The token of a request: the bearer header's if it has one, else the
/// session cookie's.
pub open spec fn request_token(bearer: Option<String>, cookie: Option<String>) -> Option<Seq<char>> {
    match bearer {
        Some(token) => Some(token@),
        None => match cookie {
            Some(token) => Some(token@),
            None => None,
        },
    }
}

/// The token of a request is the first that is present of the bearer
/// header's and the session cookie's, in this order.
pub proof fn lemma_request_token_is_first(bearer: Option<String>, cookie: Option<String>)
    ensures
        request_token(bearer, cookie) == first_present(seq![bearer, cookie]),
{
    let both = seq![bearer, cookie];
    let second = both.drop_first();
    assert(second[0] == cookie);
    assert(second.drop_first().len() == 0);
    assert(first_present(second.drop_first()) is None);
    assert(first_present(second) == match cookie {
        Some(token) => Some(token@),
        None => None::<Seq<char>>,
    });
}

/// What the guard answers to a request at the time `now`.
pub open spec fn admitted(
    secret: Seq<u8>,
    bearer: Option<String>,
    cookie: Option<String>,
    now: u64,
) -> Option<ClaimsView> {
    match request_token(bearer, cookie) {
        Some(token) => valid_claims(secret, token, now),
        None => None,
    }
}

/// The four claim names are four different strings.
proof fn lemma_claim_names_differ()
    ensures
        "sub"@ != "username"@,
        "sub"@ != "iat"@,
        "sub"@ != "exp"@,
        "username"@ != "iat"@,
        "username"@ != "exp"@,
        "iat"@ != "exp"@,
{
    reveal_strlit("sub");
    reveal_strlit("username");
    reveal_strlit("iat");
    reveal_strlit("exp");
    assert("sub"@[0] == 's');
    assert("iat"@[0] == 'i');
    assert("exp"@[0] == 'e');
    assert("username"@.len() == 8);
}

impl Claims {
    /// The user the token was issued to.
    pub fn subject(&self) -> (name: &str)
        ensures
            name@ == self@.sub,
    {
        self.sub.as_str()
    }

    /// The user's name, as the public field has it.
    pub fn username(&self) -> (name: &str)
        ensures
            name@ == self@.username,
    {
        self.username.as_str()
    }

    /// When the token was issued, in seconds since the Unix epoch.
    pub fn issued_at(&self) -> (seconds: u64)
        ensures
            seconds == self@.iat,
    {
        self.iat
    }

    /// When the token expires, in seconds since the Unix epoch.
    pub fn expires_at(&self) -> (seconds: u64)
        ensures
            seconds == self@.exp,
    {
        self.exp
    }

    /// Reads the claims out of a token's payload.
    pub fn from_payload(payload: &serde_json::Map<String, serde_json::Value>) -> (claims: Option<
        Claims,
    >)
        ensures
            match claims {
                Some(found) => claims_of(json_strings(*payload), json_numbers(*payload)) == Some(
                    found@,
                ),
                None => claims_of(json_strings(*payload), json_numbers(*payload)) is None,
            },
    {
        let sub = json_text(payload, "sub");
        let username = json_text(payload, "username");
        let iat = json_number(payload, "iat");
        let exp = json_number(payload, "exp");
        match (sub, username, iat, exp) {
            (Some(sub), Some(username), Some(iat), Some(exp)) => Some(
                Claims { sub, username, iat, exp },
            ),
            _ => None,
        }
    }

    /// Decides on a token from what reading it gave: the claims where it
    /// could be read, holds claims and has not expired at `now`; the one
    /// rejection in every other case.
    pub fn accept(
        outcome: Result<serde_json::Map<String, serde_json::Value>, jsonwebtoken::errors::Error>,
        now: u64,
    ) -> (decision: Result<Claims, AuthError>)
        ensures
            match outcome {
                Ok(payload) => grants(
                    decision,
                    unexpired(claims_of(json_strings(payload), json_numbers(payload)), now),
                ),
                Err(_) => decision matches Err(e) && e == AuthError::InvalidToken,
            },
    {
        match outcome {
            Ok(payload) => match Claims::from_payload(&payload) {
                Some(claims) => if now < claims.exp {
                    Ok(claims)
                } else {
                    Err(AuthError::InvalidToken)
                },
                None => Err(AuthError::InvalidToken),
            },
            Err(_) => Err(AuthError::InvalidToken),
        }
    }

    /// Checks a session token at the time `now`: its signature, its claims
    /// and its expiry. A token that fails any of these is rejected in one and
    /// the same way.
    pub fn validate(secret: &JwtSecret, token: &str, now: u64) -> (decision: Result<
        Claims,
        AuthError,
    >)
        ensures
            grants(decision, valid_claims(secret@, token@, now)),
    {
        Claims::accept(read_claims(secret.secret.as_slice(), token), now)
    }

    /// The guard in front of every protected operation, at the time `now`:
    /// takes the bearer header's token if the request has one, else the
    /// session cookie's, and checks it.
    pub fn authenticate(
        bearer: Option<String>,
        cookie: Option<String>,
        secret: &JwtSecret,
        now: u64,
    ) -> (decision: Result<Claims, AuthError>)
        ensures
            grants(decision, admitted(secret@, bearer, cookie, now)),
    {
        let candidates = vec![bearer, cookie];
        proof {
            assert(candidates@ =~= seq![bearer, cookie]);
            lemma_request_token_is_first(bearer, cookie);
        }
        match first_token(&candidates) {
            Some(token) => Claims::validate(secret, token.as_str(), now),
            None => Err(AuthError::InvalidToken),
        }
    }

    /// The guard as a request meets it, by the system clock. The caller
    /// hands in what it found in the request: the token of the bearer
    /// header, and the value of the session cookie once its own signature
    /// has been checked.
    ///
    /// The clock is read here, so the contract holds for whatever time it
    /// showed: a request is turned away in one way only, a request without a
    /// token or with a token that carries no claims is always turned away,
    /// and claims that are handed out are those of the request's token.
    pub fn from_request_parts(
        bearer: Option<String>,
        cookie: Option<String>,
        secret: &JwtSecret,
    ) -> (decision: Result<Claims, AuthError>)
        ensures
            exists|now: u64| #[trigger] grants(decision, admitted(secret@, bearer, cookie, now)),
            decision matches Err(e) ==> e == AuthError::InvalidToken,
            decision matches Ok(claims) ==> request_token(bearer, cookie) matches Some(token)
                && token_claims(secret@, token) == Some(claims@),
            request_token(bearer, cookie) is None ==> decision is Err,
            request_token(bearer, cookie) matches Some(token) && token_claims(secret@, token)
                is None ==> decision is Err,
    {
        let now = unix_time();
        Claims::authenticate(bearer, cookie, secret, now)
    }
}

/// The first token that is present among `candidates`, in their order.
pub fn first_token(candidates: &Vec<Option<String>>) -> (token: Option<String>)
    ensures
        match token {
            Some(found) => first_present(candidates@) == Some(found@),
            None => first_present(candidates@) is None,
        },
{
    let mut next: usize = 0;
    assert(candidates@.skip(0) =~= candidates@);
    while next < candidates.len()
        invariant
            next <= candidates@.len(),
            first_present(candidates@) == first_present(candidates@.skip(next as int)),
        decreases candidates@.len() - next,
    {
        proof {
            let rest = candidates@.skip(next as int);
            assert(rest[0] == candidates@[next as int]);
            assert(rest.drop_first() =~= candidates@.skip(next + 1));
        }
        match &candidates[next] {
            Some(token) => {
                return Some(token.clone());
            },
            None => {},
        }
        next = next + 1;
    }
    None
}

impl AuthBody {
    /// The answer that carries `access_token` as a bearer token.
    pub fn new(access_token: String) -> (body: AuthBody)
        ensures
            body@.access_token == access_token@,
            body@.token_type == "Bearer"@,
    {
        AuthBody { access_token, token_type: "Bearer".to_owned() }
    }

    pub fn access_token(&self) -> (token: &str)
        ensures
            token@ == self@.access_token,
    {
        self.access_token.as_str()
    }

    pub fn token_type(&self) -> (kind: &str)
        ensures
            kind@ == self@.token_type,
    {
        self.token_type.as_str()
    }

    /// Turns what signing gave into the answer to a login.
    pub fn from_signing(outcome: Result<String, jsonwebtoken::errors::Error>) -> (answer: Result<
        AuthBody,
        AuthError,
    >)
        ensures
            match outcome {
                Ok(token) => answer matches Ok(body) && body@.access_token == token@
                    && body@.token_type == "Bearer"@,
                Err(_) => answer matches Err(e) && e == AuthError::TokenCreation,
            },
    {
        match outcome {
            Ok(token) => Ok(AuthBody::new(token)),
            Err(_) => Err(AuthError::TokenCreation),
        }
    }
}

impl AuthPayload {
    pub closed spec fn username_view(&self) -> Seq<char> {
        self.username@
    }

    pub closed spec fn password_view(&self) -> Seq<char> {
        self.password@
    }

    pub fn new(username: String, password: Password) -> (payload: AuthPayload)
        ensures
            payload.username_view() == username@,
            payload.password_view() == password@,
    {
        AuthPayload { username, password }
    }
}

impl AuthError {
    /// The HTTP status that goes with the error.
    pub open spec fn status_of(self) -> u16 {
        match self {
            AuthError::WrongCredentials => 401,
            AuthError::MissingCredentials => 400,
            AuthError::TokenCreation => 500,
            AuthError::InvalidToken => 401,
        }
    }

    /// The text that goes with the error. It says which kind of check
    /// failed, never which part of a credential or of a token was wrong.
    pub open spec fn message_of(self) -> Seq<char> {
        match self {
            AuthError::WrongCredentials => "Wrong credentials"@,
            AuthError::MissingCredentials => "Missing credentials"@,
            AuthError::TokenCreation => "Token creation error"@,
            AuthError::InvalidToken => "Invalid token"@,
        }
    }

    pub fn status(&self) -> (code: u16)
        ensures
            code == self.status_of(),
    {
        match self {
            AuthError::WrongCredentials => 401,
            AuthError::MissingCredentials => 400,
            AuthError::TokenCreation => 500,
            AuthError::InvalidToken => 401,
        }
    }

    pub fn message(&self) -> (text: &'static str)
        ensures
            text@ == self.message_of(),
    {
        match self {
            AuthError::WrongCredentials => "Wrong credentials",
            AuthError::MissingCredentials => "Missing credentials",
            AuthError::TokenCreation => "Token creation error",
            AuthError::InvalidToken => "Invalid token",
        }
    }
}

/// Issues the session token of a login of `username` at the time `now`: a
/// bearer token that carries the name, `now` as the time of issue and an
/// expiry 24 hours later. Only where `now` is so late that the expiry does
/// not fit the clock's range is no token made.
pub fn issue(secret: &JwtSecret, username: &str, now: u64) -> (answer: Result<AuthBody, AuthError>)
    ensures
        issue_answer(secret@, username@, now, answer),
{
    if now > u64::MAX - TOKEN_LIFETIME {
        return Err(AuthError::TokenCreation);
    }
    let exp: u64 = now + TOKEN_LIFETIME;
    let mut claims = json_object();
    json_put_text(&mut claims, "sub", username);
    json_put_text(&mut claims, "username", username);
    json_put_number(&mut claims, "iat", now);
    json_put_number(&mut claims, "exp", exp);
    proof {
        lemma_claim_names_differ();
        assert(claims_of(json_strings(claims), json_numbers(claims)) == Some(
            ClaimsView { sub: username@, username: username@, iat: now, exp: exp },
        ));
        assert(plain_claims(claims));
    }
    AuthBody::from_signing(sign_claims(secret.secret.as_slice(), &claims))
}

/// What a login attempt is answered with before any token is made: nothing
/// yet where the attempt names the stored credential.
pub open spec fn refusal(
    store: crate::store::StoreView,
    username: Seq<char>,
    password: Seq<char>,
) -> Option<AuthError> {
    if username.len() == 0 || password.len() == 0 {
        Some(AuthError::MissingCredentials)
    } else if !credentials_match(store, username, password) {
        Some(AuthError::WrongCredentials)
    } else {
        None
    }
}

/// What a login attempt is answered with at the time `now`: the refusal
/// where there is one, and else what issuing a token to the user answers.
pub open spec fn login_answer(
    secret: Seq<u8>,
    store: crate::store::StoreView,
    username: Seq<char>,
    password: Seq<char>,
    now: u64,
    answer: Result<AuthBody, AuthError>,
) -> bool {
    match refusal(store, username, password) {
        Some(error) => answer matches Err(e) && e == error,
        None => issue_answer(secret, username, now, answer),
    }
}

/// A login at the time `now`: checks that name and password are there and
/// are the stored credential, then issues a token.
pub fn authorize_at(config: &Config, secret: &JwtSecret, payload: AuthPayload, now: u64) -> (answer:
    Result<AuthBody, AuthError>)
    ensures
        login_answer(
            secret@,
            config@,
            payload.username_view(),
            payload.password_view(),
            now,
            answer,
        ),
{
    if payload.username.as_str().is_empty() || payload.password.is_empty() {
        return Err(AuthError::MissingCredentials);
    }
    let AuthPayload { username, password } = payload;
    match config.auth_user(username.as_str(), password) {
        Some(_) => issue(secret, username.as_str(), now),
        None => Err(AuthError::WrongCredentials),
    }
}

/// A login by the system clock.
///
/// The clock is read here, so the contract holds for whatever time it
/// showed: the answer is what [`login_answer`] says for some time. So an
/// attempt that lacks a name or a password, or that does not name the stored
/// credential, is refused as [`refusal`] says, and any other gets a bearer
/// token issued at that time, unless the clock stands within 24 hours of the
/// end of its range.
pub fn authorize(config: &Config, secret: &JwtSecret, payload: AuthPayload) -> (answer: Result<
    AuthBody,
    AuthError,
>)
    ensures
        exists|now: u64| #[trigger]
            login_answer(
                secret@,
                config@,
                payload.username_view(),
                payload.password_view(),
                now,
                answer,
            ),
        refusal(config@, payload.username_view(), payload.password_view()) matches Some(error)
            ==> answer matches Err(e) && e == error,
        answer matches Ok(body) ==> body@.token_type == "Bearer"@,
{
    let now = unix_time();
    authorize_at(config, secret, payload, now)
}

/// A token that was issued to a user is valid for that user at every time
/// before 24 hours have passed since it was issued, and at no time from then
/// on.
pub proof fn lemma_issued_token_valid_until_expiry(
    secret: Seq<u8>,
    token: Seq<char>,
    username: Seq<char>,
    issued_at: u64,
    now: u64,
)
    requires
        issued(secret, token, username, issued_at),
    ensures
        now < issued_at + TOKEN_LIFETIME ==> (valid_claims(secret, token, now) matches Some(claims)
            && claims.sub == username && claims.username == username),
        now >= issued_at + TOKEN_LIFETIME ==> valid_claims(secret, token, now) is None,
{
}

/// A request is let through only on claims that its own token carries and
/// that have not expired, and it is turned away in one way whatever was
/// wrong with it: no token, a token that was not signed with the secret, a
/// payload without the claims, or claims that have expired.
pub proof fn lemma_one_rejection(
    secret: Seq<u8>,
    bearer: Option<String>,
    cookie: Option<String>,
    now: u64,
    decision: Result<Claims, AuthError>,
)
    requires
        grants(decision, admitted(secret, bearer, cookie, now)),
    ensures
        decision matches Err(e) ==> e == AuthError::InvalidToken && e.status_of() == 401,
        decision matches Ok(claims) ==> request_token(bearer, cookie) matches Some(token)
            && token_claims(secret, token) == Some(claims@) && now < claims@.exp,
        request_token(bearer, cookie) matches Some(token) && token_claims(secret, token) is None
            ==> decision is Err,
{
}

} // verus!
