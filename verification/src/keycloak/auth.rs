//! The bearer token: how it is asked for, how long it may be used, and when
//! it is renewed.
//!
//! [`KeycloakAuth`] caches one token. It never talks to the provider itself:
//! [`TokenProvider::get_access_token`] either hands out the cached access
//! token or says which request has to be sent first, and takes the reply to
//! that request in a second call.

use vstd::prelude::*;
use vstd::string::*;
use crate::clock::{Timestamp, NANOS_PER_SEC};
use crate::config::KeycloakConfig;
use crate::error::{Error, ErrorView, RequestError};
use crate::keycloak::request::{Method, Request, RequestView};

verus! {

/// Seconds by which every expiry is brought forward, so that a token is not
/// handed out moments before the provider stops accepting it.
pub const TIMEBUFFER: u64 = 3;

/// What the token endpoint answers to a grant or a refresh.
#[derive(Debug, Clone, PartialEq, Eq)]
pub struct KeycloakTokenResponse {
    pub access_token: String,
    /// Lifetime of the access token in seconds.
    pub expires_in: u64,
    /// Absent where the provider grants no refresh.
    pub refresh_token: Option<String>,
    /// Lifetime of the refresh token in seconds.
    pub refresh_expires_in: u64,
}

/// A token with the instants from which on its two parts count as expired.
///
/// Both instants already have [`TIMEBUFFER`] taken off. An empty refresh
/// token means that the provider granted none.
#[derive(Debug, Clone, PartialEq, Eq)]
pub struct KeycloakToken {
    access_token: String,
    access_token_expiration: i128,
    refresh_token: String,
    refresh_token_expiration: i128,
}

/// [`KeycloakToken`] with texts as character sequences and instants in
/// nanoseconds since the Unix epoch.
pub struct TokenView {
    pub access_token: Seq<char>,
    pub access_token_expiration: int,
    pub refresh_token: Seq<char>,
    pub refresh_token_expiration: int,
}

impl View for KeycloakToken {
    type V = TokenView;

    closed spec fn view(&self) -> TokenView {
        TokenView {
            access_token: self.access_token@,
            access_token_expiration: self.access_token_expiration as int,
            refresh_token: self.refresh_token@,
            refresh_token_expiration: self.refresh_token_expiration as int,
        }
    }
}

impl KeycloakToken {
    /// The access token.
    pub fn access_token(&self) -> (token: &String)
        ensures
            token@ == self@.access_token,
    {
        &self.access_token
    }

    /// The refresh token; empty where the provider granted none.
    pub fn refresh_token(&self) -> (token: &String)
        ensures
            token@ == self@.refresh_token,
    {
        &self.refresh_token
    }

    /// The instant from which on the access token counts as expired, in
    /// nanoseconds since the Unix epoch.
    pub fn access_token_expiration(&self) -> (instant: i128)
        ensures
            instant == self@.access_token_expiration,
    {
        self.access_token_expiration
    }

    /// The instant from which on the refresh token counts as expired, in
    /// nanoseconds since the Unix epoch.
    pub fn refresh_token_expiration(&self) -> (instant: i128)
        ensures
            instant == self@.refresh_token_expiration,
    {
        self.refresh_token_expiration
    }
}

/// The instant from which on a token counts as expired that was asked for at
/// `request_time` and lives `lifetime` seconds: the end of its life, less the
/// safety buffer. Instants are in nanoseconds since the Unix epoch.
pub open spec fn expiration(request_time: int, lifetime: u64) -> int {
    request_time + (lifetime - TIMEBUFFER) * NANOS_PER_SEC
}

/// The token that a response stands for, when the request was sent at
/// `request_time`.
pub open spec fn formatted_token(response: KeycloakTokenResponse, request_time: int) -> TokenView {
    TokenView {
        access_token: response.access_token@,
        access_token_expiration: expiration(request_time, response.expires_in),
        refresh_token: match response.refresh_token {
            Some(token) => token@,
            None => Seq::empty(),
        },
        refresh_token_expiration: expiration(request_time, response.refresh_expires_in),
    }
}

/// Whether the access token may still be used at `now`.
pub open spec fn access_token_valid_at(token: TokenView, now: int) -> bool {
    token.access_token_expiration > now
}

/// Whether the refresh token may still be used at `now`.
pub open spec fn refresh_token_valid_at(token: TokenView, now: int) -> bool {
    token.refresh_token_expiration > now
}

/// Whether a refresh is to be had at `now`: the provider granted a refresh
/// token, and it may still be used. The empty refresh token stands for none.
pub open spec fn refresh_available_at(token: TokenView, now: int) -> bool {
    token.refresh_token.len() > 0 && refresh_token_valid_at(token, now)
}

/// Whether one of the two expiries of `token` is still ahead at `now`. This
/// goes by the instants alone, whether or not a refresh token was granted.
pub open spec fn token_usable_at(token: Option<TokenView>, now: int) -> bool {
    match token {
        Some(token) => access_token_valid_at(token, now) || refresh_token_valid_at(token, now),
        None => false,
    }
}

/// Tests if the access token is still valid.
pub fn access_token_is_valid(token: &KeycloakToken, now: &Timestamp) -> (valid: bool)
    ensures
        valid == access_token_valid_at(token@, now@),
{
    token.access_token_expiration > now.as_nanos()
}

/// Tests if the refresh token is still valid.
pub fn refresh_token_is_valid(token: &KeycloakToken, now: &Timestamp) -> (valid: bool)
    ensures
        valid == refresh_token_valid_at(token@, now@),
{
    token.refresh_token_expiration > now.as_nanos()
}

/// The instant [`expiration`] as a number of the machine. It always fits.
fn expiration_of(request_time: &Timestamp, lifetime: u64) -> (expiry: i128)
    ensures
        expiry == expiration(request_time@, lifetime),
{
    let start: i128 = request_time.as_nanos();
    let secs: i128 = lifetime as i128 - TIMEBUFFER as i128;
    assert(-0x1_0000_0000_0000_0000_0000_0000 < secs * NANOS_PER_SEC
        < 0x1_0000_0000_0000_0000_0000_0000) by (nonlinear_arith)
        requires
            -3 <= secs <= 0xffff_ffff_ffff_ffff,
            NANOS_PER_SEC == 1_000_000_000,
    ;
    start + secs * (NANOS_PER_SEC as i128)
}

/// Turns the response of the token endpoint into a token.
///
/// `request_time` is the reading of the clock just before the request was
/// sent, not after the response came: the expiries err on the early side. An
/// absent refresh token becomes the empty one.
pub fn format_token(response: KeycloakTokenResponse, request_time: &Timestamp) -> (token:
    KeycloakToken)
    ensures
        token@ == formatted_token(response, request_time@),
{
    let access_token_expiration = expiration_of(request_time, response.expires_in);
    let refresh_token_expiration = expiration_of(request_time, response.refresh_expires_in);
    let refresh_token = match response.refresh_token {
        Some(token) => token,
        None => String::new(),
    };
    KeycloakToken {
        access_token: response.access_token,
        access_token_expiration,
        refresh_token,
        refresh_token_expiration,
    }
}

/// Address of the realm's token endpoint.
pub open spec fn token_url(config: KeycloakConfig) -> Seq<char> {
    config.url@ + "/realms/"@ + config.realm@ + "/protocol/openid-connect/token"@
}

/// Whether the configuration names a user to log in as.
pub open spec fn has_user_credentials(config: KeycloakConfig) -> bool {
    config.username is Some && config.password is Some
}

/// The form of a grant request. With a username and a password configured it
/// asks for the password grant and carries both; otherwise it asks for the
/// client-credentials grant and carries neither.
pub open spec fn grant_form(config: KeycloakConfig) -> Seq<(Seq<char>, Seq<char>)> {
    if has_user_credentials(config) {
        seq![
            ("grant_type"@, "password"@),
            ("client_id"@, config.client_id@),
            ("client_secret"@, config.client_secret@),
            ("username"@, config.username->0@),
            ("password"@, config.password->0@),
        ]
    } else {
        seq![
            ("grant_type"@, "client_credentials"@),
            ("client_id"@, config.client_id@),
            ("client_secret"@, config.client_secret@),
        ]
    }
}

/// The form of a refresh request for `refresh_token`.
pub open spec fn refresh_form(config: KeycloakConfig, refresh_token: Seq<char>) -> Seq<
    (Seq<char>, Seq<char>),
> {
    seq![
        ("grant_type"@, "refresh_token"@),
        ("client_id"@, config.client_id@),
        ("client_secret"@, config.client_secret@),
        ("refresh_token"@, refresh_token),
    ]
}

/// The request that asks for a new token.
pub open spec fn grant_request(config: KeycloakConfig) -> RequestView {
    RequestView {
        method: Method::Post,
        url: token_url(config),
        bearer: None,
        params: grant_form(config),
    }
}

/// The request that renews a token by its refresh token.
pub open spec fn refresh_request(config: KeycloakConfig, refresh_token: Seq<char>) -> RequestView {
    RequestView {
        method: Method::Post,
        url: token_url(config),
        bearer: None,
        params: refresh_form(config, refresh_token),
    }
}

fn token_endpoint(config: &KeycloakConfig) -> (url: String)
    ensures
        url@ == token_url(*config),
{
    let mut url = config.url.clone();
    url.append("/realms/");
    url.append(config.realm.as_str());
    url.append("/protocol/openid-connect/token");
    url
}

fn param(name: &str, value: &String) -> (p: (String, String))
    ensures
        p.deep_view() == (name@, value@),
{
    (name.to_owned(), value.clone())
}

/// Describes the request for a new token, by the grant that the
/// configuration selects.
pub fn get_token(config: &KeycloakConfig) -> (request: Request)
    ensures
        request@ == grant_request(*config),
{
    let mut params: Vec<(String, String)> = Vec::new();
    match (&config.username, &config.password) {
        (Some(username), Some(password)) => {
            params.push(("grant_type".to_owned(), "password".to_owned()));
            params.push(param("client_id", &config.client_id));
            params.push(param("client_secret", &config.client_secret));
            params.push(param("username", username));
            params.push(param("password", password));
        },
        _ => {
            params.push(("grant_type".to_owned(), "client_credentials".to_owned()));
            params.push(param("client_id", &config.client_id));
            params.push(param("client_secret", &config.client_secret));
        },
    }
    assert(params.deep_view() =~= grant_form(*config));
    Request { method: Method::Post, url: token_endpoint(config), bearer: None, params }
}

/// Describes the request that renews `token` by its refresh token.
pub fn refresh_token(config: &KeycloakConfig, token: &KeycloakToken) -> (request: Request)
    ensures
        request@ == refresh_request(*config, token@.refresh_token),
{
    let mut params: Vec<(String, String)> = Vec::new();
    params.push(("grant_type".to_owned(), "refresh_token".to_owned()));
    params.push(param("client_id", &config.client_id));
    params.push(param("client_secret", &config.client_secret));
    params.push(param("refresh_token", &token.refresh_token));
    assert(params.deep_view() =~= refresh_form(*config, token@.refresh_token));
    Request { method: Method::Post, url: token_endpoint(config), bearer: None, params }
}

/// Where a token cache stands at some instant.
pub enum TokenState {
    /// No token was ever fetched.
    Empty,
    /// The access token may be used.
    Valid,
    /// The access token has expired; there is a refresh token, and it has
    /// not expired.
    Refreshable,
    /// The access token has expired, and the refresh token has expired or
    /// was never granted.
    Stale,
}

/// The state of a cache that holds `token`, at `now`.
pub open spec fn token_state(token: Option<TokenView>, now: int) -> TokenState {
    match token {
        None => TokenState::Empty,
        Some(token) => if access_token_valid_at(token, now) {
            TokenState::Valid
        } else if refresh_available_at(token, now) {
            TokenState::Refreshable
        } else {
            TokenState::Stale
        },
    }
}

/// What the caller of [`TokenProvider::get_access_token`] has to do next.
#[derive(Debug, Clone, PartialEq, Eq)]
pub enum TokenStep {
    /// Nothing: here is an access token.
    Ready(String),
    /// Send this request, then call again with the reply.
    Send(Request),
    /// Give up: no token could be had.
    Failed(Error),
}

/// [`TokenStep`] with texts as character sequences.
pub enum TokenStepView {
    Ready(Seq<char>),
    Send(RequestView),
    Failed(ErrorView),
}

impl View for TokenStep {
    type V = TokenStepView;

    open spec fn view(&self) -> TokenStepView {
        match self {
            TokenStep::Ready(token) => TokenStepView::Ready(token@),
            TokenStep::Send(request) => TokenStepView::Send(request@),
            TokenStep::Failed(error) => TokenStepView::Failed(error@),
        }
    }
}

/// What the token endpoint said, or why nothing usable came back.
pub type TokenReply = Result<KeycloakTokenResponse, RequestError>;

/// The token that a cache holds after a call of
/// [`TokenProvider::get_access_token`].
///
/// Only a successful reply changes the cache, and it replaces the token
/// whole. Without a reply, and after a failed one, the cache is as before.
pub open spec fn token_after(
    token: Option<TokenView>,
    now: int,
    reply: Option<TokenReply>,
) -> Option<TokenView> {
    match reply {
        Some(Ok(response)) => Some(formatted_token(response, now)),
        _ => token,
    }
}

/// What a call of [`TokenProvider::get_access_token`] answers.
///
/// Without a reply the state of the cache decides: a valid access token is
/// handed out as it is; an expired one is renewed by the refresh token where
/// one was granted and is still valid; in every other case a new token is
/// asked for by a full grant. No refresh is ever asked for with an empty
/// refresh token. A reply is
/// the answer to such a request: a response yields its access token, a
/// failure is passed on as [`Error::Auth`].
pub open spec fn step_after(
    config: KeycloakConfig,
    token: Option<TokenView>,
    now: int,
    reply: Option<TokenReply>,
) -> TokenStepView {
    match reply {
        Some(Ok(response)) => TokenStepView::Ready(response.access_token@),
        Some(Err(cause)) => TokenStepView::Failed(ErrorView::Auth(cause@)),
        None => match token_state(token, now) {
            TokenState::Valid => TokenStepView::Ready(token->0.access_token),
            TokenState::Refreshable => TokenStepView::Send(
                refresh_request(config, token->0.refresh_token),
            ),
            TokenState::Empty | TokenState::Stale => TokenStepView::Send(grant_request(config)),
        },
    }
}

/// A source of access tokens that keeps track of their validity.
pub trait TokenProvider {
    /// Hands out an access token that is valid at `now`, or says what has to
    /// happen first.
    ///
    /// Call it without a reply. Where it answers [`TokenStep::Send`], send
    /// that request and call again, with the outcome as `reply` and with the
    /// same `now`: the reading of the clock from before the request.
    fn get_access_token(&mut self, now: Timestamp, reply: Option<TokenReply>) -> TokenStep;

    /// Whether the access token or the refresh token may still be used at `now`.
    fn has_valid_token(&self, now: Timestamp) -> bool;
}

/// The token cache of one Keycloak client.
pub struct KeycloakAuth<'a> {
    keycloak_config: &'a KeycloakConfig,
    token: Option<KeycloakToken>,
}

impl<'a> KeycloakAuth<'a> {
    /// The configuration that the cache asks for tokens with.
    pub closed spec fn config(&self) -> KeycloakConfig {
        *self.keycloak_config
    }

    /// The token that the cache holds.
    pub closed spec fn token(&self) -> Option<TokenView> {
        match self.token {
            Some(token) => Some(token@),
            None => None,
        }
    }

    /// What is left of a life that ends at `expiration`, at `now`, if it has
    /// not ended before.
    pub open spec fn remaining(expiration: int, now: int) -> Option<u128> {
        if expiration >= now {
            Some((expiration - now) as u128)
        } else {
            None
        }
    }

    /// A cache for `keycloak_config` that holds no token yet. No token is
    /// asked for before the first call of
    /// [`TokenProvider::get_access_token`].
    pub fn new(keycloak_config: &'a KeycloakConfig) -> (auth: Result<KeycloakAuth<'a>, Error>)
        ensures
            auth is Ok,
            auth->Ok_0.config() == *keycloak_config,
            auth->Ok_0.token() is None,
    {
        Ok(KeycloakAuth { keycloak_config, token: None })
    }

    /// Nanoseconds from `now` until the access token expires. `None` without
    /// a token and after the expiry.
    pub fn access_token_expires_in(&self, now: Timestamp) -> (left: Option<u128>)
        ensures
            left == match self.token() {
                Some(token) => Self::remaining(token.access_token_expiration, now@),
                None => None,
            },
    {
        match &self.token {
            Some(token) => nanos_between(token.access_token_expiration, &now),
            None => None,
        }
    }

    /// Nanoseconds from `now` until the refresh token expires. `None` without
    /// a token and after the expiry.
    pub fn refresh_token_expires_in(&self, now: Timestamp) -> (left: Option<u128>)
        ensures
            left == match self.token() {
                Some(token) => Self::remaining(token.refresh_token_expiration, now@),
                None => None,
            },
    {
        match &self.token {
            Some(token) => nanos_between(token.refresh_token_expiration, &now),
            None => None,
        }
    }
}

fn nanos_between(expiration: i128, now: &Timestamp) -> (left: Option<u128>)
    ensures
        left == KeycloakAuth::remaining(expiration as int, now@),
{
    let current: i128 = now.as_nanos();
    if expiration >= current {
        Some((expiration - current) as u128)
    } else {
        None
    }
}

impl<'a> TokenProvider for KeycloakAuth<'a> {
    fn get_access_token(&mut self, now: Timestamp, reply: Option<TokenReply>) -> (step: TokenStep)
        ensures
            final(self).config() == old(self).config(),
            final(self).token() == token_after(old(self).token(), now@, reply),
            step@ == step_after(old(self).config(), old(self).token(), now@, reply),
    {
        match reply {
            Some(Ok(response)) => {
                let token = format_token(response, &now);
                let access_token = token.access_token.clone();
                self.token = Some(token);
                TokenStep::Ready(access_token)
            },
            Some(Err(cause)) => TokenStep::Failed(Error::Auth(cause)),
            None => match &self.token {
                Some(token) => {
                    if access_token_is_valid(token, &now) {
                        TokenStep::Ready(token.access_token.clone())
                    } else if !token.refresh_token.as_str().is_empty() && refresh_token_is_valid(
                        token,
                        &now,
                    ) {
                        TokenStep::Send(refresh_token(self.keycloak_config, token))
                    } else {
                        TokenStep::Send(get_token(self.keycloak_config))
                    }
                },
                None => TokenStep::Send(get_token(self.keycloak_config)),
            },
        }
    }

    fn has_valid_token(&self, now: Timestamp) -> (valid: bool)
        ensures
            valid == token_usable_at(self.token(), now@),
    {
        match &self.token {
            Some(token) => access_token_is_valid(token, &now) || refresh_token_is_valid(
                token,
                &now,
            ),
            None => false,
        }
    }
}

/// The text of a string literal differs from that of another, given one
/// position at which they differ.
proof fn lemma_texts_differ(a: Seq<char>, b: Seq<char>, at: int)
    requires
        0 <= at < a.len(),
        at >= b.len() || a[at] != b[at],
    ensures
        a != b,
{
}

/// Grant selection. With a username and a password configured, the request
/// for a token asks for the password grant and carries both. Without them it
/// asks for the client-credentials grant and carries no parameter of the
/// name `username` or `password`.
pub proof fn lemma_grant_selection(config: KeycloakConfig)
    ensures
        has_user_credentials(config) ==> {
            let form = grant_request(config).params;
            &&& form[0] == ("grant_type"@, "password"@)
            &&& form.contains(("username"@, config.username->0@))
            &&& form.contains(("password"@, config.password->0@))
        },
        !has_user_credentials(config) ==> {
            let form = grant_request(config).params;
            &&& form[0] == ("grant_type"@, "client_credentials"@)
            &&& forall|i: int|
                0 <= i < form.len() ==> (#[trigger] form[i]).0 != "username"@ && form[i].0
                    != "password"@
        },
{
    let form = grant_request(config).params;
    if has_user_credentials(config) {
        assert(form[3] == ("username"@, config.username->0@));
        assert(form[4] == ("password"@, config.password->0@));
    } else {
        reveal_strlit("grant_type");
        reveal_strlit("client_id");
        reveal_strlit("client_secret");
        reveal_strlit("username");
        reveal_strlit("password");
        lemma_texts_differ("grant_type"@, "username"@, 0);
        lemma_texts_differ("grant_type"@, "password"@, 0);
        lemma_texts_differ("client_id"@, "username"@, 0);
        lemma_texts_differ("client_id"@, "password"@, 0);
        lemma_texts_differ("client_secret"@, "username"@, 0);
        lemma_texts_differ("client_secret"@, "password"@, 0);
    }
}

/// A token can be used from the moment it was acquired, if one of its two
/// lifetimes exceeds the safety buffer: the cache then counts as valid at the
/// time of the request.
pub proof fn lemma_acquired_token_is_usable(response: KeycloakTokenResponse, request_time: int)
    requires
        response.expires_in > TIMEBUFFER || response.refresh_expires_in > TIMEBUFFER,
    ensures
        token_usable_at(Some(formatted_token(response, request_time)), request_time),
{
    if response.expires_in > TIMEBUFFER {
        assert((response.expires_in - TIMEBUFFER) * NANOS_PER_SEC > 0) by (nonlinear_arith)
            requires
                response.expires_in - TIMEBUFFER > 0,
                NANOS_PER_SEC > 0,
        ;
    } else {
        assert((response.refresh_expires_in - TIMEBUFFER) * NANOS_PER_SEC > 0)
            by (nonlinear_arith)
            requires
                response.refresh_expires_in - TIMEBUFFER > 0,
                NANOS_PER_SEC > 0,
        ;
    }
}

/// If the access token lives longer than the safety buffer, the cache is in
/// the state `Valid` from the time of the request until the access token
/// expires, and hands the access token out at any such instant without a
/// request.
pub proof fn lemma_acquired_token_is_valid(
    config: KeycloakConfig,
    response: KeycloakTokenResponse,
    request_time: int,
    now: int,
)
    requires
        response.expires_in > TIMEBUFFER,
        request_time <= now < expiration(request_time, response.expires_in),
    ensures
        token_state(Some(formatted_token(response, request_time)), request_time)
            == TokenState::Valid,
        token_state(Some(formatted_token(response, request_time)), now) == TokenState::Valid,
        step_after(config, Some(formatted_token(response, request_time)), now, None)
            == TokenStepView::Ready(response.access_token@),
{
    assert((response.expires_in - TIMEBUFFER) * NANOS_PER_SEC > 0) by (nonlinear_arith)
        requires
            response.expires_in - TIMEBUFFER > 0,
            NANOS_PER_SEC > 0,
    ;
}

/// Once the access token has expired and while the refresh token has not,
/// the cache asks for a refresh, with the refresh token that it holds,
/// provided that the response carried one.
pub proof fn lemma_expired_access_token_is_refreshed(
    config: KeycloakConfig,
    response: KeycloakTokenResponse,
    request_time: int,
    now: int,
)
    requires
        expiration(request_time, response.expires_in) <= now < expiration(
            request_time,
            response.refresh_expires_in,
        ),
        formatted_token(response, request_time).refresh_token.len() > 0,
    ensures
        token_state(Some(formatted_token(response, request_time)), now)
            == TokenState::Refreshable,
        step_after(config, Some(formatted_token(response, request_time)), now, None)
            == TokenStepView::Send(
            refresh_request(config, formatted_token(response, request_time).refresh_token),
        ),
{
}

/// Once the refresh token has expired as well, the cache asks for a new
/// token by a full grant, not for a refresh.
pub proof fn lemma_expired_refresh_token_is_regranted(
    config: KeycloakConfig,
    response: KeycloakTokenResponse,
    request_time: int,
    now: int,
)
    requires
        expiration(request_time, response.expires_in) <= now,
        expiration(request_time, response.refresh_expires_in) <= now,
    ensures
        token_state(Some(formatted_token(response, request_time)), now) == TokenState::Stale,
        step_after(config, Some(formatted_token(response, request_time)), now, None)
            == TokenStepView::Send(grant_request(config)),
{
}

/// Without a refresh token there is no refresh. Once the access token of a
/// response without refresh token has expired, the cache asks for a new
/// token by a full grant, however long the refresh lifetime was said to be.
pub proof fn lemma_missing_refresh_token_is_regranted(
    config: KeycloakConfig,
    response: KeycloakTokenResponse,
    request_time: int,
    now: int,
)
    requires
        expiration(request_time, response.expires_in) <= now,
        formatted_token(response, request_time).refresh_token.len() == 0,
    ensures
        token_state(Some(formatted_token(response, request_time)), now) == TokenState::Stale,
        step_after(config, Some(formatted_token(response, request_time)), now, None)
            == TokenStepView::Send(grant_request(config)),
{
}

/// A request for a refresh always carries a refresh token: whatever the
/// cache holds, a call without a reply that asks for a refresh sends the
/// refresh token of the cache, and that is not empty.
pub proof fn lemma_refresh_carries_token(config: KeycloakConfig, token: Option<TokenView>, now: int)
    requires
        token_state(token, now) == TokenState::Refreshable,
    ensures
        token is Some,
        token->0.refresh_token.len() > 0,
        step_after(config, token, now, None) == TokenStepView::Send(
            refresh_request(config, token->0.refresh_token),
        ),
{
}

/// No expired token is handed out of the cache: where a call without a
/// reply answers with an access token, that token is valid at `now`.
pub proof fn lemma_cached_token_is_unexpired(
    config: KeycloakConfig,
    token: Option<TokenView>,
    now: int,
)
    requires
        step_after(config, token, now, None) is Ready,
    ensures
        token is Some,
        access_token_valid_at(token->0, now),
        step_after(config, token, now, None) == TokenStepView::Ready(token->0.access_token),
{
}

/// Asking again changes nothing. At any two instants at which the access
/// token is valid, a call without a reply hands out the same access token,
/// asks for no request, and leaves the cache as it was.
pub proof fn lemma_valid_token_is_reused(
    config: KeycloakConfig,
    token: Option<TokenView>,
    first: int,
    second: int,
)
    requires
        token_state(token, first) == TokenState::Valid,
        token_state(token, second) == TokenState::Valid,
    ensures
        step_after(config, token, first, None) == step_after(config, token, second, None),
        step_after(config, token, first, None) == TokenStepView::Ready(token->0.access_token),
        token_after(token, first, None) == token,
        token_after(token_after(token, first, None), second, None) == token,
{
}

/// A reply that reports a failure leaves the cache as it was, and the
/// failure is passed on.
pub proof fn lemma_failed_reply_changes_nothing(
    config: KeycloakConfig,
    token: Option<TokenView>,
    now: int,
    cause: RequestError,
)
    ensures
        token_after(token, now, Some(Err(cause))) == token,
        step_after(config, token, now, Some(Err(cause))) == TokenStepView::Failed(
            ErrorView::Auth(cause@),
        ),
{
}

} // verus!
