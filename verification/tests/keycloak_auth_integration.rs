use std::cell::RefCell;

use nss_keycloak::clock::Timestamp;
use nss_keycloak::config::KeycloakConfig;
use nss_keycloak::error::{Error, RequestError};
use nss_keycloak::keycloak::auth::{
    access_token_is_valid, format_token, refresh_token_is_valid, KeycloakAuth,
    KeycloakTokenResponse, TokenProvider, TokenReply, TokenStep, TIMEBUFFER,
};
use nss_keycloak::keycloak::request::{Method, Request};

const NANOS: u128 = 1_000_000_000;

fn config() -> KeycloakConfig {
    KeycloakConfig {
        realm: "test".to_string(),
        client_id: "nss-client".to_string(),
        client_secret: "UO2i2h5Vku3oQBvFIlsMG23pIMZyRJOi".to_string(),
        url: "http://localhost:8080".to_string(),
        username: Some("nss-user".to_string()),
        password: Some("nss-user".to_string()),
    }
}

/// A clock that only moves when it is told to.
struct MockClock {
    now: Timestamp,
}

impl MockClock {
    fn advance(&mut self, nanos: u128) {
        let total = self.now.as_nanos() as u128 + nanos;
        self.now = Timestamp::new((total / NANOS) as u64, (total % NANOS) as u32);
    }
}

/// A token endpoint that hands out a new pair of tokens for every request
/// and remembers which grants it was asked for.
struct TokenEndpoint {
    expires_in: u64,
    refresh_expires_in: u64,
    issued: RefCell<Vec<String>>,
    grants: RefCell<Vec<String>>,
    refresh_tokens_seen: RefCell<Vec<String>>,
}

impl TokenEndpoint {
    fn new(expires_in: u64, refresh_expires_in: u64) -> TokenEndpoint {
        TokenEndpoint {
            expires_in,
            refresh_expires_in,
            issued: RefCell::new(Vec::new()),
            grants: RefCell::new(Vec::new()),
            refresh_tokens_seen: RefCell::new(Vec::new()),
        }
    }

    fn post(&self, request: &Request) -> TokenReply {
        assert_eq!(request.method, Method::Post);
        assert_eq!(request.url, "http://localhost:8080/realms/test/protocol/openid-connect/token");
        assert_eq!(request.bearer, None);
        let field = |name: &str| {
            request.params.iter().find(|(n, _)| n == name).map(|(_, value)| value.clone())
        };
        assert_eq!(field("client_id"), Some("nss-client".to_string()));
        assert_eq!(field("client_secret"), Some("UO2i2h5Vku3oQBvFIlsMG23pIMZyRJOi".to_string()));
        let grant = field("grant_type").unwrap();
        match grant.as_str() {
            "password" => {
                assert_eq!(field("username"), Some("nss-user".to_string()));
                assert_eq!(field("password"), Some("nss-user".to_string()));
            }
            "refresh_token" => {
                let token = field("refresh_token").unwrap();
                assert!(self.issued.borrow().contains(&token));
                self.refresh_tokens_seen.borrow_mut().push(token);
            }
            other => panic!("unexpected grant {}", other),
        }
        self.grants.borrow_mut().push(grant);
        let number = self.grants.borrow().len();
        let access_token = format!("access-{}", number);
        let refresh_token = format!("refresh-{}", number);
        self.issued.borrow_mut().push(access_token.clone());
        self.issued.borrow_mut().push(refresh_token.clone());
        Ok(KeycloakTokenResponse {
            access_token,
            expires_in: self.expires_in,
            refresh_token: Some(refresh_token),
            refresh_expires_in: self.refresh_expires_in,
        })
    }

    fn validate_token(&self, access_token: &str) -> Result<(), String> {
        if self.issued.borrow().iter().any(|token| token == access_token) {
            Ok(())
        } else {
            Err("Token introspection failed".to_string())
        }
    }
}

/// Gets an access token the way a caller of the library does: it sends what
/// the cache asks for and hands the reply back.
fn get_access_token(
    auth: &mut KeycloakAuth,
    now: Timestamp,
    endpoint: &TokenEndpoint,
) -> Result<String, Error> {
    match auth.get_access_token(now, None) {
        TokenStep::Ready(token) => Ok(token),
        TokenStep::Failed(error) => Err(error),
        TokenStep::Send(request) => {
            let reply = endpoint.post(&request);
            match auth.get_access_token(now, Some(reply)) {
                TokenStep::Ready(token) => Ok(token),
                TokenStep::Failed(error) => Err(error),
                TokenStep::Send(_) => panic!("a reply must not be answered by a request"),
            }
        }
    }
}

#[test]
fn test_keycloak_auth_get_token() {
    let config = config();
    let endpoint = TokenEndpoint::new(60, 1800);
    let mut clock = MockClock { now: Timestamp::new(0, 0) };
    let mut auth = KeycloakAuth::new(&config).unwrap();

    let access_token01 = get_access_token(&mut auth, clock.now, &endpoint).unwrap();
    endpoint.validate_token(&access_token01).expect("Token validation failed");

    // expiration time of the access token (plus 1 second to be above that)
    let access_token_expires_in = auth.access_token_expires_in(clock.now).unwrap() + NANOS;
    clock.advance(access_token_expires_in);
    let access_token02 = get_access_token(&mut auth, clock.now, &endpoint).unwrap();
    endpoint.validate_token(&access_token02).expect("Token validation failed");

    // the access tokens should be different because it has been updated
    // using the refresh operation
    assert_ne!(access_token01, access_token02);

    // expiration time of the refresh token (plus 1 second to be above that)
    let refresh_token_expires_in = auth.refresh_token_expires_in(clock.now).unwrap() + NANOS;
    clock.advance(refresh_token_expires_in);
    let access_token03 = get_access_token(&mut auth, clock.now, &endpoint).unwrap();
    endpoint.validate_token(&access_token03).expect("Token validation failed");

    // the access tokens should be different because it has been updated
    // with a full re-authentication
    assert_ne!(access_token02, access_token03);

    assert_eq!(*endpoint.grants.borrow(), vec!["password", "refresh_token", "password"]);
    assert_eq!(*endpoint.refresh_tokens_seen.borrow(), vec!["refresh-1"]);
}

#[test]
fn a_new_cache_holds_no_token() {
    let config = config();
    let auth = KeycloakAuth::new(&config).unwrap();
    let now = Timestamp::new(1_700_000_000, 0);
    assert!(!auth.has_valid_token(now));
    assert_eq!(auth.access_token_expires_in(now), None);
    assert_eq!(auth.refresh_token_expires_in(now), None);
}

#[test]
fn a_token_is_valid_right_after_it_was_acquired() {
    let config = config();
    let endpoint = TokenEndpoint::new(60, 1800);
    let now = Timestamp::new(1_700_000_000, 250);
    let mut auth = KeycloakAuth::new(&config).unwrap();
    assert_eq!(get_access_token(&mut auth, now, &endpoint), Ok("access-1".to_string()));
    assert!(auth.has_valid_token(now));
    assert_eq!(auth.access_token_expires_in(now), Some(57 * NANOS));
    assert_eq!(auth.refresh_token_expires_in(now), Some(1797 * NANOS));
}

#[test]
fn repeated_calls_in_the_validity_window_give_the_same_token() {
    let config = config();
    let endpoint = TokenEndpoint::new(60, 1800);
    let mut clock = MockClock { now: Timestamp::new(1_700_000_000, 0) };
    let mut auth = KeycloakAuth::new(&config).unwrap();
    let first = get_access_token(&mut auth, clock.now, &endpoint).unwrap();
    for _ in 0..56 {
        clock.advance(NANOS);
        assert_eq!(get_access_token(&mut auth, clock.now, &endpoint), Ok(first.clone()));
    }
    clock.advance(NANOS - 1);
    assert_eq!(auth.get_access_token(clock.now, None), TokenStep::Ready(first.clone()));
    assert_eq!(endpoint.grants.borrow().len(), 1);
    clock.advance(1);
    assert!(matches!(auth.get_access_token(clock.now, None), TokenStep::Send(_)));
}

#[test]
fn expiries_are_request_time_plus_lifetime_less_three_seconds() {
    assert_eq!(TIMEBUFFER, 3);
    let token = format_token(
        KeycloakTokenResponse {
            access_token: "a".to_string(),
            expires_in: 300,
            refresh_token: Some("r".to_string()),
            refresh_expires_in: 1800,
        },
        &Timestamp::new(1_000, 500),
    );
    assert_eq!(token.access_token(), "a");
    assert_eq!(token.refresh_token(), "r");
    assert_eq!(token.access_token_expiration(), 1_297 * 1_000_000_000 + 500);
    assert_eq!(token.refresh_token_expiration(), 2_797 * 1_000_000_000 + 500);
    assert!(access_token_is_valid(&token, &Timestamp::new(1_297, 499)));
    assert!(!access_token_is_valid(&token, &Timestamp::new(1_297, 500)));
    assert!(!access_token_is_valid(&token, &Timestamp::new(1_297, 501)));
    assert!(refresh_token_is_valid(&token, &Timestamp::new(2_797, 499)));
    assert!(!refresh_token_is_valid(&token, &Timestamp::new(2_797, 500)));
}

#[test]
fn an_absent_refresh_token_becomes_the_empty_one() {
    let token = format_token(
        KeycloakTokenResponse {
            access_token: "a".to_string(),
            expires_in: 300,
            refresh_token: None,
            refresh_expires_in: 0,
        },
        &Timestamp::new(1_000, 0),
    );
    assert_eq!(token.refresh_token(), "");
    assert_eq!(token.refresh_token_expiration(), 997 * 1_000_000_000);
    assert!(!refresh_token_is_valid(&token, &Timestamp::new(1_000, 0)));
    assert!(access_token_is_valid(&token, &Timestamp::new(1_000, 0)));
}

#[test]
fn lifetimes_at_the_limits_do_not_overflow() {
    let token = format_token(
        KeycloakTokenResponse {
            access_token: "a".to_string(),
            expires_in: u64::MAX,
            refresh_token: None,
            refresh_expires_in: 0,
        },
        &Timestamp::new(u64::MAX, u32::MAX),
    );
    let start = u64::MAX as i128 * 1_000_000_000 + u32::MAX as i128;
    assert_eq!(token.access_token_expiration(), start + (u64::MAX as i128 - 3) * 1_000_000_000);
    assert_eq!(token.refresh_token_expiration(), start - 3_000_000_000);
    let early = format_token(
        KeycloakTokenResponse {
            access_token: "a".to_string(),
            expires_in: 1,
            refresh_token: None,
            refresh_expires_in: 0,
        },
        &Timestamp::new(0, 0),
    );
    assert_eq!(early.access_token_expiration(), -2_000_000_000);
    assert!(!access_token_is_valid(&early, &Timestamp::new(0, 0)));
}

#[test]
fn a_token_that_lives_no_longer_than_the_buffer_is_never_valid() {
    let config = config();
    let endpoint = TokenEndpoint::new(3, 2);
    let now = Timestamp::new(1_700_000_000, 0);
    let mut auth = KeycloakAuth::new(&config).unwrap();
    assert_eq!(get_access_token(&mut auth, now, &endpoint), Ok("access-1".to_string()));
    assert!(!auth.has_valid_token(now));
    assert_eq!(auth.access_token_expires_in(now), Some(0));
    assert_eq!(auth.refresh_token_expires_in(now), None);
    assert_eq!(get_access_token(&mut auth, now, &endpoint), Ok("access-2".to_string()));
    assert_eq!(*endpoint.grants.borrow(), vec!["password", "password"]);
}

#[test]
fn without_a_refresh_token_an_expired_token_is_granted_anew() {
    let config = config();
    let now = Timestamp::new(2_000, 0);
    let later = Timestamp::new(2_400, 0);
    for refresh_token in [None, Some(String::new())] {
        let mut auth = KeycloakAuth::new(&config).unwrap();
        let response = KeycloakTokenResponse {
            access_token: "one".to_string(),
            expires_in: 60,
            refresh_token,
            refresh_expires_in: 1800,
        };
        assert_eq!(
            auth.get_access_token(now, Some(Ok(response))),
            TokenStep::Ready("one".to_string())
        );
        // the refresh expiry is still ahead, but there is nothing to refresh with
        assert_eq!(auth.refresh_token_expires_in(later), Some(1_397 * NANOS));
        let request = match auth.get_access_token(later, None) {
            TokenStep::Send(request) => request,
            other => panic!("expected a request, got {:?}", other),
        };
        assert_eq!(request.params[0], ("grant_type".to_string(), "password".to_string()));
        assert!(request.params.iter().all(|(name, _)| name != "refresh_token"));
        assert_eq!(request, nss_keycloak::keycloak::auth::get_token(&config));
    }
}

#[test]
fn a_failed_grant_leaves_the_cache_empty() {
    let config = config();
    let now = Timestamp::new(1_700_000_000, 0);
    let mut auth = KeycloakAuth::new(&config).unwrap();
    assert!(matches!(auth.get_access_token(now, None), TokenStep::Send(_)));
    let failure = RequestError::Transport("connection refused".to_string());
    assert_eq!(
        auth.get_access_token(now, Some(Err(failure.clone()))),
        TokenStep::Failed(Error::Auth(failure))
    );
    assert!(!auth.has_valid_token(now));
    assert_eq!(auth.access_token_expires_in(now), None);
    assert!(matches!(auth.get_access_token(now, None), TokenStep::Send(_)));
}

#[test]
fn a_failed_refresh_keeps_the_token_and_is_not_retried_as_a_grant() {
    let config = config();
    let endpoint = TokenEndpoint::new(60, 1800);
    let mut clock = MockClock { now: Timestamp::new(1_700_000_000, 0) };
    let mut auth = KeycloakAuth::new(&config).unwrap();
    get_access_token(&mut auth, clock.now, &endpoint).unwrap();
    clock.advance(58 * NANOS);
    let left = auth.refresh_token_expires_in(clock.now);
    let request = match auth.get_access_token(clock.now, None) {
        TokenStep::Send(request) => request,
        other => panic!("expected a request, got {:?}", other),
    };
    assert!(request.params.contains(&("grant_type".to_string(), "refresh_token".to_string())));
    assert!(request.params.contains(&("refresh_token".to_string(), "refresh-1".to_string())));
    for failure in [
        RequestError::Status(400),
        RequestError::Malformed("expected value at line 1".to_string()),
        RequestError::Transport("timed out".to_string()),
    ] {
        assert_eq!(
            auth.get_access_token(clock.now, Some(Err(failure.clone()))),
            TokenStep::Failed(Error::Auth(failure))
        );
        assert_eq!(auth.refresh_token_expires_in(clock.now), left);
        assert!(auth.has_valid_token(clock.now));
    }
    // the next call asks for a refresh again: the cache still holds the old token
    let again = match auth.get_access_token(clock.now, None) {
        TokenStep::Send(request) => request,
        other => panic!("expected a request, got {:?}", other),
    };
    assert_eq!(again, request);
}

#[test]
fn a_reply_replaces_the_token_whole() {
    let config = config();
    let now = Timestamp::new(2_000, 0);
    let later = Timestamp::new(2_100, 0);
    let mut auth = KeycloakAuth::new(&config).unwrap();
    let first = KeycloakTokenResponse {
        access_token: "one".to_string(),
        expires_in: 60,
        refresh_token: Some("r-one".to_string()),
        refresh_expires_in: 1800,
    };
    assert_eq!(auth.get_access_token(now, Some(Ok(first))), TokenStep::Ready("one".to_string()));
    let second = KeycloakTokenResponse {
        access_token: "two".to_string(),
        expires_in: 30,
        refresh_token: None,
        refresh_expires_in: 0,
    };
    assert_eq!(auth.get_access_token(later, Some(Ok(second))), TokenStep::Ready("two".to_string()));
    assert_eq!(auth.access_token_expires_in(later), Some(27 * NANOS));
    assert_eq!(auth.refresh_token_expires_in(later), None);
    assert_eq!(auth.get_access_token(later, None), TokenStep::Ready("two".to_string()));
}
