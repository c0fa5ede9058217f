use std::cell::RefCell;

use nss_keycloak::clock::Timestamp;
use nss_keycloak::config::{Config, KeycloakConfig, MappingConfig};
use nss_keycloak::error::{Error, RequestError};
use nss_keycloak::interop::Response;
use nss_keycloak::keycloak::auth::{
    KeycloakAuth, KeycloakTokenResponse, TokenProvider, TokenStep,
};
use nss_keycloak::keycloak::model::{AttributeBag, KeycloakUserResponse};
use nss_keycloak::keycloak::request::{Method, Request};
use nss_keycloak::keycloak::users::{
    get_user_by_name, get_user_by_uid, list_users, user_by_name_request, user_by_uid_request,
    user_count_request, KeycloakUser,
};
use nss_keycloak::{KeycloakNssPasswd, Passwd};

fn response_type_as_str<T>(response: &Response<T>) -> &str {
    match response {
        Response::Success(_) => "Success",
        Response::NotFound => "NotFound",
        Response::Unavail => "Unavail",
        Response::TryAgain => "TryAgain",
        Response::Return => "Return",
    }
}

/// The configuration of the test realm.
fn config() -> Config {
    Config {
        keycloak: KeycloakConfig {
            realm: "test".to_string(),
            client_id: "nss-client".to_string(),
            client_secret: "UO2i2h5Vku3oQBvFIlsMG23pIMZyRJOi".to_string(),
            url: "http://localhost:8080".to_string(),
            username: Some("nss-user".to_string()),
            password: Some("nss-user".to_string()),
        },
        mapping: MappingConfig {
            user_home: "homedirectory".to_string(),
            user_shell: "loginshell".to_string(),
            user_gecos: "gecos".to_string(),
            user_uid: "uidnumber".to_string(),
            user_gid: "gidnumber".to_string(),
            group_gid: "gidnumber".to_string(),
        },
    }
}

fn user_record(username: &str, attributes: &[(&str, &str)]) -> KeycloakUserResponse {
    let mut bag = AttributeBag::new();
    for (name, value) in attributes {
        bag.insert(name.to_string(), vec![value.to_string()]);
    }
    KeycloakUserResponse { username: username.to_string(), enabled: true, attributes: Some(bag) }
}

/// A stand-in for the provider with the users of the test realm: the
/// service account that the resolver logs in as, which has no uid, and two
/// users with a full set of attributes.
struct Keycloak {
    users: Vec<KeycloakUserResponse>,
    available: bool,
    /// The status that queries for users are answered with.
    users_status: u16,
    requests: RefCell<Vec<Request>>,
}

impl Keycloak {
    fn new() -> Keycloak {
        Keycloak {
            users: vec![
                KeycloakUserResponse {
                    username: "nss-user".to_string(),
                    enabled: true,
                    attributes: None,
                },
                user_record(
                    "user01",
                    &[
                        ("uidnumber", "1000"),
                        ("gidnumber", "500"),
                        ("homedirectory", "/home/user01"),
                        ("loginshell", "/bin/bash"),
                    ],
                ),
                user_record(
                    "user02",
                    &[
                        ("uidnumber", "1001"),
                        ("gidnumber", "501"),
                        ("homedirectory", "/home/user02"),
                        ("loginshell", "/bin/bash"),
                    ],
                ),
            ],
            available: true,
            users_status: 200,
            requests: RefCell::new(Vec::new()),
        }
    }

    fn token(&self, request: &Request) -> Result<KeycloakTokenResponse, RequestError> {
        assert_eq!(request.method, Method::Post);
        assert_eq!(request.url, "http://localhost:8080/realms/test/protocol/openid-connect/token");
        if !self.available {
            return Err(RequestError::Transport("connection refused".to_string()));
        }
        Ok(KeycloakTokenResponse {
            access_token: "access-token".to_string(),
            expires_in: 60,
            refresh_token: Some("refresh-token".to_string()),
            refresh_expires_in: 1800,
        })
    }

    fn check(&self, request: &Request, url: &str) {
        assert_eq!(request.method, Method::Get);
        assert_eq!(request.url, url);
        assert_eq!(request.bearer, Some("access-token".to_string()));
        self.requests.borrow_mut().push(request.clone());
    }

    fn param(request: &Request, name: &str) -> Option<String> {
        request.params.iter().find(|(n, _)| n == name).map(|(_, value)| value.clone())
    }

    fn count(&self, request: &Request) -> Result<String, RequestError> {
        self.check(request, "http://localhost:8080/admin/realms/test/users/count");
        Ok(self.users.len().to_string())
    }

    fn users(&self, request: &Request) -> Result<Vec<KeycloakUserResponse>, RequestError> {
        self.check(request, "http://localhost:8080/admin/realms/test/users");
        assert_eq!(Self::param(request, "briefRepresentation"), Some("false".to_string()));
        if self.users_status != 200 {
            return Err(RequestError::Status(self.users_status));
        }
        let first = Self::param(request, "first").map_or(0, |v| v.parse::<usize>().unwrap());
        let max = Self::param(request, "max").map_or(100, |v| v.parse::<usize>().unwrap());
        let name = Self::param(request, "username");
        Ok(self
            .users
            .iter()
            .filter(|user| name.as_ref().map_or(true, |n| user.username.contains(n.as_str())))
            .skip(first)
            .take(max)
            .cloned()
            .collect())
    }
}

/// What the name service does for a lookup: it gets an access token, sends
/// the requests that the library describes and hands the replies back.
struct Resolver<'a> {
    config: &'a Config,
    keycloak: &'a Keycloak,
    auth: KeycloakAuth<'a>,
    now: Timestamp,
}

impl<'a> Resolver<'a> {
    fn new(config: &'a Config, keycloak: &'a Keycloak) -> Resolver<'a> {
        Resolver {
            config,
            keycloak,
            auth: KeycloakAuth::new(&config.keycloak).unwrap(),
            now: Timestamp::new(1_700_000_000, 0),
        }
    }

    fn access_token(&mut self) -> Result<String, Error> {
        let mut step = self.auth.get_access_token(self.now, None);
        if let TokenStep::Send(request) = &step {
            let reply = self.keycloak.token(request);
            step = self.auth.get_access_token(self.now, Some(reply));
        }
        match step {
            TokenStep::Ready(token) => Ok(token),
            TokenStep::Failed(error) => Err(error),
            TokenStep::Send(_) => panic!("a reply must not be answered by a request"),
        }
    }

    fn list_users(&mut self) -> Result<Vec<KeycloakUser>, Error> {
        let token = self.access_token()?;
        let count = self.keycloak.count(&user_count_request(&self.config.keycloak, &token));
        let mut listing = list_users(count);
        while let Some(request) = listing.next_request(&self.config.keycloak, &token) {
            listing.add_page(&self.config.mapping, self.keycloak.users(&request));
        }
        listing.into_users()
    }

    fn user_by_name(&mut self, name: &str) -> Result<Option<KeycloakUser>, Error> {
        let token = self.access_token()?;
        let request = user_by_name_request(&self.config.keycloak, &token, name);
        get_user_by_name(&self.config.mapping, self.keycloak.users(&request))
    }

    fn user_by_uid(&mut self, uid: u32) -> Result<Option<KeycloakUser>, Error> {
        let token = self.access_token()?;
        let request = user_by_uid_request(&self.config.keycloak, &token);
        get_user_by_uid(&self.config.mapping, self.keycloak.users(&request), uid)
    }

    fn get_all_entries(&mut self) -> Response<Vec<Passwd>> {
        let outcome = self.list_users();
        KeycloakNssPasswd::get_all_entries(outcome)
    }

    fn get_entry_by_name(&mut self, name: String) -> Response<Passwd> {
        let outcome = self.user_by_name(&name);
        KeycloakNssPasswd::get_entry_by_name(outcome)
    }

    fn get_entry_by_uid(&mut self, uid: u32) -> Response<Passwd> {
        let outcome = self.user_by_uid(uid);
        KeycloakNssPasswd::get_entry_by_uid(outcome)
    }
}

#[test]
fn test_password_get_all_entries() {
    let config = config();
    let keycloak = Keycloak::new();
    let response = Resolver::new(&config, &keycloak).get_all_entries();
    match response {
        Response::Success(passwds) => {
            assert_eq!(passwds.len(), 2);
            // test expected values for user 01
            assert_eq!(passwds[0].name, "user01");
            assert_eq!(passwds[0].uid, 1000);
            assert_eq!(passwds[0].gid, 500);
            assert_eq!(passwds[0].dir, "/home/user01");
            assert_eq!(passwds[0].gecos, ",,,");
            assert_eq!(passwds[0].shell, "/bin/bash");
            // test expected values for user 02
            assert_eq!(passwds[1].name, "user02");
            assert_eq!(passwds[1].uid, 1001);
            assert_eq!(passwds[1].gid, 501);
            assert_eq!(passwds[1].dir, "/home/user02");
            assert_eq!(passwds[1].gecos, ",,,");
            assert_eq!(passwds[1].shell, "/bin/bash");
        }
        _ => panic!(
            "Failed to get all passwds. Expected Respose::Success, got {}",
            response_type_as_str(&response),
        ),
    }
}

#[test]
fn test_get_user_by_name_found() {
    let config = config();
    let keycloak = Keycloak::new();
    let username = "user01".to_string();
    let response = Resolver::new(&config, &keycloak).get_entry_by_name(username);
    match response {
        Response::Success(passwd) => {
            assert_eq!(passwd.name, "user01");
            assert_eq!(passwd.uid, 1000);
            assert_eq!(passwd.gid, 500);
            assert_eq!(passwd.dir, "/home/user01");
            assert_eq!(passwd.gecos, ",,,");
            assert_eq!(passwd.shell, "/bin/bash");
        }
        _ => panic!(
            "Failed to get user by name. Expected Respose::Success, got {}",
            response_type_as_str(&response),
        ),
    }
}

#[test]
fn test_get_user_by_name_not_found() {
    let config = config();
    let keycloak = Keycloak::new();
    let username = "does_not_exist".to_string(); // username does not exist
    let response = Resolver::new(&config, &keycloak).get_entry_by_name(username);
    match response {
        Response::NotFound => (), // expected
        _ => panic!(
            "Failed to get user by name. Expected Respose::NotFound, got {}",
            response_type_as_str(&response),
        ),
    }
}

#[test]
fn test_get_user_by_uid_found() {
    let config = config();
    let keycloak = Keycloak::new();
    let uid = 1000;
    let response = Resolver::new(&config, &keycloak).get_entry_by_uid(uid);
    match response {
        Response::Success(passwd) => {
            assert_eq!(passwd.name, "user01");
            assert_eq!(passwd.uid, 1000);
            assert_eq!(passwd.gid, 500);
            assert_eq!(passwd.dir, "/home/user01");
            assert_eq!(passwd.gecos, ",,,");
            assert_eq!(passwd.shell, "/bin/bash");
        }
        _ => panic!(
            "Failed to get user by uid. Expected Respose::Success, got {}",
            response_type_as_str(&response),
        ),
    }
}

#[test]
fn test_get_user_by_uid_not_found() {
    let config = config();
    let keycloak = Keycloak::new();
    let uid = 9999; // uid does not exist
    let response = Resolver::new(&config, &keycloak).get_entry_by_uid(uid);
    match response {
        Response::NotFound => (), // expected
        _ => panic!(
            "Failed to get user by uid. Expected Respose::NotFound, got {}",
            response_type_as_str(&response)
        ),
    }
}

#[test]
fn the_password_field_holds_the_marker() {
    let config = config();
    let keycloak = Keycloak::new();
    let response = Resolver::new(&config, &keycloak).get_entry_by_uid(1001);
    assert_eq!(
        response,
        Response::Success(Passwd {
            name: "user02".to_string(),
            passwd: "x".to_string(),
            uid: 1001,
            gid: 501,
            gecos: ",,,".to_string(),
            dir: "/home/user02".to_string(),
            shell: "/bin/bash".to_string(),
        })
    );
    let user = KeycloakUser {
        username: "u".to_string(),
        uid: 7,
        gid: 8,
        homedir: "/h".to_string(),
        loginshell: "/s".to_string(),
        gecos: "g".to_string(),
    };
    assert_eq!(
        Passwd::from(user),
        Passwd {
            name: "u".to_string(),
            passwd: "x".to_string(),
            uid: 7,
            gid: 8,
            gecos: "g".to_string(),
            dir: "/h".to_string(),
            shell: "/s".to_string(),
        }
    );
}

#[test]
fn a_lookup_without_a_token_is_to_be_tried_again() {
    let config = config();
    let mut keycloak = Keycloak::new();
    keycloak.available = false;
    let mut resolver = Resolver::new(&config, &keycloak);
    assert_eq!(resolver.get_all_entries(), Response::TryAgain);
    assert_eq!(resolver.get_entry_by_name("user01".to_string()), Response::TryAgain);
    assert_eq!(resolver.get_entry_by_uid(1000), Response::TryAgain);
    assert!(keycloak.requests.borrow().is_empty());
}

#[test]
fn a_failed_query_is_to_be_tried_again() {
    for failure in [
        Error::Request(RequestError::Transport("timed out".to_string())),
        Error::Request(RequestError::Status(503)),
        Error::Request(RequestError::Malformed("not json".to_string())),
        Error::Auth(RequestError::Status(401)),
    ] {
        assert_eq!(KeycloakNssPasswd::get_all_entries(Err(failure.clone())), Response::TryAgain);
        assert_eq!(KeycloakNssPasswd::get_entry_by_uid(Err(failure.clone())), Response::TryAgain);
        assert_eq!(KeycloakNssPasswd::get_entry_by_name(Err(failure)), Response::TryAgain);
    }
    assert_eq!(KeycloakNssPasswd::get_all_entries(Ok(vec![])), Response::Success(vec![]));
    assert_eq!(KeycloakNssPasswd::get_entry_by_uid(Ok(None)), Response::NotFound);
    assert_eq!(KeycloakNssPasswd::get_entry_by_name(Ok(None)), Response::NotFound);
}

#[test]
fn a_query_that_fails_is_no_empty_answer() {
    let config = config();
    let mut keycloak = Keycloak::new();
    keycloak.users_status = 503;
    let mut resolver = Resolver::new(&config, &keycloak);
    assert_eq!(resolver.list_users(), Err(Error::Request(RequestError::Status(503))));
    assert_eq!(resolver.get_all_entries(), Response::TryAgain);
    assert_eq!(resolver.get_entry_by_name("user01".to_string()), Response::TryAgain);
    assert_eq!(resolver.get_entry_by_uid(1000), Response::TryAgain);
}

#[test]
fn one_token_serves_several_lookups() {
    let config = config();
    let keycloak = Keycloak::new();
    let mut resolver = Resolver::new(&config, &keycloak);
    assert_eq!(response_type_as_str(&resolver.get_all_entries()), "Success");
    assert_eq!(response_type_as_str(&resolver.get_entry_by_uid(1000)), "Success");
    assert_eq!(response_type_as_str(&resolver.get_entry_by_name("nss-user".to_string())), "NotFound");
    // count, one page, two lookups
    assert_eq!(keycloak.requests.borrow().len(), 4);
}
