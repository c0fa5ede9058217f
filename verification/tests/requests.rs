use nss_keycloak::config::KeycloakConfig;
use nss_keycloak::error::RequestError;
use nss_keycloak::keycloak::auth::{
    format_token, get_token, refresh_token, KeycloakTokenResponse,
};
use nss_keycloak::clock::Timestamp;
use nss_keycloak::keycloak::groups::{
    all_groups_request, get_group_members_url, get_groups_url, group_by_name_request,
    group_member_request, groups_request,
};
use nss_keycloak::keycloak::request::{Method, Reply, Request};
use nss_keycloak::keycloak::users::{
    get_user_count_api_url, get_users_api_url, user_by_name_request, user_by_uid_request,
    user_count_request, users_request,
};

fn config(credentials: Option<(&str, &str)>) -> KeycloakConfig {
    KeycloakConfig {
        realm: "test".to_string(),
        client_id: "nss-client".to_string(),
        client_secret: "UO2i2h5Vku3oQBvFIlsMG23pIMZyRJOi".to_string(),
        url: "http://localhost:8080".to_string(),
        username: credentials.map(|c| c.0.to_string()),
        password: credentials.map(|c| c.1.to_string()),
    }
}

fn pairs(items: &[(&str, &str)]) -> Vec<(String, String)> {
    items.iter().map(|(name, value)| (name.to_string(), value.to_string())).collect()
}

const TOKEN_URL: &str = "http://localhost:8080/realms/test/protocol/openid-connect/token";

#[test]
fn password_grant_with_username_and_password() {
    let request = get_token(&config(Some(("nss-user", "secret"))));
    assert_eq!(
        request,
        Request {
            method: Method::Post,
            url: TOKEN_URL.to_string(),
            bearer: None,
            params: pairs(&[
                ("grant_type", "password"),
                ("client_id", "nss-client"),
                ("client_secret", "UO2i2h5Vku3oQBvFIlsMG23pIMZyRJOi"),
                ("username", "nss-user"),
                ("password", "secret"),
            ]),
        }
    );
}

#[test]
fn client_credentials_grant_without_username_and_password() {
    let request = get_token(&config(None));
    assert_eq!(
        request,
        Request {
            method: Method::Post,
            url: TOKEN_URL.to_string(),
            bearer: None,
            params: pairs(&[
                ("grant_type", "client_credentials"),
                ("client_id", "nss-client"),
                ("client_secret", "UO2i2h5Vku3oQBvFIlsMG23pIMZyRJOi"),
            ]),
        }
    );
    assert!(request.params.iter().all(|(name, _)| name != "username" && name != "password"));
}

#[test]
fn client_credentials_grant_when_one_of_the_two_is_missing() {
    let mut only_user = config(None);
    only_user.username = Some("nss-user".to_string());
    let mut only_password = config(None);
    only_password.password = Some("secret".to_string());
    for config in [only_user, only_password] {
        let request = get_token(&config);
        assert_eq!(
            request.params,
            pairs(&[
                ("grant_type", "client_credentials"),
                ("client_id", "nss-client"),
                ("client_secret", "UO2i2h5Vku3oQBvFIlsMG23pIMZyRJOi"),
            ])
        );
    }
}

#[test]
fn refresh_request_carries_the_refresh_token() {
    let token = format_token(
        KeycloakTokenResponse {
            access_token: "access".to_string(),
            expires_in: 60,
            refresh_token: Some("refresh".to_string()),
            refresh_expires_in: 1800,
        },
        &Timestamp::new(1000, 0),
    );
    let request = refresh_token(&config(Some(("nss-user", "secret"))), &token);
    assert_eq!(
        request,
        Request {
            method: Method::Post,
            url: TOKEN_URL.to_string(),
            bearer: None,
            params: pairs(&[
                ("grant_type", "refresh_token"),
                ("client_id", "nss-client"),
                ("client_secret", "UO2i2h5Vku3oQBvFIlsMG23pIMZyRJOi"),
                ("refresh_token", "refresh"),
            ]),
        }
    );
}

#[test]
fn addresses_of_the_admin_interface() {
    let config = config(None);
    assert_eq!(get_users_api_url(&config), "http://localhost:8080/admin/realms/test/users");
    assert_eq!(
        get_user_count_api_url(&config),
        "http://localhost:8080/admin/realms/test/users/count"
    );
    assert_eq!(get_groups_url(&config), "http://localhost:8080/admin/realms/test/groups");
    assert_eq!(
        get_group_members_url(&config, "0b1c"),
        "http://localhost:8080/admin/realms/test/groups/0b1c/members"
    );
}

#[test]
fn queries_carry_the_access_token_as_bearer() {
    let config = config(None);
    let count = user_count_request(&config, "tok");
    assert_eq!(
        count,
        Request {
            method: Method::Get,
            url: "http://localhost:8080/admin/realms/test/users/count".to_string(),
            bearer: Some("tok".to_string()),
            params: vec![],
        }
    );
    let users = users_request(&config, "tok", pairs(&[("a", "b")]));
    assert_eq!(
        users,
        Request {
            method: Method::Get,
            url: "http://localhost:8080/admin/realms/test/users".to_string(),
            bearer: Some("tok".to_string()),
            params: pairs(&[("a", "b")]),
        }
    );
    let groups = groups_request(&config, "tok", pairs(&[("c", "d"), ("e", "f")]));
    assert_eq!(
        groups,
        Request {
            method: Method::Get,
            url: "http://localhost:8080/admin/realms/test/groups".to_string(),
            bearer: Some("tok".to_string()),
            params: pairs(&[("c", "d"), ("e", "f")]),
        }
    );
    let members = group_member_request(&config, "tok", "id-1");
    assert_eq!(
        members,
        Request {
            method: Method::Get,
            url: "http://localhost:8080/admin/realms/test/groups/id-1/members".to_string(),
            bearer: Some("tok".to_string()),
            params: vec![],
        }
    );
}

#[test]
fn queries_of_the_lookups() {
    let config = config(None);
    assert_eq!(
        user_by_name_request(&config, "tok", "user01").params,
        pairs(&[("username", "user01"), ("briefRepresentation", "false")])
    );
    assert_eq!(
        user_by_uid_request(&config, "tok").params,
        pairs(&[("briefRepresentation", "false")])
    );
    assert_eq!(all_groups_request(&config, "tok").params, pairs(&[("briefRepresentation", "false")]));
    assert_eq!(
        group_by_name_request(&config, "tok", "group02").params,
        pairs(&[("search", "group02"), ("briefRepresentation", "false")])
    );
    assert_eq!(
        group_by_name_request(&config, "tok", "group02").url,
        "http://localhost:8080/admin/realms/test/groups"
    );
    assert_eq!(
        user_by_name_request(&config, "tok", "user01").url,
        "http://localhost:8080/admin/realms/test/users"
    );
}

#[test]
fn only_a_success_status_gives_a_body() {
    for status in [200u16, 201, 204, 299] {
        let reply = Reply { status, body: "[]".to_string() };
        assert_eq!(reply.success_body(), Ok(&"[]".to_string()));
    }
    for status in [0u16, 100, 199, 300, 301, 401, 403, 404, 500, 503, u16::MAX] {
        let reply = Reply { status, body: "[]".to_string() };
        assert_eq!(reply.success_body(), Err(RequestError::Status(status)));
    }
}
