use vstd::prelude::*;

verus! {

/// How to reach the identity provider, and as whom.
///
/// When both `username` and `password` are present a token is requested with
/// the password grant, otherwise with the client-credentials grant.
#[derive(Debug, Clone, PartialEq, Eq)]
pub struct KeycloakConfig {
    pub realm: String,
    pub client_id: String,
    pub client_secret: String,
    pub url: String,
    pub username: Option<String>,
    pub password: Option<String>,
}

/// Names of the provider's attributes that hold the fields of an identity record.
#[derive(Debug, Clone, PartialEq, Eq)]
pub struct MappingConfig {
    pub user_home: String,
    pub user_shell: String,
    pub user_gecos: String,
    pub user_uid: String,
    pub user_gid: String,
    pub group_gid: String,
}

/// The whole configuration: the provider and the attribute mapping.
#[derive(Debug, Clone, PartialEq, Eq)]
pub struct Config {
    pub keycloak: KeycloakConfig,
    pub mapping: MappingConfig,
}

} // verus!
