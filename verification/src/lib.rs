//! Resolution of POSIX user and group records from a Keycloak realm.
//!
//! The crate holds the decisions of the resolver: which request to send to the
//! identity provider next, how a reply is turned into identity records, and
//! when a cached bearer token may still be used. It performs no I/O itself.
//! A caller sends each [`keycloak::request::Request`] that the library hands
//! out and gives the reply back.

pub mod clock;
pub mod config;
pub mod decimal;
pub mod error;
pub mod group;
pub mod interop;
pub mod keycloak;
pub mod passwd;

pub use config::{Config, KeycloakConfig, MappingConfig};
pub use group::{Group, KeycloakNssGroup};
pub use passwd::{KeycloakNssPasswd, Passwd};
