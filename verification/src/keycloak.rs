//! The provider's side: what to ask Keycloak, and what its replies mean.

pub mod auth;
pub mod groups;
pub mod model;
pub mod request;
pub mod users;
