//! Where the configuration comes from, and what it holds.

use vstd::prelude::*;

mod model;

pub use model::{Config, KeycloakConfig, MappingConfig};

verus! {

/// Name of the environment variable that may hold the path of the configuration file.
pub const CONFIG_ENV: &'static str = "NSSKEYCLOAK_CONFIG_FILE";

/// Path of the configuration file when the environment names none.
pub const CONFIG_DEFAULT_FILE: &'static str = "/etc/nss-keycloak/config.toml";

/// The path of the configuration file, given the value of the environment
/// variable [`CONFIG_ENV`] (`None` when it is not set).
pub open spec fn config_path(env_value: Option<Seq<char>>) -> Seq<char> {
    match env_value {
        Some(path) => path,
        None => CONFIG_DEFAULT_FILE@,
    }
}

/// Chooses the path of the configuration file: the value of the environment
/// variable when it is set, the default path otherwise.
pub fn get_config_path(env_value: Option<String>) -> (path: String)
    ensures
        path@ == config_path(env_value.deep_view()),
{
    match env_value {
        Some(path) => path,
        None => CONFIG_DEFAULT_FILE.to_owned(),
    }
}

/// Loads the configuration: chooses the path of the configuration file as
/// [`get_config_path`] does, and has `read_config_file` read the file at that
/// path.
///
/// `env_value` is the value of the environment variable [`CONFIG_ENV`]. The
/// reader is called once, with the chosen path, and what it returns is
/// returned as it is. The reader has to accept that path, and no other.
pub fn load_config<E, F: FnOnce(String) -> Result<Config, E>>(
    env_value: Option<String>,
    read_config_file: F,
) -> (config: Result<Config, E>)
    requires
        forall|path: String|
            path@ == config_path(env_value.deep_view()) ==> call_requires(
                read_config_file,
                (path,),
            ),
    ensures
        exists|path: String|
            path@ == config_path(env_value.deep_view()) && call_ensures(
                read_config_file,
                (path,),
                config,
            ),
{
    let path = get_config_path(env_value);
    read_config_file(path)
}

} // verus!
