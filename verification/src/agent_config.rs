//! The settings of the agent's HTTP endpoint and notifications, and where
//! configuration files are looked for.
use vstd::prelude::*;

use crate::text::{push_str, to_owned_string};

verus! {

/// Where the agent listens.
#[derive(Debug)]
pub struct ServerConfig {
    pub host: String,
    pub port: u16,
}

/// The host listened on unless configured.
pub fn default_host() -> (res: String)
    ensures
        res@ == "0.0.0.0"@,
{
    to_owned_string("0.0.0.0")
}

/// The port listened on unless configured.
pub fn default_port() -> (res: u16)
    ensures
        res == 9080,
{
    9080
}

impl Default for ServerConfig {
    fn default() -> (res: Self)
        ensures
            res.host@ == "0.0.0.0"@,
            res.port == 9080,
    {
        ServerConfig { host: default_host(), port: default_port() }
    }
}

/// Where notifications are sent, if anywhere.
#[derive(Debug)]
pub struct NotificationSettings {
    pub ntfy_url: Option<String>,
}

impl Default for NotificationSettings {
    fn default() -> (res: Self)
        ensures
            res.ntfy_url is None,
    {
        NotificationSettings { ntfy_url: None }
    }
}

/// The configuration file for the environment named by `ENV` (`dev` when
/// unset): `config/<env>`.
pub fn config_file(env: Option<&str>) -> (res: String)
    ensures
        res@ == "config/"@ + match env {
            Some(e) => e@,
            None => "dev"@,
        },
{
    let mut f = to_owned_string("config/");
    match env {
        Some(e) => push_str(&mut f, e),
        None => push_str(&mut f, "dev"),
    }
    f
}

} // verus!
