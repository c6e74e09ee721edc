//! Resolving the operator's identity and the delivery mechanism from an
//! explicitly injected configuration value.

use crate::addr::{clone_opt_string, is_valid_addr, parse_address, Identity};
use crate::errors::{ConfigFault, ReplyError};
use vstd::prelude::*;

verus! {

/// The injected operator configuration, as the ambient configuration
/// provider yields it. The transport command is handed in already
/// path-interpolated, and the caller reports whether the relay value names an
/// existing local path, since only it can look at the filesystem.
#[derive(Debug)]
pub struct Config {
    pub user_name: Option<String>,
    pub user_email: Option<String>,
    /// An explicitly configured transport command, path-interpolated.
    pub sendmail_cmd: Option<String>,
    /// A configured relay value, which may or may not name a local path.
    pub relay: Option<String>,
}

/// The chosen delivery mechanism.
#[derive(Debug)]
pub enum TransportConfig {
    /// Run this executable as a sendmail-equivalent command.
    Command(String),
    /// The platform default local delivery command.
    DefaultSendmail,
}

/// Resolves the operator identity: the configured display name is optional,
/// the address is mandatory and must be valid.
pub fn resolve_identity(cfg: &Config) -> (r: Result<Identity, ReplyError>)
    ensures
        (r is Ok) == (cfg.user_email matches Some(e) && is_valid_addr(e@)),
        cfg.user_email is None ==> r == Result::<Identity, ReplyError>::Err(
            ReplyError::Configuration(ConfigFault::MissingAddress),
        ),
        cfg.user_email matches Some(e) && !is_valid_addr(e@) ==> r == Result::<
            Identity,
            ReplyError,
        >::Err(ReplyError::Configuration(ConfigFault::MalformedAddress)),
        r matches Ok(id) ==> (cfg.user_email matches Some(e) && id.name == cfg.user_name
            && id.addr == e && id.wf()),
{
    match &cfg.user_email {
        Option::Some(e) => match parse_address(e.as_str()) {
            Result::Ok(_) => Result::Ok(
                Identity { name: clone_opt_string(&cfg.user_name), addr: e.clone() },
            ),
            Result::Err(_) => Result::Err(ReplyError::Configuration(ConfigFault::MalformedAddress)),
        },
        Option::None => Result::Err(ReplyError::Configuration(ConfigFault::MissingAddress)),
    }
}

/// Picks the delivery mechanism, in order of precedence: an explicit
/// transport command; a relay value that names an existing local path, used
/// as a command; a relay value that does not, which is not supported; else
/// the platform default local delivery. `relay_is_local_path` reports the
/// filesystem check on the relay value, which the caller makes.
pub fn resolve_transport(cfg: &Config, relay_is_local_path: bool) -> (r: Result<
    TransportConfig,
    ReplyError,
>)
    ensures
        cfg.sendmail_cmd matches Some(c) ==> (r matches Ok(t) && (t matches
        TransportConfig::Command(p) && p == c)),
        cfg.sendmail_cmd is None && relay_is_local_path ==> (cfg.relay matches Some(s)
            ==> (r matches Ok(t) && (t matches TransportConfig::Command(p) && p == s))),
        cfg.sendmail_cmd is None && cfg.relay is Some && !relay_is_local_path ==> r == Result::<
            TransportConfig,
            ReplyError,
        >::Err(ReplyError::UnsupportedConfiguration),
        cfg.sendmail_cmd is None && cfg.relay is None ==> (r matches Ok(t) && t is
            DefaultSendmail),
        (r is Err) == (cfg.sendmail_cmd is None && cfg.relay is Some && !relay_is_local_path),
{
    if let Option::Some(c) = &cfg.sendmail_cmd {
        return Result::Ok(TransportConfig::Command(c.clone()));
    }
    match &cfg.relay {
        Option::Some(s) => {
            if relay_is_local_path {
                Result::Ok(TransportConfig::Command(s.clone()))
            } else {
                Result::Err(ReplyError::UnsupportedConfiguration)
            }
        },
        Option::None => Result::Ok(TransportConfig::DefaultSendmail),
    }
}

} // verus!
