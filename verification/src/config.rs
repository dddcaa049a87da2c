use vstd::prelude::*;

use crate::text::{dec_rep, u16_string};

verus! {

/// A connection profile: where the remote host is reached and how the session
/// authenticates. The embedding application assembles the raw fields from the
/// operator's client configuration; `load` turns them into a profile, which is
/// read-only afterwards.
#[derive(Debug)]
pub struct Config {
    /// Remote endpoint as `name_or_address:port`.
    pub addr: String,
    /// Account to authenticate as.
    pub user: String,
    /// Path of the private key file presented for authentication.
    pub key: String,
}

/// Why no connection profile could be assembled for the requested host alias.
#[derive(Clone, Copy, PartialEq, Eq, Structural, Debug)]
pub enum ConfigError {
    /// The alias has no address in the client configuration.
    HostNotFound,
    /// The alias has no user.
    UserMissing,
    /// The alias has no identity file.
    KeyMissing,
}

/// Port used when the client configuration names none.
pub const DEFAULT_SSH_PORT: u16 = 22;

/// The endpoint string `host:port`.
pub open spec fn addr_of(host: Seq<char>, port: u16) -> Seq<char> {
    host + seq![':'] + dec_rep(port as nat)
}

/// The port `load` settles on: the configured one, or the default.
pub open spec fn chosen_port(port: Option<u16>) -> u16 {
    match port {
        Some(p) => p,
        None => DEFAULT_SSH_PORT,
    }
}

/// Builds the connection profile from the fields the client configuration
/// yields for one host alias. Every required field must be present: the
/// address, the user, and at least one identity file (the first one is used).
/// A missing port falls back to the default.
pub fn load(
    host_name: Option<String>,
    port: Option<u16>,
    user: Option<String>,
    identity_files: Option<Vec<String>>,
) -> (r: Result<Config, ConfigError>)
    ensures
        match r {
            Ok(c) => {
                &&& host_name matches Some(h) && c.addr@ == addr_of(h@, chosen_port(port))
                &&& user matches Some(u) && c.user@ == u@
                &&& identity_files matches Some(ks) && ks@.len() > 0 && c.key@ == ks@[0]@
            },
            Err(e) => match e {
                ConfigError::HostNotFound => host_name is None,
                ConfigError::UserMissing => host_name is Some && user is None,
                ConfigError::KeyMissing => host_name is Some && user is Some && (identity_files
                    is None || identity_files->0@.len() == 0),
            },
        },
{
    let h = match host_name {
        Some(h) => h,
        None => {
            return Err(ConfigError::HostNotFound);
        },
    };
    let u = match user {
        Some(u) => u,
        None => {
            return Err(ConfigError::UserMissing);
        },
    };
    let ks = match identity_files {
        Some(ks) => ks,
        None => {
            return Err(ConfigError::KeyMissing);
        },
    };
    if ks.len() == 0 {
        return Err(ConfigError::KeyMissing);
    }
    let p = match port {
        Some(p) => p,
        None => DEFAULT_SSH_PORT,
    };
    let ghost host_view = h@;
    let mut addr = h;
    addr.append(":");
    let ps = u16_string(p);
    addr.append(ps.as_str());
    proof {
        reveal_strlit(":");
        assert(addr@ =~= addr_of(host_view, chosen_port(port)));
    }
    let key = ks[0].clone();
    Ok(Config { addr, user: u, key })
}

} // verus!
