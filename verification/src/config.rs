//! Settings, from what the environment says.

use crate::quantity::{format_unsigned, parse_unsigned};
#[allow(unused_imports)]
use crate::quantity;
use vstd::prelude::*;

verus! {

/// Why a variable gives no text.
#[derive(Debug, Clone, PartialEq, Eq)]
pub enum VariableError {
    /// It is not set.
    NotPresent,
    /// It is set to something that is no Unicode text: this, as it is quoted in
    /// messages.
    NotUnicode(String),
}

impl VariableError {
    /// The message for logs.
    pub fn message(&self) -> (r: String)
        ensures
            match *self {
                VariableError::NotPresent => r@ == "environment variable not found"@,
                VariableError::NotUnicode(quoted) => r@
                    == "environment variable was not valid unicode: "@ + quoted@,
            },
    {
        match self {
            VariableError::NotPresent => String::from_str("environment variable not found"),
            VariableError::NotUnicode(quoted) => {
                String::from_str("environment variable was not valid unicode: ").concat(
                    quoted.as_str(),
                )
            },
        }
    }
}

/// The variables that the bridge looks at, and the effective user. One with a
/// default is `None` where it is not set or no text; a required one says why.
pub struct Environment {
    /// `XDG_RUNTIME_DIR`.
    pub runtime_dir: Option<String>,
    /// `HUM_THRUM_SOCK`.
    pub sock: Option<String>,
    /// `DAMAN_BRIDGE_RPC`.
    pub rpc: Option<String>,
    /// `DAMAN_COPY_BOND_ADDR`.
    pub copy_bond_addr: Result<String, VariableError>,
    /// `DAMAN_BRIDGE_SENDER`.
    pub sender: Result<String, VariableError>,
    /// `DAMAN_BRIDGE_POLL_MS`.
    pub poll_ms: Option<String>,
    /// Effective user.
    pub euid: u32,
}

/// Settings of the bridge.
#[derive(Debug, Clone)]
pub struct Config {
    /// The socket of the mesh daemon.
    pub sock_path: String,
    /// The chain's JSON-RPC endpoint.
    pub rpc_url: String,
    /// Address of the copy-bond contract.
    pub copy_bond_addr: String,
    /// Address for which the endpoint signs.
    pub sender: String,
    /// Milliseconds between two polls.
    pub poll_interval_ms: u64,
}

/// Which required variable is missing, and why.
#[derive(Debug, Clone, PartialEq, Eq)]
pub enum ConfigError {
    /// `DAMAN_COPY_BOND_ADDR`.
    CopyBondAddr(VariableError),
    /// `DAMAN_BRIDGE_SENDER`.
    Sender(VariableError),
}

impl ConfigError {
    /// The message for logs.
    pub fn message(&self) -> (r: String)
        ensures
            match *self {
                ConfigError::CopyBondAddr(_) => r@ == "DAMAN_COPY_BOND_ADDR is required"@,
                ConfigError::Sender(_) => r@
                    == "DAMAN_BRIDGE_SENDER is required: the EVM address the RPC will sign for"@,
            },
    {
        match self {
            ConfigError::CopyBondAddr(_) => String::from_str("DAMAN_COPY_BOND_ADDR is required"),
            ConfigError::Sender(_) => String::from_str(
                "DAMAN_BRIDGE_SENDER is required: the EVM address the RPC will sign for",
            ),
        }
    }

    /// What is behind it.
    pub fn cause(&self) -> (r: &VariableError)
        ensures
            match *self {
                ConfigError::CopyBondAddr(e) => *r == e,
                ConfigError::Sender(e) => *r == e,
            },
    {
        match self {
            ConfigError::CopyBondAddr(e) => e,
            ConfigError::Sender(e) => e,
        }
    }
}

/// The directory for run-time files: the one that is set, or the user's own.
pub open spec fn runtime_dir(env: Environment) -> Seq<char> {
    match env.runtime_dir {
        Some(dir) => dir@,
        None => "/run/user/"@ + quantity::number_text(env.euid as nat, 10),
    }
}

/// The socket: the one that is set, or the usual one below the run-time
/// directory.
pub open spec fn sock_path(env: Environment) -> Seq<char> {
    match env.sock {
        Some(path) => path@,
        None => runtime_dir(env) + "/hum/thrum.sock"@,
    }
}

/// The endpoint: the one that is set, or the test network's.
pub open spec fn rpc_url(env: Environment) -> Seq<char> {
    match env.rpc {
        Some(url) => url@,
        None => "https://rpc.testnet.arc.network"@,
    }
}

/// The poll interval: the one that is set, where it is a number, or four
/// seconds.
pub open spec fn poll_interval(env: Environment) -> u64 {
    match env.poll_ms {
        Some(ms) => match quantity::unsigned_value(ms@, 10) {
            Some(n) => n,
            None => 4000,
        },
        None => 4000,
    }
}

impl Config {
    /// The settings that an environment gives.
    pub fn from_env(env: Environment) -> (r: Result<Config, ConfigError>)
        ensures
            match (env.copy_bond_addr, env.sender) {
                (Err(e), _) => r == Err::<Config, ConfigError>(ConfigError::CopyBondAddr(e)),
                (Ok(_), Err(e)) => r == Err::<Config, ConfigError>(ConfigError::Sender(e)),
                (Ok(addr), Ok(sender)) => {
                    &&& r matches Ok(config)
                    &&& config.sock_path@ == sock_path(env)
                    &&& config.rpc_url@ == rpc_url(env)
                    &&& config.copy_bond_addr@ == addr@
                    &&& config.sender@ == sender@
                    &&& config.poll_interval_ms == poll_interval(env)
                },
            },
    {
        let runtime = match env.runtime_dir {
            Some(dir) => dir,
            None => {
                let user = format_unsigned(env.euid as u64, 10);
                String::from_str("/run/user/").concat(user.as_str())
            },
        };
        let default_sock = runtime.concat("/hum/thrum.sock");
        let sock_path = match env.sock {
            Some(path) => path,
            None => default_sock,
        };
        let rpc_url = match env.rpc {
            Some(url) => url,
            None => String::from_str("https://rpc.testnet.arc.network"),
        };
        let copy_bond_addr = match env.copy_bond_addr {
            Ok(addr) => addr,
            Err(e) => {
                return Err(ConfigError::CopyBondAddr(e));
            },
        };
        let sender = match env.sender {
            Ok(sender) => sender,
            Err(e) => {
                return Err(ConfigError::Sender(e));
            },
        };
        let poll_interval_ms: u64 = match env.poll_ms {
            Some(ms) => match parse_unsigned(ms.as_str(), 10) {
                Ok(n) => n,
                Err(_) => 4000,
            },
            None => 4000,
        };
        Ok(Config { sock_path, rpc_url, copy_bond_addr, sender, poll_interval_ms })
    }
}

/// Each setting is the variable's own text where that is set. The socket is
/// otherwise `hum/thrum.sock` below the run-time directory, or below the user's
/// own under `/run/user` where that is not set either; the endpoint is
/// otherwise the test network's.
pub proof fn law_settings_and_their_defaults(env: Environment)
    ensures
        env.sock matches Some(path) ==> sock_path(env) == path@,
        env.sock is None && env.runtime_dir is Some ==> sock_path(env) == env.runtime_dir->0@
            + "/hum/thrum.sock"@,
        env.sock is None && env.runtime_dir is None ==> sock_path(env) == "/run/user/"@
            + quantity::number_text(env.euid as nat, 10) + "/hum/thrum.sock"@,
        env.rpc matches Some(url) ==> rpc_url(env) == url@,
        env.rpc is None ==> rpc_url(env) == "https://rpc.testnet.arc.network"@,
{
}

/// The poll interval is the number of milliseconds that is set; it is 4000
/// where none is set, or where what is set is no number.
pub proof fn law_poll_interval(env: Environment)
    ensures
        env.poll_ms matches Some(ms) ==> match quantity::unsigned_value(ms@, 10) {
            Some(n) => poll_interval(env) == n,
            None => poll_interval(env) == 4000,
        },
        env.poll_ms is None ==> poll_interval(env) == 4000,
{
}

} // verus!
