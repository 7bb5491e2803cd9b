//! The commands of the program and what each of them sets in motion.

use vstd::prelude::*;
use crate::protocol::ConnectionProtocol;
use crate::resolve::{
    failure_of, none_wanted, resolve, resolves_to, wanted, ConnectOptions, ResolveError,
};
use crate::servers::LogicalServer;
use crate::user::Config;

verus! {

/// What is said when a command needs a profile and none could be loaded.
pub const PROFILE_MISSING: &'static str =
    "Unable to load your profile. Try running `protonvpn init` again.";

/// The commands of the program.
#[derive(Debug, Clone, PartialEq, Eq)]
pub enum CliOptions {
    /// Initialize a profile.
    Init,
    /// Connect to a server.
    Connect(Connect),
    /// Reconnect the current session, or connect to the last server.
    Reconnect,
    /// Disconnect the current session.
    Disconnect,
    /// Print information about the current session.
    Status,
    /// Edit one setting.
    Configure,
    /// Refresh the configuration and the server data.
    Refresh,
    /// Print some example commands.
    Examples,
}

/// The arguments of the `connect` command.
#[derive(Debug, Clone, PartialEq, Eq)]
pub struct Connect {
    /// How the server is chosen.
    pub connection_option: ConnectOptions,
    /// The protocol to use in place of the one in the settings.
    pub protocol: Option<ConnectionProtocol>,
}

/// What a command sets in motion.
#[derive(Debug, PartialEq, Eq, Structural, Copy, Clone)]
pub enum MainAction {
    /// Ask for every setting; keep the answers in the stored profile only
    /// where `store` is set.
    Initialize { store: bool },
    /// Choose a server and connect to it.
    Connect,
    /// Ask for one setting and store the profile.
    Configure,
    /// Nothing is done.
    Nothing,
    /// Say that no profile could be loaded.
    ReportMissingProfile,
}

/// What `opt` sets in motion, with a profile that was loaded or not. Without
/// a profile only `Init` does anything, and its answers are not stored.
pub open spec fn action_for(opt: CliOptions, profile_loaded: bool) -> MainAction {
    if profile_loaded {
        match opt {
            CliOptions::Init => MainAction::Initialize { store: true },
            CliOptions::Connect(_) => MainAction::Connect,
            CliOptions::Configure => MainAction::Configure,
            _ => MainAction::Nothing,
        }
    } else {
        match opt {
            CliOptions::Init => MainAction::Initialize { store: false },
            _ => MainAction::ReportMissingProfile,
        }
    }
}

/// The protocol of a connection: the one given on the command line, or else
/// the one in the settings.
pub open spec fn protocol_for(flags: Connect, config: Config) -> ConnectionProtocol {
    match flags.protocol {
        Some(p) => p,
        None => config.user.protocol,
    }
}

/// What the command `opt` sets in motion.
pub fn main(opt: &CliOptions, profile_loaded: bool) -> (a: MainAction)
    ensures
        a == action_for(*opt, profile_loaded),
{
    if profile_loaded {
        match opt {
            CliOptions::Init => MainAction::Initialize { store: true },
            CliOptions::Connect(_) => MainAction::Connect,
            CliOptions::Configure => MainAction::Configure,
            _ => MainAction::Nothing,
        }
    } else {
        match opt {
            CliOptions::Init => MainAction::Initialize { store: false },
            _ => MainAction::ReportMissingProfile,
        }
    }
}

/// Chooses the server and the protocol of a `connect` command among the
/// servers of the catalog. The server is given by its position in
/// `servers`. `ticket` is the caller's random number; only a random request
/// reads it. Where no server is chosen, nothing is planned or started.
pub fn connect(flags: &Connect, config: &Config, servers: &Vec<LogicalServer>, ticket: u64) -> (r:
    Result<(usize, ConnectionProtocol), ResolveError>)
    ensures
        match r {
            Ok((i, protocol)) => {
                &&& i < servers.len()
                &&& wanted(flags.connection_option, servers@[i as int], config.user.tier)
                &&& resolves_to(
                    servers@,
                    flags.connection_option,
                    config.user.tier,
                    ticket as nat,
                    i as int,
                )
                &&& protocol == protocol_for(*flags, *config)
            },
            Err(e) => none_wanted(servers@, flags.connection_option, config.user.tier) && e
                == failure_of(flags.connection_option),
        },
{
    let protocol = match flags.protocol {
        Some(p) => p,
        None => config.user.protocol,
    };
    match resolve(&flags.connection_option, servers, config.user.tier, ticket) {
        Ok(i) => Ok((i, protocol)),
        Err(e) => Err(e),
    }
}

} // verus!
