//! What a connection needs on disk and on the command line, and the stages
//! that bringing it up goes through.

use vstd::prelude::*;
use crate::credentials::{create_passfile, passfile_text};
use crate::openvpn::{connection_config, rendered_text};
use crate::protocol::ConnectionProtocol;
use crate::servers::{entry_ips_of, LogicalServer};
use crate::split_tunnel::IpNm;
use crate::user::UserConfig;

verus! {

/// Name of the native client's program.
pub const OPENVPN: &'static str = "openvpn";

/// Name of the tunnel device that the native client is told to use.
pub const TUN_DEVICE: &'static str = "proton0";

/// Why a connection was not brought up.
#[derive(Debug, PartialEq, Eq, Structural, Copy, Clone)]
pub enum ConnectError {
    /// The configuration file could not be made or written.
    ConfigWriteError,
    /// The credential file could not be made or secured.
    CredentialError,
    /// The native client could not be started.
    SpawnError,
}

/// The stages of bringing a connection up. They are passed in this order,
/// one by one; a failure at any of them ends in `Failed`.
#[derive(Debug, PartialEq, Eq, Structural, Copy, Clone)]
pub enum ConnectState {
    Idle,
    ConfigWritten,
    CredentialStaged,
    ProcessSpawned,
    Failed(ConnectError),
}

/// What is to be done next on the way to a connection.
#[derive(Debug, PartialEq, Eq, Structural, Copy, Clone)]
pub enum ConnectAction {
    /// Write the configuration text to its path, in place of what is there.
    WriteConfig,
    /// Make the credential file and write the credential text to it.
    StageCredential,
    /// Open the log in place of what is there and start the native client.
    Spawn,
    /// Keep the process and the credential file together until both go.
    Hold,
    /// Remove the credential file, then report the failure.
    RemoveCredential,
    /// Report the failure; the configuration file stays for inspection.
    Report,
}

/// The texts and paths that a connection starts from.
#[derive(Debug, Clone, PartialEq, Eq)]
pub struct ConnectionPlan {
    pub config_path: String,
    pub config_text: String,
    pub log_path: String,
    pub credential_text: String,
}

/// The texts of a list of strings.
pub open spec fn texts(items: Seq<String>) -> Seq<Seq<char>> {
    items.map_values(|s: String| s@)
}

/// The arguments that the native client is started with.
pub open spec fn launch_args(config_path: Seq<char>, credential_path: Seq<char>) -> Seq<Seq<char>> {
    seq![
        "--config"@,
        config_path,
        "--auth-user-pass"@,
        credential_path,
        "--dev"@,
        TUN_DEVICE@,
        "--dev-type"@,
        "tun"@,
    ]
}

/// The stage that follows `state` when what it waited for has come about
/// (`done`) or has failed.
pub open spec fn next_state(state: ConnectState, done: bool) -> ConnectState {
    match state {
        ConnectState::Idle => if done {
            ConnectState::ConfigWritten
        } else {
            ConnectState::Failed(ConnectError::ConfigWriteError)
        },
        ConnectState::ConfigWritten => if done {
            ConnectState::CredentialStaged
        } else {
            ConnectState::Failed(ConnectError::CredentialError)
        },
        ConnectState::CredentialStaged => if done {
            ConnectState::ProcessSpawned
        } else {
            ConnectState::Failed(ConnectError::SpawnError)
        },
        ConnectState::ProcessSpawned => ConnectState::ProcessSpawned,
        ConnectState::Failed(e) => ConnectState::Failed(e),
    }
}

/// What is to be done on the step from `state`. A failure after the
/// credential file was made has that file removed.
pub open spec fn next_action(state: ConnectState, done: bool) -> ConnectAction {
    match state {
        ConnectState::Idle => if done {
            ConnectAction::StageCredential
        } else {
            ConnectAction::Report
        },
        ConnectState::ConfigWritten => if done {
            ConnectAction::Spawn
        } else {
            ConnectAction::Report
        },
        ConnectState::CredentialStaged => if done {
            ConnectAction::Hold
        } else {
            ConnectAction::RemoveCredential
        },
        ConnectState::ProcessSpawned => ConnectAction::Hold,
        ConnectState::Failed(_) => ConnectAction::Report,
    }
}

/// Position of a stage on the way from `Idle` to the end.
pub open spec fn progress(state: ConnectState) -> int {
    match state {
        ConnectState::Idle => 0,
        ConnectState::ConfigWritten => 1,
        ConnectState::CredentialStaged => 2,
        ConnectState::ProcessSpawned => 3,
        ConnectState::Failed(_) => 4,
    }
}

/// The stage reached from `state` after the outcomes `done`, in order.
pub open spec fn state_after(state: ConnectState, done: Seq<bool>) -> ConnectState
    decreases done.len(),
{
    if done.len() == 0 {
        state
    } else {
        next_state(state_after(state, done.drop_last()), done.last())
    }
}

/// Where bringing a connection up starts, and what is done first.
pub fn start() -> (r: (ConnectState, ConnectAction))
    ensures
        r == (ConnectState::Idle, ConnectAction::WriteConfig),
{
    (ConnectState::Idle, ConnectAction::WriteConfig)
}

/// One step: from the stage `state` and the outcome of what it waited for
/// to the next stage and what is to be done there.
pub fn step(state: ConnectState, done: bool) -> (r: (ConnectState, ConnectAction))
    ensures
        r == (next_state(state, done), next_action(state, done)),
{
    match state {
        ConnectState::Idle => {
            if done {
                (ConnectState::ConfigWritten, ConnectAction::StageCredential)
            } else {
                (ConnectState::Failed(ConnectError::ConfigWriteError), ConnectAction::Report)
            }
        },
        ConnectState::ConfigWritten => {
            if done {
                (ConnectState::CredentialStaged, ConnectAction::Spawn)
            } else {
                (ConnectState::Failed(ConnectError::CredentialError), ConnectAction::Report)
            }
        },
        ConnectState::CredentialStaged => {
            if done {
                (ConnectState::ProcessSpawned, ConnectAction::Hold)
            } else {
                (ConnectState::Failed(ConnectError::SpawnError), ConnectAction::RemoveCredential)
            }
        },
        ConnectState::ProcessSpawned => (ConnectState::ProcessSpawned, ConnectAction::Hold),
        ConnectState::Failed(e) => (ConnectState::Failed(e), ConnectAction::Report),
    }
}

/// The stage reached from `Idle` after the outcomes `done`, in order.
pub fn run(done: &Vec<bool>) -> (state: ConnectState)
    ensures
        state == state_after(ConnectState::Idle, done@),
{
    let mut state = ConnectState::Idle;
    let mut i: usize = 0;
    assert(done@.take(0) =~= Seq::<bool>::empty());
    while i < done.len()
        invariant
            i <= done.len(),
            state == state_after(ConnectState::Idle, done@.take(i as int)),
        decreases done.len() - i,
    {
        proof {
            assert(done@.take(i + 1).drop_last() =~= done@.take(i as int));
            assert(done@.take(i + 1).last() == done@[i as int]);
        }
        let (next, _) = step(state, done[i]);
        state = next;
        i += 1;
    }
    assert(done@.take(done.len() as int) =~= done@);
    state
}

/// The arguments that the native client is started with: the configuration,
/// the credential file, the tunnel device and its kind.
pub fn openvpn_args(config_path: &str, credential_path: &str) -> (args: Vec<String>)
    ensures
        texts(args@) == launch_args(config_path@, credential_path@),
{
    let mut args: Vec<String> = Vec::new();
    args.push("--config".to_owned());
    args.push(config_path.to_owned());
    args.push("--auth-user-pass".to_owned());
    args.push(credential_path.to_owned());
    args.push("--dev".to_owned());
    args.push(TUN_DEVICE.to_owned());
    args.push("--dev-type".to_owned());
    args.push("tun".to_owned());
    assert(texts(args@) =~= launch_args(config_path@, credential_path@));
    args
}

/// Plans a connection to `server` over `protocol` for the user of
/// `user_config`: the configuration text for `config_path` and the
/// credential text. A server without a machine has no configuration, and
/// the plan fails before anything is written or started.
pub fn connect(
    server: &LogicalServer,
    protocol: &ConnectionProtocol,
    user_config: &UserConfig,
    config_path: &str,
    log_path: &str,
) -> (r: Result<ConnectionPlan, ConnectError>)
    ensures
        match r {
            Ok(plan) => {
                &&& server.servers@.len() > 0
                &&& plan.config_path@ == config_path@
                &&& plan.log_path@ == log_path@
                &&& plan.config_text@ == rendered_text(
                    *protocol,
                    entry_ips_of(server.servers@),
                    seq![protocol.port_number() as usize],
                    false,
                    Seq::<IpNm>::empty(),
                    true,
                )
                &&& plan.credential_text@ == passfile_text(
                    user_config.username@,
                    user_config.password@,
                )
            },
            Err(e) => server.servers@.len() == 0 && e == ConnectError::ConfigWriteError,
        },
{
    match connection_config(server, protocol) {
        Ok(config_text) => Ok(
            ConnectionPlan {
                config_path: config_path.to_owned(),
                config_text,
                log_path: log_path.to_owned(),
                credential_text: create_passfile(user_config),
            },
        ),
        Err(_) => Err(ConnectError::ConfigWriteError),
    }
}

/// No step leads back: a step never lowers the progress, `ProcessSpawned`
/// and `Failed` are left by no step, and before them every step moves on.
pub proof fn lemma_steps_are_linear(state: ConnectState, done: bool)
    ensures
        progress(next_state(state, done)) >= progress(state),
        progress(state) >= 3 ==> next_state(state, done) == state,
        progress(state) < 3 && done ==> progress(next_state(state, done)) == progress(state) + 1,
        progress(state) < 3 && !done ==> next_state(state, done) is Failed,
{
}

/// Three successes in a row lead from `Idle` to `ProcessSpawned`, and
/// nothing else does: a process runs only after the configuration was
/// written and the credential staged.
pub proof fn lemma_success_path(done: Seq<bool>)
    ensures
        state_after(ConnectState::Idle, seq![true, true, true]) == ConnectState::ProcessSpawned,
        state_after(ConnectState::Idle, done) == ConnectState::ProcessSpawned ==> done.len() >= 3
            && done[0] && done[1] && done[2],
{
    reveal_with_fuel(state_after, 5);
    assert(seq![true, true, true].drop_last() =~= seq![true, true]);
    assert(seq![true, true].drop_last() =~= seq![true]);
    assert(seq![true].drop_last() =~= Seq::<bool>::empty());
    lemma_path(done);
}

/// The stage after a list of outcomes: as many stages on as the list has
/// successes at its start, up to three, and `Failed` after the first failure
/// before that.
proof fn lemma_path(done: Seq<bool>)
    ensures
        ({
            let s = state_after(ConnectState::Idle, done);
            &&& progress(s) <= 3 ==> progress(s) <= done.len() && forall|k: int|
                0 <= k < progress(s) ==> done[k]
            &&& progress(s) < 3 ==> progress(s) == done.len()
        }),
    decreases done.len(),
{
    if done.len() > 0 {
        lemma_path(done.drop_last());
        let before = state_after(ConnectState::Idle, done.drop_last());
        lemma_steps_are_linear(before, done.last());
        let s = state_after(ConnectState::Idle, done);
        if progress(s) <= 3 {
            assert forall|k: int| 0 <= k < progress(s) implies done[k] by {
                if k < progress(before) {
                    assert(done.drop_last()[k] == done[k]);
                }
            }
        }
    }
}

/// The credential file is removed exactly on a failure that comes after it
/// was staged; a failure before that has nothing to remove.
pub proof fn lemma_rollback(state: ConnectState, done: bool)
    ensures
        next_action(state, done) == ConnectAction::RemoveCredential <==> state
            == ConnectState::CredentialStaged && !done,
        next_action(state, done) == ConnectAction::Spawn <==> state == ConnectState::ConfigWritten
            && done,
{
}

} // verus!
