//! Process supervision: a single-owner registry of the two managed
//! slots (client and server) with their lifecycle transitions, the
//! spawn plans the I/O shell executes, the law behind the log
//! relay, and the stop commands and event names of the surface
//! exposed to the GUI collaborator.

use vstd::prelude::*;
use vstd::string::StrSliceExecFns;
use vstd::string::StringSliceAdditionalSpecFns;
use crate::errors::LauncherError;
use crate::text::{clone_vec, split_lines, line_clean, lemma_split_append_clean};

verus! {

#[derive(Clone, Copy, PartialEq, Eq, Structural, Debug)]
pub enum ProcessKind {
    Client,
    Server,
}

/// Lifecycle of one managed slot.
#[derive(Clone, Copy, PartialEq, Eq, Structural, Debug)]
pub enum SlotState {
    Idle,
    Spawning,
    Running { pid: u32 },
    Stopping { pid: u32 },
}

/// The slot that is not `kind`.
pub open spec fn other_kind(kind: ProcessKind) -> ProcessKind {
    match kind {
        ProcessKind::Client => ProcessKind::Server,
        ProcessKind::Server => ProcessKind::Client,
    }
}

/// Single-owner registry of the managed processes: one slot per
/// kind, so at most one live client and one live server are ever
/// tracked, and start/stop cannot race on shared state.
pub struct Supervisor {
    client: SlotState,
    server: SlotState,
}

impl Supervisor {
    pub closed spec fn slot(&self, kind: ProcessKind) -> SlotState {
        match kind {
            ProcessKind::Client => self.client,
            ProcessKind::Server => self.server,
        }
    }

    pub fn new() -> (s: Self)
        ensures
            s.slot(ProcessKind::Client) is Idle,
            s.slot(ProcessKind::Server) is Idle,
    {
        Supervisor { client: SlotState::Idle, server: SlotState::Idle }
    }

    fn set_slot(&mut self, kind: ProcessKind, state: SlotState)
        ensures
            final(self).slot(kind) == state,
            final(self).slot(other_kind(kind)) == old(self).slot(other_kind(kind)),
    {
        match kind {
            ProcessKind::Client => {
                self.client = state;
            },
            ProcessKind::Server => {
                self.server = state;
            },
        }
    }

    /// A start was requested on an idle slot.
    pub fn begin_spawn(&mut self, kind: ProcessKind)
        requires
            old(self).slot(kind) is Idle,
        ensures
            final(self).slot(kind) is Spawning,
            final(self).slot(other_kind(kind)) == old(self).slot(other_kind(kind)),
    {
        self.set_slot(kind, SlotState::Spawning);
    }

    /// The child came up; its identifier is tracked from here on.
    pub fn spawn_succeeded(&mut self, kind: ProcessKind, pid: u32)
        requires
            old(self).slot(kind) is Spawning,
        ensures
            final(self).slot(kind) == (SlotState::Running { pid }),
            final(self).slot(other_kind(kind)) == old(self).slot(other_kind(kind)),
    {
        self.set_slot(kind, SlotState::Running { pid });
    }

    /// The spawn failed; the slot is free again.
    pub fn spawn_failed(&mut self, kind: ProcessKind)
        requires
            old(self).slot(kind) is Spawning,
        ensures
            final(self).slot(kind) is Idle,
            final(self).slot(other_kind(kind)) == old(self).slot(other_kind(kind)),
    {
        self.set_slot(kind, SlotState::Idle);
    }

    /// A stop was requested for the tracked process.
    pub fn request_stop(&mut self, kind: ProcessKind)
        requires
            old(self).slot(kind) is Running,
        ensures
            final(self).slot(kind) matches SlotState::Stopping { pid } && (old(
                self,
            ).slot(kind) matches SlotState::Running { pid: p } && p == pid),
            final(self).slot(other_kind(kind)) == old(self).slot(other_kind(kind)),
    {
        let pid = match self.slot_state(kind) {
            SlotState::Running { pid } => pid,
            _ => 0,
        };
        self.set_slot(kind, SlotState::Stopping { pid });
    }

    /// The tracked process is gone — it exited on its own or the
    /// requested termination completed.
    pub fn confirm_stopped(&mut self, kind: ProcessKind)
        requires
            old(self).slot(kind) is Running || old(self).slot(kind) is Stopping,
        ensures
            final(self).slot(kind) is Idle,
            final(self).slot(other_kind(kind)) == old(self).slot(other_kind(kind)),
    {
        self.set_slot(kind, SlotState::Idle);
    }

    pub fn slot_state(&self, kind: ProcessKind) -> (r: SlotState)
        ensures
            r == self.slot(kind),
    {
        match kind {
            ProcessKind::Client => self.client,
            ProcessKind::Server => self.server,
        }
    }

    /// The identifier of the process a slot tracks, if it tracks one.
    pub fn tracked_pid(&self, kind: ProcessKind) -> (r: Option<u32>)
        ensures
            self.slot(kind) matches SlotState::Running { pid } ==> r == Some(pid),
            self.slot(kind) matches SlotState::Stopping { pid } ==> r == Some(pid),
            self.slot(kind) is Idle || self.slot(kind) is Spawning ==> r is None,
    {
        match self.slot_state(kind) {
            SlotState::Running { pid } => Some(pid),
            SlotState::Stopping { pid } => Some(pid),
            _ => None,
        }
    }
}

pub open spec fn spec_client_executable() -> Seq<u8> {
    "./client_update/client.dist/client.bin".spec_bytes()
}

pub open spec fn spec_server_executable() -> Seq<u8> {
    "./server_update/server.bin".spec_bytes()
}

/// Fixed path of the client executable under its install root.
pub fn client_executable_path() -> (r: Vec<u8>)
    ensures
        r@ == spec_client_executable(),
{
    ("./client_update/client.dist/client.bin").as_bytes_vec()
}

/// Fixed path of the server executable under its install root.
pub fn server_executable_path() -> (r: Vec<u8>)
    ensures
        r@ == spec_server_executable(),
{
    ("./server_update/server.bin").as_bytes_vec()
}

/// Everything the I/O shell needs to spawn a child: the executable,
/// its argument list, and whether standard output and error are to
/// be piped back for the log relay.
#[derive(Debug, PartialEq, Eq)]
pub struct SpawnPlan {
    pub executable: Vec<u8>,
    pub args: Vec<Vec<u8>>,
    pub capture_output: bool,
}

/// Decide the client start: without the executable on disk nothing
/// is spawned; with it, the plan runs it with positional
/// `--name`/`--ip` arguments and no output capture.
pub fn plan_start_client(executable_present: bool, name: &Vec<u8>, ip: &Vec<u8>) -> (r:
    Result<SpawnPlan, LauncherError>)
    ensures
        !executable_present ==> (r matches Err(e) && e is ExecutableNotFound),
        executable_present ==> (r matches Ok(p) && p.executable@ == spec_client_executable()
            && p.args@.len() == 4 && p.args@[0]@ == "--name".spec_bytes() && p.args@[1]@
            == name@ && p.args@[2]@ == "--ip".spec_bytes() && p.args@[3]@ == ip@
            && p.capture_output == false),
{
    if !executable_present {
        return Err(LauncherError::ExecutableNotFound);
    }
    let mut args: Vec<Vec<u8>> = Vec::new();
    args.push(("--name").as_bytes_vec());
    args.push(clone_vec(name));
    args.push(("--ip").as_bytes_vec());
    args.push(clone_vec(ip));
    Ok(SpawnPlan { executable: client_executable_path(), args, capture_output: false })
}

/// Decide the server start: a failed port reclaim is fatal and its
/// error is handed through unchanged; then the executable must be on
/// disk; the plan runs it with no arguments and with both output
/// streams piped for the log relay.
pub fn plan_start_server(reclaim: Result<Option<Vec<u8>>, LauncherError>,
    executable_present: bool) -> (r: Result<SpawnPlan, LauncherError>)
    ensures
        reclaim matches Err(e) ==> (r matches Err(e2) && e2 == e),
        reclaim is Ok && !executable_present ==> (r matches Err(e)
            && e is ExecutableNotFound),
        reclaim is Ok && executable_present ==> (r matches Ok(p) && p.executable@
            == spec_server_executable() && p.args@.len() == 0 && p.capture_output == true),
{
    match reclaim {
        Err(e) => Err(e),
        Ok(_) => {
            if !executable_present {
                Err(LauncherError::ExecutableNotFound)
            } else {
                Ok(
                    SpawnPlan {
                        executable: server_executable_path(),
                        args: Vec::new(),
                        capture_output: true,
                    },
                )
            }
        },
    }
}

/// The newline-terminated stream formed of `lines`.
pub open spec fn join_lines(lines: Seq<Seq<u8>>) -> Seq<u8>
    decreases lines.len(),
{
    if lines.len() == 0 {
        Seq::empty()
    } else {
        join_lines(lines.drop_last()) + lines.last() + seq![10u8]
    }
}

/// Law: a stream that consists of newline-terminated lines, none of
/// which contains a newline itself, splits back into exactly those
/// lines, in their original order, with nothing left pending — one
/// relay event per written line, per stream.
pub proof fn lemma_relay_reproduces_lines(lines: Seq<Seq<u8>>)
    requires
        forall|i: int| 0 <= i < lines.len() ==> line_clean(#[trigger] lines[i]),
    ensures
        split_lines(join_lines(lines)).0 == lines,
        split_lines(join_lines(lines)).1 == Seq::<u8>::empty(),
    decreases lines.len(),
{
    if lines.len() == 0 {
        assert(split_lines(join_lines(lines)).0 =~= Seq::<Seq<u8>>::empty());
    } else {
        let dl = lines.drop_last();
        assert(forall|i: int| 0 <= i < dl.len() ==> line_clean(#[trigger] dl[i]));
        lemma_relay_reproduces_lines(dl);
        let s = join_lines(dl);
        lemma_split_append_clean(s, lines.last());
        let t = s + lines.last();
        let u = join_lines(lines);
        assert(u =~= t + seq![10u8]);
        assert(u.drop_last() =~= t);
        assert(u.last() == 10);
        assert(split_lines(t).1 =~= lines.last());
        assert(split_lines(u).0 =~= dl.push(lines.last()));
        assert(dl.push(lines.last()) =~= lines);
    }
}

/// The executable name a stop request targets.
pub open spec fn spec_target_binary(kind: ProcessKind) -> Seq<u8> {
    match kind {
        ProcessKind::Client => "client.bin".spec_bytes(),
        ProcessKind::Server => "server.bin".spec_bytes(),
    }
}

/// A platform command with its arguments.
#[derive(Debug, PartialEq, Eq)]
pub struct StopCommand {
    pub program: Vec<u8>,
    pub args: Vec<Vec<u8>>,
}

/// The forced-termination command a stop request resolves to:
/// termination is by executable name on the host platform, the
/// documented last resort when no tracked handle is used.
pub fn stop_command(kind: ProcessKind, windows: bool) -> (r: StopCommand)
    ensures
        windows ==> r.program@ == "taskkill".spec_bytes() && r.args@.len() == 3
            && r.args@[0]@ == "/F".spec_bytes() && r.args@[1]@ == "/IM".spec_bytes()
            && r.args@[2]@ == spec_target_binary(kind),
        !windows ==> r.program@ == "pkill".spec_bytes() && r.args@.len() == 2
            && r.args@[0]@ == "-f".spec_bytes() && r.args@[1]@ == spec_target_binary(
            kind,
        ),
{
    let target = match kind {
        ProcessKind::Client => ("client.bin").as_bytes_vec(),
        ProcessKind::Server => ("server.bin").as_bytes_vec(),
    };
    if windows {
        let mut args: Vec<Vec<u8>> = Vec::new();
        args.push(("/F").as_bytes_vec());
        args.push(("/IM").as_bytes_vec());
        args.push(target);
        StopCommand { program: ("taskkill").as_bytes_vec(), args }
    } else {
        let mut args: Vec<Vec<u8>> = Vec::new();
        args.push(("-f").as_bytes_vec());
        args.push(target);
        StopCommand { program: ("pkill").as_bytes_vec(), args }
    }
}

/// Conclude a spawn attempt: the child's identifier when it came
/// up, a spawn failure otherwise — "executable missing" and "spawn
/// failed" stay distinguishable.
pub fn conclude_spawn(spawned: Option<u32>) -> (r: Result<u32, LauncherError>)
    ensures
        spawned matches Some(pid) ==> (r matches Ok(p) && p == pid),
        spawned is None ==> (r matches Err(e) && e is SpawnFailed),
{
    match spawned {
        Some(pid) => Ok(pid),
        None => Err(LauncherError::SpawnFailed),
    }
}

/// Name of the outbound event that carries a freshly spawned
/// process identifier.
pub fn process_event_name(kind: ProcessKind) -> (r: Vec<u8>)
    ensures
        kind is Client ==> r@ == "game-process".spec_bytes(),
        kind is Server ==> r@ == "server-process".spec_bytes(),
{
    match kind {
        ProcessKind::Client => ("game-process").as_bytes_vec(),
        ProcessKind::Server => ("server-process").as_bytes_vec(),
    }
}

/// Name of the outbound event that carries one relayed line.
pub fn log_event_name(stderr_stream: bool) -> (r: Vec<u8>)
    ensures
        stderr_stream ==> r@ == "server-error".spec_bytes(),
        !stderr_stream ==> r@ == "server-log".spec_bytes(),
{
    if stderr_stream {
        ("server-error").as_bytes_vec()
    } else {
        ("server-log").as_bytes_vec()
    }
}

/// Name of the inbound stop request the supervisor reacts to.
pub fn stop_event_name(kind: ProcessKind) -> (r: Vec<u8>)
    ensures
        kind is Client ==> r@ == "stop-game".spec_bytes(),
        kind is Server ==> r@ == "stop-server".spec_bytes(),
{
    match kind {
        ProcessKind::Client => ("stop-game").as_bytes_vec(),
        ProcessKind::Server => ("stop-server").as_bytes_vec(),
    }
}

/// Name of the outbound event that carries the installed version.
pub fn version_event_name() -> (r: Vec<u8>)
    ensures
        r@ == "config-current-version".spec_bytes(),
{
    ("config-current-version").as_bytes_vec()
}

} // verus!
