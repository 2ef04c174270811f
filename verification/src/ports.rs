//! Port reclamation: before the server starts, its fixed TCP port
//! must be free. The bind probe, the process-inspection tool and the
//! kill command are I/O performed by the caller; the decisions in
//! between — what a bind result means, which process the tool's
//! output names, and what to report afterwards — are made and
//! verified here.

use vstd::prelude::*;
use vstd::string::StrSliceExecFns;
use vstd::string::StringSliceAdditionalSpecFns;
use crate::errors::LauncherError;
use crate::text::{
    trimmed,
    trim_ascii,
    dec_digits,
    format_u16,
    extend_bytes,
    split_lines,
    spec_fields,
    contains_seq,
    contains_bytes,
    split_fields,
    clone_vec,
    LineSplitter,
};

verus! {

/// The fixed TCP port the server executable listens on.
pub const SERVER_PORT: u16 = 12345;

/// What the reclaimer asks its caller to do after the bind probe.
pub enum ReclaimAction {
    /// Binding succeeded: the port was already free; release the
    /// probe listener and stop.
    AlreadyFree,
    /// Binding failed: the port is in use; run the platform's
    /// process-inspection tool and hand its output back.
    Inspect,
}

/// A successful bind proves the port free; a failed bind means some
/// process owns it and must be identified.
pub fn reclaim_after_bind(bind_ok: bool) -> (r: ReclaimAction)
    ensures
        r is AlreadyFree <==> bind_ok,
{
    if bind_ok {
        ReclaimAction::AlreadyFree
    } else {
        ReclaimAction::Inspect
    }
}

/// Read the owning process identifier out of the inspection tool's
/// raw standard output: the trimmed output is the identifier, and an
/// output that trims to nothing means the owner could not be
/// determined.
pub fn identify_owner(output: &Vec<u8>) -> (r: Result<Vec<u8>, LauncherError>)
    ensures
        trimmed(output@).len() > 0 ==> (r matches Ok(pid) && pid@ == trimmed(output@)),
        trimmed(output@).len() == 0 ==> (r matches Err(e) && e is PortInUseUnidentified),
{
    let pid = trim_ascii(output);
    if pid.len() == 0 {
        Err(LauncherError::PortInUseUnidentified)
    } else {
        Ok(pid)
    }
}

/// The marker that ties an inspection line to the port: `:<port>`.
pub open spec fn spec_port_marker(port: u16) -> Seq<u8> {
    seq![58u8] + dec_digits(port as nat)
}

pub fn port_marker(port: u16) -> (r: Vec<u8>)
    ensures
        r@ == spec_port_marker(port),
{
    let mut r: Vec<u8> = Vec::new();
    r.push(58);
    let digits = format_u16(port);
    extend_bytes(&mut r, &digits);
    proof {
        assert(r@ =~= spec_port_marker(port));
    }
    r
}

/// Every line of a tool's output, the unterminated last one
/// included.
pub open spec fn all_lines(s: Seq<u8>) -> Seq<Seq<u8>> {
    split_lines(s).0.push(split_lines(s).1)
}

/// The first of `lines` in which `marker` occurs.
pub open spec fn first_marked_line(lines: Seq<Seq<u8>>, marker: Seq<u8>) -> Option<
    Seq<u8>,
>
    decreases lines.len(),
{
    if lines.len() == 0 {
        Option::None
    } else if contains_seq(lines[0], marker) {
        Option::Some(lines[0])
    } else {
        first_marked_line(lines.drop_first(), marker)
    }
}

/// What the table-style inspection output names as the owner: the
/// fifth whitespace-separated field of the first line that mentions
/// the port.
pub open spec fn spec_table_owner(output: Seq<u8>, port: u16) -> Option<Seq<u8>> {
    match first_marked_line(all_lines(output), spec_port_marker(port)) {
        Option::None => Option::None,
        Option::Some(line) => {
            let fs = spec_fields(line);
            if fs.len() >= 5 {
                Option::Some(fs[4])
            } else {
                Option::None
            }
        },
    }
}

/// Read the owning process identifier out of a table-style
/// inspection output (one connection per line, the identifier in
/// the fifth column): the first line mentioning `:<port>` names the
/// owner; no such line, or one with too few columns, means the
/// owner could not be determined.
pub fn identify_owner_in_table(output: &Vec<u8>, port: u16) -> (r: Result<
    Vec<u8>,
    LauncherError,
>)
    ensures
        spec_table_owner(output@, port) matches Some(pid) ==> (r matches Ok(p) && p@
            == pid),
        spec_table_owner(output@, port) is None ==> (r matches Err(e)
            && e is PortInUseUnidentified),
{
    let mut splitter = LineSplitter::new();
    let mut lines = splitter.feed(output);
    proof {
        assert(Seq::<u8>::empty() + output@ =~= output@);
    }
    let ghost done = lines@.map_values(|l: Vec<u8>| l@);
    let pending = splitter.take_pending();
    lines.push(pending);
    let ghost models = lines@.map_values(|l: Vec<u8>| l@);
    proof {
        assert(models =~= done.push(split_lines(output@).1));
        assert(models == all_lines(output@));
        assert(models.skip(0) =~= models);
    }
    let marker = port_marker(port);
    let n = lines.len();
    let mut i: usize = 0;
    while i < n
        invariant
            n == lines@.len(),
            models == lines@.map_values(|l: Vec<u8>| l@),
            models == all_lines(output@),
            marker@ == spec_port_marker(port),
            0 <= i <= n,
            first_marked_line(models, marker@) == first_marked_line(
                models.skip(i as int),
                marker@,
            ),
            forall|j: int| 0 <= j < i ==> !contains_seq(#[trigger] models[j], marker@),
        decreases n - i,
    {
        proof {
            assert(models.skip(i as int)[0] == models[i as int]);
            assert(models.skip(i as int).drop_first() =~= models.skip(i as int + 1));
        }
        if contains_bytes(&lines[i], &marker) {
            proof {
                assert(first_marked_line(models, marker@) == Option::Some(
                    models[i as int],
                ));
            }
            let fs = split_fields(&lines[i]);
            if fs.len() >= 5 {
                return Ok(clone_vec(&fs[4]));
            } else {
                return Err(LauncherError::PortInUseUnidentified);
            }
        }
        i += 1;
    }
    proof {
        assert(models.skip(n as int) =~= Seq::<Seq<u8>>::empty());
    }
    Err(LauncherError::PortInUseUnidentified)
}

/// The report for a reclaimed port.
pub open spec fn spec_kill_message(pid: Seq<u8>, port: u16) -> Seq<u8> {
    "Killed process with PID ".spec_bytes() + pid + " using port ".spec_bytes()
        + dec_digits(port as nat)
}

pub fn kill_message(pid: &Vec<u8>, port: u16) -> (r: Vec<u8>)
    ensures
        r@ == spec_kill_message(pid@, port),
{
    let mut r = ("Killed process with PID ").as_bytes_vec();
    extend_bytes(&mut r, pid);
    let mid = (" using port ").as_bytes_vec();
    extend_bytes(&mut r, &mid);
    let digits = format_u16(port);
    extend_bytes(&mut r, &digits);
    r
}

/// Conclude the reclaim once the kill command has run: success
/// yields the human-readable report of what was killed; a failed
/// kill is surfaced as such.
pub fn reclaim_after_kill(kill_ok: bool, pid: &Vec<u8>, port: u16) -> (r: Result<
    Option<Vec<u8>>,
    LauncherError,
>)
    ensures
        kill_ok ==> (r matches Ok(m) && m matches Some(msg) && msg@ == spec_kill_message(
            pid@,
            port,
        )),
        !kill_ok ==> (r matches Err(e) && e is KillFailed),
{
    if kill_ok {
        Ok(Some(kill_message(pid, port)))
    } else {
        Err(LauncherError::KillFailed)
    }
}

} // verus!
