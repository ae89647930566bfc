//! Process termination with correct privilege semantics.
//!
//! The decisions — when to report a missing process, when to refuse for
//! ownership, how to read a signal failure or an elevation helper's exit
//! status — are pure functions with exact contracts. The probes and the
//! signal itself go through small trusted wrappers around the system.

use vstd::prelude::*;

use crate::strutil::{spec_dec, u64_to_string};
use crate::types::{HelperRun, KillResult, KillResultV};

verus! {

/// How a direct termination signal came back.
#[derive(Debug, Clone)]
pub enum SignalOutcome {
    /// The signal was delivered.
    Delivered,
    /// The kernel refused for lack of permission.
    NoPermission,
    /// No such process.
    NoSuchProcess,
    /// Any other failure, with the system's description.
    Failed { message: String },
}

/// Manager for process termination operations.
pub struct ProcessManager;

/// The outcome owed before any signal is sent: a missing process is
/// reported, a process owned by someone else is refused, and only an
/// existing process owned by the caller goes on to the signal (`None`).
pub open spec fn spec_kill_precheck(pid: u32, exists: bool, owner: Option<u32>, caller: u32) -> Option<
    KillResultV,
> {
    if !exists {
        Some(KillResultV::ProcessNotFound { pid })
    } else if owner != Some(caller) {
        Some(KillResultV::PermissionDenied { pid })
    } else {
        None
    }
}

/// Law: a kill request for a process that does not exist is answered with
/// `ProcessNotFound` carrying the pid — never an `Error` — whatever the
/// ownership probes said.
pub proof fn lemma_kill_missing_process(pid: u32, owner: Option<u32>, caller: u32)
    ensures
        spec_kill_precheck(pid, false, owner, caller) == Some(
            KillResultV::ProcessNotFound { pid },
        ),
{
}

/// Law: an existing process whose owner is not the caller (or whose owner
/// could not be read) is refused with `PermissionDenied` before any signal
/// is sent: only a `None` precheck goes on to the signal.
pub proof fn lemma_kill_not_owner(pid: u32, owner: Option<u32>, caller: u32)
    requires
        owner != Some(caller),
    ensures
        spec_kill_precheck(pid, true, owner, caller) == Some(
            KillResultV::PermissionDenied { pid },
        ),
{
}

/// How each signal outcome is reported.
pub open spec fn spec_signal_result(pid: u32, o: SignalOutcome) -> KillResultV {
    match o {
        SignalOutcome::Delivered => KillResultV::Success,
        SignalOutcome::NoPermission => KillResultV::PermissionDenied { pid },
        SignalOutcome::NoSuchProcess => KillResultV::ProcessNotFound { pid },
        SignalOutcome::Failed { message } => KillResultV::Error {
            message: "Failed to kill process "@ + spec_dec(pid as nat) + ": "@ + message@,
        },
    }
}

/// How each way the elevation helper can end is reported: success is
/// success; a dismissed authorization dialog and a missing helper get their
/// own messages; the ambiguous exit code 1 is success exactly when the
/// target is gone afterwards; everything else is an error carrying the raw
/// code, and a failure to launch carries the launch error.
pub open spec fn spec_interpret_elevation(
    pid: u32,
    run: crate::types::HelperRunV,
    exists_after: bool,
) -> KillResultV {
    match run {
        crate::types::HelperRunV::LaunchFailed { message } => KillResultV::Error {
            message: "Failed to execute pkexec: "@ + message,
        },
        crate::types::HelperRunV::Completed { success, code } => {
            if success {
                KillResultV::Success
            } else if code == Some(126i32) {
                KillResultV::Error { message: "Authentication cancelled"@ }
            } else if code == Some(127i32) {
                KillResultV::Error { message: "pkexec not found. Please install policykit-1"@ }
            } else if code == Some(1i32) {
                if exists_after {
                    KillResultV::Error {
                        message: "Failed to kill process "@ + spec_dec(pid as nat),
                    }
                } else {
                    KillResultV::Success
                }
            } else {
                KillResultV::Error {
                    message: "pkexec exited with code: "@ + spec_code_text(code),
                }
            }
        },
    }
}

/// Text of an exit code that may be absent (the helper died to a signal).
pub open spec fn spec_code_text(code: Option<i32>) -> Seq<char> {
    match code {
        None => "none"@,
        Some(c) => if c >= 0 {
            spec_dec(c as nat)
        } else {
            "-"@ + spec_dec((-(c as int)) as nat)
        },
    }
}

/// Relies on `std::path::Path::exists`: probes whether the process has an
/// entry in the process filesystem. The probe is cheap and side-effect-free;
/// what it reports depends on the running system.
#[verifier::external_body]
fn process_exists_probe(pid: u32) -> bool {
    let p = format!("/proc/{}", pid);
    std::path::Path::new(&p).exists()
}

/// Relies on `users::get_effective_uid` (`geteuid`): the caller's current
/// effective uid, the identity the kernel checks signal permission against.
#[verifier::external_body]
fn current_uid() -> u32 {
    users::get_effective_uid()
}

/// Relies on `nix::fcntl::open`: opens the file read-only; `None` on any
/// failure.
#[verifier::external_body]
fn open_readonly(path: &str) -> Option<i32> {
    match nix::fcntl::open(path, nix::fcntl::OFlag::O_RDONLY, nix::sys::stat::Mode::empty()) {
        Ok(fd) => Some(fd),
        Err(_) => None,
    }
}

/// Relies on `nix::unistd::read`: reads at most `buf.len()` bytes at the
/// descriptor's cursor into the front of `buf`; how many is returned, with
/// zero at end of file, `None` on failure.
#[verifier::external_body]
fn read_fd(fd: i32, buf: &mut Vec<u8>) -> (r: Option<usize>)
    ensures
        final(buf)@.len() == old(buf)@.len(),
        r matches Some(n) ==> n <= final(buf)@.len(),
{
    match nix::unistd::read(fd, buf.as_mut_slice()) {
        Ok(n) => Some(n),
        Err(_) => None,
    }
}

/// Relies on `nix::unistd::close`: releases the descriptor.
#[verifier::external_body]
fn close_fd(fd: i32) {
    let _ = nix::unistd::close(fd);
}

/// Relies on `String::from_utf8`: the bytes as text when they are valid
/// UTF-8, `None` otherwise.
#[verifier::external_body]
fn bytes_to_string(b: Vec<u8>) -> Option<String> {
    String::from_utf8(b).ok()
}

/// Reads the raw text of the process's status metadata, or `None` when the
/// process is gone or unreadable. The text is ambient system state; reads
/// are capped at a megabyte, far beyond any status file.
fn read_proc_status(pid: u32) -> Option<String> {
    let mut path = String::from_str("/proc/");
    path.append(u64_to_string(pid as u64).as_str());
    path.append("/status");
    let fd = match open_readonly(path.as_str()) {
        Some(fd) => fd,
        None => {
            return None;
        },
    };
    let mut content: Vec<u8> = Vec::new();
    let mut rounds: usize = 0;
    let mut done = false;
    let mut failed = false;
    while !done && rounds < 256
        invariant
            content@.len() <= rounds * 4096,
            rounds <= 256,
        decreases 256 - rounds,
    {
        let mut buf: Vec<u8> = vec![0u8; 4096];
        match read_fd(fd, &mut buf) {
            None => {
                failed = true;
                done = true;
            },
            Some(n) => {
                if n == 0 {
                    done = true;
                } else {
                    let mut k: usize = 0;
                    while k < n
                        invariant
                            n <= buf@.len(),
                            k <= n,
                            content@.len() <= rounds * 4096 + k,
                            rounds < 256,
                        decreases n - k,
                    {
                        content.push(buf[k]);
                        k += 1;
                    }
                }
            },
        }
        rounds += 1;
    }
    close_fd(fd);
    if failed {
        return None;
    }
    bytes_to_string(content)
}

/// Relies on `nix::sys::signal::kill`: sends SIGTERM to the process and
/// reports the kernel's answer, each error case moved to one variant.
#[verifier::external_body]
fn send_sigterm(pid: u32) -> SignalOutcome {
    let target = nix::unistd::Pid::from_raw(pid as i32);
    match nix::sys::signal::kill(target, nix::sys::signal::Signal::SIGTERM) {
        Ok(()) => SignalOutcome::Delivered,
        Err(nix::errno::Errno::EPERM) => SignalOutcome::NoPermission,
        Err(nix::errno::Errno::ESRCH) => SignalOutcome::NoSuchProcess,
        Err(e) => SignalOutcome::Failed { message: format!("{}", e) },
    }
}

impl ProcessManager {
    /// Probes whether the process exists right now. The answer is a
    /// point-in-time snapshot of ambient system state.
    pub fn process_exists(pid: u32) -> bool {
        process_exists_probe(pid)
    }

    /// The pure precheck of [`Self::kill`], decided from the two probes.
    pub fn kill_precheck(pid: u32, exists: bool, owner: Option<u32>, caller: u32) -> (r: Option<
        KillResult,
    >)
        ensures
            match r {
                Some(k) => spec_kill_precheck(pid, exists, owner, caller) == Some(k@),
                None => spec_kill_precheck(pid, exists, owner, caller) is None,
            },
    {
        if !exists {
            Some(KillResult::ProcessNotFound { pid })
        } else {
            let owned = match owner {
                Some(u) => u == caller,
                None => false,
            };
            if !owned {
                Some(KillResult::PermissionDenied { pid })
            } else {
                None
            }
        }
    }

    /// Reports a signal outcome as a kill result.
    pub fn signal_result(pid: u32, o: SignalOutcome) -> (r: KillResult)
        ensures
            r@ == spec_signal_result(pid, o),
    {
        match o {
            SignalOutcome::Delivered => KillResult::Success,
            SignalOutcome::NoPermission => KillResult::PermissionDenied { pid },
            SignalOutcome::NoSuchProcess => KillResult::ProcessNotFound { pid },
            SignalOutcome::Failed { message } => {
                let mut s = String::from_str("Failed to kill process ");
                s.append(u64_to_string(pid as u64).as_str());
                s.append(": ");
                s.append(message.as_str());
                KillResult::Error { message: s }
            },
        }
    }

    /// The real uid announced by the process's status metadata right now,
    /// or `None` when the process is gone or its metadata unreadable.
    pub fn probe_owner_uid(pid: u32) -> Option<u32> {
        match read_proc_status(pid) {
            Some(status) => crate::resolver::parse_status_uid(status.as_str()),
            None => None,
        }
    }

    /// The ownership decision: the probed owner uid is known and equals the
    /// caller's uid. An unreadable owner is never owned.
    pub fn uid_matches(owner: Option<u32>, caller: u32) -> (r: bool)
        ensures
            r == (owner == Some(caller)),
    {
        match owner {
            Some(u) => u == caller,
            None => false,
        }
    }

    /// Whether the process belongs to the caller: its real uid, read from
    /// its status metadata, equals the caller's effective uid. `false` when
    /// the process is gone or unreadable. The probes read ambient system
    /// state; the decision over their answers is [`Self::uid_matches`].
    pub fn is_owned_by_current_user(pid: u32) -> bool {
        Self::uid_matches(Self::probe_owner_uid(pid), current_uid())
    }

    /// The outcome owed by the elevated path before the helper runs: a
    /// missing process is reported, an existing one goes on to the helper.
    pub fn elevation_precheck(pid: u32, exists: bool) -> (r: Option<KillResult>)
        ensures
            match r {
                Some(k) => !exists && k@ == (KillResultV::ProcessNotFound { pid }),
                None => exists,
            },
    {
        if !exists {
            Some(KillResult::ProcessNotFound { pid })
        } else {
            None
        }
    }

    /// Terminates the process with a graceful signal.
    ///
    /// A missing process is reported as not found and a process owned by
    /// another user is refused before any signal is sent; both reports, and
    /// every other outcome, carry the pid they speak of. The probes and the
    /// signal read and touch ambient system state, so the contract fixes
    /// how each probe outcome is reported, not which outcome occurs.
    pub fn kill(pid: u32) -> (r: KillResult)
        ensures
            !(r@ is ElevationRequired),
            r@ matches KillResultV::PermissionDenied { pid: p } ==> p == pid,
            r@ matches KillResultV::ProcessNotFound { pid: p } ==> p == pid,
            exists|ex: bool, owner: Option<u32>, caller: u32|
                #![auto]
                spec_kill_precheck(pid, ex, owner, caller) == Some(r@) || (spec_kill_precheck(
                    pid,
                    ex,
                    owner,
                    caller,
                ) is None && exists|o: SignalOutcome| #![auto] r@ == spec_signal_result(pid, o)),
    {
        let exists_now = Self::process_exists(pid);
        let owner = Self::probe_owner_uid(pid);
        let caller = current_uid();
        match Self::kill_precheck(pid, exists_now, owner, caller) {
            Some(k) => k,
            None => Self::signal_result(pid, send_sigterm(pid)),
        }
    }

    /// Reads the elevation helper's ending, observed by the caller that ran
    /// it, as a kill result. `exists_after` tells whether the target still
    /// existed after the helper finished; it matters only for the ambiguous
    /// exit code 1.
    pub fn interpret_elevation(pid: u32, run: HelperRun, exists_after: bool) -> (r: KillResult)
        ensures
            r@ == spec_interpret_elevation(pid, run@, exists_after),
    {
        match run {
            HelperRun::LaunchFailed { message } => {
                let mut s = String::from_str("Failed to execute pkexec: ");
                s.append(message.as_str());
                KillResult::Error { message: s }
            },
            HelperRun::Completed { success, code } => {
                if success {
                    KillResult::Success
                } else if code == Some(126) {
                    KillResult::Error { message: String::from_str("Authentication cancelled") }
                } else if code == Some(127) {
                    KillResult::Error {
                        message: String::from_str("pkexec not found. Please install policykit-1"),
                    }
                } else if code == Some(1) {
                    if exists_after {
                        let mut s = String::from_str("Failed to kill process ");
                        s.append(u64_to_string(pid as u64).as_str());
                        KillResult::Error { message: s }
                    } else {
                        KillResult::Success
                    }
                } else {
                    let mut s = String::from_str("pkexec exited with code: ");
                    s.append(code_text(code).as_str());
                    KillResult::Error { message: s }
                }
            },
        }
    }
}

/// Renders an optional exit code.
fn code_text(code: Option<i32>) -> (r: String)
    ensures
        r@ == spec_code_text(code),
{
    match code {
        None => String::from_str("none"),
        Some(c) => {
            if c >= 0 {
                u64_to_string(c as u64)
            } else {
                let mut s = String::from_str("-");
                let mag: u64 = (-(c as i64)) as u64;
                s.append(u64_to_string(mag).as_str());
                s
            }
        },
    }
}

} // verus!
