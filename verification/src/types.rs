//! The data model: socket entries, process records, merged port records,
//! kill outcomes, scan errors and the static preset configuration.

use vstd::prelude::*;

verus! {

/// Network protocol of a scanned socket table.
#[derive(Debug, Clone, Copy, PartialEq, Eq, Structural)]
pub enum Protocol {
    Tcp,
    Udp,
}

impl Protocol {
    /// Upper-case name of the protocol, as shown to users.
    pub fn label(&self) -> (r: &'static str)
        ensures
            self is Tcp ==> r@ == "TCP"@,
            self is Udp ==> r@ == "UDP"@,
    {
        match self {
            Protocol::Tcp => "TCP",
            Protocol::Udp => "UDP",
        }
    }
}

/// One socket parsed out of a kernel socket table: always a real binding,
/// so the port and the inode are both non-zero.
#[derive(Debug, Clone)]
pub struct RawSocketEntry {
    /// Local IP address in dotted-decimal notation.
    pub local_address: String,
    /// Local port number.
    pub local_port: u16,
    /// Socket inode number, the key that ties the socket to a process.
    pub inode: u64,
    /// Protocol of the table the entry came from.
    pub protocol: Protocol,
}

/// Mathematical image of a [`RawSocketEntry`]: the address as a character
/// sequence, the scalars as themselves.
#[verifier::ext_equal]
pub ghost struct RawEntryV {
    pub local_address: Seq<char>,
    pub local_port: u16,
    pub inode: u64,
    pub protocol: Protocol,
}

impl RawEntryV {
    /// A parsed entry never carries a zero port or a zero inode.
    pub open spec fn wf(self) -> bool {
        self.local_port > 0 && self.inode > 0
    }
}

impl View for RawSocketEntry {
    type V = RawEntryV;

    open spec fn view(&self) -> RawEntryV {
        RawEntryV {
            local_address: self.local_address@,
            local_port: self.local_port,
            inode: self.inode,
            protocol: self.protocol,
        }
    }
}

impl DeepView for RawSocketEntry {
    type V = RawEntryV;

    open spec fn deep_view(&self) -> RawEntryV {
        self.view()
    }
}

/// Process identity resolved from a socket inode.
#[derive(Debug, Clone)]
pub struct ProcessInfo {
    /// Process ID.
    pub pid: u32,
    /// Short process name.
    pub name: String,
    /// Name of the owning user, or the decimal uid when unregistered.
    pub user: String,
}

/// Mathematical image of a [`ProcessInfo`].
#[verifier::ext_equal]
pub ghost struct ProcessInfoV {
    pub pid: u32,
    pub name: Seq<char>,
    pub user: Seq<char>,
}

impl View for ProcessInfo {
    type V = ProcessInfoV;

    open spec fn view(&self) -> ProcessInfoV {
        ProcessInfoV { pid: self.pid, name: self.name@, user: self.user@ }
    }
}

impl DeepView for ProcessInfo {
    type V = ProcessInfoV;

    open spec fn deep_view(&self) -> ProcessInfoV {
        self.view()
    }
}

/// Merged record surfaced to callers: one listening socket together with the
/// process that holds it.
#[derive(Debug, Clone)]
pub struct PortInfo {
    /// Process ID.
    pub pid: u32,
    /// Short name of the process.
    pub process_name: String,
    /// Port number.
    pub port: u16,
    /// Protocol (TCP or UDP).
    pub protocol: Protocol,
    /// Local address in dotted-decimal notation.
    pub address: String,
    /// Name of the owning user.
    pub user: String,
}

/// Mathematical image of a [`PortInfo`].
#[verifier::ext_equal]
pub ghost struct PortInfoV {
    pub pid: u32,
    pub process_name: Seq<char>,
    pub port: u16,
    pub protocol: Protocol,
    pub address: Seq<char>,
    pub user: Seq<char>,
}

impl View for PortInfo {
    type V = PortInfoV;

    open spec fn view(&self) -> PortInfoV {
        PortInfoV {
            pid: self.pid,
            process_name: self.process_name@,
            port: self.port,
            protocol: self.protocol,
            address: self.address@,
            user: self.user@,
        }
    }
}

impl DeepView for PortInfo {
    type V = PortInfoV;

    open spec fn deep_view(&self) -> PortInfoV {
        self.view()
    }
}

/// Outcome of a process termination request; expected conditions are
/// variants, never errors.
#[derive(Debug, Clone)]
pub enum KillResult {
    /// The process was terminated (or was already gone).
    Success,
    /// The process belongs to another user.
    PermissionDenied { pid: u32 },
    /// Root privileges are needed to terminate the process.
    ElevationRequired { pid: u32 },
    /// No such process (it may have already exited).
    ProcessNotFound { pid: u32 },
    /// An unexpected failure.
    Error { message: String },
}

/// Mathematical image of a [`KillResult`].
#[verifier::ext_equal]
pub ghost enum KillResultV {
    Success,
    PermissionDenied { pid: u32 },
    ElevationRequired { pid: u32 },
    ProcessNotFound { pid: u32 },
    Error { message: Seq<char> },
}

impl View for KillResult {
    type V = KillResultV;

    open spec fn view(&self) -> KillResultV {
        match self {
            KillResult::Success => KillResultV::Success,
            KillResult::PermissionDenied { pid } => KillResultV::PermissionDenied { pid: *pid },
            KillResult::ElevationRequired { pid } => KillResultV::ElevationRequired { pid: *pid },
            KillResult::ProcessNotFound { pid } => KillResultV::ProcessNotFound { pid: *pid },
            KillResult::Error { message } => KillResultV::Error { message: message@ },
        }
    }
}

/// Error of a whole scan: either a kernel table could not be read, or a line
/// that passed the shape gate held an undecodable field.
#[derive(Debug, Clone)]
pub enum ScanError {
    /// A kernel table could not be opened or read.
    IoError { path: String, message: String },
    /// A field could not be decoded; carries the offending fragment.
    ParseError(String),
}

impl ScanError {
    /// The message shown for this error.
    pub open spec fn spec_message(&self) -> Seq<char> {
        match self {
            ScanError::IoError { path, message } => "Failed to read "@ + path@ + ": "@ + message@,
            ScanError::ParseError(f) => "Failed to parse line: "@ + f@,
        }
    }

    /// Renders the error as one line of text.
    pub fn message(&self) -> (r: String)
        ensures
            r@ == self.spec_message(),
    {
        match self {
            ScanError::IoError { path, message } => {
                let mut s = String::from_str("Failed to read ");
                s.append(path.as_str());
                s.append(": ");
                s.append(message.as_str());
                s
            },
            ScanError::ParseError(f) => {
                let mut s = String::from_str("Failed to parse line: ");
                s.append(f.as_str());
                s
            },
        }
    }
}

/// An inclusive port range inside a preset.
#[derive(Debug, Clone, Copy, PartialEq, Eq, Structural)]
pub struct PortRange {
    pub start: u16,
    pub end: u16,
}

impl View for PortRange {
    type V = PortRange;

    open spec fn view(&self) -> PortRange {
        *self
    }
}

impl DeepView for PortRange {
    type V = PortRange;

    open spec fn deep_view(&self) -> PortRange {
        *self
    }
}

/// A named, static port selection offered to callers; never mutated.
#[derive(Debug, Clone)]
pub struct PortPreset {
    pub id: String,
    pub name: String,
    pub description: Option<String>,
    pub ranges: Vec<PortRange>,
    pub ports: Vec<u16>,
}

/// Mathematical image of a [`PortPreset`].
#[verifier::ext_equal]
pub ghost struct PortPresetV {
    pub id: Seq<char>,
    pub name: Seq<char>,
    pub description: Option<Seq<char>>,
    pub ranges: Seq<PortRange>,
    pub ports: Seq<u16>,
}

impl View for PortPreset {
    type V = PortPresetV;

    open spec fn view(&self) -> PortPresetV {
        PortPresetV {
            id: self.id@,
            name: self.name@,
            description: match self.description {
                Some(d) => Some(d@),
                None => None,
            },
            ranges: self.ranges@,
            ports: self.ports@,
        }
    }
}

impl DeepView for PortPreset {
    type V = PortPresetV;

    open spec fn deep_view(&self) -> PortPresetV {
        self.view()
    }
}

/// Counts shown in the tray tooltip, derived from one scan.
#[derive(Debug, Clone, Copy, PartialEq, Eq, Structural)]
pub struct TrayStats {
    pub total_ports: usize,
    pub tcp_count: usize,
    pub udp_count: usize,
    pub process_count: usize,
}

/// Snapshot of one process, taken by the caller from the process filesystem:
/// the pid, the raw contents of its name and status metadata files, and the
/// symbolic-link targets of its open file descriptors.
#[derive(Debug, Clone)]
pub struct ProcRecord {
    /// Process ID.
    pub pid: u32,
    /// Raw contents of the process's short-name file.
    pub comm: String,
    /// Raw contents of the process's status metadata.
    pub status: String,
    /// Symbolic-link targets of the process's open file descriptors.
    pub fd_targets: Vec<String>,
}

/// Mathematical image of a [`ProcRecord`].
#[verifier::ext_equal]
pub ghost struct ProcRecordV {
    pub pid: u32,
    pub comm: Seq<char>,
    pub status: Seq<char>,
    pub fd_targets: Seq<Seq<char>>,
}

impl View for ProcRecord {
    type V = ProcRecordV;

    open spec fn view(&self) -> ProcRecordV {
        ProcRecordV {
            pid: self.pid,
            comm: self.comm@,
            status: self.status@,
            fd_targets: self.fd_targets.deep_view(),
        }
    }
}

impl DeepView for ProcRecord {
    type V = ProcRecordV;

    open spec fn deep_view(&self) -> ProcRecordV {
        self.view()
    }
}

/// How one run of the interactive elevation helper ended, as observed by the
/// caller that spawned it.
#[derive(Debug, Clone)]
pub enum HelperRun {
    /// The helper ran to completion with the given exit status.
    Completed { success: bool, code: Option<i32> },
    /// The helper could not even be launched.
    LaunchFailed { message: String },
}

/// Mathematical image of a [`HelperRun`].
#[verifier::ext_equal]
pub ghost enum HelperRunV {
    Completed { success: bool, code: Option<i32> },
    LaunchFailed { message: Seq<char> },
}

impl View for HelperRun {
    type V = HelperRunV;

    open spec fn view(&self) -> HelperRunV {
        match self {
            HelperRun::Completed { success, code } => HelperRunV::Completed {
                success: *success,
                code: *code,
            },
            HelperRun::LaunchFailed { message } => HelperRunV::LaunchFailed { message: message@ },
        }
    }
}

} // verus!
