//! Mapping socket inodes to owning processes.
//!
//! The resolver is built from a snapshot of the process table: one record
//! per process, carrying the raw text of its metadata files and the
//! symbolic-link targets of its open file descriptors. Targets of the shape
//! `socket:[<inode>]` feed an inode-to-pid map; lookups then enrich the pid
//! with the process name and owning user from the same snapshot.

use vstd::prelude::*;

use crate::strutil::{
    dec_val, parse_dec_u64, spec_split_on, spec_split_ws, spec_trim, split_on, split_ws, trim,
    u64_to_string, valid_dec_u64, spec_dec,
};
use crate::types::{ProcRecord, ProcRecordV, ProcessInfo};

verus! {

/// The inode named by a `socket:[<decimal>]` link target, if the target has
/// exactly that shape and the number fits.
pub open spec fn spec_socket_inode(t: Seq<char>) -> Option<u64> {
    if t.len() >= 9 && t.take(8) == "socket:["@ && t.last() == ']' {
        let mid = t.subrange(8, t.len() - 1);
        if valid_dec_u64(mid) {
            Some(dec_val(mid) as u64)
        } else {
            None
        }
    } else {
        None
    }
}

/// Parses a file-descriptor link target of the shape `socket:[<inode>]`.
pub fn parse_socket_inode(target: &str) -> (r: Option<u64>)
    ensures
        r == spec_socket_inode(target@),
{
    let n = target.unicode_len();
    if n < 9 {
        return None;
    }
    let is_socket = target.get_char(0) == 's' && target.get_char(1) == 'o' && target.get_char(2)
        == 'c' && target.get_char(3) == 'k' && target.get_char(4) == 'e' && target.get_char(5)
        == 't' && target.get_char(6) == ':' && target.get_char(7) == '[';
    proof {
        reveal_strlit("socket:[");
        if is_socket {
            assert(target@.take(8) =~= "socket:["@);
        } else {
            assert(target@.take(8) != "socket:["@) by {
                if target@.take(8) == "socket:["@ {
                    assert(target@[0] == target@.take(8)[0]);
                    assert(target@[1] == target@.take(8)[1]);
                    assert(target@[2] == target@.take(8)[2]);
                    assert(target@[3] == target@.take(8)[3]);
                    assert(target@[4] == target@.take(8)[4]);
                    assert(target@[5] == target@.take(8)[5]);
                    assert(target@[6] == target@.take(8)[6]);
                    assert(target@[7] == target@.take(8)[7]);
                }
            }
        }
    }
    if !is_socket {
        return None;
    }
    if target.get_char(n - 1) != ']' {
        return None;
    }
    let mid = target.substring_char(8, n - 1);
    parse_dec_u64(mid)
}

/// Whether a status line opens the uid field.
pub open spec fn spec_is_uid_line(l: Seq<char>) -> bool {
    l.len() >= 4 && l.take(4) == "Uid:"@
}

/// The real uid announced by status text: on the first line that starts
/// with `Uid:` and has a second column, that column read as a decimal
/// `u32`, or `None` if it does not parse; `None` as well when no such line
/// exists.
pub open spec fn spec_status_uid_lines(lines: Seq<Seq<char>>) -> Option<u32>
    decreases lines.len(),
{
    if lines.len() == 0 {
        None
    } else {
        let l = lines[0];
        if spec_is_uid_line(l) && spec_split_ws(l).len() >= 2 {
            let f = spec_split_ws(l)[1];
            if valid_dec_u64(f) && dec_val(f) <= u32::MAX {
                Some(dec_val(f) as u32)
            } else {
                None
            }
        } else {
            spec_status_uid_lines(lines.drop_first())
        }
    }
}

/// The real uid announced by a whole status text.
pub open spec fn spec_status_uid(status: Seq<char>) -> Option<u32> {
    spec_status_uid_lines(spec_split_on(status, '\n'))
}

/// Extracts the real uid from the raw text of a process's status metadata.
pub fn parse_status_uid(status: &str) -> (r: Option<u32>)
    ensures
        r == spec_status_uid(status@),
{
    let lines = split_on(status, '\n');
    let ghost lv = lines.deep_view();
    let mut i: usize = 0;
    proof {
        assert(lv.skip(0) =~= lv);
    }
    while i < lines.len()
        invariant
            lv == spec_split_on(status@, '\n'),
            lv == lines.deep_view(),
            lv.len() == lines@.len(),
            0 <= i <= lines@.len(),
            spec_status_uid_lines(lv.skip(i as int)) == spec_status_uid_lines(lv),
        decreases lines@.len() - i,
    {
        let ghost u = lv.skip(i as int);
        proof {
            assert(u[0] == lv[i as int]);
            assert(lv[i as int] == lines@[i as int]@);
            assert(u.drop_first() =~= lv.skip(i + 1));
        }
        let line = lines[i];
        let ln = line.unicode_len();
        let is_uid = ln >= 4 && line.get_char(0) == 'U' && line.get_char(1) == 'i'
            && line.get_char(2) == 'd' && line.get_char(3) == ':';
        proof {
            reveal_strlit("Uid:");
            if is_uid {
                assert(line@.take(4) =~= "Uid:"@);
            } else if ln >= 4 {
                assert(line@.take(4) != "Uid:"@) by {
                    if line@.take(4) == "Uid:"@ {
                        assert(line@[0] == line@.take(4)[0]);
                        assert(line@[1] == line@.take(4)[1]);
                        assert(line@[2] == line@.take(4)[2]);
                        assert(line@[3] == line@.take(4)[3]);
                    }
                }
            }
        }
        if is_uid {
            let fields = split_ws(line);
            if fields.len() >= 2 {
                proof {
                    assert(fields.deep_view()[1] == fields@[1]@);
                }
                return match parse_dec_u64(fields[1]) {
                    Some(v) => {
                        if v <= u32::MAX as u64 {
                            Some(v as u32)
                        } else {
                            None
                        }
                    },
                    None => None,
                };
            }
        }
        i += 1;
    }
    proof {
        assert(lv.skip(lv.len() as int) =~= Seq::<Seq<char>>::empty());
    }
    None
}

/// The inode-to-pid pairs contributed by one process's link targets, laid
/// over an existing map; a later target overwrites an earlier one.
pub open spec fn spec_fd_map(targets: Seq<Seq<char>>, pid: u32, acc: Map<u64, u32>) -> Map<
    u64,
    u32,
>
    decreases targets.len(),
{
    if targets.len() == 0 {
        acc
    } else {
        let acc2 = match spec_socket_inode(targets[0]) {
            Some(ino) => acc.insert(ino, pid),
            None => acc,
        };
        spec_fd_map(targets.drop_first(), pid, acc2)
    }
}

/// The inode-to-pid map of a process snapshot, laid over an existing map;
/// the last writer wins.
pub open spec fn spec_map_from(procs: Seq<ProcRecordV>, acc: Map<u64, u32>) -> Map<u64, u32>
    decreases procs.len(),
{
    if procs.len() == 0 {
        acc
    } else {
        spec_map_from(procs.drop_first(), spec_fd_map(procs[0].fd_targets, procs[0].pid, acc))
    }
}

/// The inode-to-pid map of a process snapshot.
pub open spec fn spec_inode_map(procs: Seq<ProcRecordV>) -> Map<u64, u32> {
    spec_map_from(procs, Map::empty())
}

/// Lookup in an association list where the last binding wins.
pub open spec fn assoc_lookup(entries: Seq<(u64, u32)>, ino: u64) -> Option<u32>
    decreases entries.len(),
{
    if entries.len() == 0 {
        None
    } else if entries.last().0 == ino {
        Some(entries.last().1)
    } else {
        assoc_lookup(entries.drop_last(), ino)
    }
}

/// The map's answer as an option.
pub open spec fn map_opt(m: Map<u64, u32>, ino: u64) -> Option<u32> {
    if m.contains_key(ino) {
        Some(m[ino])
    } else {
        None
    }
}

/// Some record of the snapshot carries this pid.
pub open spec fn has_pid(procs: Seq<ProcRecordV>, pid: u32) -> bool {
    exists|i: int| 0 <= i < procs.len() && (#[trigger] procs[i]).pid == pid
}

/// The first record of the snapshot carrying this pid.
pub open spec fn spec_find_pid(procs: Seq<ProcRecordV>, pid: u32) -> Option<ProcRecordV>
    decreases procs.len(),
{
    if procs.len() == 0 {
        None
    } else if procs[0].pid == pid {
        Some(procs[0])
    } else {
        spec_find_pid(procs.drop_first(), pid)
    }
}

/// A pid that occurs in the snapshot is always found.
proof fn lemma_has_pid_found(procs: Seq<ProcRecordV>, pid: u32)
    requires
        has_pid(procs, pid),
    ensures
        spec_find_pid(procs, pid) is Some,
        (spec_find_pid(procs, pid)->Some_0).pid == pid,
    decreases procs.len(),
{
    if procs[0].pid != pid {
        let i = choose|i: int| 0 <= i < procs.len() && (#[trigger] procs[i]).pid == pid;
        assert(procs.drop_first()[i - 1].pid == pid);
        lemma_has_pid_found(procs.drop_first(), pid);
    }
}

/// Resolver from socket inode to owning process, over one immutable
/// snapshot of the process table.
pub struct ProcessResolver {
    /// The process snapshot, as handed to the constructor.
    pub procs: Vec<ProcRecord>,
    /// Inode-to-pid bindings in discovery order; the last binding wins.
    pub entries: Vec<(u64, u32)>,
}

impl ProcessResolver {
    /// The snapshot this resolver was built over.
    pub open spec fn records(self) -> Seq<ProcRecordV> {
        self.procs.deep_view()
    }

    /// The inode-to-pid map of the snapshot.
    pub open spec fn inode_map(self) -> Map<u64, u32> {
        spec_inode_map(self.records())
    }

    /// The internal association list answers exactly as the map does, and
    /// every pid in the map belongs to some record.
    pub open spec fn wf(self) -> bool {
        &&& forall|ino: u64| #![auto] assoc_lookup(self.entries@, ino) == map_opt(
            self.inode_map(),
            ino,
        )
        &&& forall|ino: u64|
            self.inode_map().contains_key(ino) ==> has_pid(
                self.records(),
                #[trigger] self.inode_map()[ino],
            )
    }

    /// Builds the resolver: walks every record's link targets in order and
    /// keeps, for each socket inode, the last pid that referenced it.
    pub fn new(procs: Vec<ProcRecord>) -> (r: Self)
        ensures
            r.wf(),
            r.records() == procs.deep_view(),
    {
        let ghost pv = procs.deep_view();
        let mut entries: Vec<(u64, u32)> = Vec::new();
        let ghost mut m: Map<u64, u32> = Map::empty();
        let mut i: usize = 0;
        proof {
            assert(pv.skip(0) =~= pv);
        }
        while i < procs.len()
            invariant
                pv == procs.deep_view(),
                pv.len() == procs@.len(),
                0 <= i <= procs@.len(),
                spec_map_from(pv.skip(i as int), m) == spec_inode_map(pv),
                forall|ino: u64| #![auto] assoc_lookup(entries@, ino) == map_opt(m, ino),
                forall|ino: u64|
                    m.contains_key(ino) ==> has_pid(pv, #[trigger] m[ino]),
            decreases procs@.len() - i,
        {
            let ghost u = pv.skip(i as int);
            proof {
                assert(u[0] == pv[i as int]);
                assert(pv[i as int] == procs@[i as int].deep_view());
                assert(u.drop_first() =~= pv.skip(i + 1));
            }
            let pid = procs[i].pid;
            let ghost tv = pv[i as int].fd_targets;
            let ghost m_start = m;
            let mut j: usize = 0;
            proof {
                assert(tv.skip(0) =~= tv);
            }
            while j < procs[i].fd_targets.len()
                invariant
                    pv == procs.deep_view(),
                    pv.len() == procs@.len(),
                    0 <= i < procs@.len(),
                    tv == pv[i as int].fd_targets,
                    tv.len() == procs@[i as int].fd_targets@.len(),
                    pid == pv[i as int].pid,
                    0 <= j <= tv.len(),
                    spec_fd_map(tv.skip(j as int), pid, m) == spec_fd_map(tv, pid, m_start),
                    forall|ino: u64| #![auto] assoc_lookup(entries@, ino) == map_opt(m, ino),
                    forall|ino: u64|
                        m.contains_key(ino) ==> has_pid(pv, #[trigger] m[ino]),
                decreases tv.len() - j,
            {
                let ghost w = tv.skip(j as int);
                proof {
                    assert(w[0] == tv[j as int]);
                    assert(tv[j as int] == procs@[i as int].fd_targets@[j as int]@);
                    assert(w.drop_first() =~= tv.skip(j + 1));
                }
                let target = &procs[i].fd_targets[j];
                match parse_socket_inode(target.as_str()) {
                    Some(ino) => {
                        let ghost pre = entries@;
                        let ghost m_prev = m;
                        entries.push((ino, pid));
                        proof {
                            m = m.insert(ino, pid);
                            assert(entries@.drop_last() =~= pre);
                            assert(entries@.last() == (ino, pid));
                            assert forall|x: u64| #![auto] assoc_lookup(entries@, x) == map_opt(
                                m,
                                x,
                            ) by {
                                if x != ino {
                                    assert(assoc_lookup(pre, x) == map_opt(m_prev, x));
                                }
                            }
                        }
                    },
                    None => {},
                }
                j += 1;
            }
            proof {
                assert(tv.skip(tv.len() as int) =~= Seq::<Seq<char>>::empty());
                assert(spec_fd_map(tv, pid, m_start) == m);
            }
            i += 1;
        }
        proof {
            assert(pv.skip(pv.len() as int) =~= Seq::<ProcRecordV>::empty());
        }
        ProcessResolver { procs, entries }
    }

    /// Answers the snapshot's inode-to-pid map for one inode.
    pub fn lookup_pid(&self, inode: u64) -> (r: Option<u32>)
        requires
            self.wf(),
        ensures
            r == map_opt(self.inode_map(), inode),
    {
        let mut k: usize = self.entries.len();
        proof {
            assert(self.entries@.take(k as int) =~= self.entries@);
        }
        while k > 0
            invariant
                0 <= k <= self.entries@.len(),
                assoc_lookup(self.entries@.take(k as int), inode) == assoc_lookup(
                    self.entries@,
                    inode,
                ),
                self.wf(),
            decreases k,
        {
            let pair = self.entries[k - 1];
            proof {
                let cur = self.entries@.take(k as int);
                assert(cur.last() == self.entries@[k - 1]);
                assert(cur.drop_last() =~= self.entries@.take(k - 1));
            }
            if pair.0 == inode {
                return Some(pair.1);
            }
            k -= 1;
        }
        proof {
            assert(self.entries@.take(0) =~= Seq::<(u64, u32)>::empty());
        }
        None
    }

    /// Resolves a socket inode to the owning process, enriched with its
    /// short name and owning user from the snapshot.
    ///
    /// `None` exactly when the inode is not in the snapshot's map or the
    /// matched record's status metadata announces no readable uid. The
    /// user name goes through the ambient user database, so only the pid
    /// and the name are fixed here.
    pub fn resolve(&self, inode: u64) -> (r: Option<ProcessInfo>)
        requires
            self.wf(),
        ensures
            ({
                let m = self.inode_map();
                match r {
                    None => !m.contains_key(inode) || (match spec_find_pid(
                        self.records(),
                        m[inode],
                    ) {
                        Some(rec) => spec_status_uid(rec.status) is None,
                        None => false,
                    }),
                    Some(info) => m.contains_key(inode) && info.pid == m[inode] && (
                    match spec_find_pid(self.records(), m[inode]) {
                        Some(rec) => info.name@ == spec_trim(rec.comm) && spec_status_uid(
                            rec.status,
                        ) is Some,
                        None => false,
                    }),
                }
            }),
    {
        let pid = match self.lookup_pid(inode) {
            Some(p) => p,
            None => {
                return None;
            },
        };
        let ghost pv = self.records();
        let mut i: usize = 0;
        proof {
            assert(pv.skip(0) =~= pv);
            lemma_has_pid_found(pv, pid);
        }
        while i < self.procs.len()
            invariant
                self.wf(),
                pv == self.records(),
                pv.len() == self.procs@.len(),
                0 <= i <= pv.len(),
                spec_find_pid(pv.skip(i as int), pid) == spec_find_pid(pv, pid),
                spec_find_pid(pv, pid) is Some,
                map_opt(self.inode_map(), inode) == Some(pid),
                forall|k: int| 0 <= k < i ==> (#[trigger] pv[k]).pid != pid,
            decreases pv.len() - i,
        {
            let ghost u = pv.skip(i as int);
            proof {
                assert(u[0] == pv[i as int]);
                assert(pv[i as int] == self.procs@[i as int].deep_view());
                assert(u.drop_first() =~= pv.skip(i + 1));
            }
            if self.procs[i].pid == pid {
                let rec = &self.procs[i];
                let uid = match parse_status_uid(rec.status.as_str()) {
                    Some(u) => u,
                    None => {
                        return None;
                    },
                };
                let name = String::from_str(trim(rec.comm.as_str()));
                let user = get_username(uid);
                return Some(ProcessInfo { pid, name, user });
            }
            i += 1;
        }
        proof {
            assert(pv.skip(pv.len() as int) =~= Seq::<ProcRecordV>::empty());
            assert(false);
        }
        None
    }
}

/// Relies on `users::get_user_by_uid` (`getpwuid_r`): the name registered
/// for the uid in the system user database, if any. What it returns depends
/// on the running system's user database.
#[verifier::external_body]
fn lookup_username(uid: u32) -> Option<String> {
    users::get_user_by_uid(uid).map(|u| u.name().to_string_lossy().to_string())
}

/// The name to show for a user: the registered name when the database has
/// one, else the decimal uid.
pub fn username_or_uid(found: Option<String>, uid: u32) -> (r: String)
    ensures
        match found {
            Some(name) => r@ == name@,
            None => r@ == spec_dec(uid as nat),
        },
{
    match found {
        Some(name) => name,
        None => u64_to_string(uid as u64),
    }
}

/// The name to show for the uid: its entry in the system user database,
/// falling back to the decimal uid when none is registered. The database is
/// ambient system state, so only the fallback shape is fixed here.
pub fn get_username(uid: u32) -> String {
    username_or_uid(lookup_username(uid), uid)
}

} // verus!
