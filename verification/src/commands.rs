//! The boundary operations: scan-and-merge pipelines, preset listing,
//! tray statistics and process termination, over snapshot inputs.

use vstd::prelude::*;

use crate::presets::{get_builtin_presets, spec_builtin_presets};
use crate::process_manager::ProcessManager;
use crate::resolver::{spec_find_pid, spec_inode_map, spec_status_uid, map_opt, ProcessResolver};
use crate::scanner::{spec_filter_range, spec_scan_all, PortScanner};
use crate::strutil::spec_trim;
use crate::types::{
    KillResult, PortInfo, PortInfoV, PortPreset, ProcRecord, ProcRecordV, RawEntryV, TrayStats,
};

verus! {

/// Non-decreasing by port.
pub open spec fn sorted_by_port(s: Seq<PortInfoV>) -> bool {
    forall|i: int, j: int| 0 <= i < j < s.len() ==> (#[trigger] s[i]).port <= (#[trigger] s[j]).port
}

/// Inserts a record into a sorted run, before the first record of a
/// strictly greater port, so that records of equal port keep their order.
pub open spec fn insert_sorted(e: PortInfoV, s: Seq<PortInfoV>) -> Seq<PortInfoV>
    decreases s.len(),
{
    if s.len() == 0 {
        seq![e]
    } else if s[0].port <= e.port {
        seq![s[0]] + insert_sorted(e, s.drop_first())
    } else {
        seq![e] + s
    }
}

/// The stable sort by port: records inserted in discovery order.
pub open spec fn spec_sort_by_port(s: Seq<PortInfoV>) -> Seq<PortInfoV>
    decreases s.len(),
{
    if s.len() == 0 {
        Seq::empty()
    } else {
        insert_sorted(s.last(), spec_sort_by_port(s.drop_last()))
    }
}

proof fn lemma_insert_sorted_len(e: PortInfoV, s: Seq<PortInfoV>)
    ensures
        insert_sorted(e, s).len() == s.len() + 1,
    decreases s.len(),
{
    if s.len() > 0 && s[0].port <= e.port {
        lemma_insert_sorted_len(e, s.drop_first());
    }
}

proof fn lemma_insert_sorted_sorted(e: PortInfoV, s: Seq<PortInfoV>)
    requires
        sorted_by_port(s),
    ensures
        sorted_by_port(insert_sorted(e, s)),
    decreases s.len(),
{
    lemma_insert_sorted_len(e, s);
    if s.len() == 0 {
    } else if s[0].port <= e.port {
        let rest = s.drop_first();
        assert(sorted_by_port(rest)) by {
            assert(forall|i: int, j: int|
                0 <= i < j < rest.len() ==> (#[trigger] rest[i]).port <= (#[trigger] rest[j]).port);
        }
        lemma_insert_sorted_sorted(e, rest);
        let r = seq![s[0]] + insert_sorted(e, rest);
        assert forall|i: int, j: int|
            0 <= i < j < r.len() implies (#[trigger] r[i]).port <= (#[trigger] r[j]).port by {
            lemma_insert_sorted_first(e, rest);
            if i > 0 {
                assert(r[i] == insert_sorted(e, rest)[i - 1]);
                assert(r[j] == insert_sorted(e, rest)[j - 1]);
            } else if j > 0 {
                assert(r[j] == insert_sorted(e, rest)[j - 1]);
            }
        }
    }
}

/// Each record of the inserted run is the new one or one of the old run.
proof fn lemma_insert_sorted_first(e: PortInfoV, s: Seq<PortInfoV>)
    requires
        sorted_by_port(s),
    ensures
        forall|k: int|
            0 <= k < insert_sorted(e, s).len() ==> (#[trigger] insert_sorted(e, s)[k]) == e
                || s.contains(insert_sorted(e, s)[k]),
    decreases s.len(),
{
    lemma_insert_sorted_len(e, s);
    if s.len() == 0 {
    } else if s[0].port <= e.port {
        let rest = s.drop_first();
        assert(sorted_by_port(rest)) by {
            assert(forall|i: int, j: int|
                0 <= i < j < rest.len() ==> (#[trigger] rest[i]).port <= (#[trigger] rest[j]).port);
        }
        lemma_insert_sorted_first(e, rest);
        let r = seq![s[0]] + insert_sorted(e, rest);
        assert forall|k: int|
            0 <= k < r.len() implies (#[trigger] r[k]) == e || s.contains(r[k]) by {
            if k == 0 {
                assert(s[0] == r[0]);
                assert(s.contains(s[0]));
            } else {
                assert(r[k] == insert_sorted(e, rest)[k - 1]);
                if r[k] != e {
                    let m = choose|m: int| 0 <= m < rest.len() && rest[m] == r[k];
                    assert(s[m + 1] == rest[m]);
                }
            }
        }
    } else {
        let r = seq![e] + s;
        assert forall|k: int|
            0 <= k < r.len() implies (#[trigger] r[k]) == e || s.contains(r[k]) by {
            if k > 0 {
                assert(r[k] == s[k - 1]);
            }
        }
    }
}

/// Law: the stable sort leaves every record somewhere and keeps the count.
pub proof fn lemma_sort_by_port_multiset(s: Seq<PortInfoV>)
    ensures
        spec_sort_by_port(s).to_multiset() == s.to_multiset(),
    decreases s.len(),
{
    broadcast use vstd::seq_lib::group_to_multiset_ensures;

    if s.len() == 0 {
        assert(spec_sort_by_port(s).to_multiset() =~= s.to_multiset());
    } else {
        let rest = s.drop_last();
        lemma_sort_by_port_multiset(rest);
        lemma_insert_sorted_multiset(s.last(), spec_sort_by_port(rest));
        assert(rest.push(s.last()) =~= s);
    }
}

proof fn lemma_insert_sorted_multiset(e: PortInfoV, s: Seq<PortInfoV>)
    ensures
        insert_sorted(e, s).to_multiset() == s.push(e).to_multiset(),
    decreases s.len(),
{
    broadcast use vstd::seq_lib::group_to_multiset_ensures;

    if s.len() == 0 {
        assert(seq![e] =~= Seq::<PortInfoV>::empty().push(e));
        assert(insert_sorted(e, s).to_multiset() =~= s.push(e).to_multiset());
    } else if s[0].port <= e.port {
        let rest = s.drop_first();
        lemma_insert_sorted_multiset(e, rest);
        let r = seq![s[0]] + insert_sorted(e, rest);
        assert(r =~= insert_sorted(e, rest).insert(0, s[0]));
        lemma_multiset_insert_any(insert_sorted(e, rest), 0, s[0]);
        lemma_multiset_insert_any(rest.push(e), 0, s[0]);
        assert((rest.push(e)).insert(0, s[0]) =~= s.push(e));
        assert(r.to_multiset() =~= s.push(e).to_multiset());
    } else {
        let r = seq![e] + s;
        assert(r =~= s.insert(0, e));
        lemma_multiset_insert_any(s, 0, e);
        assert(r.to_multiset() =~= s.push(e).to_multiset());
    }
}

/// Inserting anywhere adds one copy to the multiset.
proof fn lemma_multiset_insert_any(s: Seq<PortInfoV>, k: int, e: PortInfoV)
    requires
        0 <= k <= s.len(),
    ensures
        s.insert(k, e).to_multiset() == s.push(e).to_multiset(),
{
    broadcast use vstd::seq_lib::group_to_multiset_ensures;

    let a = s.insert(k, e);
    let b = s.push(e);
    assert(a.remove(k) =~= s);
    assert(b.remove(s.len() as int) =~= s);
    assert(a[k] == e);
    assert(b[s.len() as int] == e);
    assert(a.to_multiset().remove(e) =~= s.to_multiset());
    assert(b.to_multiset().remove(e) =~= s.to_multiset());
    assert(a.to_multiset().count(e) == s.to_multiset().count(e) + 1);
    assert(b.to_multiset().count(e) == s.to_multiset().count(e) + 1);
    assert(a.to_multiset() =~= b.to_multiset());
}

/// Law: the stable sort is sorted non-decreasingly by port.
pub proof fn lemma_sort_by_port_sorted(s: Seq<PortInfoV>)
    ensures
        sorted_by_port(spec_sort_by_port(s)),
    decreases s.len(),
{
    if s.len() > 0 {
        lemma_sort_by_port_sorted(s.drop_last());
        lemma_insert_sorted_sorted(s.last(), spec_sort_by_port(s.drop_last()));
    }
}

/// The position where the sorted insertion lands: splitting the run there
/// reproduces the spec insertion.
proof fn lemma_insert_sorted_split(e: PortInfoV, s: Seq<PortInfoV>, pos: int)
    requires
        0 <= pos <= s.len(),
        forall|k: int| 0 <= k < pos ==> (#[trigger] s[k]).port <= e.port,
        pos == s.len() || s[pos].port > e.port,
    ensures
        insert_sorted(e, s) == s.take(pos) + seq![e] + s.skip(pos),
    decreases pos,
{
    if pos == 0 {
        if s.len() == 0 {
            assert(insert_sorted(e, s) =~= s.take(0) + seq![e] + s.skip(0));
        } else {
            assert(s.skip(0) =~= s);
            assert(insert_sorted(e, s) =~= s.take(0) + seq![e] + s.skip(0));
        }
    } else {
        let rest = s.drop_first();
        assert(forall|k: int| 0 <= k < pos - 1 ==> (#[trigger] rest[k]).port <= e.port);
        if pos - 1 < rest.len() {
            assert(rest[pos - 1] == s[pos]);
        }
        lemma_insert_sorted_split(e, rest, pos - 1);
        assert(insert_sorted(e, s) == seq![s[0]] + insert_sorted(e, rest));
        assert(seq![s[0]] + (rest.take(pos - 1) + seq![e] + rest.skip(pos - 1)) =~= s.take(pos)
            + seq![e] + s.skip(pos));
    }
}

/// The records of one given port, in order.
pub open spec fn filter_port(s: Seq<PortInfoV>, p: u16) -> Seq<PortInfoV>
    decreases s.len(),
{
    if s.len() == 0 {
        Seq::empty()
    } else {
        let rest = filter_port(s.drop_last(), p);
        if s.last().port == p {
            rest.push(s.last())
        } else {
            rest
        }
    }
}

proof fn lemma_filter_port_concat(a: Seq<PortInfoV>, b: Seq<PortInfoV>, p: u16)
    ensures
        filter_port(a + b, p) == filter_port(a, p) + filter_port(b, p),
    decreases b.len(),
{
    if b.len() == 0 {
        assert(a + b =~= a);
        assert(filter_port(a, p) + filter_port(b, p) =~= filter_port(a, p));
    } else {
        lemma_filter_port_concat(a, b.drop_last(), p);
        assert((a + b).drop_last() =~= a + b.drop_last());
        assert((a + b).last() == b.last());
        if b.last().port == p {
            assert(filter_port(a, p) + filter_port(b.drop_last(), p).push(b.last())
                =~= (filter_port(a, p) + filter_port(b.drop_last(), p)).push(b.last()));
        }
    }
}

proof fn lemma_filter_port_none(s: Seq<PortInfoV>, p: u16)
    requires
        forall|k: int| 0 <= k < s.len() ==> (#[trigger] s[k]).port != p,
    ensures
        filter_port(s, p) == Seq::<PortInfoV>::empty(),
    decreases s.len(),
{
    if s.len() > 0 {
        assert(forall|k: int|
            0 <= k < s.len() - 1 ==> (#[trigger] s.drop_last()[k]).port != p);
        lemma_filter_port_none(s.drop_last(), p);
    }
}

proof fn lemma_insert_sorted_filter(e: PortInfoV, t: Seq<PortInfoV>, p: u16)
    requires
        sorted_by_port(t),
    ensures
        filter_port(insert_sorted(e, t), p) == if e.port == p {
            filter_port(t, p).push(e)
        } else {
            filter_port(t, p)
        },
    decreases t.len(),
{
    if t.len() == 0 {
        assert(insert_sorted(e, t) == seq![e]);
        assert(seq![e].drop_last() =~= Seq::<PortInfoV>::empty());
        assert(seq![e].last() == e);
        assert(filter_port(Seq::<PortInfoV>::empty(), p) =~= Seq::<PortInfoV>::empty());
        assert(filter_port(seq![e].drop_last(), p) == filter_port(Seq::<PortInfoV>::empty(), p));
        assert(filter_port(t, p) =~= Seq::<PortInfoV>::empty());
    } else if t[0].port <= e.port {
        let rest = t.drop_first();
        assert(sorted_by_port(rest)) by {
            assert(forall|i: int, j: int|
                0 <= i < j < rest.len() ==> (#[trigger] rest[i]).port <= (#[trigger] rest[j]).port);
        }
        lemma_insert_sorted_filter(e, rest, p);
        lemma_filter_port_concat(seq![t[0]], insert_sorted(e, rest), p);
        lemma_filter_port_concat(seq![t[0]], rest, p);
        assert(seq![t[0]] + rest =~= t);
        assert(seq![t[0]].drop_last() =~= Seq::<PortInfoV>::empty());
        if e.port == p {
            assert(filter_port(seq![t[0]], p) + filter_port(rest, p).push(e) =~= (filter_port(
                seq![t[0]],
                p,
            ) + filter_port(rest, p)).push(e));
        }
    } else {
        let r = seq![e] + t;
        assert(insert_sorted(e, t) == r);
        lemma_filter_port_concat(seq![e], t, p);
        assert(seq![e].drop_last() =~= Seq::<PortInfoV>::empty());
        assert(seq![e].last() == e);
        assert(filter_port(Seq::<PortInfoV>::empty(), p) =~= Seq::<PortInfoV>::empty());
        assert(filter_port(seq![e].drop_last(), p) == filter_port(Seq::<PortInfoV>::empty(), p));
        if e.port == p {
            assert(forall|k: int| 0 <= k < t.len() ==> (#[trigger] t[k]).port >= t[0].port);
            lemma_filter_port_none(t, p);
            assert(filter_port(seq![e], p) =~= Seq::<PortInfoV>::empty().push(e));
            assert(filter_port(seq![e], p) + Seq::<PortInfoV>::empty() =~= filter_port(
                t,
                p,
            ).push(e));
        } else {
            assert(filter_port(seq![e], p) =~= Seq::<PortInfoV>::empty());
            assert(Seq::<PortInfoV>::empty() + filter_port(t, p) =~= filter_port(t, p));
        }
    }
}

/// Law: the sort is stable — for every port, the records of that port come
/// out in exactly the order they went in.
pub proof fn lemma_sort_by_port_stable(s: Seq<PortInfoV>, p: u16)
    ensures
        filter_port(spec_sort_by_port(s), p) == filter_port(s, p),
    decreases s.len(),
{
    if s.len() > 0 {
        let rest = s.drop_last();
        lemma_sort_by_port_stable(rest, p);
        lemma_sort_by_port_sorted(rest);
        lemma_insert_sorted_filter(s.last(), spec_sort_by_port(rest), p);
    }
}

/// Sorts the merged records by port; the sort is stable, so records of one
/// port keep their discovery order.
pub fn sort_ports(ports: Vec<PortInfo>) -> (r: Vec<PortInfo>)
    ensures
        r.deep_view() == spec_sort_by_port(ports.deep_view()),
{
    let ghost orig = ports.deep_view();
    let mut src = ports;
    let mut out: Vec<PortInfo> = Vec::new();
    let mut i: usize = 0;
    let total = src.len();
    proof {
        assert(orig.take(0) =~= Seq::<PortInfoV>::empty());
        assert(orig.len() == total);
    }
    while src.len() > 0
        invariant
            orig.len() == total,
            i + src@.len() == orig.len(),
            0 <= i <= orig.len(),
            src@.len() == src.deep_view().len(),
            src.deep_view() == orig.skip(i as int),
            out.deep_view() == spec_sort_by_port(orig.take(i as int)),
            sorted_by_port(out.deep_view()),
        decreases src@.len(),
    {
        let ghost pre_dv = src.deep_view();
        let e = src.remove(0);
        proof {
            assert(e.deep_view() == pre_dv[0]);
            assert(src.deep_view() =~= pre_dv.skip(1));
            assert(pre_dv.skip(1) =~= orig.skip(i as int + 1));
            assert(e.deep_view() == orig[i as int]);
        }
        let mut pos: usize = out.len();
        while pos > 0 && out[pos - 1].port > e.port
            invariant
                0 <= pos <= out@.len(),
                out@.len() == out.deep_view().len(),
                forall|k: int|
                    pos <= k < out.deep_view().len() ==> (#[trigger] out.deep_view()[k]).port
                        > e@.port,
            decreases pos,
        {
            proof {
                assert(out.deep_view()[pos - 1].port == out@[pos - 1]@.port);
            }
            pos -= 1;
        }
        proof {
            let ov = out.deep_view();
            if pos > 0 {
                assert(ov[pos - 1].port == out@[pos - 1]@.port);
                assert(ov[pos - 1].port <= e@.port);
                assert(forall|k: int| 0 <= k < pos ==> (#[trigger] ov[k]).port <= e@.port);
            }
            lemma_insert_sorted_split(e@, ov, pos as int);
        }
        let ghost before = out.deep_view();
        out.insert(pos, e);
        proof {
            assert(out.deep_view() =~= before.take(pos as int) + seq![e@] + before.skip(
                pos as int,
            ));
            assert(out.deep_view() == insert_sorted(e@, before));
            assert(orig.take(i as int + 1).drop_last() =~= orig.take(i as int));
            assert(orig.take(i as int + 1).last() == orig[i as int]);
            lemma_insert_sorted_sorted(e@, before);
        }
        i += 1;
    }
    proof {
        assert(orig.take(orig.len() as int) =~= orig);
    }
    out
}

/// What an entry's inode resolves to in the snapshot: the pid and the
/// process name, or `None` when the inode is unknown or the record's status
/// metadata announces no readable uid.
pub open spec fn spec_entry_resolution(procs: Seq<ProcRecordV>, e: RawEntryV) -> Option<
    (u32, Seq<char>),
> {
    match map_opt(spec_inode_map(procs), e.inode) {
        None => None,
        Some(pid) => match spec_find_pid(procs, pid) {
            None => None,
            Some(rec) => if spec_status_uid(rec.status) is Some {
                Some((pid, spec_trim(rec.comm)))
            } else {
                None
            },
        },
    }
}

/// The merged record carries the entry's socket fields and the resolved
/// process identity; only the user name, which comes from the ambient user
/// database, is left open.
pub open spec fn merged_record_match(procs: Seq<ProcRecordV>, e: RawEntryV, o: PortInfoV) -> bool {
    match spec_entry_resolution(procs, e) {
        Some((pid, name)) => o.pid == pid && o.process_name == name && o.port == e.local_port
            && o.protocol == e.protocol && o.address == e.local_address,
        None => false,
    }
}

/// The merge of scan entries with the process snapshot: entries that
/// resolve appear in order, each matched as in [`merged_record_match`];
/// entries that do not resolve are dropped.
pub open spec fn merged_rel(
    procs: Seq<ProcRecordV>,
    entries: Seq<RawEntryV>,
    out: Seq<PortInfoV>,
) -> bool
    decreases entries.len(),
{
    if entries.len() == 0 {
        out.len() == 0
    } else {
        let e = entries.last();
        if spec_entry_resolution(procs, e) is Some {
            out.len() > 0 && merged_record_match(procs, e, out.last()) && merged_rel(
                procs,
                entries.drop_last(),
                out.drop_last(),
            )
        } else {
            merged_rel(procs, entries.drop_last(), out)
        }
    }
}

/// Merges scan entries with the snapshot: resolves each entry's inode and
/// keeps, in order, those whose process is known.
fn merge_entries(entries: Vec<crate::types::RawSocketEntry>, resolver: &ProcessResolver) -> (r:
    Vec<PortInfo>)
    requires
        resolver.wf(),
    ensures
        merged_rel(resolver.records(), entries.deep_view(), r.deep_view()),
{
    let ghost pv = resolver.records();
    let ghost ev = entries.deep_view();
    let mut out: Vec<PortInfo> = Vec::new();
    let mut k: usize = 0;
    proof {
        assert(ev.take(0) =~= Seq::<RawEntryV>::empty());
    }
    while k < entries.len()
        invariant
            resolver.wf(),
            pv == resolver.records(),
            ev == entries.deep_view(),
            ev.len() == entries@.len(),
            0 <= k <= entries@.len(),
            merged_rel(pv, ev.take(k as int), out.deep_view()),
        decreases entries@.len() - k,
    {
        let e = &entries[k];
        proof {
            assert(e.deep_view() == ev[k as int]);
        }
        let ghost pre = out.deep_view();
        match resolver.resolve(e.inode) {
            Some(info) => {
                out.push(
                    PortInfo {
                        pid: info.pid,
                        process_name: info.name,
                        port: e.local_port,
                        protocol: e.protocol,
                        address: e.local_address.clone(),
                        user: info.user,
                    },
                );
                proof {
                    assert(out.deep_view() =~= pre.push(out.deep_view().last()));
                    assert(spec_entry_resolution(pv, ev[k as int]) is Some);
                    assert(merged_record_match(pv, ev[k as int], out.deep_view().last()));
                }
            },
            None => {
                proof {
                    assert(spec_entry_resolution(pv, ev[k as int]) is None);
                }
            },
        }
        proof {
            assert(ev.take(k + 1).drop_last() =~= ev.take(k as int));
            assert(ev.take(k + 1).last() == ev[k as int]);
            if spec_entry_resolution(pv, ev[k as int]) is Some {
                assert(out.deep_view().drop_last() =~= pre);
            }
        }
        k += 1;
    }
    proof {
        assert(ev.take(ev.len() as int) =~= ev);
    }
    out
}

/// Scans both socket tables, resolves each entry to its process, and
/// returns the merged records sorted non-decreasingly by port (stably, so
/// records of one port keep their discovery order); or the scan error's
/// message.
pub fn get_ports(tcp_content: &str, udp_content: &str, procs: Vec<ProcRecord>) -> (r: Result<
    Vec<PortInfo>,
    String,
>)
    ensures
        ({
            let s = spec_scan_all(tcp_content@, udp_content@);
            match r {
                Ok(ports) => sorted_by_port(ports.deep_view()) && (match s {
                    Ok(entries) => exists|mid: Seq<PortInfoV>|
                        #![auto]
                        merged_rel(procs.deep_view(), entries, mid) && ports.deep_view()
                            == spec_sort_by_port(mid),
                    Err(_) => false,
                }),
                Err(msg) => (match s {
                    Ok(_) => false,
                    Err(f) => msg@ == "Failed to parse line: "@ + f,
                }),
            }
        }),
{
    let entries = match PortScanner::scan_all(tcp_content, udp_content) {
        Ok(es) => es,
        Err(e) => {
            return Err(e.message());
        },
    };
    let resolver = ProcessResolver::new(procs);
    let merged = merge_entries(entries, &resolver);
    proof {
        lemma_sort_by_port_sorted(merged.deep_view());
    }
    let sorted = sort_ports(merged);
    Ok(sorted)
}

/// As [`get_ports`], restricted to entries whose port lies in the
/// inclusive range `start..=end`.
pub fn scan_port_range(
    start: u16,
    end: u16,
    tcp_content: &str,
    udp_content: &str,
    procs: Vec<ProcRecord>,
) -> (r: Result<Vec<PortInfo>, String>)
    ensures
        ({
            let s = spec_scan_all(tcp_content@, udp_content@);
            match r {
                Ok(ports) => sorted_by_port(ports.deep_view()) && (match s {
                    Ok(entries) => exists|mid: Seq<PortInfoV>|
                        #![auto]
                        merged_rel(procs.deep_view(), spec_filter_range(entries, start, end), mid)
                            && ports.deep_view() == spec_sort_by_port(mid),
                    Err(_) => false,
                }),
                Err(msg) => (match s {
                    Ok(_) => false,
                    Err(f) => msg@ == "Failed to parse line: "@ + f,
                }),
            }
        }),
{
    let entries = match PortScanner::scan_range(start, end, tcp_content, udp_content) {
        Ok(es) => es,
        Err(e) => {
            return Err(e.message());
        },
    };
    let resolver = ProcessResolver::new(procs);
    let merged = merge_entries(entries, &resolver);
    proof {
        lemma_sort_by_port_sorted(merged.deep_view());
    }
    let sorted = sort_ports(merged);
    Ok(sorted)
}

/// Terminates a process by pid; see [`ProcessManager::kill`].
pub fn kill_process(pid: u32) -> (r: KillResult)
    ensures
        !(r@ is ElevationRequired),
        r@ matches crate::types::KillResultV::PermissionDenied { pid: p } ==> p == pid,
        r@ matches crate::types::KillResultV::ProcessNotFound { pid: p } ==> p == pid,
{
    ProcessManager::kill(pid)
}

/// How many records carry the given protocol.
pub open spec fn count_proto(s: Seq<PortInfoV>, proto: crate::types::Protocol) -> nat
    decreases s.len(),
{
    if s.len() == 0 {
        0
    } else {
        count_proto(s.drop_last(), proto) + if s.last().protocol == proto {
            1nat
        } else {
            0nat
        }
    }
}

/// The distinct pids of the records.
pub open spec fn pid_set(s: Seq<PortInfoV>) -> Set<u32>
    decreases s.len(),
{
    if s.len() == 0 {
        Set::empty()
    } else {
        pid_set(s.drop_last()).insert(s.last().pid)
    }
}

proof fn lemma_pid_set_finite(s: Seq<PortInfoV>)
    ensures
        pid_set(s).finite(),
    decreases s.len(),
{
    if s.len() > 0 {
        lemma_pid_set_finite(s.drop_last());
    }
}

/// Whether the value occurs in the vector.
fn contains_u32(v: &Vec<u32>, x: u32) -> (r: bool)
    ensures
        r == v@.contains(x),
{
    let mut i: usize = 0;
    while i < v.len()
        invariant
            0 <= i <= v@.len(),
            forall|k: int| 0 <= k < i ==> v@[k] != x,
        decreases v@.len() - i,
    {
        if v[i] == x {
            return true;
        }
        i += 1;
    }
    proof {
        assert(forall|k: int| 0 <= k < v@.len() ==> v@[k] != x);
    }
    false
}

/// Derives the tray statistics from one scan: the total count, the counts
/// per protocol, and the number of distinct pids among the records.
pub fn get_tray_stats(tcp_content: &str, udp_content: &str, procs: Vec<ProcRecord>) -> (r: Result<
    TrayStats,
    String,
>)
    ensures
        ({
            let s = spec_scan_all(tcp_content@, udp_content@);
            match r {
                Ok(st) => (match s {
                    Ok(entries) => exists|mid: Seq<PortInfoV>, ports: Seq<PortInfoV>|
                        #![auto]
                        merged_rel(procs.deep_view(), entries, mid) && ports == spec_sort_by_port(
                            mid,
                        ) && st.total_ports == ports.len() && st.tcp_count == count_proto(
                            ports,
                            crate::types::Protocol::Tcp,
                        ) && st.udp_count == count_proto(ports, crate::types::Protocol::Udp)
                            && st.process_count == pid_set(ports).len(),
                    Err(_) => false,
                }),
                Err(msg) => (match s {
                    Ok(_) => false,
                    Err(f) => msg@ == "Failed to parse line: "@ + f,
                }),
            }
        }),
{
    let ports = match get_ports(tcp_content, udp_content, procs) {
        Ok(p) => p,
        Err(msg) => {
            return Err(msg);
        },
    };
    let pv = ports;
    let ghost sv = pv.deep_view();
    let mut tcp_count: usize = 0;
    let mut udp_count: usize = 0;
    let mut seen: Vec<u32> = Vec::new();
    let mut i: usize = 0;
    proof {
        assert(sv.take(0) =~= Seq::<PortInfoV>::empty());
        lemma_pid_set_finite(sv.take(0));
    }
    while i < pv.len()
        invariant
            sv == pv.deep_view(),
            sv.len() == pv@.len(),
            0 <= i <= pv@.len(),
            tcp_count == count_proto(sv.take(i as int), crate::types::Protocol::Tcp),
            udp_count == count_proto(sv.take(i as int), crate::types::Protocol::Udp),
            tcp_count <= i && udp_count <= i,
            pid_set(sv.take(i as int)).finite(),
            seen@.len() == pid_set(sv.take(i as int)).len(),
            forall|x: u32| seen@.contains(x) <==> pid_set(sv.take(i as int)).contains(x),
        decreases pv@.len() - i,
    {
        proof {
            assert(sv.take(i + 1).drop_last() =~= sv.take(i as int));
            assert(sv.take(i + 1).last() == sv[i as int]);
            assert(sv[i as int] == pv@[i as int].deep_view());
        }
        let e = &pv[i];
        match e.protocol {
            crate::types::Protocol::Tcp => {
                tcp_count += 1;
            },
            crate::types::Protocol::Udp => {
                udp_count += 1;
            },
        }
        let pid = e.pid;
        if !contains_u32(&seen, pid) {
            let ghost pre = seen@;
            seen.push(pid);
            proof {
                assert forall|x: u32|
                    seen@.contains(x) <==> pid_set(sv.take(i + 1)).contains(x) by {
                    if seen@.contains(x) {
                        let m = choose|m: int| 0 <= m < seen@.len() && seen@[m] == x;
                        if m < pre.len() {
                            assert(pre[m] == x);
                            assert(pre.contains(x));
                        }
                    }
                    if pid_set(sv.take(i + 1)).contains(x) && x != pid {
                        assert(pre.contains(x));
                        let m = choose|m: int| 0 <= m < pre.len() && pre[m] == x;
                        assert(seen@[m] == x);
                    }
                    if x == pid {
                        assert(seen@[seen@.len() - 1] == pid);
                    }
                }
            }
        } else {
            proof {
                assert(pid_set(sv.take(i + 1)) =~= pid_set(sv.take(i as int)));
            }
        }
        i += 1;
    }
    proof {
        assert(sv.take(sv.len() as int) =~= sv);
    }
    Ok(
        TrayStats {
            total_ports: pv.len(),
            tcp_count,
            udp_count,
            process_count: seen.len(),
        },
    )
}

/// The built-in presets; see [`spec_builtin_presets`].
pub fn get_presets() -> (r: Vec<PortPreset>)
    ensures
        r.deep_view() == spec_builtin_presets(),
{
    get_builtin_presets()
}

} // verus!
