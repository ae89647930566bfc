//! Parsing of kernel per-protocol socket tables into raw socket entries.
//!
//! A table is handed in as its full text. The first line is a header; every
//! later line is split on whitespace into columns, of which column 2 holds
//! `address:port` in hexadecimal, column 4 the connection state, and column
//! 10 the socket inode. The address is four bytes in reversed byte order;
//! the port is a plain big-endian 16-bit number.

use vstd::prelude::*;

use crate::strutil::{
    all_hex_digits, dec_val, hex_digit, hex_digit_val, hex_val, parse_dec_u64, parse_hex_u16,
    spec_dec, spec_split_on, spec_split_ws, split_on, split_ws, str_eq, u64_to_string,
    valid_dec_u64,
};
use crate::types::{Protocol, RawEntryV, RawSocketEntry, ScanError};

verus! {

/// Scanner that turns kernel socket table text into socket entries.
pub struct PortScanner;

/// Value of the byte written at position `i` (0 = first pair) of an 8-digit
/// address in hexadecimal.
pub open spec fn spec_hex_byte(h: Seq<char>, i: int) -> nat {
    (hex_digit_val(h[2 * i]) * 16 + hex_digit_val(h[2 * i + 1])) as nat
}

/// An address field: exactly eight hexadecimal digits.
pub open spec fn valid_ip_hex(h: Seq<char>) -> bool {
    h.len() == 8 && all_hex_digits(h)
}

/// A port field: exactly four hexadecimal digits.
pub open spec fn valid_port_hex(s: Seq<char>) -> bool {
    s.len() == 4 && all_hex_digits(s)
}

/// Dotted-decimal rendering of an address given in the kernel's reversed
/// byte order: the last byte pair comes first.
pub open spec fn spec_ip_chars(h: Seq<char>) -> Seq<char> {
    spec_dec(spec_hex_byte(h, 3)) + seq!['.'] + spec_dec(spec_hex_byte(h, 2)) + seq!['.']
        + spec_dec(spec_hex_byte(h, 1)) + seq!['.'] + spec_dec(spec_hex_byte(h, 0))
}

/// What parsing an `address:port` field yields: the dotted-decimal address
/// and the port, or the offending fragment.
pub open spec fn spec_parse_addr_port(s: Seq<char>) -> Result<(Seq<char>, u16), Seq<char>> {
    let parts = spec_split_on(s, ':');
    if parts.len() != 2 {
        Err(s)
    } else if !valid_ip_hex(parts[0]) {
        Err(parts[0])
    } else if !valid_port_hex(parts[1]) {
        Err(parts[1])
    } else {
        Ok((spec_ip_chars(parts[0]), hex_val(parts[1]) as u16))
    }
}

impl PortScanner {
    /// Decodes a big-endian hexadecimal port field of exactly four digits.
    pub fn hex_to_port(hex: &str) -> (r: Result<u16, ScanError>)
        ensures
            match r {
                Ok(p) => valid_port_hex(hex@) && p as int == hex_val(hex@),
                Err(e) => !valid_port_hex(hex@) && (e matches ScanError::ParseError(f) && f@
                    == hex@),
            },
    {
        if hex.unicode_len() != 4 {
            return Err(ScanError::ParseError(String::from_str(hex)));
        }
        match parse_hex_u16(hex) {
            Some(p) => Ok(p),
            None => {
                proof {
                    if all_hex_digits(hex@) {
                        crate::strutil::lemma_hex_val_bound(hex@);
                        assert(crate::strutil::pow16(0) == 1);
                        assert(crate::strutil::pow16(1) == 16);
                        assert(crate::strutil::pow16(2) == 256);
                        assert(crate::strutil::pow16(3) == 4096);
                        assert(crate::strutil::pow16(4) == 65536);
                    }
                }
                Err(ScanError::ParseError(String::from_str(hex)))
            },
        }
    }

    /// Decodes an address field: eight hexadecimal digits holding four bytes
    /// in reversed byte order, rendered dotted-decimal in network order.
    pub fn hex_to_ip(hex: &str) -> (r: Result<String, ScanError>)
        ensures
            match r {
                Ok(ip) => valid_ip_hex(hex@) && ip@ == spec_ip_chars(hex@),
                Err(e) => !valid_ip_hex(hex@) && (e matches ScanError::ParseError(f) && f@
                    == hex@),
            },
    {
        let n = hex.unicode_len();
        if n != 8 {
            return Err(ScanError::ParseError(String::from_str(hex)));
        }
        let mut vals: Vec<u8> = Vec::new();
        let mut i: usize = 0;
        while i < 8
            invariant
                hex@.len() == 8,
                0 <= i <= 8,
                vals@.len() == i,
                forall|k: int| 0 <= k < i ==> #[trigger] is_hex_digit_at(hex@, k),
                forall|k: int|
                    0 <= k < i ==> #[trigger] vals@[k] < 16 && vals@[k] as int == hex_digit_val(
                        hex@[k],
                    ),
            decreases 8 - i,
        {
            match hex_digit(hex.get_char(i)) {
                Some(d) => {
                    let ghost prev = vals@;
                    vals.push(d);
                    proof {
                        assert(forall|k: int| 0 <= k < i ==> vals@[k] == prev[k]);
                        assert(vals@[i as int] == d);
                        assert(is_hex_digit_at(hex@, i as int));
                    }
                },
                None => {
                    return Err(ScanError::ParseError(String::from_str(hex)));
                },
            }
            i += 1;
        }
        let b3: u8 = vals[6] * 16 + vals[7];
        let b2: u8 = vals[4] * 16 + vals[5];
        let b1: u8 = vals[2] * 16 + vals[3];
        let b0: u8 = vals[0] * 16 + vals[1];
        proof {
            assert forall|k: int| 0 <= k < 8 implies crate::strutil::is_hex_digit(
                #[trigger] hex@[k],
            ) by {
                assert(is_hex_digit_at(hex@, k));
            }
            assert(all_hex_digits(hex@));
            assert(b3 as nat == spec_hex_byte(hex@, 3));
            assert(b2 as nat == spec_hex_byte(hex@, 2));
            assert(b1 as nat == spec_hex_byte(hex@, 1));
            assert(b0 as nat == spec_hex_byte(hex@, 0));
            reveal_strlit(".");
        }
        let mut out = u64_to_string(b3 as u64);
        out.append(".");
        out.append(u64_to_string(b2 as u64).as_str());
        out.append(".");
        out.append(u64_to_string(b1 as u64).as_str());
        out.append(".");
        out.append(u64_to_string(b0 as u64).as_str());
        proof {
            assert("."@ =~= seq!['.']);
            assert(out@ =~= spec_ip_chars(hex@));
        }
        Ok(out)
    }

    /// Splits an `address:port` field on the colon and decodes both halves.
    pub fn parse_address_port(addr_port: &str) -> (r: Result<(String, u16), ScanError>)
        ensures
            match r {
                Ok(ap) => spec_parse_addr_port(addr_port@) == Ok::<(Seq<char>, u16), Seq<char>>(
                    (ap.0@, ap.1),
                ),
                Err(e) => e matches ScanError::ParseError(f) && spec_parse_addr_port(addr_port@)
                    == Err::<(Seq<char>, u16), Seq<char>>(f@),
            },
    {
        let parts = split_on(addr_port, ':');
        if parts.len() != 2 {
            return Err(ScanError::ParseError(String::from_str(addr_port)));
        }
        proof {
            assert(parts.deep_view()[0] == parts@[0]@);
            assert(parts.deep_view()[1] == parts@[1]@);
        }
        let address = match Self::hex_to_ip(parts[0]) {
            Ok(a) => a,
            Err(e) => {
                return Err(e);
            },
        };
        let port = match Self::hex_to_port(parts[1]) {
            Ok(p) => p,
            Err(e) => {
                return Err(e);
            },
        };
        Ok((address, port))
    }
}

/// The character at `k` is a hexadecimal digit (helper for quantifiers).
pub open spec fn is_hex_digit_at(s: Seq<char>, k: int) -> bool {
    crate::strutil::is_hex_digit(s[k])
}

/// What parsing one table line yields.
///
/// A line with fewer than ten whitespace-separated columns is skipped, as is
/// a TCP line whose state column is not the listening state `0A`, and any
/// line whose port or inode decodes to zero. A line that passes those gates
/// but holds an undecodable `address:port` or inode field is an error
/// carrying the offending fragment.
pub open spec fn spec_parse_line(line: Seq<char>, protocol: Protocol, filter_listen: bool) -> Result<
    Option<RawEntryV>,
    Seq<char>,
> {
    let parts = spec_split_ws(line);
    if parts.len() < 10 {
        Ok(None)
    } else if filter_listen && parts[3] != "0A"@ {
        Ok(None)
    } else {
        match spec_parse_addr_port(parts[1]) {
            Err(f) => Err(f),
            Ok(ap) => {
                if ap.1 == 0 {
                    Ok(None)
                } else if !valid_dec_u64(parts[9]) {
                    Err(parts[9])
                } else if dec_val(parts[9]) == 0 {
                    Ok(None)
                } else {
                    Ok(
                        Some(
                            RawEntryV {
                                local_address: ap.0,
                                local_port: ap.1,
                                inode: dec_val(parts[9]) as u64,
                                protocol,
                            },
                        ),
                    )
                }
            },
        }
    }
}

/// What scanning a sequence of table lines yields: the entries of all lines
/// in order, or the first line-level error.
pub open spec fn spec_scan_lines(
    lines: Seq<Seq<char>>,
    protocol: Protocol,
    filter_listen: bool,
) -> Result<Seq<RawEntryV>, Seq<char>>
    decreases lines.len(),
{
    if lines.len() == 0 {
        Ok(Seq::empty())
    } else {
        match spec_parse_line(lines[0], protocol, filter_listen) {
            Err(f) => Err(f),
            Ok(opt) => match spec_scan_lines(lines.drop_first(), protocol, filter_listen) {
                Err(f) => Err(f),
                Ok(rest) => Ok(
                    match opt {
                        Some(e) => seq![e] + rest,
                        None => rest,
                    },
                ),
            },
        }
    }
}

/// What scanning a whole table text yields: every line after the header,
/// split on line feeds, scanned in order.
pub open spec fn spec_parse_proc_net(
    content: Seq<char>,
    protocol: Protocol,
    filter_listen: bool,
) -> Result<Seq<RawEntryV>, Seq<char>> {
    spec_scan_lines(spec_split_on(content, '\n').drop_first(), protocol, filter_listen)
}

/// What scanning both tables yields: TCP entries (listening only), then UDP
/// entries, or the first error.
pub open spec fn spec_scan_all(tcp: Seq<char>, udp: Seq<char>) -> Result<
    Seq<RawEntryV>,
    Seq<char>,
> {
    match spec_parse_proc_net(tcp, Protocol::Tcp, true) {
        Err(f) => Err(f),
        Ok(t) => match spec_parse_proc_net(udp, Protocol::Udp, false) {
            Err(f) => Err(f),
            Ok(u) => Ok(t + u),
        },
    }
}

/// The entry's port lies in the inclusive range.
pub open spec fn in_range(e: RawEntryV, start: u16, end: u16) -> bool {
    start <= e.local_port <= end
}

/// The subsequence of entries whose port lies in the inclusive range.
pub open spec fn spec_filter_range(es: Seq<RawEntryV>, start: u16, end: u16) -> Seq<RawEntryV>
    decreases es.len(),
{
    if es.len() == 0 {
        Seq::empty()
    } else {
        let rest = spec_filter_range(es.drop_first(), start, end);
        if in_range(es[0], start, end) {
            seq![es[0]] + rest
        } else {
            rest
        }
    }
}

/// Every entry is well formed.
pub open spec fn all_wf(es: Seq<RawEntryV>) -> bool {
    forall|i: int| 0 <= i < es.len() ==> (#[trigger] es[i]).wf()
}

/// Law: a line with fewer than ten whitespace-separated fields never
/// produces an entry; a line whose port field decodes to zero is skipped
/// before its inode field is even looked at; and no produced entry carries
/// a zero port or a zero inode.
pub proof fn lemma_parse_line_gates(line: Seq<char>, protocol: Protocol, filter_listen: bool)
    ensures
        spec_split_ws(line).len() < 10 ==> spec_parse_line(line, protocol, filter_listen)
            == Ok::<Option<RawEntryV>, Seq<char>>(None),
        (spec_split_ws(line).len() >= 10 && (filter_listen ==> spec_split_ws(line)[3] == "0A"@)
            && (spec_parse_addr_port(spec_split_ws(line)[1]) matches Ok(ap) && ap.1 == 0))
            ==> spec_parse_line(line, protocol, filter_listen) == Ok::<
            Option<RawEntryV>,
            Seq<char>,
        >(None),
        spec_parse_line(line, protocol, filter_listen) matches Ok(Some(e)) ==> e.local_port > 0
            && e.inode > 0,
{
    let parts = spec_split_ws(line);
    if spec_parse_line(line, protocol, filter_listen) matches Ok(Some(e)) {
        crate::strutil::lemma_dec_val_nonneg(parts[9]);
    }
}

/// Every entry of a scan is well formed and carries the scanned protocol.
pub open spec fn entries_wf(es: Seq<RawEntryV>, protocol: Protocol) -> bool {
    forall|i: int|
        0 <= i < es.len() ==> (#[trigger] es[i]).wf() && es[i].protocol == protocol
}

impl PortScanner {
    /// Parses a single table line; `Ok(None)` is a skipped line.
    pub fn parse_line(line: &str, protocol: Protocol, filter_listen: bool) -> (r: Result<
        Option<RawSocketEntry>,
        ScanError,
    >)
        ensures
            ({
                let s = spec_parse_line(line@, protocol, filter_listen);
                match r {
                    Ok(None) => s == Ok::<Option<RawEntryV>, Seq<char>>(None),
                    Ok(Some(e)) => s == Ok::<Option<RawEntryV>, Seq<char>>(Some(e@)) && e@.wf()
                        && e.protocol == protocol,
                    Err(e) => e matches ScanError::ParseError(f) && s == Err::<
                        Option<RawEntryV>,
                        Seq<char>,
                    >(f@),
                }
            }),
    {
        let parts = split_ws(line);
        if parts.len() < 10 {
            return Ok(None);
        }
        proof {
            assert(parts.deep_view()[1] == parts@[1]@);
            assert(parts.deep_view()[3] == parts@[3]@);
            assert(parts.deep_view()[9] == parts@[9]@);
        }
        if filter_listen && !str_eq(parts[3], "0A") {
            return Ok(None);
        }
        let (address, port) = match Self::parse_address_port(parts[1]) {
            Ok(ap) => ap,
            Err(e) => {
                return Err(e);
            },
        };
        if port == 0 {
            return Ok(None);
        }
        let inode = match parse_dec_u64(parts[9]) {
            Some(v) => v,
            None => {
                return Err(ScanError::ParseError(String::from_str(parts[9])));
            },
        };
        if inode == 0 {
            return Ok(None);
        }
        Ok(Some(RawSocketEntry { local_address: address, local_port: port, inode, protocol }))
    }

    /// Scans both tables: TCP entries restricted to the listening state,
    /// then every bound UDP entry, in table order.
    pub fn scan_all(tcp_content: &str, udp_content: &str) -> (r: Result<
        Vec<RawSocketEntry>,
        ScanError,
    >)
        ensures
            ({
                let s = spec_scan_all(tcp_content@, udp_content@);
                match r {
                    Ok(es) => s == Ok::<Seq<RawEntryV>, Seq<char>>(es.deep_view()) && all_wf(
                        es.deep_view(),
                    ),
                    Err(e) => e matches ScanError::ParseError(f) && s == Err::<
                        Seq<RawEntryV>,
                        Seq<char>,
                    >(f@),
                }
            }),
    {
        let mut tcp = match Self::parse_proc_net(tcp_content, Protocol::Tcp, true) {
            Ok(es) => es,
            Err(e) => {
                return Err(e);
            },
        };
        let mut udp = match Self::parse_proc_net(udp_content, Protocol::Udp, false) {
            Ok(es) => es,
            Err(e) => {
                return Err(e);
            },
        };
        let ghost tv = tcp.deep_view();
        let ghost uv = udp.deep_view();
        tcp.append(&mut udp);
        proof {
            assert(tcp.deep_view() =~= tv + uv);
        }
        Ok(tcp)
    }

    /// Scans both tables and keeps only the entries whose port lies in the
    /// inclusive range `start..=end`.
    pub fn scan_range(start: u16, end: u16, tcp_content: &str, udp_content: &str) -> (r: Result<
        Vec<RawSocketEntry>,
        ScanError,
    >)
        ensures
            ({
                let s = spec_scan_all(tcp_content@, udp_content@);
                match r {
                    Ok(es) => (match s {
                        Ok(all) => es.deep_view() == spec_filter_range(all, start, end),
                        Err(_) => false,
                    }) && all_wf(es.deep_view()),
                    Err(e) => e matches ScanError::ParseError(f) && s == Err::<
                        Seq<RawEntryV>,
                        Seq<char>,
                    >(f@),
                }
            }),
    {
        let all = match Self::scan_all(tcp_content, udp_content) {
            Ok(es) => es,
            Err(e) => {
                return Err(e);
            },
        };
        let ghost av = all.deep_view();
        let mut out: Vec<RawSocketEntry> = Vec::new();
        let mut j: usize = 0;
        proof {
            assert(av.skip(0) =~= av);
            assert(out.deep_view() + spec_filter_range(av.skip(0), start, end) =~= spec_filter_range(
                av,
                start,
                end,
            ));
        }
        while j < all.len()
            invariant
                0 <= j <= all@.len(),
                av == all.deep_view(),
                av.len() == all@.len(),
                all_wf(av),
                out.deep_view() + spec_filter_range(av.skip(j as int), start, end)
                    == spec_filter_range(av, start, end),
                all_wf(out.deep_view()),
            decreases all@.len() - j,
        {
            let ghost u = av.skip(j as int);
            proof {
                assert(u[0] == av[j as int]);
                assert(u.drop_first() =~= av.skip(j + 1));
            }
            let e = &all[j];
            if start <= e.local_port && e.local_port <= end {
                let kept = RawSocketEntry {
                    local_address: e.local_address.clone(),
                    local_port: e.local_port,
                    inode: e.inode,
                    protocol: e.protocol,
                };
                let ghost pre = out.deep_view();
                proof {
                    assert(kept@ == av[j as int]);
                }
                out.push(kept);
                proof {
                    assert(out.deep_view() =~= pre.push(av[j as int]));
                    assert(pre.push(av[j as int]) + spec_filter_range(av.skip(j + 1), start, end)
                        =~= pre + (seq![av[j as int]] + spec_filter_range(
                        av.skip(j + 1),
                        start,
                        end,
                    )));
                }
            }
            j += 1;
        }
        proof {
            assert(av.skip(av.len() as int) =~= Seq::<RawEntryV>::empty());
            assert(out.deep_view() + Seq::<RawEntryV>::empty() =~= out.deep_view());
        }
        Ok(out)
    }

    /// Parses the full text of one socket table, skipping the header line.
    pub fn parse_proc_net(content: &str, protocol: Protocol, filter_listen: bool) -> (r: Result<
        Vec<RawSocketEntry>,
        ScanError,
    >)
        ensures
            ({
                let s = spec_parse_proc_net(content@, protocol, filter_listen);
                match r {
                    Ok(es) => s == Ok::<Seq<RawEntryV>, Seq<char>>(es.deep_view()) && entries_wf(
                        es.deep_view(),
                        protocol,
                    ),
                    Err(e) => e matches ScanError::ParseError(f) && s == Err::<
                        Seq<RawEntryV>,
                        Seq<char>,
                    >(f@),
                }
            }),
    {
        let segments = split_on(content, '\n');
        let ghost lines = spec_split_on(content@, '\n').drop_first();
        let mut out: Vec<RawSocketEntry> = Vec::new();
        let mut i: usize = 1;
        proof {
            assert(lines =~= segments.deep_view().skip(1));
            assert(out.deep_view() =~= Seq::<RawEntryV>::empty());
            assert(lines.skip(0) =~= lines);
        }
        while i < segments.len()
            invariant
                1 <= i <= segments@.len(),
                lines == spec_split_on(content@, '\n').drop_first(),
                lines == segments.deep_view().skip(1),
                segments@.len() == segments.deep_view().len(),
                entries_wf(out.deep_view(), protocol),
                spec_scan_lines(lines, protocol, filter_listen) == match spec_scan_lines(
                    lines.skip(i - 1),
                    protocol,
                    filter_listen,
                ) {
                    Err(f) => Err::<Seq<RawEntryV>, Seq<char>>(f),
                    Ok(rest) => Ok::<Seq<RawEntryV>, Seq<char>>(out.deep_view() + rest),
                },
            decreases segments@.len() - i,
        {
            let ghost u = lines.skip(i - 1);
            proof {
                assert(u.len() > 0);
                assert(u[0] == lines[i - 1]);
                assert(lines[i - 1] == segments.deep_view()[i as int]);
                assert(segments.deep_view()[i as int] == segments@[i as int]@);
                assert(u.drop_first() =~= lines.skip(i as int));
                let sl = spec_parse_line(u[0], protocol, filter_listen);
                assert(spec_scan_lines(u, protocol, filter_listen) == (match sl {
                    Err(f) => Err::<Seq<RawEntryV>, Seq<char>>(f),
                    Ok(opt) => match spec_scan_lines(u.drop_first(), protocol, filter_listen) {
                        Err(f) => Err::<Seq<RawEntryV>, Seq<char>>(f),
                        Ok(rest) => Ok::<Seq<RawEntryV>, Seq<char>>(
                            match opt {
                                Some(e2) => seq![e2] + rest,
                                None => rest,
                            },
                        ),
                    },
                }));
            }
            match Self::parse_line(segments[i], protocol, filter_listen) {
                Err(e) => {
                    return Err(e);
                },
                Ok(None) => {},
                Ok(Some(entry)) => {
                    let ghost pre = out.deep_view();
                    let ghost ev = entry@;
                    out.push(entry);
                    proof {
                        assert(out.deep_view() =~= pre.push(ev));
                        assert(forall|rest: Seq<RawEntryV>|
                            pre + (seq![ev] + rest) =~= #[trigger] (pre.push(ev) + rest));
                    }
                },
            }
            i += 1;
        }
        proof {
            assert(lines.skip(segments@.len() - 1) =~= Seq::<Seq<char>>::empty());
            assert(out.deep_view() + Seq::<RawEntryV>::empty() =~= out.deep_view());
        }
        Ok(out)
    }
}

} // verus!
