//! Character-level utilities: whitespace and digit classes, hexadecimal and
//! decimal string values, number formatting, and splitting.

use vstd::prelude::*;

verus! {

/// ASCII whitespace, the separators that occur in kernel table lines.
pub open spec fn spec_is_space(c: char) -> bool {
    c == ' ' || c == '\t' || c == '\n' || c == '\r' || c == '\u{b}' || c == '\u{c}'
}

/// Runtime test for [`spec_is_space`].
pub fn is_space(c: char) -> (r: bool)
    ensures
        r == spec_is_space(c),
{
    c == ' ' || c == '\t' || c == '\n' || c == '\r' || c == '\u{b}' || c == '\u{c}'
}

/// A decimal digit.
pub open spec fn is_dec_digit(c: char) -> bool {
    '0' <= c <= '9'
}

/// Value of a decimal digit.
pub open spec fn dec_digit_val(c: char) -> int {
    c as int - '0' as int
}

/// A hexadecimal digit, either case.
pub open spec fn is_hex_digit(c: char) -> bool {
    is_dec_digit(c) || ('A' <= c <= 'F') || ('a' <= c <= 'f')
}

/// Value of a hexadecimal digit.
pub open spec fn hex_digit_val(c: char) -> int {
    if is_dec_digit(c) {
        c as int - '0' as int
    } else if 'A' <= c <= 'F' {
        c as int - 'A' as int + 10
    } else {
        c as int - 'a' as int + 10
    }
}

/// Every character of `s` is a decimal digit.
pub open spec fn all_dec_digits(s: Seq<char>) -> bool {
    forall|i: int| 0 <= i < s.len() ==> is_dec_digit(#[trigger] s[i])
}

/// Every character of `s` is a hexadecimal digit.
pub open spec fn all_hex_digits(s: Seq<char>) -> bool {
    forall|i: int| 0 <= i < s.len() ==> is_hex_digit(#[trigger] s[i])
}

/// Value of a string of decimal digits, most significant first.
pub open spec fn dec_val(s: Seq<char>) -> int
    decreases s.len(),
{
    if s.len() == 0 {
        0
    } else {
        dec_val(s.drop_last()) * 10 + dec_digit_val(s.last())
    }
}

/// Value of a string of hexadecimal digits, most significant first.
pub open spec fn hex_val(s: Seq<char>) -> int
    decreases s.len(),
{
    if s.len() == 0 {
        0
    } else {
        hex_val(s.drop_last()) * 16 + hex_digit_val(s.last())
    }
}

/// The value of a digit string never goes down as more digits are read.
proof fn lemma_dec_val_grows(s: Seq<char>, i: int, j: int)
    requires
        all_dec_digits(s),
        0 <= i <= j <= s.len(),
    ensures
        0 <= dec_val(s.subrange(0, i)) <= dec_val(s.subrange(0, j)),
    decreases j - i,
{
    if i == j {
        lemma_dec_val_nonneg(s.subrange(0, i));
    } else {
        lemma_dec_val_grows(s, i, j - 1);
        let prev = s.subrange(0, j - 1);
        let cur = s.subrange(0, j);
        assert(cur.drop_last() =~= prev);
        assert(cur.last() == s[j - 1]);
    }
}

pub proof fn lemma_dec_val_nonneg(s: Seq<char>)
    requires
        all_dec_digits(s),
    ensures
        dec_val(s) >= 0,
    decreases s.len(),
{
    if s.len() > 0 {
        assert(all_dec_digits(s.drop_last())) by {
            assert(forall|i: int|
                0 <= i < s.len() - 1 ==> is_dec_digit(#[trigger] s.drop_last()[i]));
        }
        lemma_dec_val_nonneg(s.drop_last());
    }
}

/// Same growth property for hexadecimal strings.
proof fn lemma_hex_val_grows(s: Seq<char>, i: int, j: int)
    requires
        all_hex_digits(s),
        0 <= i <= j <= s.len(),
    ensures
        0 <= hex_val(s.subrange(0, i)) <= hex_val(s.subrange(0, j)),
    decreases j - i,
{
    if i == j {
        lemma_hex_val_nonneg(s.subrange(0, i));
    } else {
        lemma_hex_val_grows(s, i, j - 1);
        let prev = s.subrange(0, j - 1);
        let cur = s.subrange(0, j);
        assert(cur.drop_last() =~= prev);
        assert(cur.last() == s[j - 1]);
    }
}

proof fn lemma_hex_val_nonneg(s: Seq<char>)
    requires
        all_hex_digits(s),
    ensures
        hex_val(s) >= 0,
    decreases s.len(),
{
    if s.len() > 0 {
        assert(all_hex_digits(s.drop_last())) by {
            assert(forall|i: int|
                0 <= i < s.len() - 1 ==> is_hex_digit(#[trigger] s.drop_last()[i]));
        }
        lemma_hex_val_nonneg(s.drop_last());
    }
}

/// A nonempty string of hexadecimal digits whose value fits a `u16`.
pub open spec fn valid_hex_u16(s: Seq<char>) -> bool {
    s.len() > 0 && all_hex_digits(s) && hex_val(s) <= u16::MAX
}

/// Sixteen to the power `n`.
pub open spec fn pow16(n: nat) -> int
    decreases n,
{
    if n == 0 {
        1
    } else {
        16 * pow16((n - 1) as nat)
    }
}

/// The value of a hexadecimal string is bounded by sixteen to its length.
pub proof fn lemma_hex_val_bound(s: Seq<char>)
    requires
        all_hex_digits(s),
    ensures
        hex_val(s) < pow16(s.len()),
    decreases s.len(),
{
    if s.len() > 0 {
        assert(all_hex_digits(s.drop_last())) by {
            assert(forall|i: int|
                0 <= i < s.len() - 1 ==> is_hex_digit(#[trigger] s.drop_last()[i]));
        }
        lemma_hex_val_bound(s.drop_last());
        assert(hex_digit_val(s.last()) <= 15);
    }
}

/// A nonempty string of decimal digits whose value fits a `u64`.
pub open spec fn valid_dec_u64(s: Seq<char>) -> bool {
    s.len() > 0 && all_dec_digits(s) && dec_val(s) <= u64::MAX
}

/// Value of one hexadecimal digit character, or `None` if it is not one.
pub fn hex_digit(c: char) -> (r: Option<u8>)
    ensures
        match r {
            Some(d) => is_hex_digit(c) && d as int == hex_digit_val(c) && d < 16,
            None => !is_hex_digit(c),
        },
{
    if '0' <= c && c <= '9' {
        Some((c as u32 - '0' as u32) as u8)
    } else if 'A' <= c && c <= 'F' {
        Some((c as u32 - 'A' as u32 + 10) as u8)
    } else if 'a' <= c && c <= 'f' {
        Some((c as u32 - 'a' as u32 + 10) as u8)
    } else {
        None
    }
}

/// Value of one decimal digit character, or `None` if it is not one.
pub fn dec_digit(c: char) -> (r: Option<u8>)
    ensures
        match r {
            Some(d) => is_dec_digit(c) && d as int == dec_digit_val(c) && d < 10,
            None => !is_dec_digit(c),
        },
{
    if '0' <= c && c <= '9' {
        Some((c as u32 - '0' as u32) as u8)
    } else {
        None
    }
}

/// Parses a big-endian hexadecimal port number, rejecting the empty string,
/// non-digits, and values over the 16-bit port space.
pub fn parse_hex_u16(s: &str) -> (r: Option<u16>)
    ensures
        match r {
            Some(v) => valid_hex_u16(s@) && v as int == hex_val(s@),
            None => !valid_hex_u16(s@),
        },
{
    let n = s.unicode_len();
    if n == 0 {
        return None;
    }
    let mut acc: u32 = 0;
    let mut i: usize = 0;
    while i < n
        invariant
            0 < n == s@.len(),
            0 <= i <= n,
            acc <= u16::MAX,
            acc as int == hex_val(s@.subrange(0, i as int)),
            forall|k: int| 0 <= k < i ==> is_hex_digit(#[trigger] s@[k]),
        decreases n - i,
    {
        let c = s.get_char(i);
        match hex_digit(c) {
            None => {
                return None;
            },
            Some(d) => {
                let next = acc * 16 + d as u32;
                proof {
                    let cur = s@.subrange(0, i as int);
                    let ext = s@.subrange(0, i + 1);
                    assert(ext.drop_last() =~= cur);
                    assert(ext.last() == s@[i as int]);
                }
                if next > u16::MAX as u32 {
                    proof {
                        assert(forall|k: int| 0 <= k < i + 1 ==> is_hex_digit(#[trigger] s@[k]));
                        if all_hex_digits(s@) {
                            lemma_hex_val_grows(s@, i + 1, n as int);
                            assert(s@.subrange(0, n as int) =~= s@);
                        }
                    }
                    return None;
                }
                acc = next;
            },
        }
        i += 1;
    }
    proof {
        assert(s@.subrange(0, n as int) =~= s@);
    }
    Some(acc as u16)
}

/// Parses a decimal number, rejecting the empty string, non-digits, and
/// values that do not fit a `u64`.
pub fn parse_dec_u64(s: &str) -> (r: Option<u64>)
    ensures
        match r {
            Some(v) => valid_dec_u64(s@) && v as int == dec_val(s@),
            None => !valid_dec_u64(s@),
        },
{
    let n = s.unicode_len();
    if n == 0 {
        return None;
    }
    let mut acc: u64 = 0;
    let mut i: usize = 0;
    while i < n
        invariant
            0 < n == s@.len(),
            0 <= i <= n,
            acc as int == dec_val(s@.subrange(0, i as int)),
            forall|k: int| 0 <= k < i ==> is_dec_digit(#[trigger] s@[k]),
        decreases n - i,
    {
        let c = s.get_char(i);
        match dec_digit(c) {
            None => {
                return None;
            },
            Some(d) => {
                proof {
                    let cur = s@.subrange(0, i as int);
                    let ext = s@.subrange(0, i + 1);
                    assert(ext.drop_last() =~= cur);
                    assert(ext.last() == s@[i as int]);
                }
                let overflow: bool = match acc.checked_mul(10) {
                    Some(m) => match m.checked_add(d as u64) {
                        Some(next) => {
                            acc = next;
                            false
                        },
                        None => true,
                    },
                    None => true,
                };
                if overflow {
                    proof {
                        assert(forall|k: int| 0 <= k < i + 1 ==> is_dec_digit(#[trigger] s@[k]));
                        if all_dec_digits(s@) {
                            lemma_dec_val_grows(s@, i + 1, n as int);
                            assert(s@.subrange(0, n as int) =~= s@);
                        }
                    }
                    return None;
                }
            },
        }
        i += 1;
    }
    proof {
        assert(s@.subrange(0, n as int) =~= s@);
    }
    Some(acc)
}

/// The character for one digit value.
pub open spec fn spec_digit_char(d: int) -> char {
    if d == 0 {
        '0'
    } else if d == 1 {
        '1'
    } else if d == 2 {
        '2'
    } else if d == 3 {
        '3'
    } else if d == 4 {
        '4'
    } else if d == 5 {
        '5'
    } else if d == 6 {
        '6'
    } else if d == 7 {
        '7'
    } else if d == 8 {
        '8'
    } else {
        '9'
    }
}

/// Canonical decimal rendering of a number, no leading zeroes.
pub open spec fn spec_dec(n: nat) -> Seq<char>
    decreases n,
{
    if n < 10 {
        seq![spec_digit_char(n as int)]
    } else {
        spec_dec(n / 10).push(spec_digit_char((n % 10) as int))
    }
}

/// One digit value as a string.
pub fn digit_str(d: u8) -> (r: &'static str)
    requires
        d < 10,
    ensures
        r@ == seq![spec_digit_char(d as int)],
{
    proof {
        reveal_strlit("0");
        reveal_strlit("1");
        reveal_strlit("2");
        reveal_strlit("3");
        reveal_strlit("4");
        reveal_strlit("5");
        reveal_strlit("6");
        reveal_strlit("7");
        reveal_strlit("8");
        reveal_strlit("9");
    }
    let r = match d {
        0 => "0",
        1 => "1",
        2 => "2",
        3 => "3",
        4 => "4",
        5 => "5",
        6 => "6",
        7 => "7",
        _ => "9",
    };
    let r = if d == 8 { "8" } else { r };
    proof {
        assert(r@ =~= seq![spec_digit_char(d as int)]);
    }
    r
}

/// Renders a number in decimal.
pub fn u64_to_string(n: u64) -> (r: String)
    ensures
        r@ == spec_dec(n as nat),
{
    if n == 0 {
        proof {
            reveal_strlit("0");
            assert("0"@ =~= spec_dec(0));
        }
        return String::from_str("0");
    }
    let mut digits: Vec<u8> = Vec::new();
    let mut m: u64 = n;
    proof {
        assert(digit_chars_rev(digits@) =~= Seq::<char>::empty());
        assert(spec_dec(m as nat) + digit_chars_rev(digits@) =~= spec_dec(n as nat));
    }
    while m > 0
        invariant
            forall|k: int| 0 <= k < digits@.len() ==> #[trigger] digits@[k] < 10,
            m > 0 ==> spec_dec(n as nat) == spec_dec(m as nat) + digit_chars_rev(digits@),
            m == 0 ==> spec_dec(n as nat) == digit_chars_rev(digits@),
        decreases m,
    {
        let d = (m % 10) as u8;
        let next = m / 10;
        proof {
            let ds = digits@;
            let ds2 = digits@.push(d);
            assert(digit_chars_rev(ds2) =~= seq![spec_digit_char(d as int)] + digit_chars_rev(
                ds,
            )) by {
                lemma_digit_chars_rev_push(ds, d);
            }
            if next > 0 {
                assert(spec_dec(m as nat) == spec_dec(next as nat).push(
                    spec_digit_char(d as int),
                ));
                assert(spec_dec(next as nat).push(spec_digit_char(d as int)) + digit_chars_rev(
                    ds,
                ) =~= spec_dec(next as nat) + digit_chars_rev(ds2));
            } else {
                assert(spec_dec(m as nat) == seq![spec_digit_char(d as int)]);
                assert(seq![spec_digit_char(d as int)] + digit_chars_rev(ds) =~= digit_chars_rev(
                    ds2,
                ));
            }
        }
        digits.push(d);
        m = next;
    }
    let mut out = String::new();
    let mut j: usize = digits.len();
    proof {
        assert(digits@.subrange(0, j as int) =~= digits@);
        assert(out@ + digit_chars_rev(digits@.subrange(0, j as int)) =~= spec_dec(n as nat));
    }
    while j > 0
        invariant
            j <= digits@.len(),
            forall|k: int| 0 <= k < digits@.len() ==> #[trigger] digits@[k] < 10,
            out@ + digit_chars_rev(digits@.subrange(0, j as int)) == spec_dec(n as nat),
        decreases j,
    {
        let d = digits[j - 1];
        out.append(digit_str(d));
        j -= 1;
        proof {
            let whole = digits@.subrange(0, j + 1);
            let rest = digits@.subrange(0, j as int);
            assert(whole.drop_last() =~= rest);
            assert(digit_chars_rev(whole) =~= seq![spec_digit_char(whole.last() as int)]
                + digit_chars_rev(rest));
            assert(out@ + digit_chars_rev(rest) =~= spec_dec(n as nat));
        }
    }
    proof {
        assert(digit_chars_rev(digits@.subrange(0, 0)) =~= Seq::<char>::empty());
        assert(out@ =~= spec_dec(n as nat));
    }
    out
}

/// Characters of digit values read from the last to the first.
pub open spec fn digit_chars_rev(ds: Seq<u8>) -> Seq<char>
    decreases ds.len(),
{
    if ds.len() == 0 {
        Seq::empty()
    } else {
        seq![spec_digit_char(ds.last() as int)] + digit_chars_rev(ds.drop_last())
    }
}

proof fn lemma_digit_chars_rev_push(ds: Seq<u8>, d: u8)
    ensures
        digit_chars_rev(ds.push(d)) =~= seq![spec_digit_char(d as int)] + digit_chars_rev(ds),
{
    let ds2 = ds.push(d);
    assert(ds2.last() == d);
    assert(ds2.drop_last() =~= ds);
}

/// Length of the maximal non-whitespace prefix of `s`.
pub open spec fn token_len(s: Seq<char>) -> nat
    decreases s.len(),
{
    if s.len() == 0 || spec_is_space(s[0]) {
        0
    } else {
        (1 + token_len(s.drop_first())) as nat
    }
}

/// A token never runs past the end of the string.
pub proof fn lemma_token_len_le(s: Seq<char>)
    ensures
        token_len(s) <= s.len(),
    decreases s.len(),
{
    if s.len() > 0 && !spec_is_space(s[0]) {
        lemma_token_len_le(s.drop_first());
    }
}

/// The whitespace-separated tokens of `s`, in order; runs of whitespace
/// collapse and yield no empty tokens.
pub open spec fn spec_split_ws(s: Seq<char>) -> Seq<Seq<char>>
    decreases s.len(),
    via spec_split_ws_dec
{
    if s.len() == 0 {
        Seq::empty()
    } else if spec_is_space(s[0]) {
        spec_split_ws(s.drop_first())
    } else {
        seq![s.take(token_len(s) as int)] + spec_split_ws(s.skip(token_len(s) as int))
    }
}

#[via_fn]
proof fn spec_split_ws_dec(s: Seq<char>) {
    if s.len() > 0 && !spec_is_space(s[0]) {
        lemma_token_len_le(s);
    }
}

/// If the characters of `s` up to `t` are non-whitespace and `t` is the end
/// or a whitespace position, then `t` is exactly the token length.
proof fn lemma_token_len_exact(s: Seq<char>, t: int)
    requires
        0 <= t <= s.len(),
        forall|k: int| 0 <= k < t ==> !spec_is_space(#[trigger] s[k]),
        t == s.len() || spec_is_space(s[t]),
    ensures
        token_len(s) == t,
    decreases t,
{
    if t == 0 {
    } else {
        let r = s.drop_first();
        assert(forall|k: int| 0 <= k < t - 1 ==> !spec_is_space(#[trigger] r[k]));
        lemma_token_len_exact(r, t - 1);
    }
}

/// Splits on whitespace, dropping all separators.
pub fn split_ws<'a>(s: &'a str) -> (r: Vec<&'a str>)
    ensures
        r.deep_view() == spec_split_ws(s@),
{
    let n = s.unicode_len();
    let mut out: Vec<&'a str> = Vec::new();
    let mut i: usize = 0;
    proof {
        assert(out.deep_view() + spec_split_ws(s@.skip(0)) =~= spec_split_ws(s@)) by {
            assert(s@.skip(0) =~= s@);
        }
    }
    while i < n
        invariant
            n == s@.len(),
            0 <= i <= n,
            out.deep_view() + spec_split_ws(s@.skip(i as int)) == spec_split_ws(s@),
        decreases n - i,
    {
        let c = s.get_char(i);
        if is_space(c) {
            proof {
                let u = s@.skip(i as int);
                assert(u[0] == s@[i as int]);
                assert(u.drop_first() =~= s@.skip(i + 1));
            }
            i += 1;
        } else {
            let start = i;
            i += 1;
            while i < n
                invariant
                    n == s@.len(),
                    start < i <= n,
                    forall|k: int| start <= k < i ==> !spec_is_space(#[trigger] s@[k]),
                ensures
                    start < i <= n,
                    forall|k: int| start <= k < i ==> !spec_is_space(#[trigger] s@[k]),
                    i == n || spec_is_space(s@[i as int]),
                decreases n - i,
            {
                if is_space(s.get_char(i)) {
                    break;
                }
                i += 1;
            }
            let tok = s.substring_char(start, i);
            proof {
                let u = s@.skip(start as int);
                assert(forall|k: int|
                    0 <= k < i - start ==> !spec_is_space(#[trigger] u[k]) && u[k] == s@[k
                        + start]);
                if i < n {
                    assert(spec_is_space(u[i - start]));
                }
                lemma_token_len_exact(u, i - start);
                assert(u.take(i - start) =~= s@.subrange(start as int, i as int));
                assert(u.skip(i - start) =~= s@.skip(i as int));
                assert(spec_split_ws(u) == seq![tok@] + spec_split_ws(s@.skip(i as int)));
                assert(out.deep_view().push(tok@) + spec_split_ws(s@.skip(i as int))
                    =~= out.deep_view() + spec_split_ws(u));
            }
            let ghost pre = out.deep_view();
            out.push(tok);
            proof {
                assert(out.deep_view() =~= pre.push(tok@));
            }
        }
    }
    proof {
        assert(spec_split_ws(s@.skip(n as int)) =~= Seq::<Seq<char>>::empty()) by {
            assert(s@.skip(n as int).len() == 0);
        }
        assert(out.deep_view() =~= spec_split_ws(s@));
    }
    out
}

/// Length of the prefix of `s` before the first occurrence of `sep`.
pub open spec fn seg_len(s: Seq<char>, sep: char) -> nat
    decreases s.len(),
{
    if s.len() == 0 || s[0] == sep {
        0
    } else {
        (1 + seg_len(s.drop_first(), sep)) as nat
    }
}

/// A segment never runs past the end of the string.
pub proof fn lemma_seg_len_le(s: Seq<char>, sep: char)
    ensures
        seg_len(s, sep) <= s.len(),
    decreases s.len(),
{
    if s.len() > 0 && s[0] != sep {
        lemma_seg_len_le(s.drop_first(), sep);
    }
}

/// The segments of `s` between occurrences of `sep`, in order; empty
/// segments are kept, so the result always has one segment more than `s`
/// has separators.
pub open spec fn spec_split_on(s: Seq<char>, sep: char) -> Seq<Seq<char>>
    decreases s.len(),
    via spec_split_on_dec
{
    let l = seg_len(s, sep);
    if l == s.len() {
        seq![s]
    } else {
        seq![s.take(l as int)] + spec_split_on(s.skip(l as int + 1), sep)
    }
}

#[via_fn]
proof fn spec_split_on_dec(s: Seq<char>, sep: char) {
    lemma_seg_len_le(s, sep);
}

/// If the characters of `s` up to `t` differ from `sep` and `t` is the end
/// or a separator position, then `t` is exactly the segment length.
proof fn lemma_seg_len_exact(s: Seq<char>, sep: char, t: int)
    requires
        0 <= t <= s.len(),
        forall|k: int| 0 <= k < t ==> (#[trigger] s[k]) != sep,
        t == s.len() || s[t] == sep,
    ensures
        seg_len(s, sep) == t,
    decreases t,
{
    if t > 0 {
        let r = s.drop_first();
        assert(forall|k: int| 0 <= k < t - 1 ==> (#[trigger] r[k]) != sep);
        lemma_seg_len_exact(r, sep, t - 1);
    }
}

/// Splits on a separator character, keeping empty segments.
pub fn split_on<'a>(s: &'a str, sep: char) -> (r: Vec<&'a str>)
    ensures
        r.deep_view() == spec_split_on(s@, sep),
        r@.len() > 0,
{
    let n = s.unicode_len();
    let mut out: Vec<&'a str> = Vec::new();
    let mut start: usize = 0;
    let mut i: usize = 0;
    proof {
        assert(out.deep_view() + spec_split_on(s@.skip(0), sep) =~= spec_split_on(s@, sep)) by {
            assert(s@.skip(0) =~= s@);
        }
    }
    while i < n
        invariant
            n == s@.len(),
            0 <= start <= i <= n,
            out.deep_view() + spec_split_on(s@.skip(start as int), sep) == spec_split_on(s@, sep),
            forall|k: int| start <= k < i ==> (#[trigger] s@[k]) != sep,
        decreases n - i,
    {
        let c = s.get_char(i);
        if c == sep {
            let piece = s.substring_char(start, i);
            proof {
                let u = s@.skip(start as int);
                assert(forall|k: int|
                    0 <= k < i - start ==> (#[trigger] u[k]) == s@[k + start] && u[k] != sep);
                assert(u[i - start] == sep);
                lemma_seg_len_exact(u, sep, i - start);
                assert(u.take(i - start) =~= s@.subrange(start as int, i as int));
                assert(u.skip(i - start + 1) =~= s@.skip(i + 1));
                assert(spec_split_on(u, sep) == seq![piece@] + spec_split_on(s@.skip(i + 1), sep));
                assert(out.deep_view().push(piece@) + spec_split_on(s@.skip(i + 1), sep)
                    =~= out.deep_view() + spec_split_on(u, sep));
            }
            let ghost pre = out.deep_view();
            out.push(piece);
            proof {
                assert(out.deep_view() =~= pre.push(piece@));
            }
            start = i + 1;
        }
        i += 1;
    }
    let last = s.substring_char(start, n);
    proof {
        let u = s@.skip(start as int);
        assert(forall|k: int|
            0 <= k < u.len() ==> (#[trigger] u[k]) == s@[k + start] && u[k] != sep);
        lemma_seg_len_exact(u, sep, u.len() as int);
        assert(u.take(u.len() as int) =~= u);
        assert(u =~= s@.subrange(start as int, n as int));
        assert(spec_split_on(u, sep) == seq![last@]);
        let ghost pre = out.deep_view();
        assert(pre.push(last@) =~= pre + seq![last@]);
    }
    let ghost pre = out.deep_view();
    out.push(last);
    proof {
        assert(out.deep_view() =~= pre.push(last@));
        assert(out.deep_view() =~= spec_split_on(s@, sep));
    }
    out
}

/// Character-for-character string equality.
pub fn str_eq(a: &str, b: &str) -> (r: bool)
    ensures
        r == (a@ == b@),
{
    let na = a.unicode_len();
    let nb = b.unicode_len();
    if na != nb {
        return false;
    }
    let mut i: usize = 0;
    while i < na
        invariant
            na == a@.len() == b@.len(),
            0 <= i <= na,
            forall|k: int| 0 <= k < i ==> a@[k] == b@[k],
        decreases na - i,
    {
        if a.get_char(i) != b.get_char(i) {
            return false;
        }
        i += 1;
    }
    proof {
        assert(a@ =~= b@);
    }
    true
}

/// `s` without its leading whitespace.
pub open spec fn ltrim(s: Seq<char>) -> Seq<char>
    decreases s.len(),
{
    if s.len() > 0 && spec_is_space(s[0]) {
        ltrim(s.drop_first())
    } else {
        s
    }
}

/// `s` without its trailing whitespace.
pub open spec fn rtrim(s: Seq<char>) -> Seq<char>
    decreases s.len(),
{
    if s.len() > 0 && spec_is_space(s.last()) {
        rtrim(s.drop_last())
    } else {
        s
    }
}

/// `s` without leading and trailing whitespace.
pub open spec fn spec_trim(s: Seq<char>) -> Seq<char> {
    rtrim(ltrim(s))
}

proof fn lemma_ltrim_skip(s: Seq<char>, t: int)
    requires
        0 <= t <= s.len(),
        forall|k: int| 0 <= k < t ==> spec_is_space(#[trigger] s[k]),
        t == s.len() || !spec_is_space(s[t]),
    ensures
        ltrim(s) =~= s.skip(t),
    decreases t,
{
    if t == 0 {
        assert(s.skip(0) =~= s);
    } else {
        let r = s.drop_first();
        assert(forall|k: int| 0 <= k < t - 1 ==> spec_is_space(#[trigger] r[k]));
        lemma_ltrim_skip(r, t - 1);
        assert(r.skip(t - 1) =~= s.skip(t));
    }
}

proof fn lemma_rtrim_take(s: Seq<char>, t: int)
    requires
        0 <= t <= s.len(),
        forall|k: int| t <= k < s.len() ==> spec_is_space(#[trigger] s[k]),
        t == 0 || !spec_is_space(s[t - 1]),
    ensures
        rtrim(s) =~= s.take(t),
    decreases s.len(),
{
    if s.len() > t {
        let r = s.drop_last();
        assert(forall|k: int| t <= k < r.len() ==> spec_is_space(#[trigger] r[k]));
        lemma_rtrim_take(r, t);
        assert(r.take(t) =~= s.take(t));
    } else {
        assert(s.take(t) =~= s);
    }
}

/// Strips leading and trailing whitespace.
pub fn trim<'a>(s: &'a str) -> (r: &'a str)
    ensures
        r@ == spec_trim(s@),
{
    let n = s.unicode_len();
    let mut lo: usize = 0;
    while lo < n
        invariant
            n == s@.len(),
            0 <= lo <= n,
            forall|k: int| 0 <= k < lo ==> spec_is_space(#[trigger] s@[k]),
        ensures
            0 <= lo <= n,
            forall|k: int| 0 <= k < lo ==> spec_is_space(#[trigger] s@[k]),
            lo == n || !spec_is_space(s@[lo as int]),
        decreases n - lo,
    {
        if !is_space(s.get_char(lo)) {
            break;
        }
        lo += 1;
    }
    let mut hi: usize = n;
    while hi > lo
        invariant
            n == s@.len(),
            lo <= hi <= n,
            forall|k: int| hi <= k < n ==> spec_is_space(#[trigger] s@[k]),
        ensures
            lo <= hi <= n,
            forall|k: int| hi <= k < n ==> spec_is_space(#[trigger] s@[k]),
            hi == lo || !spec_is_space(s@[hi - 1]),
        decreases hi,
    {
        if !is_space(s.get_char(hi - 1)) {
            break;
        }
        hi -= 1;
    }
    let r = s.substring_char(lo, hi);
    proof {
        lemma_ltrim_skip(s@, lo as int);
        let u = s@.skip(lo as int);
        assert(forall|k: int|
            hi - lo <= k < u.len() ==> (#[trigger] u[k]) == s@[k + lo] && spec_is_space(u[k]));
        if hi > lo {
            assert(u[hi - lo - 1] == s@[hi - 1]);
        }
        lemma_rtrim_take(u, hi - lo);
        assert(u.take(hi - lo) =~= s@.subrange(lo as int, hi as int));
    }
    r
}

} // verus!
