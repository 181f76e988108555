//! Turning a raw user-typed target into an address.
//!
//! Cleaning first strips a leading `http://` or `https://` scheme (checked in
//! that order, first match wins) and then trims surrounding whitespace. If the
//! cleaned text is an IP literal (v4 or v6) it is recognised right here, with
//! no lookup of any kind; only a cleaned non-literal target is handed outward
//! for a DNS query. The literal grammar below follows the standard textual
//! forms: dotted-quad v4 with decimal octets of up to three digits and no
//! leading zeros, and v6 as colon-separated groups of up to four hex digits,
//! at most one `::` gap, and an optional embedded v4 tail.

use vstd::prelude::*;
use vstd::string::StrSliceExecFns;

verus! {

/// A resolved network address, as plain values.
#[derive(Debug, Clone, Copy, PartialEq, Eq, Structural)]
pub enum IpAddress {
    /// The four octets of a v4 address, in text order.
    V4(u8, u8, u8, u8),
    /// The eight 16-bit groups of a v6 address, in text order.
    V6(u16, u16, u16, u16, u16, u16, u16, u16),
}

/// A decimal digit.
pub open spec fn is_dec(c: char) -> bool {
    48 <= c as u32 && c as u32 <= 57
}

/// A hexadecimal digit, either case.
pub open spec fn is_hex(c: char) -> bool {
    ||| is_dec(c)
    ||| 97 <= c as u32 && c as u32 <= 102
    ||| 65 <= c as u32 && c as u32 <= 70
}

/// The value of one decimal digit.
pub open spec fn dec_val(c: char) -> int {
    c as u32 - 48
}

/// The value of one hexadecimal digit.
pub open spec fn hex_val(c: char) -> int {
    if is_dec(c) {
        c as u32 - 48
    } else if 97 <= c as u32 {
        c as u32 - 97 + 10
    } else {
        c as u32 - 65 + 10
    }
}

/// The first position at or after `i` that does not hold a decimal digit
/// (or the end of the text).
pub open spec fn dec_end(s: Seq<char>, i: int) -> int
    decreases s.len() - i,
{
    if i < 0 || i >= s.len() {
        i
    } else if is_dec(s[i]) {
        dec_end(s, i + 1)
    } else {
        i
    }
}

/// The first position at or after `i` that does not hold a hex digit
/// (or the end of the text).
pub open spec fn hex_end(s: Seq<char>, i: int) -> int
    decreases s.len() - i,
{
    if i < 0 || i >= s.len() {
        i
    } else if is_hex(s[i]) {
        hex_end(s, i + 1)
    } else {
        i
    }
}

/// The value of the decimal digits `s[i..j]`.
pub open spec fn dec_value(s: Seq<char>, i: int, j: int) -> int
    decreases j - i,
{
    if j <= i {
        0
    } else {
        dec_value(s, i, j - 1) * 10 + dec_val(s[j - 1])
    }
}

/// The value of the hex digits `s[i..j]`.
pub open spec fn hex_value(s: Seq<char>, i: int, j: int) -> int
    decreases j - i,
{
    if j <= i {
        0
    } else {
        hex_value(s, i, j - 1) * 16 + hex_val(s[j - 1])
    }
}

/// Scanning digits stays between `i` and the end of the text.
pub proof fn lemma_dec_end_bounds(s: Seq<char>, i: int)
    requires
        0 <= i <= s.len(),
    ensures
        i <= dec_end(s, i) <= s.len(),
    decreases s.len() - i,
{
    if i < s.len() && is_dec(s[i]) {
        lemma_dec_end_bounds(s, i + 1);
    }
}

/// Everything before the end of a digit scan is a digit.
pub proof fn lemma_dec_end_digits(s: Seq<char>, i: int)
    requires
        0 <= i <= s.len(),
    ensures
        forall|k: int| i <= k < dec_end(s, i) ==> is_dec(#[trigger] s[k]),
    decreases s.len() - i,
{
    if i < s.len() && is_dec(s[i]) {
        lemma_dec_end_digits(s, i + 1);
    }
}

/// Everything before the end of a hex-digit scan is a hex digit.
pub proof fn lemma_hex_end_digits(s: Seq<char>, i: int)
    requires
        0 <= i <= s.len(),
    ensures
        forall|k: int| i <= k < hex_end(s, i) ==> is_hex(#[trigger] s[k]),
    decreases s.len() - i,
{
    if i < s.len() && is_hex(s[i]) {
        lemma_hex_end_digits(s, i + 1);
    }
}

/// A decimal octet read at position `i`: its value and its end position.
/// The token is all consecutive decimal digits from `i`; it is an octet only
/// if it has one to three digits, no leading zero, and a value up to 255.
pub open spec fn spec_octet_at(s: Seq<char>, i: int) -> Option<(int, int)> {
    let j = dec_end(s, i);
    if i < j && j - i <= 3 && (s[i] == '0' ==> j == i + 1) && dec_value(s, i, j) <= 255 {
        Option::Some((dec_value(s, i, j), j))
    } else {
        Option::None
    }
}

/// A dotted-quad v4 literal read at position `i`: four octets separated by
/// single dots, with the end position of the whole literal.
pub open spec fn spec_ipv4_at(s: Seq<char>, i: int) -> Option<((int, int, int, int), int)> {
    match spec_octet_at(s, i) {
        Option::None => Option::None,
        Option::Some((a, i1)) => if i1 < s.len() && s[i1] == '.' {
            match spec_octet_at(s, i1 + 1) {
                Option::None => Option::None,
                Option::Some((b, i2)) => if i2 < s.len() && s[i2] == '.' {
                    match spec_octet_at(s, i2 + 1) {
                        Option::None => Option::None,
                        Option::Some((c, i3)) => if i3 < s.len() && s[i3] == '.' {
                            match spec_octet_at(s, i3 + 1) {
                                Option::None => Option::None,
                                Option::Some((d, i4)) => Option::Some(((a, b, c, d), i4)),
                            }
                        } else {
                            Option::None
                        },
                    }
                } else {
                    Option::None
                },
            }
        } else {
            Option::None
        },
    }
}

/// A whole v4 literal: a dotted quad that covers the entire text.
pub open spec fn spec_parse_ipv4(s: Seq<char>) -> Option<IpAddress> {
    match spec_ipv4_at(s, 0) {
        Option::None => Option::None,
        Option::Some(((a, b, c, d), end)) => if end == s.len() {
            Option::Some(IpAddress::V4(a as u8, b as u8, c as u8, d as u8))
        } else {
            Option::None
        },
    }
}

/// Whether `c` is a decimal digit.
fn is_dec_exec(c: char) -> (b: bool)
    ensures
        b == is_dec(c),
{
    48 <= c as u32 && c as u32 <= 57
}

/// Whether `c` is a hex digit.
fn is_hex_exec(c: char) -> (b: bool)
    ensures
        b == is_hex(c),
{
    (48 <= c as u32 && c as u32 <= 57) || (97 <= c as u32 && c as u32 <= 102) || (65 <= c as u32
        && c as u32 <= 70)
}

/// A hex group read at position `i`: its value and its end position. The
/// token is all consecutive hex digits from `i`; it is a group only if it has
/// one to four digits. Leading zeros are allowed.
pub open spec fn spec_group_at(s: Seq<char>, i: int) -> Option<(int, int)> {
    let j = hex_end(s, i);
    if i < j && j - i <= 4 {
        Option::Some((hex_value(s, i, j), j))
    } else {
        Option::None
    }
}

/// Reads colon-separated pieces of a v6 literal from position `i`, filling at
/// most `limit - index` of the remaining group slots, exactly as the standard
/// textual form allows: every piece but the first is preceded by one `:`; a
/// piece is normally a hex group, but while at least two slots remain an
/// embedded v4 literal may stand instead, fills two slots, and ends the run.
/// Yields the group values, the position after the last piece read, and
/// whether the run ended in an embedded v4 literal.
pub open spec fn spec_read_groups(s: Seq<char>, i: int, index: int, limit: int) -> (Seq<u16>, int, bool)
    decreases limit - index,
{
    if index >= limit {
        (Seq::<u16>::empty(), i, false)
    } else {
        let p = if index == 0 {
            i
        } else {
            i + 1
        };
        let sep_ok = index == 0 || (0 <= i < s.len() && s[i] == ':');
        let v4_try = if index < limit - 1 {
            spec_ipv4_at(s, p)
        } else {
            Option::None
        };
        if !sep_ok {
            (Seq::<u16>::empty(), i, false)
        } else {
            match v4_try {
                Option::Some(((a, b, c, d), end)) => (
                    seq![(a * 256 + b) as u16, (c * 256 + d) as u16],
                    end,
                    true,
                ),
                Option::None => match spec_group_at(s, p) {
                    Option::None => (Seq::<u16>::empty(), i, false),
                    Option::Some((g, end)) => {
                        let rest = spec_read_groups(s, end, index + 1, limit);
                        (seq![g as u16] + rest.0, rest.1, rest.2)
                    },
                },
            }
        }
    }
}

/// A run of pieces never fills more than the remaining slots.
pub proof fn lemma_read_groups_len(s: Seq<char>, i: int, index: int, limit: int)
    requires
        0 <= index <= limit,
    ensures
        spec_read_groups(s, i, index, limit).0.len() <= limit - index,
    decreases limit - index,
{
    if index < limit {
        let p = if index == 0 {
            i
        } else {
            i + 1
        };
        let v4_try = if index < limit - 1 {
            spec_ipv4_at(s, p)
        } else {
            Option::<((int, int, int, int), int)>::None
        };
        if v4_try is None {
            match spec_group_at(s, p) {
                Option::None => {},
                Option::Some((g, end)) => {
                    lemma_read_groups_len(s, end, index + 1, limit);
                },
            }
        }
    }
}

/// The v6 address with these eight groups, in text order.
pub open spec fn v6_of(g: Seq<u16>) -> IpAddress
    recommends
        g.len() == 8,
{
    IpAddress::V6(g[0], g[1], g[2], g[3], g[4], g[5], g[6], g[7])
}

/// `n` group slots filled with zero, as a `::` gap leaves them.
pub open spec fn zero_groups(n: int) -> Seq<u16> {
    Seq::new(n as nat, |k: int| 0u16)
}

/// A whole v6 literal: either eight pieces cover the entire text, or fewer
/// pieces are followed by one `::` gap and a tail run, the gap standing for
/// the group slots that neither run fills, all zero. An embedded v4 literal
/// may only end the address, so a front run that ends in one admits no gap.
pub open spec fn spec_parse_ipv6(s: Seq<char>) -> Option<IpAddress> {
    let head = spec_read_groups(s, 0, 0, 8);
    if head.0.len() == 8 {
        if head.1 == s.len() {
            Option::Some(v6_of(head.0))
        } else {
            Option::None
        }
    } else if head.2 {
        Option::None
    } else if head.1 < s.len() && s[head.1] == ':' && head.1 + 1 < s.len() && s[head.1 + 1]
        == ':' {
        let tail = spec_read_groups(s, head.1 + 2, 0, 8 - head.0.len() - 1);
        if tail.1 == s.len() {
            Option::Some(v6_of(head.0 + zero_groups(8 - head.0.len() - tail.0.len()) + tail.0))
        } else {
            Option::None
        }
    } else {
        Option::None
    }
}

/// What the cleaned target denotes as an IP literal, if anything: the v4
/// reading where there is one, else the v6 reading.
pub open spec fn spec_parse_ip(s: Seq<char>) -> Option<IpAddress> {
    if spec_parse_ipv4(s) is Some {
        spec_parse_ipv4(s)
    } else {
        spec_parse_ipv6(s)
    }
}

/// Reads consecutive decimal digits starting at `i`.
fn dec_end_exec(s: &Vec<char>, i: usize) -> (j: usize)
    requires
        i <= s@.len(),
    ensures
        j == dec_end(s@, i as int),
        i <= j <= s@.len(),
{
    let mut j = i;
    while j < s.len() && is_dec_exec(s[j])
        invariant
            i <= j <= s@.len(),
            dec_end(s@, i as int) == dec_end(s@, j as int),
        decreases s@.len() - j,
    {
        assert(dec_end(s@, j as int) == dec_end(s@, j + 1));
        j = j + 1;
    }
    proof {
        assert(dec_end(s@, j as int) == j);
    }
    j
}

/// Reads consecutive hex digits starting at `i`.
fn hex_end_exec(s: &Vec<char>, i: usize) -> (j: usize)
    requires
        i <= s@.len(),
    ensures
        j == hex_end(s@, i as int),
        i <= j <= s@.len(),
{
    let mut j = i;
    while j < s.len() && is_hex_exec(s[j])
        invariant
            i <= j <= s@.len(),
            hex_end(s@, i as int) == hex_end(s@, j as int),
        decreases s@.len() - j,
    {
        assert(hex_end(s@, j as int) == hex_end(s@, j + 1));
        j = j + 1;
    }
    proof {
        assert(hex_end(s@, j as int) == j);
    }
    j
}

/// The value of one decimal digit character.
fn dec_val_exec(c: char) -> (v: u32)
    requires
        is_dec(c),
    ensures
        v == dec_val(c),
        v <= 9,
{
    c as u32 - 48
}

/// The value of one hex digit character.
fn hex_val_exec(c: char) -> (v: u32)
    requires
        is_hex(c),
    ensures
        v == hex_val(c),
        v <= 15,
{
    let u = c as u32;
    if 48 <= u && u <= 57 {
        u - 48
    } else if 97 <= u {
        u - 97 + 10
    } else {
        u - 65 + 10
    }
}

/// Reads a decimal octet at `i`, if one stands there.
fn octet_at_exec(s: &Vec<char>, i: usize) -> (r: Option<(u8, usize)>)
    requires
        i <= s@.len(),
    ensures
        r is Some <==> spec_octet_at(s@, i as int) is Some,
        r matches Some((v, j)) ==> spec_octet_at(s@, i as int) == Option::Some(
            (v as int, j as int),
        ),
        r matches Some((v, j)) ==> i < j <= s@.len(),
{
    let j = dec_end_exec(s, i);
    proof {
        lemma_dec_end_digits(s@, i as int);
    }
    if i < j && j - i <= 3 && !(s[i] == '0' && j > i + 1) {
        let v: u32 = if j - i == 1 {
            dec_val_exec(s[i])
        } else if j - i == 2 {
            dec_val_exec(s[i]) * 10 + dec_val_exec(s[i + 1])
        } else {
            dec_val_exec(s[i]) * 100 + dec_val_exec(s[i + 1]) * 10 + dec_val_exec(s[i + 2])
        };
        proof {
            assert(dec_value(s@, i as int, i as int) == 0);
            assert(dec_value(s@, i as int, i + 1) == dec_val(s@[i as int]));
            if j - i >= 2 {
                assert(dec_value(s@, i as int, i + 2) == dec_value(s@, i as int, i + 1) * 10
                    + dec_val(s@[i + 1]));
            }
            if j - i >= 3 {
                assert(dec_value(s@, i as int, i + 3) == dec_value(s@, i as int, i + 2) * 10
                    + dec_val(s@[i + 2]));
            }
            assert(v == dec_value(s@, i as int, j as int));
        }
        if v <= 255 {
            Some((v as u8, j))
        } else {
            None
        }
    } else {
        None
    }
}

/// Reads a dotted-quad v4 literal at `i`, if one stands there.
fn ipv4_at_exec(s: &Vec<char>, i: usize) -> (r: Option<((u8, u8, u8, u8), usize)>)
    requires
        i <= s@.len(),
    ensures
        r is Some <==> spec_ipv4_at(s@, i as int) is Some,
        r matches Some(((a, b, c, d), j)) ==> spec_ipv4_at(s@, i as int) == Option::Some(
            ((a as int, b as int, c as int, d as int), j as int),
        ),
        r matches Some((q, j)) ==> i < j <= s@.len(),
{
    match octet_at_exec(s, i) {
        None => None,
        Some((a, i1)) => {
            proof {
                lemma_dec_end_bounds(s@, i as int);
            }
            if i1 < s.len() && s[i1] == '.' {
                match octet_at_exec(s, i1 + 1) {
                    None => None,
                    Some((b, i2)) => {
                        proof {
                            lemma_dec_end_bounds(s@, i1 + 1);
                        }
                        if i2 < s.len() && s[i2] == '.' {
                            match octet_at_exec(s, i2 + 1) {
                                None => None,
                                Some((c, i3)) => {
                                    proof {
                                        lemma_dec_end_bounds(s@, i2 + 1);
                                    }
                                    if i3 < s.len() && s[i3] == '.' {
                                        match octet_at_exec(s, i3 + 1) {
                                            None => None,
                                            Some((d, i4)) => Some(((a, b, c, d), i4)),
                                        }
                                    } else {
                                        None
                                    }
                                },
                            }
                        } else {
                            None
                        }
                    },
                }
            } else {
                None
            }
        },
    }
}

/// Recognises a whole v4 literal.
pub fn parse_ipv4(s: &Vec<char>) -> (r: Option<IpAddress>)
    ensures
        r == spec_parse_ipv4(s@),
{
    match ipv4_at_exec(s, 0) {
        None => None,
        Some(((a, b, c, d), end)) => {
            if end == s.len() {
                Some(IpAddress::V4(a, b, c, d))
            } else {
                None
            }
        },
    }
}

/// Reads a hex group at `i`, if one stands there.
fn group_at_exec(s: &Vec<char>, i: usize) -> (r: Option<(u16, usize)>)
    requires
        i <= s@.len(),
    ensures
        r is Some <==> spec_group_at(s@, i as int) is Some,
        r matches Some((v, j)) ==> spec_group_at(s@, i as int) == Option::Some(
            (v as int, j as int),
        ),
        r matches Some((v, j)) ==> i < j <= s@.len(),
{
    let j = hex_end_exec(s, i);
    proof {
        lemma_hex_end_digits(s@, i as int);
    }
    if i < j && j - i <= 4 {
        let v: u32 = if j - i == 1 {
            hex_val_exec(s[i])
        } else if j - i == 2 {
            hex_val_exec(s[i]) * 16 + hex_val_exec(s[i + 1])
        } else if j - i == 3 {
            hex_val_exec(s[i]) * 256 + hex_val_exec(s[i + 1]) * 16 + hex_val_exec(s[i + 2])
        } else {
            hex_val_exec(s[i]) * 4096 + hex_val_exec(s[i + 1]) * 256 + hex_val_exec(s[i + 2]) * 16
                + hex_val_exec(s[i + 3])
        };
        proof {
            assert(hex_value(s@, i as int, i as int) == 0);
            assert(hex_value(s@, i as int, i + 1) == hex_val(s@[i as int]));
            if j - i >= 2 {
                assert(hex_value(s@, i as int, i + 2) == hex_value(s@, i as int, i + 1) * 16
                    + hex_val(s@[i + 1]));
            }
            if j - i >= 3 {
                assert(hex_value(s@, i as int, i + 3) == hex_value(s@, i as int, i + 2) * 16
                    + hex_val(s@[i + 2]));
            }
            if j - i >= 4 {
                assert(hex_value(s@, i as int, i + 4) == hex_value(s@, i as int, i + 3) * 16
                    + hex_val(s@[i + 3]));
            }
            assert(v == hex_value(s@, i as int, j as int));
            assert(v <= 65535);
        }
        Some((v as u16, j))
    } else {
        None
    }
}

/// Reads colon-separated pieces from `i`, mirroring [`spec_read_groups`].
fn read_groups_exec(s: &Vec<char>, i: usize, index: usize, limit: usize) -> (r: (
    Vec<u16>,
    usize,
    bool,
))
    requires
        i <= s@.len(),
        index <= limit,
        limit <= 8,
    ensures
        ({
            let g = spec_read_groups(s@, i as int, index as int, limit as int);
            r.0@ == g.0 && r.1 == g.1 && r.2 == g.2
        }),
        r.1 <= s@.len(),
    decreases limit - index,
{
    if index >= limit {
        return (Vec::new(), i, false);
    }
    let mut p = i;
    if index > 0 {
        if i < s.len() && s[i] == ':' {
            p = i + 1;
        } else {
            return (Vec::new(), i, false);
        }
    }
    let v4_try = if index < limit - 1 {
        ipv4_at_exec(s, p)
    } else {
        None
    };
    match v4_try {
        Some(((a, b, c, d), end)) => {
            let g0: u16 = (a as u16) * 256 + (b as u16);
            let g1: u16 = (c as u16) * 256 + (d as u16);
            let mut v: Vec<u16> = Vec::new();
            v.push(g0);
            v.push(g1);
            proof {
                let gspec = spec_read_groups(s@, i as int, index as int, limit as int);
                assert(v@ =~= gspec.0);
            }
            (v, end, true)
        },
        None => {
            match group_at_exec(s, p) {
                None => (Vec::new(), i, false),
                Some((g, end)) => {
                    let rest = read_groups_exec(s, end, index + 1, limit);
                    let mut v: Vec<u16> = Vec::new();
                    v.push(g);
                    let mut rest_groups = rest.0;
                    v.append(&mut rest_groups);
                    proof {
                        let gspec = spec_read_groups(s@, i as int, index as int, limit as int);
                        assert(v@ =~= gspec.0);
                    }
                    (v, rest.1, rest.2)
                },
            }
        },
    }
}

/// Recognises a whole v6 literal.
pub fn parse_ipv6(s: &Vec<char>) -> (r: Option<IpAddress>)
    ensures
        r == spec_parse_ipv6(s@),
{
    let head = read_groups_exec(s, 0, 0, 8);
    proof {
        lemma_read_groups_len(s@, 0, 0, 8);
    }
    let (mut groups, hend, hv4) = head;
    if groups.len() == 8 {
        if hend == s.len() {
            Some(
                IpAddress::V6(
                    groups[0],
                    groups[1],
                    groups[2],
                    groups[3],
                    groups[4],
                    groups[5],
                    groups[6],
                    groups[7],
                ),
            )
        } else {
            None
        }
    } else if hv4 {
        None
    } else if hend < s.len() && s[hend] == ':' && hend + 1 < s.len() && s[hend + 1] == ':' {
        let limit = 8 - groups.len() - 1;
        let tail = read_groups_exec(s, hend + 2, 0, limit);
        proof {
            lemma_read_groups_len(s@, hend + 2, 0, limit as int);
        }
        let (mut tail_groups, tend, _tail_v4) = tail;
        if tend == s.len() {
            let zeros = 8 - groups.len() - tail_groups.len();
            let mut k: usize = 0;
            while k < zeros
                invariant
                    k <= zeros,
                    groups@.len() == spec_read_groups(s@, 0, 0, 8).0.len() + k,
                    groups@ =~= spec_read_groups(s@, 0, 0, 8).0 + zero_groups(k as int),
                decreases zeros - k,
            {
                groups.push(0u16);
                k = k + 1;
            }
            groups.append(&mut tail_groups);
            proof {
                let hs = spec_read_groups(s@, 0, 0, 8);
                let ts = spec_read_groups(s@, hs.1 + 2, 0, 8 - hs.0.len() - 1);
                assert(groups@ =~= hs.0 + zero_groups(8 - hs.0.len() - ts.0.len()) + ts.0);
                assert(groups@.len() == 8);
            }
            Some(
                IpAddress::V6(
                    groups[0],
                    groups[1],
                    groups[2],
                    groups[3],
                    groups[4],
                    groups[5],
                    groups[6],
                    groups[7],
                ),
            )
        } else {
            None
        }
    } else {
        None
    }
}

/// Recognises a whole IP literal, v4 or v6.
pub fn parse_ip(s: &Vec<char>) -> (r: Option<IpAddress>)
    ensures
        r == spec_parse_ip(s@),
{
    match parse_ipv4(s) {
        Some(a) => Some(a),
        None => parse_ipv6(s),
    }
}

/// A whitespace character, exactly the characters that trimming removes.
pub open spec fn is_space(c: char) -> bool {
    ||| 9 <= c as u32 && c as u32 <= 13
    ||| c as u32 == 32
    ||| c as u32 == 0x85
    ||| c as u32 == 0xA0
    ||| c as u32 == 0x1680
    ||| 0x2000 <= c as u32 && c as u32 <= 0x200A
    ||| c as u32 == 0x2028
    ||| c as u32 == 0x2029
    ||| c as u32 == 0x202F
    ||| c as u32 == 0x205F
    ||| c as u32 == 0x3000
}

/// The characters of `http://`.
pub open spec fn http_prefix() -> Seq<char> {
    seq!['h', 't', 't', 'p', ':', '/', '/']
}

/// The characters of `https://`.
pub open spec fn https_prefix() -> Seq<char> {
    seq!['h', 't', 't', 'p', 's', ':', '/', '/']
}

/// `s` starts with `p`.
pub open spec fn has_prefix(s: Seq<char>, p: Seq<char>) -> bool {
    p.len() <= s.len() && s.subrange(0, p.len() as int) == p
}

/// The target without its leading scheme, if it has one: `http://` is
/// checked first, then `https://`, first match wins.
pub open spec fn strip_scheme(s: Seq<char>) -> Seq<char> {
    if has_prefix(s, http_prefix()) {
        s.skip(7)
    } else if has_prefix(s, https_prefix()) {
        s.skip(8)
    } else {
        s
    }
}

/// `s` without leading whitespace.
pub open spec fn trim_start_spec(s: Seq<char>) -> Seq<char>
    decreases s.len(),
{
    if s.len() > 0 && is_space(s.first()) {
        trim_start_spec(s.drop_first())
    } else {
        s
    }
}

/// `s` without trailing whitespace.
pub open spec fn trim_end_spec(s: Seq<char>) -> Seq<char>
    decreases s.len(),
{
    if s.len() > 0 && is_space(s.last()) {
        trim_end_spec(s.drop_last())
    } else {
        s
    }
}

/// `s` without surrounding whitespace.
pub open spec fn trim_spec(s: Seq<char>) -> Seq<char> {
    trim_end_spec(trim_start_spec(s))
}

/// The cleaned target: scheme stripped first, then whitespace trimmed.
pub open spec fn clean_spec(s: Seq<char>) -> Seq<char> {
    trim_spec(strip_scheme(s))
}

/// Whether `c` is whitespace.
fn is_space_exec(c: char) -> (b: bool)
    ensures
        b == is_space(c),
{
    let u = c as u32;
    (9 <= u && u <= 13) || u == 32 || u == 0x85 || u == 0xA0 || u == 0x1680 || (0x2000 <= u && u
        <= 0x200A) || u == 0x2028 || u == 0x2029 || u == 0x202F || u == 0x205F || u == 0x3000
}

/// Copies the characters of `s` into a vector.
fn str_to_chars(s: &str) -> (v: Vec<char>)
    ensures
        v@ == s@,
{
    let n = s.unicode_len();
    let mut v: Vec<char> = Vec::new();
    let mut i: usize = 0;
    while i < n
        invariant
            i <= n,
            n == s@.len(),
            v@ == s@.take(i as int),
        decreases n - i,
    {
        v.push(s.get_char(i));
        proof {
            assert(s@.take(i + 1) =~= s@.take(i as int).push(s@[i as int]));
        }
        i = i + 1;
    }
    proof {
        assert(s@.take(n as int) =~= s@);
    }
    v
}

/// Builds a string from a vector of characters.
fn chars_to_string(v: &Vec<char>) -> (s: String)
    ensures
        s@ == v@,
{
    let mut s = String::new();
    let mut i: usize = 0;
    while i < v.len()
        invariant
            i <= v@.len(),
            s@ == v@.take(i as int),
        decreases v@.len() - i,
    {
        s.push(v[i]);
        proof {
            assert(v@.take(i + 1) =~= v@.take(i as int).push(v@[i as int]));
        }
        i = i + 1;
    }
    proof {
        assert(v@.take(v@.len() as int) =~= v@);
    }
    s
}

/// Cleans a target: strips a leading `http://` or `https://` (in that order,
/// first match wins) and then trims surrounding whitespace.
fn clean_vec(v: &Vec<char>) -> (r: Vec<char>)
    ensures
        r@ == clean_spec(v@),
{
    let mut start: usize = 0;
    if v.len() >= 7 && v[0] == 'h' && v[1] == 't' && v[2] == 't' && v[3] == 'p' && v[4] == ':'
        && v[5] == '/' && v[6] == '/' {
        start = 7;
        proof {
            assert(v@.subrange(0, 7) =~= http_prefix());
        }
    } else if v.len() >= 8 && v[0] == 'h' && v[1] == 't' && v[2] == 't' && v[3] == 'p' && v[4]
        == 's' && v[5] == ':' && v[6] == '/' && v[7] == '/' {
        start = 8;
        proof {
            assert(v@.subrange(0, 8) =~= https_prefix());
            assert(v@.subrange(0, 7)[4] == 's');
            assert(!has_prefix(v@, http_prefix()));
        }
    } else {
        proof {
            if has_prefix(v@, http_prefix()) {
                assert(v@.subrange(0, 7)[0] == v@[0] && v@.subrange(0, 7)[1] == v@[1]
                    && v@.subrange(0, 7)[2] == v@[2] && v@.subrange(0, 7)[3] == v@[3]
                    && v@.subrange(0, 7)[4] == v@[4] && v@.subrange(0, 7)[5] == v@[5]
                    && v@.subrange(0, 7)[6] == v@[6]);
                assert(false);
            }
            if has_prefix(v@, https_prefix()) {
                assert(v@.subrange(0, 8)[0] == v@[0] && v@.subrange(0, 8)[1] == v@[1]
                    && v@.subrange(0, 8)[2] == v@[2] && v@.subrange(0, 8)[3] == v@[3]
                    && v@.subrange(0, 8)[4] == v@[4] && v@.subrange(0, 8)[5] == v@[5]
                    && v@.subrange(0, 8)[6] == v@[6] && v@.subrange(0, 8)[7] == v@[7]);
                assert(false);
            }
        }
    }
    proof {
        assert(strip_scheme(v@) =~= v@.skip(start as int));
    }
    let ghost base = v@.skip(start as int);
    let mut lo = start;
    while lo < v.len() && is_space_exec(v[lo])
        invariant
            start <= lo <= v@.len(),
            base == v@.skip(start as int),
            trim_start_spec(base) == trim_start_spec(v@.skip(lo as int)),
        decreases v@.len() - lo,
    {
        proof {
            assert(v@.skip(lo as int).drop_first() =~= v@.skip(lo + 1));
        }
        lo = lo + 1;
    }
    proof {
        assert(trim_start_spec(v@.skip(lo as int)) == v@.skip(lo as int));
        assert(v@.skip(lo as int) =~= v@.subrange(lo as int, v@.len() as int));
    }
    let mut hi = v.len();
    while hi > lo && is_space_exec(v[hi - 1])
        invariant
            lo <= hi <= v@.len(),
            trim_end_spec(v@.subrange(lo as int, v@.len() as int)) == trim_end_spec(
                v@.subrange(lo as int, hi as int),
            ),
        decreases hi,
    {
        proof {
            assert(v@.subrange(lo as int, hi as int).drop_last() =~= v@.subrange(
                lo as int,
                hi - 1,
            ));
        }
        hi = hi - 1;
    }
    proof {
        assert(trim_end_spec(v@.subrange(lo as int, hi as int)) == v@.subrange(
            lo as int,
            hi as int,
        ));
    }
    let mut r: Vec<char> = Vec::new();
    let mut k = lo;
    while k < hi
        invariant
            lo <= k <= hi <= v@.len(),
            r@ == v@.subrange(lo as int, k as int),
        decreases hi - k,
    {
        r.push(v[k]);
        proof {
            assert(v@.subrange(lo as int, k + 1) =~= v@.subrange(lo as int, k as int).push(
                v@[k as int],
            ));
        }
        k = k + 1;
    }
    r
}

/// Cleans a target for lookup: the scheme stripped, whitespace trimmed.
/// This is what a DNS query receives when the target is no IP literal.
pub fn clean_target(target: &str) -> (r: String)
    ensures
        r@ == clean_spec(target@),
{
    let v = str_to_chars(target);
    let c = clean_vec(&v);
    chars_to_string(&c)
}

/// Recognises the target as an IP literal, with no lookup of any kind: the
/// result is exactly what the cleaned target denotes as a v4 or v6 literal,
/// or nothing when it denotes none.
pub fn resolve_literal(target: &str) -> (r: Option<IpAddress>)
    ensures
        r == spec_parse_ip(clean_spec(target@)),
{
    let v = str_to_chars(target);
    let c = clean_vec(&v);
    parse_ip(&c)
}

/// An IP literal resolves to exactly its parse, scheme-prefixed or not: for
/// any text whose trimmed form denotes the literal address `a`, cleaning the
/// text with `http://` or `https://` in front — or plain, when it carries no
/// scheme prefix of its own — still denotes exactly `a`.
pub proof fn lemma_resolve_ip_literal(body: Seq<char>, a: IpAddress)
    requires
        spec_parse_ip(trim_spec(body)) == Option::Some(a),
    ensures
        spec_parse_ip(clean_spec(http_prefix() + body)) == Option::Some(a),
        spec_parse_ip(clean_spec(https_prefix() + body)) == Option::Some(a),
        !has_prefix(body, http_prefix()) && !has_prefix(body, https_prefix()) ==> spec_parse_ip(
            clean_spec(body),
        ) == Option::Some(a),
{
    assert((http_prefix() + body).subrange(0, 7) =~= http_prefix());
    assert((http_prefix() + body).skip(7) =~= body);
    assert((https_prefix() + body).subrange(0, 7)[4] == 's');
    assert(http_prefix()[4] == ':');
    assert(!has_prefix(https_prefix() + body, http_prefix()));
    assert((https_prefix() + body).subrange(0, 8) =~= https_prefix());
    assert((https_prefix() + body).skip(8) =~= body);
}

} // verus!
