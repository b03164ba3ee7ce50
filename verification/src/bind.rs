//! The bind target: a single configuration input naming where the server
//! listens. It accepts a combined address and port, an address alone (the
//! default port applies), or a port alone (the default address applies).
//! The grammar is the usual textual one: dotted-decimal IPv4 with no
//! leading zeros in an octet; IPv6 as colon-separated groups of up to four
//! hexadecimal digits, with at most one `::` standing for one or more zero
//! groups and an optional embedded IPv4 address as the last two groups; a
//! combined form writes an IPv6 address in brackets.

use vstd::prelude::*;
use vstd::string::StrSliceExecFns;

verus! {

/// The default port when the input names none.
pub const DEFAULT_PORT: u16 = 1080;

/// An IP address, version 4 or 6, as plain numbers.
#[derive(Clone, Copy, PartialEq, Eq, Structural, Debug)]
pub enum Ip {
    V4(u8, u8, u8, u8),
    V6(u16, u16, u16, u16, u16, u16, u16, u16),
}

/// Where the server is to listen.
#[derive(Clone, Copy, PartialEq, Eq, Structural, Debug)]
pub struct BindAddr {
    pub ip: Ip,
    pub port: u16,
}

/// The default bind target: every interface, port 1080.
pub open spec fn spec_default_addr() -> BindAddr {
    BindAddr { ip: Ip::V4(0, 0, 0, 0), port: DEFAULT_PORT }
}

/// Hands back the default bind target.
pub fn default_addr() -> (a: BindAddr)
    ensures
        a == spec_default_addr(),
{
    BindAddr { ip: Ip::V4(0, 0, 0, 0), port: DEFAULT_PORT }
}

pub open spec fn is_dec_digit(c: char) -> bool {
    48 <= c as u32 <= 57
}

pub open spec fn dec_digit_val(c: char) -> int {
    c as u32 - 48
}

pub open spec fn is_hex_digit(c: char) -> bool {
    ||| 48 <= c as u32 <= 57
    ||| 97 <= c as u32 <= 102
    ||| 65 <= c as u32 <= 70
}

pub open spec fn hex_digit_val(c: char) -> int {
    if 48 <= c as u32 <= 57 {
        c as u32 - 48
    } else if 97 <= c as u32 <= 102 {
        c as u32 - 87
    } else {
        c as u32 - 55
    }
}

/// A non-empty run of decimal digits.
pub open spec fn all_dec_digits(s: Seq<char>) -> bool {
    s.len() > 0 && forall|i: int| 0 <= i < s.len() ==> is_dec_digit(s[i])
}

/// A non-empty run of hexadecimal digits.
pub open spec fn all_hex_digits(s: Seq<char>) -> bool {
    s.len() > 0 && forall|i: int| 0 <= i < s.len() ==> is_hex_digit(s[i])
}

/// The number a run of decimal digits denotes.
pub open spec fn dec_value(s: Seq<char>) -> int
    decreases s.len(),
{
    if s.len() == 0 {
        0
    } else {
        dec_value(s.drop_last()) * 10 + dec_digit_val(s.last())
    }
}

/// The number a run of hexadecimal digits denotes.
pub open spec fn hex_value(s: Seq<char>) -> int
    decreases s.len(),
{
    if s.len() == 0 {
        0
    } else {
        hex_value(s.drop_last()) * 16 + hex_digit_val(s.last())
    }
}

/// Reads the decimal number in `s[lo..hi]`, refusing anything that is not
/// a digit run or whose value is over `cap`.
fn dec_value_capped(s: &Vec<char>, lo: usize, hi: usize, cap: u32) -> (r: Option<u32>)
    requires
        lo <= hi <= s.len(),
        cap <= 65535,
    ensures
        r matches Some(v) ==> all_dec_digits(s@.subrange(lo as int, hi as int)) && v == dec_value(
            s@.subrange(lo as int, hi as int),
        ) && v <= cap,
        r is None ==> !(all_dec_digits(s@.subrange(lo as int, hi as int)) && dec_value(
            s@.subrange(lo as int, hi as int),
        ) <= cap),
{
    if lo == hi {
        return None;
    }
    let mut acc: u32 = 0;
    let mut over: bool = false;
    let mut i: usize = lo;
    proof {
        assert(s@.subrange(lo as int, lo as int) =~= Seq::<char>::empty());
    }
    while i < hi
        invariant
            lo <= i <= hi <= s.len(),
            cap <= 65535,
            forall|j: int| lo <= j < i ==> is_dec_digit(s@[j]),
            !over ==> acc == dec_value(s@.subrange(lo as int, i as int)) && acc <= cap,
            over ==> dec_value(s@.subrange(lo as int, i as int)) > cap,
        decreases hi - i,
    {
        let c = s[i];
        let u = c as u32;
        if !(48 <= u && u <= 57) {
            proof {
                assert(s@.subrange(lo as int, hi as int)[i - lo] == s@[i as int]);
            }
            return None;
        }
        let d = u - 48;
        proof {
            assert(s@.subrange(lo as int, i as int + 1).drop_last() =~= s@.subrange(
                lo as int,
                i as int,
            ));
            assert(s@.subrange(lo as int, i as int + 1).last() == s@[i as int]);
        }
        if !over {
            let next = acc * 10 + d;
            if next > cap {
                over = true;
            } else {
                acc = next;
            }
        }
        i = i + 1;
    }
    if over {
        None
    } else {
        Some(acc)
    }
}

/// Reads the hexadecimal number in `s[lo..hi]`, refusing anything that is
/// not a hex-digit run or whose value is over `cap`.
fn hex_value_capped(s: &Vec<char>, lo: usize, hi: usize, cap: u32) -> (r: Option<u32>)
    requires
        lo <= hi <= s.len(),
        cap <= 65535,
    ensures
        r matches Some(v) ==> all_hex_digits(s@.subrange(lo as int, hi as int)) && v == hex_value(
            s@.subrange(lo as int, hi as int),
        ) && v <= cap,
        r is None ==> !(all_hex_digits(s@.subrange(lo as int, hi as int)) && hex_value(
            s@.subrange(lo as int, hi as int),
        ) <= cap),
{
    if lo == hi {
        return None;
    }
    let mut acc: u32 = 0;
    let mut over: bool = false;
    let mut i: usize = lo;
    proof {
        assert(s@.subrange(lo as int, lo as int) =~= Seq::<char>::empty());
    }
    while i < hi
        invariant
            lo <= i <= hi <= s.len(),
            cap <= 65535,
            forall|j: int| lo <= j < i ==> is_hex_digit(s@[j]),
            !over ==> acc == hex_value(s@.subrange(lo as int, i as int)) && acc <= cap,
            over ==> hex_value(s@.subrange(lo as int, i as int)) > cap,
        decreases hi - i,
    {
        let c = s[i];
        let u = c as u32;
        let d: u32 = if 48 <= u && u <= 57 {
            u - 48
        } else if 97 <= u && u <= 102 {
            u - 87
        } else if 65 <= u && u <= 70 {
            u - 55
        } else {
            proof {
                assert(s@.subrange(lo as int, hi as int)[i - lo] == s@[i as int]);
            }
            return None;
        };
        proof {
            assert(s@.subrange(lo as int, i as int + 1).drop_last() =~= s@.subrange(
                lo as int,
                i as int,
            ));
            assert(s@.subrange(lo as int, i as int + 1).last() == s@[i as int]);
        }
        if !over {
            let next = acc * 16 + d;
            if next > cap {
                over = true;
            } else {
                acc = next;
            }
        }
        i = i + 1;
    }
    if over {
        None
    } else {
        Some(acc)
    }
}

/// The position of the first `c` in `s`, or `s.len()` when there is none.
pub open spec fn spec_first_idx(s: Seq<char>, c: char) -> int
    decreases s.len(),
{
    if s.len() == 0 {
        0
    } else if s[0] == c {
        0
    } else {
        1 + spec_first_idx(s.drop_first(), c)
    }
}

pub proof fn lemma_first_idx_props(s: Seq<char>, c: char)
    ensures
        0 <= spec_first_idx(s, c) <= s.len(),
        spec_first_idx(s, c) < s.len() ==> s[spec_first_idx(s, c)] == c,
        forall|j: int| 0 <= j < spec_first_idx(s, c) ==> s[j] != c,
    decreases s.len(),
{
    if s.len() == 0 {
    } else if s[0] == c {
    } else {
        lemma_first_idx_props(s.drop_first(), c);
        assert forall|j: int| 0 <= j < spec_first_idx(s, c) implies s[j] != c by {
            if j > 0 {
                assert(s.drop_first()[j - 1] != c);
            }
        }
    }
}

/// `s` cut at every `sep`: the parts between separators, in order, empty
/// parts included; a string without the separator is one part.
pub open spec fn spec_split(s: Seq<char>, sep: char) -> Seq<Seq<char>>
    decreases s.len(),
{
    let i = spec_first_idx(s, sep);
    if 0 <= i < s.len() {
        seq![s.take(i)] + spec_split(s.skip(i + 1), sep)
    } else {
        seq![s]
    }
}

pub open spec fn parts_view(ps: Seq<Vec<char>>) -> Seq<Seq<char>> {
    ps.map_values(|v: Vec<char>| v@)
}

/// Cuts `s` at every `sep`.
fn split_chars(s: &Vec<char>, sep: char) -> (parts: Vec<Vec<char>>)
    ensures
        parts_view(parts@) == spec_split(s@, sep),
{
    let mut parts: Vec<Vec<char>> = Vec::new();
    let mut cur: Vec<char> = Vec::new();
    let mut start: usize = 0;
    let mut i: usize = 0;
    proof {
        assert(s@.skip(0) =~= s@);
        assert(cur@ =~= s@.subrange(0, 0));
        assert(parts_view(parts@) =~= Seq::<Seq<char>>::empty());
    }
    while i < s.len()
        invariant
            start <= i <= s.len(),
            cur@ == s@.subrange(start as int, i as int),
            forall|j: int| start <= j < i ==> s@[j] != sep,
            spec_split(s@, sep) == parts_view(parts@) + spec_split(s@.skip(start as int), sep),
        decreases s.len() - i,
    {
        let c = s[i];
        if c == sep {
            let ghost pv0 = parts_view(parts@);
            let ghost curv = cur@;
            let ghost rest = s@.skip(start as int);
            proof {
                lemma_first_idx_props(rest, sep);
                assert(forall|j: int|
                    0 <= j < i - start ==> rest[j] == s@[j + start] && rest[j] != sep);
                assert(rest[i - start as int] == sep);
                assert(spec_first_idx(rest, sep) == i - start as int) by {
                    let f = spec_first_idx(rest, sep);
                    if f < i - start as int {
                        assert(rest[f] != sep);
                    }
                    if f > i - start as int {
                        assert(rest[i - start as int] != sep);
                    }
                }
                assert(rest.take(i - start as int) =~= curv);
                assert(rest.skip(i - start as int + 1) =~= s@.skip(i as int + 1));
                assert(spec_split(rest, sep) == seq![curv] + spec_split(s@.skip(i as int + 1), sep));
            }
            parts.push(cur);
            cur = Vec::new();
            start = i + 1;
            proof {
                assert(parts_view(parts@) =~= pv0.push(curv));
                assert(pv0.push(curv) =~= pv0 + seq![curv]);
                assert((pv0 + seq![curv]) + spec_split(s@.skip(start as int), sep) =~= pv0 + (
                seq![curv] + spec_split(s@.skip(start as int), sep)));
                assert(cur@ =~= s@.subrange(start as int, start as int));
            }
        } else {
            cur.push(c);
            proof {
                assert(cur@ =~= s@.subrange(start as int, i as int + 1));
            }
        }
        i = i + 1;
    }
    let ghost pv0 = parts_view(parts@);
    let ghost curv = cur@;
    proof {
        let rest = s@.skip(start as int);
        lemma_first_idx_props(rest, sep);
        assert(forall|j: int| 0 <= j < rest.len() ==> rest[j] == s@[j + start] && rest[j] != sep);
        assert(spec_first_idx(rest, sep) == rest.len()) by {
            let f = spec_first_idx(rest, sep);
            if f < rest.len() {
                assert(rest[f] != sep);
            }
        }
        assert(spec_split(rest, sep) == seq![rest]);
        assert(rest =~= curv);
    }
    parts.push(cur);
    proof {
        assert(parts_view(parts@) =~= pv0.push(curv));
        assert(pv0.push(curv) =~= pv0 + seq![curv]);
        assert(parts_view(parts@) =~= spec_split(s@, sep));
    }
    parts
}

/// The characters of `s`, one by one.
fn chars_of(s: &str) -> (v: Vec<char>)
    ensures
        v@ == s@,
{
    let n = s.unicode_len();
    let mut v: Vec<char> = Vec::new();
    let mut i: usize = 0;
    while i < n
        invariant
            i <= n,
            n == s@.len(),
            v@ == s@.take(i as int),
        decreases n - i,
    {
        v.push(s.get_char(i));
        proof {
            assert(v@ =~= s@.take(i as int + 1));
        }
        i = i + 1;
    }
    proof {
        assert(s@.take(n as int) =~= s@);
    }
    v
}

/// The characters of `s[lo..hi]`.
fn subvec(s: &Vec<char>, lo: usize, hi: usize) -> (v: Vec<char>)
    requires
        lo <= hi <= s.len(),
    ensures
        v@ == s@.subrange(lo as int, hi as int),
{
    let mut v: Vec<char> = Vec::new();
    let mut i: usize = lo;
    proof {
        assert(v@ =~= s@.subrange(lo as int, lo as int));
    }
    while i < hi
        invariant
            lo <= i <= hi <= s.len(),
            v@ == s@.subrange(lo as int, i as int),
        decreases hi - i,
    {
        v.push(s[i]);
        proof {
            assert(v@ =~= s@.subrange(lo as int, i as int + 1));
        }
        i = i + 1;
    }
    v
}

fn contains_char(v: &Vec<char>, c: char) -> (r: bool)
    ensures
        r == v@.contains(c),
{
    let mut i: usize = 0;
    while i < v.len()
        invariant
            i <= v.len(),
            forall|j: int| 0 <= j < i ==> v@[j] != c,
        decreases v.len() - i,
    {
        if v[i] == c {
            return true;
        }
        i = i + 1;
    }
    false
}

/// Finds the first `c` in `v`, scanning left to right.
fn first_idx(v: &Vec<char>, c: char) -> (r: usize)
    ensures
        r == spec_first_idx(v@, c),
{
    let mut i: usize = 0;
    while i < v.len()
        invariant
            i <= v.len(),
            forall|j: int| 0 <= j < i ==> v@[j] != c,
        decreases v.len() - i,
    {
        if v[i] == c {
            proof {
                lemma_first_idx_props(v@, c);
                let f = spec_first_idx(v@, c);
                if f < i {
                    assert(v@[f] != c);
                }
                if f > i {
                    assert(v@[i as int] != c);
                }
            }
            return i;
        }
        i = i + 1;
    }
    proof {
        lemma_first_idx_props(v@, c);
        let f = spec_first_idx(v@, c);
        if f < v@.len() {
            assert(v@[f] != c);
        }
    }
    v.len()
}

/// One dotted-decimal octet: decimal digits without a leading zero, value
/// at most 255.
pub open spec fn spec_parse_octet(s: Seq<char>) -> Option<u8> {
    if all_dec_digits(s) && dec_value(s) <= 255 && (s[0] == '0' ==> s.len() == 1) {
        Some(dec_value(s) as u8)
    } else {
        None
    }
}

fn parse_octet(part: &Vec<char>) -> (r: Option<u8>)
    ensures
        r == spec_parse_octet(part@),
{
    if part.len() > 1 && part[0] == '0' {
        return None;
    }
    proof {
        assert(part@.subrange(0, part@.len() as int) =~= part@);
    }
    match dec_value_capped(part, 0, part.len(), 255) {
        Some(v) => Some(v as u8),
        None => None,
    }
}

/// One IPv6 group: one to four hexadecimal digits.
pub open spec fn spec_parse_group(s: Seq<char>) -> Option<u16> {
    if all_hex_digits(s) && s.len() <= 4 && hex_value(s) <= 65535 {
        Some(hex_value(s) as u16)
    } else {
        None
    }
}

fn parse_group(part: &Vec<char>) -> (r: Option<u16>)
    ensures
        r == spec_parse_group(part@),
{
    if part.len() > 4 {
        return None;
    }
    proof {
        assert(part@.subrange(0, part@.len() as int) =~= part@);
    }
    match hex_value_capped(part, 0, part.len(), 65535) {
        Some(v) => Some(v as u16),
        None => None,
    }
}

/// A dotted-decimal IPv4 address: exactly four octets.
pub open spec fn spec_parse_ipv4(s: Seq<char>) -> Option<Ip> {
    let parts = spec_split(s, '.');
    if parts.len() == 4 {
        match (
            spec_parse_octet(parts[0]),
            spec_parse_octet(parts[1]),
            spec_parse_octet(parts[2]),
            spec_parse_octet(parts[3]),
        ) {
            (Some(a), Some(b), Some(c), Some(d)) => Some(Ip::V4(a, b, c, d)),
            _ => None,
        }
    } else {
        None
    }
}

fn parse_ipv4_chars(s: &Vec<char>) -> (r: Option<Ip>)
    ensures
        r == spec_parse_ipv4(s@),
{
    let parts = split_chars(s, '.');
    proof {
        assert(parts_view(parts@).len() == parts@.len());
    }
    if parts.len() != 4 {
        return None;
    }
    proof {
        assert(parts_view(parts@)[0] == parts@[0]@);
        assert(parts_view(parts@)[1] == parts@[1]@);
        assert(parts_view(parts@)[2] == parts@[2]@);
        assert(parts_view(parts@)[3] == parts@[3]@);
    }
    let a = match parse_octet(&parts[0]) {
        Some(x) => x,
        None => {
            return None;
        },
    };
    let b = match parse_octet(&parts[1]) {
        Some(x) => x,
        None => {
            return None;
        },
    };
    let c = match parse_octet(&parts[2]) {
        Some(x) => x,
        None => {
            return None;
        },
    };
    let d = match parse_octet(&parts[3]) {
        Some(x) => x,
        None => {
            return None;
        },
    };
    Some(Ip::V4(a, b, c, d))
}

/// Parses a dotted-decimal IPv4 address.
pub fn parse_ipv4(s: &str) -> (r: Option<Ip>)
    ensures
        r == spec_parse_ipv4(s@),
{
    parse_ipv4_chars(&chars_of(s))
}

/// The 16-bit pieces of a list of plain hexadecimal groups.
pub open spec fn spec_hex_pieces(parts: Seq<Seq<char>>) -> Option<Seq<u16>>
    decreases parts.len(),
{
    if parts.len() == 0 {
        Some(Seq::<u16>::empty())
    } else {
        match (spec_hex_pieces(parts.drop_last()), spec_parse_group(parts.last())) {
            (Some(init), Some(g)) => Some(init.push(g)),
            _ => None,
        }
    }
}

/// The 16-bit pieces of a group list whose last group may instead be an
/// embedded IPv4 address, standing for the final two pieces.
pub open spec fn spec_tail_pieces(parts: Seq<Seq<char>>) -> Option<Seq<u16>> {
    if parts.len() > 0 && parts.last().contains('.') {
        match (spec_hex_pieces(parts.drop_last()), spec_parse_ipv4(parts.last())) {
            (Some(init), Some(ip)) => match ip {
                Ip::V4(a, b, c, d) => Some(
                    init.push(((a as int) * 256 + (b as int)) as u16).push(
                        ((c as int) * 256 + (d as int)) as u16,
                    ),
                ),
                _ => None,
            },
            _ => None,
        }
    } else {
        spec_hex_pieces(parts)
    }
}

fn hex_pieces(parts: &Vec<Vec<char>>, lo: usize, hi: usize) -> (r: Option<Vec<u16>>)
    requires
        lo <= hi <= parts.len(),
    ensures
        match r {
            Some(v) => spec_hex_pieces(parts_view(parts@).subrange(lo as int, hi as int)) == Some(
                v@,
            ),
            None => spec_hex_pieces(parts_view(parts@).subrange(lo as int, hi as int)) is None,
        },
{
    let ghost pv = parts_view(parts@);
    let mut acc: Vec<u16> = Vec::new();
    let mut ok: bool = true;
    let mut i: usize = lo;
    proof {
        assert(pv.subrange(lo as int, lo as int) =~= Seq::<Seq<char>>::empty());
        assert(acc@ =~= Seq::<u16>::empty());
    }
    while i < hi
        invariant
            lo <= i <= hi <= parts.len(),
            pv == parts_view(parts@),
            pv.len() == parts.len(),
            ok ==> spec_hex_pieces(pv.subrange(lo as int, i as int)) == Some(acc@),
            !ok ==> spec_hex_pieces(pv.subrange(lo as int, i as int)) is None,
        decreases hi - i,
    {
        proof {
            assert(pv.subrange(lo as int, i as int + 1).drop_last() =~= pv.subrange(
                lo as int,
                i as int,
            ));
            assert(pv.subrange(lo as int, i as int + 1).last() == pv[i as int]);
            assert(pv[i as int] == parts@[i as int]@);
        }
        match parse_group(&parts[i]) {
            Some(g) => {
                if ok {
                    acc.push(g);
                }
            },
            None => {
                ok = false;
            },
        }
        i = i + 1;
    }
    if ok {
        Some(acc)
    } else {
        None
    }
}

fn tail_pieces(parts: &Vec<Vec<char>>, lo: usize, hi: usize) -> (r: Option<Vec<u16>>)
    requires
        lo <= hi <= parts.len(),
    ensures
        match r {
            Some(v) => spec_tail_pieces(parts_view(parts@).subrange(lo as int, hi as int)) == Some(
                v@,
            ),
            None => spec_tail_pieces(parts_view(parts@).subrange(lo as int, hi as int)) is None,
        },
{
    let ghost pv = parts_view(parts@);
    let ghost sub = pv.subrange(lo as int, hi as int);
    if lo == hi {
        let r: Vec<u16> = Vec::new();
        proof {
            assert(sub =~= Seq::<Seq<char>>::empty());
            assert(r@ =~= Seq::<u16>::empty());
        }
        return Some(r);
    }
    proof {
        assert(sub.drop_last() =~= pv.subrange(lo as int, hi as int - 1));
        assert(sub.last() == pv[hi as int - 1]);
        assert(pv[hi as int - 1] == parts@[hi as int - 1]@);
    }
    if contains_char(&parts[hi - 1], '.') {
        let init = match hex_pieces(parts, lo, hi - 1) {
            Some(v) => v,
            None => {
                return None;
            },
        };
        match parse_ipv4_chars(&parts[hi - 1]) {
            Some(ip) => match ip {
                Ip::V4(a, b, c, d) => {
                    let mut out = init;
                    out.push((a as u16) * 256 + (b as u16));
                    out.push((c as u16) * 256 + (d as u16));
                    Some(out)
                },
                Ip::V6(_, _, _, _, _, _, _, _) => None,
            },
            None => None,
        }
    } else {
        hex_pieces(parts, lo, hi)
    }
}

/// Whether `s` holds a `::`.
pub open spec fn spec_has_dc(s: Seq<char>) -> bool {
    exists|i: int| 0 <= i && i + 1 < s.len() && #[trigger] s[i] == ':' && s[i + 1] == ':'
}

/// The position of the first `::` in `s`; past `s.len() - 2` when there is
/// none.
pub open spec fn spec_first_dc(s: Seq<char>) -> int
    decreases s.len(),
{
    if s.len() < 2 {
        s.len() as int
    } else if s[0] == ':' && s[1] == ':' {
        0
    } else {
        1 + spec_first_dc(s.drop_first())
    }
}

pub proof fn lemma_first_dc_props(s: Seq<char>)
    ensures
        0 <= spec_first_dc(s) <= s.len(),
        spec_first_dc(s) + 1 < s.len() ==> s[spec_first_dc(s)] == ':' && s[spec_first_dc(s) + 1]
            == ':',
        forall|j: int|
            0 <= j < spec_first_dc(s) && j + 1 < s.len() ==> !(#[trigger] s[j] == ':' && s[j + 1]
                == ':'),
    decreases s.len(),
{
    if s.len() < 2 {
    } else if s[0] == ':' && s[1] == ':' {
    } else {
        lemma_first_dc_props(s.drop_first());
        assert forall|j: int|
            0 <= j < spec_first_dc(s) && j + 1 < s.len() implies !(#[trigger] s[j] == ':' && s[j
            + 1] == ':') by {
            if j > 0 {
                assert(!(s.drop_first()[j - 1] == ':' && s.drop_first()[j] == ':'));
            }
        }
    }
}

fn find_dc(v: &Vec<char>) -> (r: Option<usize>)
    ensures
        match r {
            Some(j) => j + 1 < v@.len() && spec_first_dc(v@) == j && spec_has_dc(v@),
            None => !spec_has_dc(v@) && spec_first_dc(v@) + 1 >= v@.len(),
        },
{
    let n = v.len();
    if n < 2 {
        proof {
            lemma_first_dc_props(v@);
            assert(!spec_has_dc(v@));
        }
        return None;
    }
    let mut i: usize = 0;
    while i < n - 1
        invariant
            i <= n,
            n == v@.len(),
            n >= 2,
            forall|j: int| 0 <= j < i ==> !(#[trigger] v@[j] == ':' && v@[j + 1] == ':'),
        decreases n - i,
    {
        if v[i] == ':' && v[i + 1] == ':' {
            proof {
                lemma_first_dc_props(v@);
                let f = spec_first_dc(v@);
                if f < i {
                    assert(!(v@[f] == ':' && v@[f + 1] == ':'));
                }
                if f > i {
                    assert(!(v@[i as int] == ':' && v@[i as int + 1] == ':'));
                }
            }
            return Some(i);
        }
        i = i + 1;
    }
    proof {
        lemma_first_dc_props(v@);
        let f = spec_first_dc(v@);
        if f + 1 < n {
            assert(!(v@[f] == ':' && v@[f + 1] == ':'));
        }
        assert(!spec_has_dc(v@));
    }
    None
}

/// The eight 16-bit pieces an IPv6 address text denotes: either eight
/// groups outright, or — with one `::` — head groups, one or more zero
/// pieces, and tail groups; the last group may be an embedded IPv4 address.
pub open spec fn spec_v6_pieces(s: Seq<char>) -> Option<Seq<u16>> {
    let i = spec_first_dc(s);
    if 0 <= i && i + 1 < s.len() {
        let head = s.take(i);
        let tail = s.skip(i + 2);
        if spec_has_dc(tail) {
            None
        } else {
            let hp = if head.len() == 0 {
                Some(Seq::<u16>::empty())
            } else {
                spec_hex_pieces(spec_split(head, ':'))
            };
            let tp = if tail.len() == 0 {
                Some(Seq::<u16>::empty())
            } else {
                spec_tail_pieces(spec_split(tail, ':'))
            };
            match (hp, tp) {
                (Some(h), Some(t)) => if h.len() + t.len() <= 7 {
                    Some(h + Seq::new((8 - h.len() - t.len()) as nat, |k: int| 0u16) + t)
                } else {
                    None
                },
                _ => None,
            }
        }
    } else {
        match spec_tail_pieces(spec_split(s, ':')) {
            Some(ps) => if ps.len() == 8 {
                Some(ps)
            } else {
                None
            },
            None => None,
        }
    }
}

pub open spec fn v6_of_pieces(p: Seq<u16>) -> Ip {
    Ip::V6(p[0], p[1], p[2], p[3], p[4], p[5], p[6], p[7])
}

/// A textual IPv6 address.
pub open spec fn spec_parse_ipv6(s: Seq<char>) -> Option<Ip> {
    match spec_v6_pieces(s) {
        Some(p) => Some(v6_of_pieces(p)),
        None => None,
    }
}

fn parse_ipv6_chars(s: &Vec<char>) -> (r: Option<Ip>)
    ensures
        r == spec_parse_ipv6(s@),
{
    match find_dc(s) {
        Some(i) => {
            let n = s.len();
            let head = subvec(s, 0, i);
            let tail = subvec(s, i + 2, n);
            proof {
                assert(head@ =~= s@.take(i as int));
                assert(tail@ =~= s@.skip(i as int + 2));
            }
            match find_dc(&tail) {
                Some(_) => {
                    return None;
                },
                None => (),
            }
            let h: Vec<u16> = if head.len() == 0 {
                Vec::new()
            } else {
                let parts = split_chars(&head, ':');
                proof {
                    assert(parts_view(parts@).subrange(0, parts_view(parts@).len() as int)
                        =~= parts_view(parts@));
                }
                match hex_pieces(&parts, 0, parts.len()) {
                    Some(v) => v,
                    None => {
                        return None;
                    },
                }
            };
            let t: Vec<u16> = if tail.len() == 0 {
                Vec::new()
            } else {
                let parts = split_chars(&tail, ':');
                proof {
                    assert(parts_view(parts@).subrange(0, parts_view(parts@).len() as int)
                        =~= parts_view(parts@));
                }
                match tail_pieces(&parts, 0, parts.len()) {
                    Some(v) => v,
                    None => {
                        return None;
                    },
                }
            };
            proof {
                if head@.len() == 0 {
                    assert(h@ =~= Seq::<u16>::empty());
                }
                if tail@.len() == 0 {
                    assert(t@ =~= Seq::<u16>::empty());
                }
            }
            if h.len() < 8 && t.len() < 8 && h.len() + t.len() <= 7 {
                let ghost hseq = h@;
                let ghost tseq = t@;
                let zcount: usize = 8 - h.len() - t.len();
                let mut p = h;
                let mut z: usize = 0;
                proof {
                    assert(p@ =~= hseq + Seq::new(0nat, |k: int| 0u16));
                }
                while z < zcount
                    invariant
                        z <= zcount,
                        p@ == hseq + Seq::new(z as nat, |k: int| 0u16),
                    decreases zcount - z,
                {
                    p.push(0u16);
                    proof {
                        assert(p@ =~= hseq + Seq::new((z + 1) as nat, |k: int| 0u16));
                    }
                    z = z + 1;
                }
                let mut tt = t;
                p.append(&mut tt);
                proof {
                    assert(p@ =~= hseq + Seq::new(
                        (8 - hseq.len() - tseq.len()) as nat,
                        |k: int| 0u16,
                    ) + tseq);
                }
                Some(Ip::V6(p[0], p[1], p[2], p[3], p[4], p[5], p[6], p[7]))
            } else {
                None
            }
        },
        None => {
            let parts = split_chars(s, ':');
            proof {
                assert(parts_view(parts@).subrange(0, parts_view(parts@).len() as int)
                    =~= parts_view(parts@));
            }
            match tail_pieces(&parts, 0, parts.len()) {
                Some(ps) => {
                    if ps.len() == 8 {
                        Some(Ip::V6(ps[0], ps[1], ps[2], ps[3], ps[4], ps[5], ps[6], ps[7]))
                    } else {
                        None
                    }
                },
                None => None,
            }
        },
    }
}

/// Parses a textual IPv6 address.
pub fn parse_ipv6(s: &str) -> (r: Option<Ip>)
    ensures
        r == spec_parse_ipv6(s@),
{
    parse_ipv6_chars(&chars_of(s))
}

/// A port written in decimal digits, as it stands after `:` in a combined
/// address and port.
pub open spec fn spec_port_digits(s: Seq<char>) -> Option<u16> {
    if all_dec_digits(s) && dec_value(s) <= 65535 {
        Some(dec_value(s) as u16)
    } else {
        None
    }
}

fn port_digits(s: &Vec<char>, lo: usize) -> (r: Option<u16>)
    requires
        lo <= s.len(),
    ensures
        r == spec_port_digits(s@.skip(lo as int)),
{
    proof {
        assert(s@.subrange(lo as int, s@.len() as int) =~= s@.skip(lo as int));
    }
    match dec_value_capped(s, lo, s.len(), 65535) {
        Some(v) => Some(v as u16),
        None => None,
    }
}

/// A standalone port: decimal digits with an optional leading `+`.
pub open spec fn spec_parse_u16(s: Seq<char>) -> Option<u16> {
    let digits = if s.len() > 0 && s[0] == '+' {
        s.drop_first()
    } else {
        s
    };
    if all_dec_digits(digits) && dec_value(digits) <= 65535 {
        Some(dec_value(digits) as u16)
    } else {
        None
    }
}

/// Parses a standalone port number.
pub fn parse_port(s: &str) -> (r: Option<u16>)
    ensures
        r == spec_parse_u16(s@),
{
    let v = chars_of(s);
    let lo: usize = if v.len() > 0 && v[0] == '+' {
        1
    } else {
        0
    };
    proof {
        if v@.len() > 0 && v@[0] == '+' {
            assert(v@.subrange(1, v@.len() as int) =~= v@.drop_first());
        } else {
            assert(v@.subrange(0, v@.len() as int) =~= v@);
        }
    }
    match dec_value_capped(&v, lo, v.len(), 65535) {
        Some(x) => Some(x as u16),
        None => None,
    }
}

/// A combined address and port: `v4:port`, or `[v6]:port`.
pub open spec fn spec_parse_sockaddr(s: Seq<char>) -> Option<BindAddr> {
    if s.len() > 0 && s[0] == '[' {
        let j = spec_first_idx(s, ']');
        if 1 <= j && j + 1 < s.len() && s[j + 1] == ':' {
            match (spec_parse_ipv6(s.subrange(1, j)), spec_port_digits(s.skip(j + 2))) {
                (Some(ip), Some(p)) => Some(BindAddr { ip, port: p }),
                _ => None,
            }
        } else {
            None
        }
    } else {
        let j = spec_first_idx(s, ':');
        if 0 <= j && j < s.len() {
            match (spec_parse_ipv4(s.take(j)), spec_port_digits(s.skip(j + 1))) {
                (Some(ip), Some(p)) => Some(BindAddr { ip, port: p }),
                _ => None,
            }
        } else {
            None
        }
    }
}

fn parse_sockaddr_chars(s: &Vec<char>) -> (r: Option<BindAddr>)
    ensures
        r == spec_parse_sockaddr(s@),
{
    let n = s.len();
    if n > 0 && s[0] == '[' {
        let j = first_idx(s, ']');
        proof {
            lemma_first_idx_props(s@, ']');
        }
        if 1 <= j && j < n && j + 1 < n && s[j + 1] == ':' {
            let inner = subvec(s, 1, j);
            let ip = match parse_ipv6_chars(&inner) {
                Some(ip) => ip,
                None => {
                    return None;
                },
            };
            match port_digits(s, j + 2) {
                Some(p) => Some(BindAddr { ip, port: p }),
                None => None,
            }
        } else {
            None
        }
    } else {
        let j = first_idx(s, ':');
        proof {
            lemma_first_idx_props(s@, ':');
        }
        if j < n {
            let addr = subvec(s, 0, j);
            proof {
                assert(addr@ =~= s@.take(j as int));
            }
            let ip = match parse_ipv4_chars(&addr) {
                Some(ip) => ip,
                None => {
                    return None;
                },
            };
            match port_digits(s, j + 1) {
                Some(p) => Some(BindAddr { ip, port: p }),
                None => None,
            }
        } else {
            None
        }
    }
}

/// The bind target a configuration string names: a combined address and
/// port; an address alone, to which the default port applies; or a port
/// alone, to which the default address applies.
pub open spec fn spec_to_socket_addr(s: Seq<char>) -> Option<BindAddr> {
    if spec_parse_sockaddr(s) is Some {
        spec_parse_sockaddr(s)
    } else if spec_parse_ipv4(s) is Some {
        match spec_parse_ipv4(s) {
            Some(ip) => Some(BindAddr { ip, port: DEFAULT_PORT }),
            None => None,
        }
    } else if spec_parse_ipv6(s) is Some {
        match spec_parse_ipv6(s) {
            Some(ip) => Some(BindAddr { ip, port: DEFAULT_PORT }),
            None => None,
        }
    } else {
        match spec_parse_u16(s) {
            Some(p) => Some(BindAddr { ip: Ip::V4(0, 0, 0, 0), port: p }),
            None => None,
        }
    }
}

/// Resolves the configured bind target, or nothing when the input names
/// neither an address with port, an address, nor a port.
pub fn to_socket_addr(s: &str) -> (r: Option<BindAddr>)
    ensures
        r == spec_to_socket_addr(s@),
{
    let v = chars_of(s);
    match parse_sockaddr_chars(&v) {
        Some(a) => Some(a),
        None => match parse_ipv4_chars(&v) {
            Some(ip) => Some(BindAddr { ip, port: DEFAULT_PORT }),
            None => match parse_ipv6_chars(&v) {
                Some(ip) => Some(BindAddr { ip, port: DEFAULT_PORT }),
                None => match parse_port(s) {
                    Some(p) => Some(BindAddr { ip: Ip::V4(0, 0, 0, 0), port: p }),
                    None => None,
                },
            },
        },
    }
}

} // verus!
