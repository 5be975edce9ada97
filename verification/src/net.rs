//! Client network addresses and trust-boundary resolution.
//!
//! A client address is either a 32-bit IPv4 value or a 128-bit IPv6 value.
//! Proxy-forwarded headers are client-supplied: the resolver uses their first
//! parseable entry as a best-effort bucketing key for rate limiting and audit
//! logging, and always falls back to the raw peer address.

use vstd::prelude::*;
use crate::text::{
    all_digits, copy_range, dec_value, digit_val, is_digit, split_on, split_vec, to_chars,
    trim_spec, trim_vec, views_of, TrimClass,
};

verus! {

/// One resolved client network address.
#[derive(Debug, Clone, Copy, PartialEq, Eq, Hash, Structural)]
pub enum IpAddress {
    V4(u32),
    V6(u128),
}

/// Hexadecimal digits, either case.
pub open spec fn is_hex_digit(c: char) -> bool {
    is_digit(c) || ('a' <= c && c <= 'f') || ('A' <= c && c <= 'F')
}

pub open spec fn hex_val(c: char) -> int {
    if is_digit(c) {
        digit_val(c)
    } else if 'a' <= c && c <= 'f' {
        c as int - 'a' as int + 10
    } else {
        c as int - 'A' as int + 10
    }
}

/// The numeric value of a hex-digit string, most significant digit first.
pub open spec fn hex_value(s: Seq<char>) -> int
    decreases s.len(),
{
    if s.len() == 0 {
        0
    } else {
        hex_value(s.drop_last()) * 16 + hex_val(s.last())
    }
}

pub open spec fn all_hex_digits(s: Seq<char>) -> bool {
    forall|i: int| 0 <= i < s.len() ==> is_hex_digit(#[trigger] s[i])
}

/// One dotted-quad octet: one to three digits, no leading zero, value at
/// most 255.
pub open spec fn is_dec_octet(p: Seq<char>) -> bool {
    &&& 1 <= p.len() <= 3
    &&& all_digits(p)
    &&& (p.len() > 1 ==> p[0] != '0')
    &&& dec_value(p) <= 255
}

/// One 16-bit IPv6 group: one to four hex digits.
pub open spec fn is_h16(p: Seq<char>) -> bool {
    1 <= p.len() <= 4 && all_hex_digits(p)
}

/// Dotted-quad IPv4 parsing: four octets separated by dots.
pub open spec fn parse_ipv4(s: Seq<char>) -> Option<u32> {
    let parts = split_on(s, '.');
    if parts.len() == 4 && is_dec_octet(parts[0]) && is_dec_octet(parts[1]) && is_dec_octet(
        parts[2],
    ) && is_dec_octet(parts[3]) {
        Some(
            (dec_value(parts[0]) * 0x1000000 + dec_value(parts[1]) * 0x10000 + dec_value(parts[2])
                * 0x100 + dec_value(parts[3])) as u32,
        )
    } else {
        None
    }
}

/// A double colon starts at position `i` of `s`.
pub open spec fn dc_at(s: Seq<char>, i: int) -> bool {
    0 <= i && i + 1 < s.len() && s[i] == ':' && s[i + 1] == ':'
}

/// `s` holds exactly one double colon.
pub open spec fn has_unique_dc(s: Seq<char>) -> bool {
    &&& exists|i: int| dc_at(s, i)
    &&& forall|i: int, j: int| dc_at(s, i) && dc_at(s, j) ==> i == j
}

pub open spec fn the_dc(s: Seq<char>) -> int {
    choose|i: int| dc_at(s, i)
}

/// Every part is a 16-bit group.
pub open spec fn all_h16(parts: Seq<Seq<char>>) -> bool {
    forall|i: int| 0 <= i < parts.len() ==> is_h16(#[trigger] parts[i])
}

/// The group values of one side of a double colon: the empty side stands for
/// no groups; otherwise every colon-separated part must be a 16-bit group.
pub open spec fn side_groups(s: Seq<char>) -> Option<Seq<int>> {
    if s.len() == 0 {
        Some(Seq::<int>::empty())
    } else if all_h16(split_on(s, ':')) {
        Some(split_on(s, ':').map_values(|p: Seq<char>| hex_value(p)))
    } else {
        None
    }
}

/// The two 16-bit groups an embedded dotted-quad tail contributes.
pub open spec fn v4_groups(v: u32) -> Seq<int> {
    seq![v as int / 0x10000, v as int % 0x10000]
}

/// The group values of the tail of an address: as [`side_groups`], except
/// that the last colon-separated part may be a dotted quad, standing for
/// the final two groups.
pub open spec fn side_groups_v4(s: Seq<char>) -> Option<Seq<int>> {
    if s.len() == 0 {
        Some(Seq::<int>::empty())
    } else if all_h16(split_on(s, ':')) {
        Some(split_on(s, ':').map_values(|p: Seq<char>| hex_value(p)))
    } else if all_h16(split_on(s, ':').drop_last()) && parse_ipv4(
        split_on(s, ':').last(),
    ) is Some {
        Some(
            split_on(s, ':').drop_last().map_values(|p: Seq<char>| hex_value(p)) + v4_groups(
                parse_ipv4(split_on(s, ':').last()).unwrap(),
            ),
        )
    } else {
        None
    }
}

/// Sixteen bits per group, most significant group first.
pub open spec fn fold_groups(gs: Seq<int>) -> int
    decreases gs.len(),
{
    if gs.len() == 0 {
        0
    } else {
        fold_groups(gs.drop_last()) * 0x10000 + gs.last()
    }
}

/// IPv6 parsing: eight colon-separated 16-bit groups, or two sides around a
/// single double colon that stands for the missing zero groups; the address
/// may end in an embedded dotted quad carrying the last two groups.
pub open spec fn parse_ipv6(s: Seq<char>) -> Option<u128> {
    if has_unique_dc(s) {
        let i = the_dc(s);
        let left = side_groups(s.take(i));
        let right = side_groups_v4(s.skip(i + 2));
        if left is Some && right is Some && left.unwrap().len() + right.unwrap().len() <= 7 {
            Some(
                fold_groups(
                    left.unwrap() + Seq::new(
                        (8 - left.unwrap().len() - right.unwrap().len()) as nat,
                        |k: int| 0,
                    ) + right.unwrap(),
                ) as u128,
            )
        } else {
            None
        }
    } else if side_groups_v4(s) is Some && side_groups_v4(s).unwrap().len() == 8 {
        Some(fold_groups(side_groups_v4(s).unwrap()) as u128)
    } else {
        None
    }
}

/// Address parsing: the dotted-quad grammar, else the IPv6 grammar.
pub open spec fn parse_ip_spec(s: Seq<char>) -> Option<IpAddress> {
    if parse_ipv4(s) is Some {
        Some(IpAddress::V4(parse_ipv4(s).unwrap()))
    } else if parse_ipv6(s) is Some {
        Some(IpAddress::V6(parse_ipv6(s).unwrap()))
    } else {
        None
    }
}

spec fn ten_pow(n: nat) -> int
    decreases n,
{
    if n == 0 {
        1
    } else {
        10 * ten_pow((n - 1) as nat)
    }
}

proof fn lemma_dec_value_bound(s: Seq<char>)
    requires
        all_digits(s),
    ensures
        0 <= dec_value(s) < ten_pow(s.len()),
    decreases s.len(),
{
    if s.len() > 0 {
        assert(all_digits(s.drop_last())) by {
            assert(forall|i: int|
                0 <= i < s.len() - 1 ==> is_digit(#[trigger] s.drop_last()[i]) == is_digit(s[i]));
        }
        lemma_dec_value_bound(s.drop_last());
    }
}

spec fn g16pow(n: nat) -> int
    decreases n,
{
    if n == 0 {
        1
    } else {
        0x10000 * g16pow((n - 1) as nat)
    }
}

proof fn lemma_fold_groups_bound(gs: Seq<int>)
    requires
        forall|k: int| 0 <= k < gs.len() ==> 0 <= #[trigger] gs[k] < 0x10000,
    ensures
        0 <= fold_groups(gs) < g16pow(gs.len()),
    decreases gs.len(),
{
    if gs.len() > 0 {
        assert(forall|k: int|
            0 <= k < gs.len() - 1 ==> 0 <= #[trigger] gs.drop_last()[k] < 0x10000);
        lemma_fold_groups_bound(gs.drop_last());
    }
}

#[verifier::loop_isolation(false)]
fn parse_octet(p: &Vec<char>) -> (r: Option<u32>)
    ensures
        r is Some <==> is_dec_octet(p@),
        r matches Some(v) ==> v == dec_value(p@),
{
    if p.len() < 1 || p.len() > 3 {
        return None;
    }
    if p.len() > 1 && p[0] == '0' {
        return None;
    }
    let mut acc: u32 = 0;
    let mut i: usize = 0;
    while i < p.len()
        invariant
            i <= p@.len() <= 3,
            acc == dec_value(p@.take(i as int)),
            acc < 1000,
            forall|j: int| 0 <= j < i ==> is_digit(#[trigger] p@[j]),
        decreases p@.len() - i,
    {
        let c = p[i];
        if !('0' <= c && c <= '9') {
            assert(!is_digit(p@[i as int]));
            return None;
        }
        proof {
            assert(all_digits(p@.take(i as int))) by {
                assert(forall|j: int|
                    0 <= j < i ==> p@.take(i as int)[j] == p@[j]);
            }
            lemma_dec_value_bound(p@.take(i as int));
            assert(ten_pow(0) == 1);
            assert(ten_pow(1) == 10);
            assert(ten_pow(2) == 100);
            if i == 0 {
                assert(acc < 1);
            } else if i == 1 {
                assert(acc < 10);
            } else {
                assert(acc < 100);
            }
            assert(p@.take(i + 1 as int).drop_last() =~= p@.take(i as int));
            assert(p@.take(i + 1 as int).last() == p@[i as int]);
        }
        acc = acc * 10 + (c as u32 - '0' as u32);
        i += 1;
    }
    assert(p@.take(p@.len() as int) =~= p@);
    if acc <= 255 {
        Some(acc)
    } else {
        None
    }
}

fn hex_digit_value(c: char) -> (r: Option<u32>)
    ensures
        r is Some <==> is_hex_digit(c),
        r matches Some(v) ==> v == hex_val(c),
{
    if '0' <= c && c <= '9' {
        Some(c as u32 - '0' as u32)
    } else if 'a' <= c && c <= 'f' {
        Some(c as u32 - 'a' as u32 + 10)
    } else if 'A' <= c && c <= 'F' {
        Some(c as u32 - 'A' as u32 + 10)
    } else {
        None
    }
}

#[verifier::loop_isolation(false)]
fn parse_h16(p: &Vec<char>) -> (r: Option<u32>)
    ensures
        r is Some <==> is_h16(p@),
        r matches Some(v) ==> v == hex_value(p@) && v < 0x10000,
{
    if p.len() < 1 || p.len() > 4 {
        return None;
    }
    let mut acc: u32 = 0;
    let mut i: usize = 0;
    while i < p.len()
        invariant
            i <= p@.len() <= 4,
            acc == hex_value(p@.take(i as int)),
            acc < 0x10000,
            forall|j: int| 0 <= j < i ==> is_hex_digit(#[trigger] p@[j]),
        decreases p@.len() - i,
    {
        let c = p[i];
        let d = match hex_digit_value(c) {
            Some(d) => d,
            None => {
                assert(!is_hex_digit(p@[i as int]));
                return None;
            },
        };
        proof {
            assert(all_hex_digits(p@.take(i as int))) by {
                assert(forall|j: int|
                    0 <= j < i ==> p@.take(i as int)[j] == p@[j]);
            }
            lemma_hex_value_bound(p@.take(i as int));
            assert(hex16pow(0) == 1);
            assert(hex16pow(1) == 16);
            assert(hex16pow(2) == 256);
            assert(hex16pow(3) == 4096);
            if i == 0 {
                assert(acc < 1);
            } else if i == 1 {
                assert(acc < 16);
            } else if i == 2 {
                assert(acc < 256);
            } else {
                assert(acc < 4096);
            }
            assert(p@.take(i + 1 as int).drop_last() =~= p@.take(i as int));
            assert(p@.take(i + 1 as int).last() == p@[i as int]);
        }
        acc = acc * 16 + d;
        i += 1;
    }
    assert(p@.take(p@.len() as int) =~= p@);
    Some(acc)
}

spec fn hex16pow(n: nat) -> int
    decreases n,
{
    if n == 0 {
        1
    } else {
        16 * hex16pow((n - 1) as nat)
    }
}

proof fn lemma_hex_value_bound(s: Seq<char>)
    requires
        all_hex_digits(s),
    ensures
        0 <= hex_value(s) < hex16pow(s.len()),
    decreases s.len(),
{
    if s.len() > 0 {
        assert(forall|i: int|
            0 <= i < s.len() - 1 ==> is_hex_digit(#[trigger] s.drop_last()[i]) == is_hex_digit(
                s[i],
            ));
        lemma_hex_value_bound(s.drop_last());
    }
}

/// The dotted-quad parser, proved against [`parse_ipv4`].
#[verifier::loop_isolation(false)]
pub fn parse_ipv4_chars(v: &Vec<char>) -> (r: Option<u32>)
    ensures
        r == parse_ipv4(v@),
{
    let parts = split_vec(v, '.');
    if parts.len() != 4 {
        return None;
    }
    assert(views_of(parts@)[0] == parts@[0]@);
    assert(views_of(parts@)[1] == parts@[1]@);
    assert(views_of(parts@)[2] == parts@[2]@);
    assert(views_of(parts@)[3] == parts@[3]@);
    let a = match parse_octet(&parts[0]) {
        Some(x) => x,
        None => { return None },
    };
    let b = match parse_octet(&parts[1]) {
        Some(x) => x,
        None => { return None },
    };
    let c = match parse_octet(&parts[2]) {
        Some(x) => x,
        None => { return None },
    };
    let d = match parse_octet(&parts[3]) {
        Some(x) => x,
        None => { return None },
    };
    Some(a * 0x1000000 + b * 0x10000 + c * 0x100 + d)
}

enum DcScan {
    Zero,
    One(usize),
    Many,
}

#[verifier::loop_isolation(false)]
fn scan_dc(v: &Vec<char>) -> (r: DcScan)
    ensures
        r matches DcScan::One(i) ==> dc_at(v@, i as int) && forall|j: int|
            dc_at(v@, j) ==> j == i,
        r matches DcScan::One(i) ==> has_unique_dc(v@) && the_dc(v@) == i,
        (r is Zero || r is Many) ==> !has_unique_dc(v@),
{
    let ghost s = v@;
    let mut i: usize = 0;
    let mut found: Option<usize> = None;
    while i < v.len() && i + 1 < v.len()
        invariant
            s == v@,
            i <= v@.len(),
            found matches Some(f) ==> f < i && dc_at(s, f as int) && forall|j: int|
                dc_at(s, j) && j < i ==> j == f,
            found is None ==> forall|j: int| j < i ==> !dc_at(s, j),
        decreases v@.len() - i,
    {
        if v[i] == ':' && v[i + 1] == ':' {
            match found {
                None => {
                    found = Some(i);
                },
                Some(f) => {
                    assert(dc_at(s, f as int) && dc_at(s, i as int) && f != i);
                    assert(!has_unique_dc(s)) by {
                        if has_unique_dc(s) {
                            assert(f as int == i as int);
                        }
                    }
                    return DcScan::Many;
                },
            }
        }
        i += 1;
    }
    proof {
        assert(forall|j: int| dc_at(s, j) ==> j < i);
    }
    match found {
        None => {
            assert(forall|j: int| !dc_at(s, j));
            DcScan::Zero
        },
        Some(f) => {
            proof {
                assert(dc_at(s, f as int));
                assert(forall|j: int| dc_at(s, j) ==> j == f);
                let k = the_dc(s);
                assert(dc_at(s, k));
            }
            DcScan::One(f)
        },
    }
}

#[verifier::loop_isolation(false)]
fn parse_side(side: &Vec<char>, allow_v4_tail: bool) -> (r: Option<Vec<u32>>)
    ensures
        !allow_v4_tail ==> ({
            &&& (r is Some <==> side_groups(side@) is Some)
            &&& (r matches Some(g) ==> side_groups(side@) == Some(
                g@.map_values(|x: u32| x as int),
            ))
        }),
        allow_v4_tail ==> ({
            &&& (r is Some <==> side_groups_v4(side@) is Some)
            &&& (r matches Some(g) ==> side_groups_v4(side@) == Some(
                g@.map_values(|x: u32| x as int),
            ))
        }),
        r matches Some(g) ==> forall|k: int| 0 <= k < g@.len() ==> #[trigger] g@[k] < 0x10000,
{
    if side.len() == 0 {
        let g: Vec<u32> = Vec::new();
        assert(g@.map_values(|x: u32| x as int) =~= Seq::<int>::empty());
        return Some(g);
    }
    let parts = split_vec(side, ':');
    let ghost ps = split_on(side@, ':');
    let mut g: Vec<u32> = Vec::new();
    let mut i: usize = 0;
    while i < parts.len()
        invariant
            views_of(parts@) == ps,
            ps == split_on(side@, ':'),
            i <= parts@.len(),
            g@.len() == i,
            forall|k: int| 0 <= k < i ==> is_h16(#[trigger] ps[k]),
            forall|k: int| 0 <= k < i ==> #[trigger] g@[k] < 0x10000 && g@[k] == hex_value(ps[k]),
        decreases parts@.len() - i,
    {
        assert(views_of(parts@)[i as int] == parts@[i as int]@);
        match parse_h16(&parts[i]) {
            Some(x) => {
                g.push(x);
            },
            None => {
                proof {
                    assert(!is_h16(ps[i as int]));
                    assert(!all_h16(ps));
                    assert(side@.len() != 0);
                }
                if allow_v4_tail && i + 1 == parts.len() {
                    proof {
                        assert(ps.last() == ps[i as int]);
                        assert(all_h16(ps.drop_last())) by {
                            assert(forall|k: int|
                                0 <= k < ps.len() - 1 ==> ps.drop_last()[k] == ps[k]);
                        }
                    }
                    match parse_ipv4_chars(&parts[i]) {
                        Some(v) => {
                            g.push(v / 0x10000);
                            g.push(v % 0x10000);
                            proof {
                                assert(parse_ipv4(ps.last()) == Some(v));
                                assert(forall|k: int|
                                    0 <= k < ps.len() - 1 ==> ps.drop_last()[k] == ps[k]);
                                assert(g@.map_values(|x: u32| x as int) =~= ps.drop_last()
                                    .map_values(|p: Seq<char>| hex_value(p)) + v4_groups(v));
                            }
                            return Some(g);
                        },
                        None => {
                            proof {
                                assert(parse_ipv4(ps.last()) is None);
                                assert(side_groups_v4(side@) is None);
                            }
                            return None;
                        },
                    }
                } else {
                    proof {
                        assert(side_groups(side@) is None);
                        if allow_v4_tail {
                            assert(i + 1 < ps.len());
                            assert(ps.drop_last()[i as int] == ps[i as int]);
                            assert(!all_h16(ps.drop_last()));
                            assert(side_groups_v4(side@) is None);
                        }
                    }
                    return None;
                }
            },
        }
        i += 1;
    }
    proof {
        assert(all_h16(ps));
        assert(g@.map_values(|x: u32| x as int) =~= ps.map_values(|p: Seq<char>| hex_value(p)));
    }
    Some(g)
}

#[verifier::loop_isolation(false)]
fn fold_groups_exec(g: &Vec<u32>) -> (r: u128)
    requires
        g@.len() <= 8,
        forall|k: int| 0 <= k < g@.len() ==> #[trigger] g@[k] < 0x10000,
    ensures
        r == fold_groups(g@.map_values(|x: u32| x as int)),
{
    let ghost gs = g@.map_values(|x: u32| x as int);
    let mut acc: u128 = 0;
    let mut i: usize = 0;
    while i < g.len()
        invariant
            gs == g@.map_values(|x: u32| x as int),
            g@.len() <= 8,
            forall|k: int| 0 <= k < g@.len() ==> #[trigger] g@[k] < 0x10000,
            i <= g@.len(),
            acc == fold_groups(gs.take(i as int)),
            acc < g16pow(i as nat),
        decreases g@.len() - i,
    {
        proof {
            assert(forall|k: int|
                0 <= k < i ==> 0 <= #[trigger] gs.take(i as int)[k] < 0x10000);
            lemma_fold_groups_bound(gs.take(i as int));
            assert(g16pow(0) == 1);
            assert(g16pow(1) == 0x10000);
            assert(g16pow(2) == 0x100000000);
            assert(g16pow(3) == 0x1000000000000);
            assert(g16pow(4) == 0x10000000000000000);
            assert(g16pow(5) == 0x100000000000000000000);
            assert(g16pow(6) == 0x1000000000000000000000000);
            assert(g16pow(7) == 0x10000000000000000000000000000);
            if i == 0 {
                assert(acc < 1);
            } else if i == 1 {
                assert(acc < 0x10000);
            } else if i == 2 {
                assert(acc < 0x100000000);
            } else if i == 3 {
                assert(acc < 0x1000000000000);
            } else if i == 4 {
                assert(acc < 0x10000000000000000);
            } else if i == 5 {
                assert(acc < 0x100000000000000000000);
            } else if i == 6 {
                assert(acc < 0x1000000000000000000000000);
            } else {
                assert(acc < 0x10000000000000000000000000000);
            }
            assert(gs.take(i + 1 as int).drop_last() =~= gs.take(i as int));
            assert(gs.take(i + 1 as int).last() == gs[i as int]);
        }
        acc = acc * 0x10000 + (g[i] as u128);
        i += 1;
    }
    assert(gs.take(g@.len() as int) =~= gs);
    acc
}

/// The IPv6 parser, proved against [`parse_ipv6`].
#[verifier::loop_isolation(false)]
pub fn parse_ipv6_chars(v: &Vec<char>) -> (r: Option<u128>)
    ensures
        r == parse_ipv6(v@),
{
    match scan_dc(v) {
        DcScan::One(i) => {
            assert(dc_at(v@, i as int));
            let n = v.len();
            let left = copy_range(v, 0, i);
            let right = copy_range(v, i + 2, n);
            proof {
                assert(left@ =~= v@.take(i as int));
                assert(right@ =~= v@.skip(i + 2 as int));
            }
            let lg = match parse_side(&left, false) {
                Some(x) => x,
                None => { return None },
            };
            let rg = match parse_side(&right, true) {
                Some(x) => x,
                None => { return None },
            };
            if lg.len() > 7 || rg.len() > 7 || lg.len() + rg.len() > 7 {
                return None;
            }
            let fill = 8 - lg.len() - rg.len();
            let mut full: Vec<u32> = Vec::new();
            let mut j: usize = 0;
            while j < lg.len()
                invariant
                    j <= lg@.len(),
                    full@ == lg@.subrange(0, j as int),
                decreases lg@.len() - j,
            {
                full.push(lg[j]);
                assert(full@ =~= lg@.subrange(0, j + 1 as int));
                j += 1;
            }
            let mut k: usize = 0;
            while k < fill
                invariant
                    k <= fill,
                    full@.len() == lg@.len() + k,
                    full@.subrange(0, lg@.len() as int) == lg@,
                    forall|t: int| lg@.len() <= t < full@.len() ==> #[trigger] full@[t] == 0u32,
                decreases fill - k,
            {
                full.push(0u32);
                assert(full@.subrange(0, lg@.len() as int) =~= lg@);
                k += 1;
            }
            let base = full.len();
            let mut m: usize = 0;
            while m < rg.len()
                invariant
                    m <= rg@.len(),
                    base == lg@.len() + fill,
                    full@.len() == base + m,
                    full@.subrange(0, lg@.len() as int) == lg@,
                    forall|t: int| lg@.len() <= t < base ==> #[trigger] full@[t] == 0u32,
                    full@.subrange(base as int, full@.len() as int) == rg@.subrange(0, m as int),
                decreases rg@.len() - m,
            {
                full.push(rg[m]);
                assert(full@.subrange(0, lg@.len() as int) =~= lg@);
                assert(full@.subrange(base as int, full@.len() as int) =~= rg@.subrange(
                    0,
                    m + 1 as int,
                ));
                m += 1;
            }
            proof {
                let lgi = lg@.map_values(|x: u32| x as int);
                let rgi = rg@.map_values(|x: u32| x as int);
                let zeros = Seq::new((8 - lgi.len() - rgi.len()) as nat, |t: int| 0int);
                assert(rg@.subrange(0, rg@.len() as int) =~= rg@);
                assert(full@.len() == 8);
                assert forall|t: int| 0 <= t < full@.len() implies #[trigger] full@[t]
                    < 0x10000 by {
                    if t < lg@.len() {
                        assert(full@[t] == full@.subrange(0, lg@.len() as int)[t]);
                    } else if t >= base {
                        assert(full@[t] == full@.subrange(base as int, full@.len() as int)[t
                            - base]);
                    }
                }
                assert forall|t: int| 0 <= t < 8 implies full@.map_values(|x: u32| x as int)[t]
                    == (lgi + zeros + rgi)[t] by {
                    if t < lg@.len() {
                        assert(full@[t] == full@.subrange(0, lg@.len() as int)[t]);
                    } else if t >= base {
                        assert(full@[t] == full@.subrange(base as int, full@.len() as int)[t
                            - base]);
                    }
                }
                assert(full@.map_values(|x: u32| x as int) =~= lgi + zeros + rgi);
            }
            Some(fold_groups_exec(&full))
        },
        _ => {
            let g = match parse_side(v, true) {
                Some(x) => x,
                None => { return None },
            };
            if g.len() != 8 {
                return None;
            }
            Some(fold_groups_exec(&g))
        },
    }
}

/// The address parser, proved against [`parse_ip_spec`].
pub fn parse_ip(v: &Vec<char>) -> (r: Option<IpAddress>)
    ensures
        r == parse_ip_spec(v@),
{
    match parse_ipv4_chars(v) {
        Some(x) => Some(IpAddress::V4(x)),
        None => match parse_ipv6_chars(v) {
            Some(x) => Some(IpAddress::V6(x)),
            None => None,
        },
    }
}

/// What an `X-Forwarded-For` value resolves to: its first comma-separated
/// entry, trimmed, when that entry parses as an address.
pub open spec fn xff_resolution(h: Seq<char>) -> Option<IpAddress> {
    parse_ip_spec(trim_spec(TrimClass::Whitespace, split_on(h, ',')[0]))
}

/// The characters of a `for=` parameter prefix.
pub open spec fn for_prefix() -> Seq<char> {
    seq!['f', 'o', 'r', '=']
}

pub open spec fn flat_split(segs: Seq<Seq<char>>) -> Seq<Seq<char>>
    decreases segs.len(),
{
    if segs.len() == 0 {
        Seq::<Seq<char>>::empty()
    } else {
        split_on(segs[0], ',') + flat_split(segs.skip(1))
    }
}

proof fn lemma_flat_split_push(segs: Seq<Seq<char>>, x: Seq<char>)
    ensures
        flat_split(segs.push(x)) == flat_split(segs) + split_on(x, ','),
    decreases segs.len(),
{
    if segs.len() == 0 {
        assert(segs.push(x)[0] == x);
        assert(segs.push(x).skip(1) =~= Seq::<Seq<char>>::empty());
        assert(flat_split(Seq::<Seq<char>>::empty()) == Seq::<Seq<char>>::empty());
        assert(flat_split(segs.push(x)) =~~= flat_split(segs) + split_on(x, ','));
    } else {
        assert(segs.push(x)[0] == segs[0]);
        assert(segs.push(x).skip(1) =~= segs.skip(1).push(x));
        lemma_flat_split_push(segs.skip(1), x);
        assert(flat_split(segs) == split_on(segs[0], ',') + flat_split(segs.skip(1)));
        assert(flat_split(segs.push(x)) == split_on(segs[0], ',') + flat_split(
            segs.skip(1).push(x),
        ));
        assert(flat_split(segs.push(x)) =~~= flat_split(segs) + split_on(x, ','));
    }
}

/// The parameters of a `Forwarded` value: its segments split at semicolons,
/// each further split at commas, in order.
pub open spec fn fwd_parts(h: Seq<char>) -> Seq<Seq<char>> {
    flat_split(split_on(h, ';'))
}

/// What a `Forwarded` value resolves to: the first parameter carrying a
/// `for=` whose unquoted, unbracketed value parses as an address.
pub open spec fn fwd_resolution(parts: Seq<Seq<char>>) -> Option<IpAddress>
    decreases parts.len(),
{
    if parts.len() == 0 {
        None
    } else {
        let t = trim_spec(TrimClass::Whitespace, parts[0]);
        if t.len() >= 4 && t.take(4) == for_prefix() {
            if parse_ip_spec(trim_spec(TrimClass::QuoteBracket, t.skip(4))) is Some {
                parse_ip_spec(trim_spec(TrimClass::QuoteBracket, t.skip(4)))
            } else {
                fwd_resolution(parts.skip(1))
            }
        } else {
            fwd_resolution(parts.skip(1))
        }
    }
}

/// The resolved client address: the forwarded-for header's first entry when
/// it parses, else the first parseable `for=` parameter of the standardized
/// forwarded header, else the raw peer address.
pub open spec fn spec_resolve(
    peer: IpAddress,
    xff: Option<Seq<char>>,
    fwd: Option<Seq<char>>,
) -> IpAddress {
    if xff is Some && xff_resolution(xff.unwrap()) is Some {
        xff_resolution(xff.unwrap()).unwrap()
    } else if fwd is Some && fwd_resolution(fwd_parts(fwd.unwrap())) is Some {
        fwd_resolution(fwd_parts(fwd.unwrap())).unwrap()
    } else {
        peer
    }
}

/// The view of an optional header value.
pub open spec fn opt_view(o: Option<&String>) -> Option<Seq<char>> {
    match o {
        Some(s) => Some(s@),
        None => None,
    }
}

/// Derives the trusted client address from the raw peer address and the
/// proxy-forwarded headers. Resolution always succeeds; an absent or
/// unparseable header falls back to the peer address. The headers are
/// client-supplied and feed only rate limiting and audit logging, never
/// authorization.
#[verifier::loop_isolation(false)]
pub fn resolve_client_ip(
    peer: IpAddress,
    forwarded_for: Option<&String>,
    forwarded: Option<&String>,
) -> (r: IpAddress)
    ensures
        r == spec_resolve(peer, opt_view(forwarded_for), opt_view(forwarded)),
{
    if let Some(h) = forwarded_for {
        let chars = to_chars(h.as_str());
        let parts = split_vec(&chars, ',');
        assert(views_of(parts@)[0] == parts@[0]@);
        let first = trim_vec(&parts[0], TrimClass::Whitespace);
        if let Some(ip) = parse_ip(&first) {
            return ip;
        }
    }
    if let Some(h) = forwarded {
        let chars = to_chars(h.as_str());
        let segs = split_vec(&chars, ';');
        let ghost ss = split_on(h@, ';');
        let mut parts: Vec<Vec<char>> = Vec::new();
        let mut i: usize = 0;
        while i < segs.len()
            invariant
                views_of(segs@) == ss,
                ss == split_on(h@, ';'),
                i <= segs@.len(),
                views_of(parts@) == flat_split(ss.take(i as int)),
            decreases segs@.len() - i,
        {
            assert(views_of(segs@)[i as int] == segs@[i as int]@);
            let mut sub = split_vec(&segs[i], ',');
            proof {
                lemma_flat_split_push(ss.take(i as int), ss[i as int]);
                assert(ss.take(i as int).push(ss[i as int]) =~= ss.take(i + 1 as int));
            }
            parts.append(&mut sub);
            assert(views_of(parts@) =~~= flat_split(ss.take(i + 1 as int)));
            i += 1;
        }
        proof {
            assert(ss.take(ss.len() as int) =~= ss);
        }
        let ghost all = fwd_parts(h@);
        assert(views_of(parts@) == all);
        proof {
            assert(all.skip(0) =~= all);
        }
        let mut j: usize = 0;
        while j < parts.len()
            invariant
                views_of(parts@) == all,
                j <= parts@.len(),
                fwd_resolution(all) == fwd_resolution(all.skip(j as int)),
            decreases parts@.len() - j,
        {
            assert(views_of(parts@)[j as int] == parts@[j as int]@);
            assert(all.skip(j as int)[0] == all[j as int]);
            let t = trim_vec(&parts[j], TrimClass::Whitespace);
            let mut is_for = false;
            if t.len() >= 4 {
                if t[0] == 'f' && t[1] == 'o' && t[2] == 'r' && t[3] == '=' {
                    is_for = true;
                }
            }
            proof {
                if t@.len() >= 4 {
                    assert(t@.take(4)[0] == t@[0]);
                    assert(t@.take(4)[1] == t@[1]);
                    assert(t@.take(4)[2] == t@[2]);
                    assert(t@.take(4)[3] == t@[3]);
                    if is_for {
                        assert(t@.take(4) =~= for_prefix());
                    } else {
                        assert(t@.take(4) != for_prefix());
                    }
                }
            }
            if is_for {
                let rest = copy_range(&t, 4, t.len());
                assert(rest@ =~= t@.skip(4));
                let cand = trim_vec(&rest, TrimClass::QuoteBracket);
                if let Some(ip) = parse_ip(&cand) {
                    proof {
                        assert(t@ == trim_spec(TrimClass::Whitespace, all.skip(j as int)[0]));
                        assert(cand@ == trim_spec(TrimClass::QuoteBracket, t@.skip(4)));
                        assert(parse_ip_spec(cand@) == Some(ip));
                        assert(fwd_resolution(all.skip(j as int)) == Some(ip));
                        assert(fwd_resolution(all) == Some(ip));
                    }
                    return ip;
                }
            }
            proof {
                assert(all.skip(j as int).skip(1) =~= all.skip(j + 1 as int));
            }
            j += 1;
        }
        proof {
            assert(all.skip(parts@.len() as int) =~= Seq::<Seq<char>>::empty());
        }
    }
    peer
}

} // verus!
