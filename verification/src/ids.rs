//! Internal user identifiers.
//!
//! A user is identified by a 128-bit value, carried in session credentials as
//! the canonical lowercase hyphenated text form (eight, four, four, four and
//! twelve hex digits). Formatting and parsing are verified against the
//! spec-level digit layout.

use vstd::prelude::*;

verus! {

/// The opaque, stable internal identifier of a user record.
#[derive(Debug, Clone, Copy, PartialEq, Eq, Hash, Structural)]
pub struct UserId(pub u128);

/// The lowercase hex digit for a value below sixteen.
pub open spec fn hex_digit_char(v: int) -> char {
    if v == 0 {
        '0'
    } else if v == 1 {
        '1'
    } else if v == 2 {
        '2'
    } else if v == 3 {
        '3'
    } else if v == 4 {
        '4'
    } else if v == 5 {
        '5'
    } else if v == 6 {
        '6'
    } else if v == 7 {
        '7'
    } else if v == 8 {
        '8'
    } else if v == 9 {
        '9'
    } else if v == 10 {
        'a'
    } else if v == 11 {
        'b'
    } else if v == 12 {
        'c'
    } else if v == 13 {
        'd'
    } else if v == 14 {
        'e'
    } else {
        'f'
    }
}

/// Positions of the hyphens in the canonical text form.
pub open spec fn is_hyphen_pos(i: int) -> bool {
    i == 8 || i == 13 || i == 18 || i == 23
}

/// How many hyphens precede position `i`.
pub open spec fn hyphens_before(i: int) -> int {
    if i < 9 {
        0
    } else if i < 14 {
        1
    } else if i < 19 {
        2
    } else if i < 24 {
        3
    } else {
        4
    }
}

/// The nibble of `id` shown at digit index `d` (most significant first).
pub open spec fn nibble_of(id: u128, d: int) -> int {
    (id as int / pow16(31 - d)) % 16
}

/// Sixteen to the power `n`.
pub open spec fn pow16(n: int) -> int
    decreases n,
{
    if n <= 0 {
        1
    } else {
        16 * pow16(n - 1)
    }
}

/// The character at position `i` of the canonical text form.
pub open spec fn uuid_char_at(id: u128, i: int) -> char {
    if is_hyphen_pos(i) {
        '-'
    } else {
        hex_digit_char(nibble_of(id, i - hyphens_before(i)))
    }
}

/// The canonical lowercase hyphenated text form of `id`: thirty-six
/// characters, hyphens after the eighth, twelfth, sixteenth and twentieth
/// digit.
pub open spec fn uuid_chars(id: u128) -> Seq<char> {
    Seq::new(36, |i: int| uuid_char_at(id, i))
}

/// The lowercase hex digit character for a value below sixteen.
pub fn hex_digit_of(v: u128) -> (c: char)
    requires
        v < 16,
    ensures
        c == hex_digit_char(v as int),
{
    if v == 0 {
        '0'
    } else if v == 1 {
        '1'
    } else if v == 2 {
        '2'
    } else if v == 3 {
        '3'
    } else if v == 4 {
        '4'
    } else if v == 5 {
        '5'
    } else if v == 6 {
        '6'
    } else if v == 7 {
        '7'
    } else if v == 8 {
        '8'
    } else if v == 9 {
        '9'
    } else if v == 10 {
        'a'
    } else if v == 11 {
        'b'
    } else if v == 12 {
        'c'
    } else if v == 13 {
        'd'
    } else if v == 14 {
        'e'
    } else {
        'f'
    }
}

proof fn lemma_pow16_unfold(n: int)
    requires
        n >= 1,
    ensures
        pow16(n) == 16 * pow16(n - 1),
{
}

proof fn lemma_pow16_pos(n: int)
    ensures
        pow16(n) >= 1,
    decreases n,
{
    if n > 0 {
        lemma_pow16_pos(n - 1);
    }
}

proof fn lemma_pow16_32()
    ensures
        pow16(32) == 0x100000000000000000000000000000000,
{
    reveal_with_fuel(pow16, 33);
}

proof fn lemma_pow16_mono(a: int, b: int)
    requires
        0 <= a <= b,
    ensures
        pow16(a) <= pow16(b),
    decreases b - a,
{
    if a < b {
        lemma_pow16_mono(a, b - 1);
        lemma_pow16_pos(b - 1);
    }
}

/// The canonical text form of an identifier, proved against [`uuid_chars`].
#[verifier::loop_isolation(false)]
pub fn format_user_id(id: UserId) -> (r: Vec<char>)
    ensures
        r@ == uuid_chars(id.0),
{
    let mut rev: Vec<u8> = Vec::new();
    let mut x: u128 = id.0;
    let mut k: usize = 0;
    while k < 32
        invariant
            k <= 32,
            x == id.0 as int / pow16(k as int),
            rev@.len() == k,
            forall|j: int|
                0 <= j < k ==> #[trigger] rev@[j] == nibble_of(id.0, 31 - j) && rev@[j] < 16,
        decreases 32 - k,
    {
        proof {
            lemma_pow16_pos(k as int);
            lemma_pow16_unfold(k as int + 1);
            vstd::arithmetic::div_mod::lemma_div_denominator(
                id.0 as int,
                pow16(k as int),
                16,
            );
        }
        rev.push((x % 16) as u8);
        x = x / 16;
        k += 1;
    }
    let mut r: Vec<char> = Vec::new();
    let mut i: usize = 0;
    while i < 36
        invariant
            i <= 36,
            r@.len() == i,
            forall|t: int| 0 <= t < i ==> #[trigger] r@[t] == uuid_char_at(id.0, t),
        decreases 36 - i,
    {
        if i == 8 || i == 13 || i == 18 || i == 23 {
            r.push('-');
        } else {
            let hb: usize = if i < 9 {
                0
            } else if i < 14 {
                1
            } else if i < 19 {
                2
            } else if i < 24 {
                3
            } else {
                4
            };
            let d = i - hb;
            let nib = rev[31 - d];
            assert(rev@[31 - d as int] == nibble_of(id.0, d as int));
            r.push(hex_digit_of(nib as u128));
        }
        i += 1;
    }
    proof {
        assert(r@ =~= uuid_chars(id.0));
    }
    r
}

/// The position in the canonical text form of digit `d`.
pub open spec fn digit_pos(d: int) -> int {
    if d < 8 {
        d
    } else if d < 12 {
        d + 1
    } else if d < 16 {
        d + 2
    } else if d < 20 {
        d + 3
    } else {
        d + 4
    }
}

/// The thirty-two hex digits of a canonical text form, hyphens removed.
pub open spec fn strip_hyphens(s: Seq<char>) -> Seq<char> {
    Seq::new(32, |d: int| s[digit_pos(d)])
}

/// A canonical hyphenated form: hyphens in their four positions, hex digits
/// everywhere else.
pub open spec fn is_hyphenated_uuid(s: Seq<char>) -> bool {
    &&& s.len() == 36
    &&& forall|i: int|
        0 <= i < 36 && is_hyphen_pos(i) ==> #[trigger] s[i] == '-'
    &&& forall|d: int| 0 <= d < 32 ==> crate::net::is_hex_digit(#[trigger] s[digit_pos(d)])
}

/// Identifier-text parsing: the canonical hyphenated form, or the plain
/// thirty-two digit form.
pub open spec fn parse_uuid(s: Seq<char>) -> Option<u128> {
    if is_hyphenated_uuid(s) {
        Some(crate::net::hex_value(strip_hyphens(s)) as u128)
    } else if s.len() == 32 && crate::net::all_hex_digits(s) {
        Some(crate::net::hex_value(s) as u128)
    } else {
        None
    }
}

proof fn lemma_hex_value_bound32(s: Seq<char>)
    requires
        crate::net::all_hex_digits(s),
    ensures
        0 <= crate::net::hex_value(s) < pow16(s.len() as int),
    decreases s.len(),
{
    if s.len() > 0 {
        assert(forall|i: int|
            0 <= i < s.len() - 1 ==> crate::net::is_hex_digit(#[trigger] s.drop_last()[i]));
        lemma_hex_value_bound32(s.drop_last());
        lemma_pow16_unfold(s.len() as int);
    }
}

#[verifier::loop_isolation(false)]
fn hex_accumulate(s: &Vec<char>, positions_raw: bool) -> (r: Option<u128>)
    requires
        positions_raw ==> s@.len() == 32,
        !positions_raw ==> s@.len() == 36,
    ensures
        positions_raw ==> {
            &&& r is Some <==> crate::net::all_hex_digits(s@)
            &&& r matches Some(v) ==> v == crate::net::hex_value(s@) as u128
        },
        !positions_raw ==> {
            &&& r is Some <==> (forall|d: int|
                0 <= d < 32 ==> crate::net::is_hex_digit(#[trigger] s@[digit_pos(d)]))
            &&& r matches Some(v) ==> v == crate::net::hex_value(strip_hyphens(s@)) as u128
        },
{
    let ghost digits = if positions_raw {
        s@
    } else {
        strip_hyphens(s@)
    };
    let mut acc: u128 = 0;
    let mut d: usize = 0;
    while d < 32
        invariant
            d <= 32,
            acc == crate::net::hex_value(digits.take(d as int)),
            forall|j: int| 0 <= j < d ==> crate::net::is_hex_digit(#[trigger] digits[j]),
        decreases 32 - d,
    {
        let pos: usize = if positions_raw {
            d
        } else if d < 8 {
            d
        } else if d < 12 {
            d + 1
        } else if d < 16 {
            d + 2
        } else if d < 20 {
            d + 3
        } else {
            d + 4
        };
        assert(digits[d as int] == s@[pos as int]);
        let c = s[pos];
        let hv: u128 = if '0' <= c && c <= '9' {
            (c as u32 - '0' as u32) as u128
        } else if 'a' <= c && c <= 'f' {
            (c as u32 - 'a' as u32 + 10) as u128
        } else if 'A' <= c && c <= 'F' {
            (c as u32 - 'A' as u32 + 10) as u128
        } else {
            assert(!crate::net::is_hex_digit(digits[d as int]));
            return None;
        };
        proof {
            assert(hv == crate::net::hex_val(digits[d as int]));
            assert(forall|j: int|
                0 <= j < d ==> digits.take(d as int)[j] == digits[j]);
            lemma_hex_value_bound32(digits.take(d as int));
            lemma_pow16_mono(d as int, 31);
            lemma_pow16_32();
            lemma_pow16_unfold(32);
            assert(digits.take(d + 1 as int).drop_last() =~= digits.take(d as int));
            assert(digits.take(d + 1 as int).last() == digits[d as int]);
        }
        acc = acc * 16 + hv;
        d += 1;
    }
    proof {
        assert(digits.take(32) =~= digits);
        if !positions_raw {
            assert forall|t: int|
                0 <= t < 32 implies crate::net::is_hex_digit(#[trigger] s@[digit_pos(t)]) by {
                assert(digits[t] == s@[digit_pos(t)]);
            }
        }
    }
    Some(acc)
}

proof fn lemma_hex_digit_char_val(v: int)
    requires
        0 <= v < 16,
    ensures
        crate::net::is_hex_digit(hex_digit_char(v)),
        crate::net::hex_val(hex_digit_char(v)) == v,
{
}

proof fn lemma_digit_pos_inverts(d: int)
    requires
        0 <= d < 32,
    ensures
        !is_hyphen_pos(digit_pos(d)),
        0 <= digit_pos(d) < 36,
        digit_pos(d) - hyphens_before(digit_pos(d)) == d,
{
}

/// The hex digits of the canonical text form, in order.
spec fn nibble_digits(id: u128) -> Seq<char> {
    Seq::new(32, |d: int| hex_digit_char(nibble_of(id, d)))
}

proof fn lemma_uuid_chars_hyphenated(id: u128)
    ensures
        is_hyphenated_uuid(uuid_chars(id)),
        strip_hyphens(uuid_chars(id)) == nibble_digits(id),
{
    assert forall|d: int| 0 <= d < 32 implies crate::net::is_hex_digit(
        #[trigger] uuid_chars(id)[digit_pos(d)],
    ) && uuid_chars(id)[digit_pos(d)] == nibble_digits(id)[d] by {
        lemma_digit_pos_inverts(d);
        lemma_hex_digit_char_val(nibble_of(id, d));
        assert(uuid_chars(id)[digit_pos(d)] == uuid_char_at(id, digit_pos(d)));
    }
    assert(strip_hyphens(uuid_chars(id)) =~= nibble_digits(id));
}

proof fn lemma_hex_value_nibbles(id: u128, k: int)
    requires
        0 <= k <= 32,
    ensures
        crate::net::hex_value(nibble_digits(id).take(k)) == id as int / pow16(32 - k),
    decreases k,
{
    let digits = nibble_digits(id);
    if k == 0 {
        lemma_pow16_32();
        assert(digits.take(0) =~= Seq::<char>::empty());
        assert(id as int / pow16(32) == 0) by {
            vstd::arithmetic::div_mod::lemma_basic_div(id as int, pow16(32));
        }
    } else {
        lemma_hex_value_nibbles(id, k - 1);
        assert(digits.take(k).drop_last() =~= digits.take(k - 1));
        assert(digits.take(k).last() == digits[k - 1]);
        lemma_hex_digit_char_val(nibble_of(id, k - 1));
        lemma_pow16_pos(31 - k + 1);
        lemma_pow16_unfold(32 - k + 1);
        vstd::arithmetic::div_mod::lemma_div_denominator(id as int, pow16(31 - k + 1), 16);
        let q = id as int / pow16(31 - k + 1);
        assert(id as int / pow16(32 - k + 1) == q / 16);
        assert(q == (q / 16) * 16 + q % 16) by {
            vstd::arithmetic::div_mod::lemma_fundamental_div_mod(q, 16);
        }
        assert(crate::net::hex_value(digits.take(k)) == (q / 16) * 16 + q % 16);
    }
}

/// Law: parsing the canonical text form of an identifier returns exactly
/// that identifier — formatting and parsing are mutually inverse on every
/// identifier.
pub proof fn lemma_uuid_round_trip(id: u128)
    ensures
        parse_uuid(uuid_chars(id)) == Some(id),
{
    lemma_uuid_chars_hyphenated(id);
    lemma_hex_value_nibbles(id, 32);
    assert(nibble_digits(id).take(32) =~= nibble_digits(id));
    assert(pow16(0) == 1);
}

/// The identifier-text parser, proved against [`parse_uuid`].
pub fn parse_user_id(v: &Vec<char>) -> (r: Option<UserId>)
    ensures
        r is Some <==> parse_uuid(v@) is Some,
        r matches Some(u) ==> parse_uuid(v@) == Some(u.0),
{
    if v.len() == 36 {
        if !(v[8] == '-' && v[13] == '-' && v[18] == '-' && v[23] == '-') {
            assert(!is_hyphenated_uuid(v@));
            assert(v@.len() != 32);
            return None;
        }
        assert(forall|i: int| 0 <= i < 36 && is_hyphen_pos(i) ==> #[trigger] v@[i] == '-');
        match hex_accumulate(v, false) {
            Some(x) => {
                assert(is_hyphenated_uuid(v@));
                Some(UserId(x))
            },
            None => {
                assert(!is_hyphenated_uuid(v@));
                None
            },
        }
    } else if v.len() == 32 {
        match hex_accumulate(v, true) {
            Some(x) => Some(UserId(x)),
            None => None,
        }
    } else {
        None
    }
}

} // verus!
