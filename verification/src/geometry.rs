//! Hex-grid geometry: decoding the signed 16-bit two's-complement hex fields
//! of a world coordinate, and cube-coordinate distance.

use vstd::prelude::*;

verus! {

use vstd::math::abs;
use crate::types::Location;

/// Value of one hexadecimal digit, or 16 when the character is not one.
pub open spec fn hex_digit_value(c: char) -> int {
    if '0' <= c && c <= '9' {
        c as int - '0' as int
    } else if 'a' <= c && c <= 'f' {
        10 + (c as int - 'a' as int)
    } else if 'A' <= c && c <= 'F' {
        10 + (c as int - 'A' as int)
    } else {
        16
    }
}

pub open spec fn is_hex_digit(c: char) -> bool {
    hex_digit_value(c) < 16
}

pub open spec fn all_hex_digits(s: Seq<char>) -> bool {
    forall|i: int| 0 <= i < s.len() ==> is_hex_digit(#[trigger] s[i])
}

/// Value of a string of hexadecimal digits, most significant first.
pub open spec fn hex_value(s: Seq<char>) -> int
    decreases s.len(),
{
    if s.len() == 0 {
        0
    } else {
        hex_value(s.drop_last()) * 16 + hex_digit_value(s.last())
    }
}

/// A leading `0x` marker is accepted and ignored.
pub open spec fn strip_hex_prefix(s: Seq<char>) -> Seq<char> {
    if s.len() >= 2 && s[0] == '0' && s[1] == 'x' {
        s.subrange(2, s.len() as int)
    } else {
        s
    }
}

/// Decoded value of one coordinate field: the field, less an optional `0x`
/// prefix, read as an unsigned 16-bit hexadecimal number and reinterpreted as
/// two's complement. A field that is not such a number decodes to `i32::MAX`.
pub open spec fn decode_hex_field(s: Seq<char>) -> int {
    let d = strip_hex_prefix(s);
    if d.len() > 0 && all_hex_digits(d) && hex_value(d) <= 0xffff {
        if hex_value(d) >= 0x8000 {
            hex_value(d) - 0x10000
        } else {
            hex_value(d)
        }
    } else {
        i32::MAX as int
    }
}

proof fn lemma_hex_value_nonneg(s: Seq<char>)
    ensures
        hex_value(s) >= 0,
    decreases s.len(),
{
    if s.len() > 0 {
        lemma_hex_value_nonneg(s.drop_last());
    }
}

fn hex_digit(c: char) -> (v: u8)
    ensures
        v as int == hex_digit_value(c),
{
    if '0' <= c && c <= '9' {
        (c as u32 - '0' as u32) as u8
    } else if 'a' <= c && c <= 'f' {
        (10 + (c as u32 - 'a' as u32)) as u8
    } else if 'A' <= c && c <= 'F' {
        (10 + (c as u32 - 'A' as u32)) as u8
    } else {
        16
    }
}

/// Decodes one hexadecimal coordinate field to a signed integer, returning
/// `i32::MAX` when the field cannot be read as an unsigned 16-bit number.
pub fn hex_twos_complement_to_i32(hex: &str) -> (v: i32)
    ensures
        v as int == decode_hex_field(hex@),
{
    let n = hex.unicode_len();
    let start: usize = if n >= 2 && hex.get_char(0) == '0' && hex.get_char(1) == 'x' {
        2
    } else {
        0
    };
    let ghost digits = strip_hex_prefix(hex@);
    proof {
        assert(digits =~= hex@.subrange(start as int, n as int));
    }
    if start == n {
        return i32::MAX;
    }
    // The accumulator tracks the value of the digits read so far, saturated
    // at 0x10000 so that any overflow of the 16-bit range is remembered.
    let mut acc: u32 = 0;
    let mut i: usize = start;
    while i < n
        invariant
            start <= i <= n,
            n == hex@.len(),
            start + digits.len() == n,
            digits == strip_hex_prefix(hex@),
            digits =~= hex@.subrange(start as int, n as int),
            all_hex_digits(hex@.subrange(start as int, i as int)),
            acc == if hex_value(hex@.subrange(start as int, i as int)) <= 0xffff {
                hex_value(hex@.subrange(start as int, i as int))
            } else {
                0x10000int
            },
        decreases n - i,
    {
        let c = hex.get_char(i);
        let d = hex_digit(c);
        if d >= 16 {
            proof {
                assert(digits[i - start] == hex@[i as int]);
                assert(!is_hex_digit(digits[i - start]));
            }
            return i32::MAX;
        }
        let ghost prev = hex@.subrange(start as int, i as int);
        let ghost cur = hex@.subrange(start as int, i as int + 1);
        proof {
            assert(cur.drop_last() =~= prev);
            assert(cur.last() == hex@[i as int]);
            lemma_hex_value_nonneg(prev);
        }
        acc = acc * 16 + d as u32;
        if acc > 0xffff {
            acc = 0x10000;
        }
        i = i + 1;
    }
    proof {
        assert(hex@.subrange(start as int, n as int) =~= digits);
        lemma_hex_value_nonneg(digits);
    }
    if acc > 0xffff {
        i32::MAX
    } else if acc >= 0x8000 {
        (acc as i32) - 0x10000
    } else {
        acc as i32
    }
}

/// A position on the hex grid in cube coordinates.
#[derive(Clone, Copy, PartialEq, Eq, Structural, Debug)]
pub struct Cube {
    pub q: i32,
    pub r: i32,
    pub s: i32,
}

/// Cube coordinates decoded from a 16-bit field always lie in this range;
/// the arithmetic of `add`, `subtract` and `distance` cannot overflow on them.
pub open spec fn cube_bounded(c: Cube) -> bool {
    &&& -0x8000 <= c.q <= 0x7fff
    &&& -0x8000 <= c.r <= 0x7fff
    &&& -0x8000 <= c.s <= 0x7fff
}

/// Hex distance between two cube coordinates.
pub open spec fn spec_distance(a: Cube, b: Cube) -> int {
    ((abs(a.q - b.q) + abs(a.r - b.r) + abs(a.s - b.s)) as int) / 2
}

fn abs_diff(a: i32, b: i32) -> (d: i32)
    requires
        -0x8000 <= a <= 0x7fff,
        -0x8000 <= b <= 0x7fff,
    ensures
        d == abs(a - b),
{
    if a >= b {
        a - b
    } else {
        b - a
    }
}

impl Cube {
    /// Decodes the three coordinate fields of a raw location; a field that
    /// cannot be decoded yields the `i32::MAX` marker in its place.
    pub fn new(loc: &Location) -> (c: Cube)
        ensures
            c.q as int == decode_hex_field(loc.1@),
            c.r as int == decode_hex_field(loc.2@),
            c.s as int == decode_hex_field(loc.3@),
    {
        Cube {
            q: hex_twos_complement_to_i32(loc.1.as_str()),
            r: hex_twos_complement_to_i32(loc.2.as_str()),
            s: hex_twos_complement_to_i32(loc.3.as_str()),
        }
    }

    pub fn add(&self, other: &Cube) -> (c: Cube)
        requires
            cube_bounded(*self),
            cube_bounded(*other),
        ensures
            c.q == self.q + other.q,
            c.r == self.r + other.r,
            c.s == self.s + other.s,
    {
        Cube { q: self.q + other.q, r: self.r + other.r, s: self.s + other.s }
    }

    pub fn subtract(&self, other: &Cube) -> (c: Cube)
        requires
            cube_bounded(*self),
            cube_bounded(*other),
        ensures
            c.q == self.q - other.q,
            c.r == self.r - other.r,
            c.s == self.s - other.s,
    {
        Cube { q: self.q - other.q, r: self.r - other.r, s: self.s - other.s }
    }

    /// Hex distance: half the sum of the coordinate differences' magnitudes.
    pub fn distance(&self, other: &Cube) -> (d: i32)
        requires
            cube_bounded(*self),
            cube_bounded(*other),
        ensures
            d == spec_distance(*self, *other),
    {
        let dq = abs_diff(self.q, other.q);
        let dr = abs_diff(self.r, other.r);
        let ds = abs_diff(self.s, other.s);
        (dq + dr + ds) / 2
    }
}

/// The distance from a position to itself is zero.
pub proof fn lemma_distance_self(a: Cube)
    ensures
        spec_distance(a, a) == 0,
{
}

/// Distance is symmetric.
pub proof fn lemma_distance_symmetric(a: Cube, b: Cube)
    ensures
        spec_distance(a, b) == spec_distance(b, a),
{
}

} // verus!
