//! Fixed-point numeric codec.
//!
//! Tensor entries are carried through the virtual machine as elements of the
//! prime field with modulus `PRIME` (a Mersenne prime). A real value is first
//! quantized to an integer multiple of `1 / SCALE` (its *raw* fixed-point
//! form), and the signed raw value is then folded into the field: non-negative
//! raws map to themselves, negative raws map to `PRIME + raw`. Decoding undoes
//! the fold, reading field elements at or below `HALF_RANGE` as non-negative.

use vstd::prelude::*;

verus! {

/// Field modulus: the Mersenne prime `2^31 - 1`.
pub const PRIME: u32 = 0x7fff_ffff;

/// Largest raw magnitude that survives an encode/decode round trip.
pub const HALF_RANGE: i64 = 0x3fff_ffff;

/// Denominator of the fixed-point representation: raw value `r` stands for
/// the real number `r / SCALE`.
pub const SCALE: i64 = 4096;

/// Field element that a raw fixed-point value encodes to.
pub open spec fn encode_spec(raw: int) -> int {
    if raw >= 0 {
        raw
    } else {
        raw + PRIME
    }
}

/// Raw fixed-point value that a field element decodes to.
pub open spec fn decode_spec(felt: int) -> int {
    if felt <= HALF_RANGE {
        felt
    } else {
        felt - PRIME
    }
}

/// Encodes a signed raw fixed-point value as a field element.
pub fn encode_fixed(raw: i64) -> (felt: u32)
    requires
        -HALF_RANGE <= raw <= HALF_RANGE,
    ensures
        felt < PRIME,
        felt == encode_spec(raw as int),
{
    if raw >= 0 {
        raw as u32
    } else {
        (raw + PRIME as i64) as u32
    }
}

/// Decodes a field element back to a signed raw fixed-point value.
pub fn decode_fixed(felt: u32) -> (raw: i64)
    requires
        felt < PRIME,
    ensures
        raw == decode_spec(felt as int),
{
    if felt <= HALF_RANGE as u32 {
        felt as i64
    } else {
        felt as i64 - PRIME as i64
    }
}

/// Round trip: decoding an encoded raw value gives the raw value back,
/// for every raw value in the representable range.
pub proof fn lemma_fixed_round_trip(raw: int)
    requires
        -HALF_RANGE <= raw <= HALF_RANGE,
    ensures
        decode_spec(encode_spec(raw)) == raw,
{
}

/// Field addition of two encoded values: the sum reduced at the modulus
/// boundary.
pub open spec fn fixed_add_spec(a: int, b: int) -> int {
    (a + b) % (PRIME as int)
}

/// Adds two field elements, wrapping at the modulus.
pub fn fixed_add(a: u32, b: u32) -> (r: u32)
    requires
        a < PRIME,
        b < PRIME,
    ensures
        r < PRIME,
        r == fixed_add_spec(a as int, b as int),
{
    let s: u64 = a as u64 + b as u64;
    proof {
        let p = PRIME as int;
        let t = a as int + b as int;
        if t >= p {
            assert(t % p == t - p) by (nonlinear_arith)
                requires
                    p <= t < 2 * p,
                    0 < p,
            ;
        } else {
            assert(t % p == t) by (nonlinear_arith)
                requires
                    0 <= t < p,
                    0 < p,
            ;
        }
    }
    if s >= PRIME as u64 {
        (s - PRIME as u64) as u32
    } else {
        s as u32
    }
}

/// Field addition agrees with integer addition of raw values: adding two
/// encoded raw values and decoding gives their exact sum, whenever the sum
/// is still representable.
pub proof fn lemma_fixed_add_exact(x: int, y: int)
    requires
        -HALF_RANGE <= x <= HALF_RANGE,
        -HALF_RANGE <= y <= HALF_RANGE,
        -HALF_RANGE <= x + y <= HALF_RANGE,
    ensures
        decode_spec(fixed_add_spec(encode_spec(x), encode_spec(y))) == x + y,
{
    let p = PRIME as int;
    let s = encode_spec(x) + encode_spec(y);
    if x >= 0 && y >= 0 {
        assert(s % p == s) by (nonlinear_arith)
            requires
                0 <= s < p,
                0 < p,
        ;
    } else if x < 0 && y < 0 {
        assert(s == x + y + 2 * p);
        assert(s % p == s - p) by (nonlinear_arith)
            requires
                p <= s < 2 * p,
                0 < p,
            ;
    } else {
        assert(s == x + y + p);
        if x + y >= 0 {
            assert(s % p == s - p) by (nonlinear_arith)
                requires
                    p <= s < 2 * p,
                    0 < p,
            ;
        } else {
            assert(s % p == s) by (nonlinear_arith)
                requires
                    0 <= s < p,
                    0 < p,
            ;
        }
    }
}

/// Raw fixed-point value nearest to the rational `num / den`, truncated
/// toward zero at scale `SCALE`.
pub open spec fn quantize_spec(num: int, den: int) -> int {
    if num >= 0 {
        (num * SCALE) / den
    } else {
        -(((-num) * SCALE) / den)
    }
}

/// Quantizes the rational `num / den` to a raw fixed-point value.
pub fn quantize(num: i64, den: i64) -> (q: i64)
    requires
        1 <= den,
        -0x4000_0000_0000 <= num <= 0x4000_0000_0000,
    ensures
        q == quantize_spec(num as int, den as int),
{
    let mag: u64 = if num >= 0 {
        num as u64
    } else {
        (-num) as u64
    };
    let q_mag: u64 = (mag * (SCALE as u64)) / (den as u64);
    proof {
        assert((q_mag as int) <= (mag as int) * (SCALE as int)) by (nonlinear_arith)
            requires
                1 <= den as int,
                0 <= mag as int,
                0 <= SCALE as int,
                q_mag as int == ((mag as int) * (SCALE as int)) / (den as int),
        ;
    }
    if num >= 0 {
        q_mag as i64
    } else {
        -(q_mag as i64)
    }
}

/// Truncation error of quantization: the quantized value differs from the
/// exact scaled rational by less than one unit in the last place.
pub proof fn lemma_quantize_error(num: int, den: int)
    requires
        1 <= den,
    ensures
        -den < num * SCALE - den * quantize_spec(num, den),
        num * SCALE - den * quantize_spec(num, den) < den,
{
    if num >= 0 {
        let m = num * (SCALE as int);
        let q = quantize_spec(num, den);
        assert(0 <= m) by (nonlinear_arith)
            requires
                0 <= num,
                0 < SCALE as int,
                m == num * (SCALE as int),
        ;
        vstd::arithmetic::div_mod::lemma_fundamental_div_mod(m, den);
        vstd::arithmetic::div_mod::lemma_mod_bound(m, den);
        assert(q == m / den);
        assert(den * q == den * (m / den));
        assert(-den < m - den * (m / den) < den);
    } else {
        let m = (-num) * (SCALE as int);
        let q = quantize_spec(num, den);
        assert(0 <= m) by (nonlinear_arith)
            requires
                0 <= -num,
                0 < SCALE as int,
                m == (-num) * (SCALE as int),
        ;
        vstd::arithmetic::div_mod::lemma_fundamental_div_mod(m, den);
        vstd::arithmetic::div_mod::lemma_mod_bound(m, den);
        assert(num * (SCALE as int) == -m) by (nonlinear_arith)
            requires
                m == (-num) * (SCALE as int),
        ;
        assert(q == -(m / den));
        assert(den * q == -(den * (m / den))) by (nonlinear_arith)
            requires
                q == -(m / den),
        ;
        assert(-den < (-m) - den * q < den);
    }
}

/// Round trip within one unit in the last place: quantizing a rational,
/// encoding the raw value and decoding it again lands within `1 / SCALE`
/// of the rational, for every rational whose quantization is representable.
pub proof fn lemma_codec_round_trip_ulp(num: int, den: int)
    requires
        1 <= den,
        -HALF_RANGE <= quantize_spec(num, den) <= HALF_RANGE,
    ensures
        -den < num * SCALE - den * decode_spec(encode_spec(quantize_spec(num, den))),
        num * SCALE - den * decode_spec(encode_spec(quantize_spec(num, den))) < den,
{
    lemma_fixed_round_trip(quantize_spec(num, den));
    lemma_quantize_error(num, den);
}

} // verus!
