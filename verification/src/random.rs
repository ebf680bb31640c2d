//! The procedural value generator: a deterministic map from a
//! (style, identity, tag) seed to a 64-bit value, and the numeric and
//! color ranges derived from it.
//!
//! The hash is FNV-1a over the UTF-8 bytes of style, identity and tag in
//! that order, starting from state 0. Identical seeds give identical
//! values on every machine: nothing here reads time, randomness or the
//! environment.

use vstd::prelude::*;
use vstd::string::StringExecFns;
use vstd::utf8::encode_utf8;

verus! {

/// The FNV-1a 64-bit multiplier.
pub const FNV_PRIME: u64 = 0x100000001b3;

/// One FNV-1a round: fold one byte into the running state.
pub open spec fn fnv1a_step(h: u64, b: u8) -> u64 {
    (h ^ (b as u64)).wrapping_mul(FNV_PRIME)
}

/// FNV-1a over a byte sequence, starting from state `h`.
pub open spec fn fnv1a_from(h: u64, bytes: Seq<u8>) -> u64
    decreases bytes.len(),
{
    if bytes.len() == 0 {
        h
    } else {
        fnv1a_from(fnv1a_step(h, bytes[0]), bytes.skip(1))
    }
}

/// The bytes a seed hashes: the UTF-8 encodings of style, identity and
/// tag, concatenated. Only the combination of all three determines the
/// result.
pub open spec fn seed_bytes(style: Seq<char>, name: Seq<char>, tag: Seq<char>) -> Seq<u8> {
    encode_utf8(style) + encode_utf8(name) + encode_utf8(tag)
}

/// The 64-bit procedural value of a seed.
pub open spec fn seed_hash(style: Seq<char>, name: Seq<char>, tag: Seq<char>) -> u64 {
    fnv1a_from(0, seed_bytes(style, name, tag))
}

proof fn lemma_fnv1a_concat(h: u64, a: Seq<u8>, b: Seq<u8>)
    ensures
        fnv1a_from(h, a + b) == fnv1a_from(fnv1a_from(h, a), b),
    decreases a.len(),
{
    if a.len() == 0 {
        assert(a + b =~= b);
    } else {
        assert((a + b)[0] == a[0]);
        assert((a + b).skip(1) =~= a.skip(1) + b);
        lemma_fnv1a_concat(fnv1a_step(h, a[0]), a.skip(1), b);
    }
}

fn fnv_extend(h0: u64, bytes: &[u8]) -> (r: u64)
    ensures
        r == fnv1a_from(h0, bytes@),
{
    let mut h = h0;
    let mut i: usize = 0;
    proof {
        assert(bytes@.skip(0) =~= bytes@);
    }
    while i < bytes.len()
        invariant
            i <= bytes@.len(),
            fnv1a_from(h, bytes@.skip(i as int)) == fnv1a_from(h0, bytes@),
        decreases bytes@.len() - i,
    {
        proof {
            assert(bytes@.skip(i as int)[0] == bytes@[i as int]);
            assert(bytes@.skip(i as int).skip(1) =~= bytes@.skip(i as int + 1));
        }
        h = (h ^ (bytes[i] as u64)).wrapping_mul(FNV_PRIME);
        i = i + 1;
    }
    proof {
        assert(bytes@.skip(bytes@.len() as int) =~= Seq::<u8>::empty());
    }
    h
}

/// The deterministic 64-bit value of a (style, identity, tag) seed.
pub fn hash(style: &str, name: &str, tag: &str) -> (r: u64)
    ensures
        r == seed_hash(style@, name@, tag@),
{
    let h = fnv_extend(0, style.as_bytes());
    let h = fnv_extend(h, name.as_bytes());
    let h = fnv_extend(h, tag.as_bytes());
    proof {
        lemma_fnv1a_concat(0, encode_utf8(style@), encode_utf8(name@));
        lemma_fnv1a_concat(
            0,
            encode_utf8(style@) + encode_utf8(name@),
            encode_utf8(tag@),
        );
        assert((encode_utf8(style@) + encode_utf8(name@)) + encode_utf8(tag@)
            =~= seed_bytes(style@, name@, tag@));
    }
    h
}

/// The one way a procedural number request can fail: a zero bound.
#[derive(Clone, Copy, Debug, PartialEq, Eq, Structural)]
pub enum SeedError {
    ZeroMax,
}

/// A procedural number in `[0, max)` for the given seed. A bound of zero
/// is an error, never a silent wrap.
pub fn number(style: &str, name: &str, tag: &str, max: u64) -> (r: Result<u64, SeedError>)
    ensures
        max == 0 ==> r == Result::<u64, SeedError>::Err(SeedError::ZeroMax),
        max > 0 ==> r == Result::<u64, SeedError>::Ok(seed_hash(style@, name@, tag@) % max),
        r is Ok ==> r->Ok_0 < max,
{
    if max == 0 {
        return Err(SeedError::ZeroMax);
    }
    let data = hash(style, name, tag);
    Ok(data % max)
}

/// The hue a seed value decomposes to: the full circle `[0, 360)`.
pub open spec fn spec_hue(data: u64) -> int {
    data as int % 360
}

/// The saturation a seed value decomposes to: always in `[70, 90)`.
pub open spec fn spec_sat(data: u64) -> int {
    (data as int / 360) % 20 + 70
}

/// The value (lightness) a seed value decomposes to: always in `[55, 75)`.
pub open spec fn spec_val(data: u64) -> int {
    ((data as int / 360) / 20) % 20 + 55
}

/// The color ranges hold for every seed value: hue spans the circle,
/// saturation stays in `[70, 90)` and value in `[55, 75)`.
pub proof fn lemma_color_ranges(data: u64)
    ensures
        0 <= spec_hue(data) < 360,
        70 <= spec_sat(data) < 90,
        55 <= spec_val(data) < 75,
{
}

/// The (hue, saturation, value) triple of a seed, by successive
/// modulo/divide decomposition of its 64-bit value.
pub fn color_data(style: &str, name: &str, tag: &str) -> (r: (u64, u64, u64))
    ensures
        r.0 == spec_hue(seed_hash(style@, name@, tag@)),
        r.1 == spec_sat(seed_hash(style@, name@, tag@)),
        r.2 == spec_val(seed_hash(style@, name@, tag@)),
{
    let mut data = hash(style, name, tag);
    let h = data % 360;
    data = data / 360;
    let s = data % 20 + 70;
    data = data / 20;
    let v = data % 20 + 55;
    (h, s, v)
}

/// The digit character of one decimal digit.
pub open spec fn dec_digit(d: int) -> char {
    if d == 0 {
        '0'
    } else if d == 1 {
        '1'
    } else if d == 2 {
        '2'
    } else if d == 3 {
        '3'
    } else if d == 4 {
        '4'
    } else if d == 5 {
        '5'
    } else if d == 6 {
        '6'
    } else if d == 7 {
        '7'
    } else if d == 8 {
        '8'
    } else {
        '9'
    }
}

/// The decimal rendering of a nonnegative integer, without leading zeros
/// (a lone zero renders as "0").
pub open spec fn dec_seq(n: int) -> Seq<char>
    decreases n,
{
    if n < 10 {
        seq![dec_digit(n)]
    } else {
        dec_seq(n / 10).push(dec_digit(n % 10))
    }
}

/// The `hsl(H, S%, V%)` color string of a (hue, saturation, value) triple.
pub open spec fn hsl_seq(h: int, s: int, v: int) -> Seq<char> {
    "hsl("@ + dec_seq(h) + ", "@ + dec_seq(s) + "%, "@ + dec_seq(v) + "%)"@
}

fn digit_str(d: u64) -> (r: &'static str)
    requires
        d < 10,
    ensures
        r@ =~= seq![dec_digit(d as int)],
{
    proof {
        reveal_strlit("0");
        reveal_strlit("1");
        reveal_strlit("2");
        reveal_strlit("3");
        reveal_strlit("4");
        reveal_strlit("5");
        reveal_strlit("6");
        reveal_strlit("7");
        reveal_strlit("8");
        reveal_strlit("9");
    }
    if d == 0 {
        "0"
    } else if d == 1 {
        "1"
    } else if d == 2 {
        "2"
    } else if d == 3 {
        "3"
    } else if d == 4 {
        "4"
    } else if d == 5 {
        "5"
    } else if d == 6 {
        "6"
    } else if d == 7 {
        "7"
    } else if d == 8 {
        "8"
    } else {
        "9"
    }
}

fn push_dec(out: &mut String, n: u64)
    ensures
        final(out)@ == old(out)@ + dec_seq(n as int),
    decreases n,
{
    if n >= 10 {
        push_dec(out, n / 10);
    }
    out.append(digit_str(n % 10));
    proof {
        if n >= 10 {
            assert(old(out)@ + dec_seq(n as int / 10) + seq![dec_digit(n as int % 10)]
                =~= old(out)@ + dec_seq(n as int));
        } else {
            assert(old(out)@ + seq![dec_digit(n as int)] =~= old(out)@ + dec_seq(n as int));
        }
    }
}

fn format_hsl(h: u64, s: u64, v: u64) -> (r: String)
    ensures
        r@ == hsl_seq(h as int, s as int, v as int),
{
    let mut out = String::new();
    out.append("hsl(");
    push_dec(&mut out, h);
    out.append(", ");
    push_dec(&mut out, s);
    out.append("%, ");
    push_dec(&mut out, v);
    out.append("%)");
    proof {
        assert(out@ =~= hsl_seq(h as int, s as int, v as int));
    }
    out
}

/// The procedural color of a seed, formatted as `hsl(H, S%, V%)`.
pub fn color(style: &str, name: &str, tag: &str) -> (r: String)
    ensures
        r@ == hsl_seq(
            spec_hue(seed_hash(style@, name@, tag@)),
            spec_sat(seed_hash(style@, name@, tag@)),
            spec_val(seed_hash(style@, name@, tag@)),
        ),
{
    let (h, s, v) = color_data(style, name, tag);
    format_hsl(h, s, v)
}

/// The procedural color of a seed with its hue rotated a half turn:
/// the same saturation and value as `color`, hue moved by 180 modulo 360.
pub fn inverted_color(style: &str, name: &str, tag: &str) -> (r: String)
    ensures
        r@ == hsl_seq(
            (spec_hue(seed_hash(style@, name@, tag@)) + 180) % 360,
            spec_sat(seed_hash(style@, name@, tag@)),
            spec_val(seed_hash(style@, name@, tag@)),
        ),
{
    let (h, s, v) = color_data(style, name, tag);
    let h = (h + 180) % 360;
    format_hsl(h, s, v)
}

} // verus!
