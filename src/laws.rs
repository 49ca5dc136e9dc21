//! Laws that tie the operations together.
use crate::bounds::{lemma_pow10_add, lemma_pow10_positive, pow10};
use crate::error::DurationError;
use crate::codec::{decode_spec, encode_spec, i64_bytes, lemma_i64_bytes_round_trip};
use crate::duration::Duration;
use crate::model::{
    div_trunc, duration_of_value, from_bits_spec, from_micros_spec, lemma_split_magnitude, rounded, max_nat, pack, parse_spec,
    literal_parts, round_micros, split_magnitude, DurationModel, MAX_MAGNITUDE,
};
use crate::parser::parse_literal;
use vstd::arithmetic::div_mod::{
    lemma_fundamental_div_mod, lemma_fundamental_div_mod_converse, lemma_mod_mod,
    lemma_mod_multiples_basic, lemma_mod_multiples_vanish,
};
use vstd::prelude::*;
use vstd::std_specs::cmp::{PartialEqSpec, PartialOrdSpec};

verus! {

/// Splitting a magnitude keeps it.
pub proof fn lemma_split_keeps_magnitude(neg: bool, t: nat, fsp: nat)
    ensures
        split_magnitude(neg, t, fsp).magnitude() == t,
        split_magnitude(neg, t, fsp).is_zero() ==> !split_magnitude(neg, t, fsp).neg,
{
    lemma_fundamental_div_mod(t as int, 1_000_000);
    lemma_fundamental_div_mod((t / 1_000_000) as int, 60);
    lemma_fundamental_div_mod((t / 1_000_000 / 60) as int, 60);
}

/// Rounding digits that are already zero beyond the precision changes nothing.
proof fn lemma_round_aligned(micros: nat, fsp: nat)
    requires
        micros < 1_000_000,
        fsp <= 6,
        micros % pow10((6 - fsp) as nat) == 0,
    ensures
        round_micros(micros * 10, fsp) == micros,
{
    let unit = pow10((6 - fsp) as nat);
    lemma_pow10_positive((6 - fsp) as nat);
    let k = micros / unit;
    lemma_fundamental_div_mod(micros as int, unit as int);
    assert(micros * 10 + 5 * unit == k * (10 * unit) + 5 * unit) by (nonlinear_arith)
        requires
            micros == unit * k,
    ;
    lemma_fundamental_div_mod_converse(
        (micros * 10 + 5 * unit) as int,
        (10 * unit) as int,
        k as int,
        (5 * unit) as int,
    );
    assert(k * unit == micros) by (nonlinear_arith)
        requires
            micros == unit * k,
    ;
}

/// Encoding a duration that parsing or a conversion produced and decoding the
/// bytes gives the same duration back.
pub proof fn lemma_codec_round_trip(d: DurationModel)
    requires
        d.wf(),
        d.aligned(),
    ensures
        decode_spec(encode_spec(d)) == Ok::<DurationModel, DurationError>(d),
{
    let nanos = (d.value() * 1000) as i64;
    assert(d.value() * 1000 == nanos);
    let b = encode_spec(d);
    assert(b.subrange(0, 8) =~= i64_bytes(nanos));
    assert(b.subrange(8, 16) =~= i64_bytes(d.fsp as i64));
    lemma_i64_bytes_round_trip(nanos);
    lemma_i64_bytes_round_trip(d.fsp as i64);
    assert(div_trunc(nanos as int, 1000) == d.value());
    let t = d.magnitude();
    lemma_split_magnitude(d.neg, d.hours, d.minutes, d.secs, d.micros, d.fsp);
    lemma_round_aligned(d.micros, d.fsp);
    assert((d.fsp as i64) as i8 == d.fsp);
}

/// An hour count of 838, 59 minutes, 59 seconds and 999_999 microseconds is the
/// largest magnitude; adding any positive duration to it overflows.
pub proof fn lemma_add_to_max_overflows(a: DurationModel, b: DurationModel)
    requires
        a.wf(),
        b.wf(),
        !a.neg,
        a.magnitude() == MAX_MAGNITUDE,
        b.value() > 0,
    ensures
        duration_of_value(a.value() + b.value(), max_nat(a.fsp, b.fsp)) is None,
{
}

/// Durations with the same signed length are equal, compare equal and hash
/// alike, whatever their precisions.
pub proof fn lemma_precision_ignored(a: Duration, b: Duration)
    requires
        a@.wf(),
        b@.wf(),
        a@.value() == b@.value(),
    ensures
        a.eq_spec(&b),
        a.partial_cmp_spec(&b) == Some(core::cmp::Ordering::Equal),
        a@.neg == b@.neg,
        a@.hours == b@.hours,
        a@.minutes == b@.minutes,
        a@.secs == b@.secs,
        a@.micros == b@.micros,
        pack(a@.neg && !a@.is_zero(), a@.hours as u64, a@.minutes as u64, a@.secs as u64, a@.micros as u64, 0)
            == pack(b@.neg && !b@.is_zero(), b@.hours as u64, b@.minutes as u64, b@.secs as u64, b@.micros as u64, 0),
{
    let (x, y) = (a@, b@);
    lemma_split_magnitude(x.neg, x.hours, x.minutes, x.secs, x.micros, x.fsp);
    lemma_split_magnitude(y.neg, y.hours, y.minutes, y.secs, y.micros, y.fsp);
    assert(x.magnitude() == y.magnitude());
}

/// A literal whose magnitude comes out zero parses to a duration that is not
/// negative, whatever sign it was written with.
pub proof fn lemma_parsed_zero_not_negative(s: Seq<u8>, fsp: i8)
    requires
        parse_spec(s, fsp) is Ok,
        parse_spec(s, fsp)->Ok_0.is_zero(),
    ensures
        !parse_spec(s, fsp)->Ok_0.neg,
{
    let d = parse_spec(s, fsp)->Ok_0;
    lemma_split_keeps_magnitude(d.neg, d.magnitude(), d.fsp);
}

/// Each field of the bit layout reads back what was packed into it.
proof fn lemma_pack_fields(n: u64, h: u64, m: u64, s: u64, us: u64, f: u64)
    requires
        n <= 1,
        h <= 0x3fff,
        m <= 0xff,
        s <= 0xff,
        us <= 0xff_ffff,
        f <= 0xff,
    ensures
        (pack(n == 1, h, m, s, us, f) >> 63u64) == n,
        (pack(n == 1, h, m, s, us, f) >> 48u64) & 0x3fffu64 == h,
        (pack(n == 1, h, m, s, us, f) >> 40u64) & 0xffu64 == m,
        (pack(n == 1, h, m, s, us, f) >> 32u64) & 0xffu64 == s,
        (pack(n == 1, h, m, s, us, f) >> 8u64) & 0xff_ffffu64 == us,
        pack(n == 1, h, m, s, us, f) & 0xffu64 == f,
{
    let x = pack(n == 1, h, m, s, us, f);
    assert(x == n << 63u64 | (h & 0x3fffu64) << 48u64 | (m & 0xffu64) << 40u64 | (s & 0xffu64)
        << 32u64 | (us & 0xff_ffffu64) << 8u64 | f & 0xffu64);
    assert(n <= 1 && h <= 0x3fff && m <= 0xff && s <= 0xff && us <= 0xff_ffff && f <= 0xff ==> {
        let y = n << 63u64 | (h & 0x3fffu64) << 48u64 | (m & 0xffu64) << 40u64 | (s & 0xffu64)
            << 32u64 | (us & 0xff_ffffu64) << 8u64 | f & 0xffu64;
        &&& (y >> 63u64) == n
        &&& (y >> 48u64) & 0x3fffu64 == h
        &&& (y >> 40u64) & 0xffu64 == m
        &&& (y >> 32u64) & 0xffu64 == s
        &&& (y >> 8u64) & 0xff_ffffu64 == us
        &&& y & 0xffu64 == f
    }) by (bit_vector);
}

/// Reading back the bit layout of a duration gives the duration.
pub proof fn lemma_bits_round_trip(d: DurationModel)
    requires
        d.wf(),
        d.fsp <= 0xff,
    ensures
        from_bits_spec(
            pack(
                d.neg,
                d.hours as u64,
                d.minutes as u64,
                d.secs as u64,
                d.micros as u64,
                d.fsp as u64,
            ),
        ) == Ok::<DurationModel, DurationError>(d),
{
    let n: u64 = if d.neg { 1 } else { 0 };
    lemma_pack_fields(n, d.hours as u64, d.minutes as u64, d.secs as u64, d.micros as u64, d.fsp as u64);
    assert((n == 1) == d.neg);
}

/// Whatever fields go in, a successful rounding gives a duration in range
/// whose microseconds carry no digit beyond its precision. The sub-second part
/// `us` is in tenths of a microsecond.
pub proof fn lemma_rounded_valid(neg: bool, h: nat, m: nat, s: nat, us: nat, fsp: nat)
    requires
        fsp <= 6,
        rounded(neg, h, m, s, us, fsp) is Ok,
    ensures
        rounded(neg, h, m, s, us, fsp)->Ok_0.wf(),
        rounded(neg, h, m, s, us, fsp)->Ok_0.aligned(),
{
    let r = round_micros(us, fsp);
    let b = (h * 60 + m) * 60 + s;
    let t = b * 1_000_000 + r;
    let unit = pow10((6 - fsp) as nat);
    lemma_pow10_positive((6 - fsp) as nat);
    lemma_pow10_positive(fsp);
    lemma_pow10_add((6 - fsp) as nat, fsp);
    assert((6 - fsp) + fsp == 6);
    lemma_pow10_six();
    lemma_mod_multiples_basic(((us + 5 * unit) / (10 * unit)) as int, unit as int);
    lemma_mod_multiples_vanish(b as int, r as int, 1_000_000);
    lemma_mod_mod(r as int, unit as int, pow10(fsp) as int);
    lemma_split_keeps_magnitude(neg, t, fsp);
}

proof fn lemma_pow10_six()
    ensures
        pow10(6) == 1_000_000,
{
    reveal_with_fuel(pow10, 7);
}

/// Encoding a parsed duration and decoding the bytes gives it back.
pub proof fn lemma_parsed_round_trip(s: Seq<u8>, fsp: i8)
    requires
        parse_spec(s, fsp) is Ok,
    ensures
        decode_spec(encode_spec(parse_spec(s, fsp)->Ok_0)) == parse_spec(s, fsp),
{
    let l = parse_literal(s, fsp as nat)->Some_0;
    let (h, m, sec, us) = literal_parts(l)->Ok_0;
    lemma_rounded_valid(l.neg, h, m, sec, us, fsp as nat);
    lemma_codec_round_trip(parse_spec(s, fsp)->Ok_0);
}

/// Encoding a duration built from nanoseconds and decoding the bytes gives it
/// back.
pub proof fn lemma_from_nanos_round_trip(nanos: i64, fsp: i8)
    requires
        from_micros_spec(div_trunc(nanos as int, 1000), fsp) is Ok,
    ensures
        decode_spec(encode_spec(from_micros_spec(div_trunc(nanos as int, 1000), fsp)->Ok_0))
            == from_micros_spec(div_trunc(nanos as int, 1000), fsp),
{
    let v = div_trunc(nanos as int, 1000);
    let t = (if v < 0 { -v } else { v }) as nat;
    lemma_rounded_valid(
        v < 0,
        t / 1_000_000 / 60 / 60,
        t / 1_000_000 / 60 % 60,
        t / 1_000_000 % 60,
        t % 1_000_000 * 10,
        fsp as nat,
    );
    lemma_codec_round_trip(from_micros_spec(v, fsp)->Ok_0);
}

} // verus!
