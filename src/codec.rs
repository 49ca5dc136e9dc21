//! The wire form of a duration: its signed nanoseconds, then its precision,
//! each as eight bytes that sort as the integers do.
use crate::duration::{result_view, Duration};
use crate::model::{div_trunc, from_micros_spec, DurationModel};
use crate::error::DurationError;
use vstd::prelude::*;
use vstd::slice::slice_subrange;

verus! {

/// The sign bit of a 64-bit integer.
pub const SIGN_MASK: u64 = 0x8000_0000_0000_0000;

/// The bytes of `u`, most significant first.
pub open spec fn u64_bytes(u: u64) -> Seq<u8> {
    seq![
        (u >> 56u64) as u8,
        (u >> 48u64) as u8,
        (u >> 40u64) as u8,
        (u >> 32u64) as u8,
        (u >> 24u64) as u8,
        (u >> 16u64) as u8,
        (u >> 8u64) as u8,
        u as u8,
    ]
}

/// The integer whose bytes, most significant first, open `b`.
pub open spec fn u64_of_bytes(b: Seq<u8>) -> u64 {
    (b[0] as u64) << 56u64 | (b[1] as u64) << 48u64 | (b[2] as u64) << 40u64 | (b[3] as u64)
        << 32u64 | (b[4] as u64) << 24u64 | (b[5] as u64) << 16u64 | (b[6] as u64) << 8u64
        | b[7] as u64
}

/// The eight bytes of `v` with its sign bit flipped, so that the byte strings
/// sort as the integers do.
pub open spec fn i64_bytes(v: i64) -> Seq<u8> {
    u64_bytes((v as u64) ^ SIGN_MASK)
}

/// The integer that `i64_bytes` wrote at the start of `b`.
pub open spec fn i64_of_bytes(b: Seq<u8>) -> i64 {
    (u64_of_bytes(b) ^ SIGN_MASK) as i64
}

/// The wire form of `d`: its nanoseconds, then its precision.
pub open spec fn encode_spec(d: DurationModel) -> Seq<u8> {
    i64_bytes((d.value() * 1000) as i64) + i64_bytes(d.fsp as i64)
}

/// The duration that the wire form at the start of `b` gives.
pub open spec fn decode_spec(b: Seq<u8>) -> Result<DurationModel, DurationError> {
    if b.len() < 16 {
        Err(DurationError::UnexpectedEof)
    } else {
        from_micros_spec(
            div_trunc(i64_of_bytes(b.subrange(0, 8)) as int, 1000),
            i64_of_bytes(b.subrange(8, 16)) as i8,
        )
    }
}

/// Reading back the bytes of an integer gives the integer.
pub proof fn lemma_i64_bytes_round_trip(v: i64)
    ensures
        i64_of_bytes(i64_bytes(v)) == v,
{
    let u = (v as u64) ^ SIGN_MASK;
    assert(((u >> 56u64) as u8 as u64) << 56u64 | ((u >> 48u64) as u8 as u64) << 48u64 | ((u
        >> 40u64) as u8 as u64) << 40u64 | ((u >> 32u64) as u8 as u64) << 32u64 | ((u >> 24u64)
        as u8 as u64) << 24u64 | ((u >> 16u64) as u8 as u64) << 16u64 | ((u >> 8u64) as u8 as u64)
        << 8u64 | (u as u8 as u64) == u) by (bit_vector);
    assert((((v as u64) ^ 0x8000_0000_0000_0000u64) ^ 0x8000_0000_0000_0000u64) as i64 == v)
        by (bit_vector);
}

/// Appends the eight bytes of `v`.
fn push_i64(out: &mut Vec<u8>, v: i64)
    ensures
        final(out)@ == old(out)@ + i64_bytes(v),
{
    let u = (v as u64) ^ SIGN_MASK;
    out.push((u >> 56u64) as u8);
    out.push((u >> 48u64) as u8);
    out.push((u >> 40u64) as u8);
    out.push((u >> 32u64) as u8);
    out.push((u >> 24u64) as u8);
    out.push((u >> 16u64) as u8);
    out.push((u >> 8u64) as u8);
    out.push(u as u8);
    assert(out@ =~= old(out)@ + i64_bytes(v));
}

/// The integer in the first eight bytes of `data`.
fn read_i64(data: &[u8]) -> (r: i64)
    requires
        data@.len() >= 8,
    ensures
        r == i64_of_bytes(data@.subrange(0, 8)),
{
    let u = (data[0] as u64) << 56u64 | (data[1] as u64) << 48u64 | (data[2] as u64) << 40u64
        | (data[3] as u64) << 32u64 | (data[4] as u64) << 24u64 | (data[5] as u64) << 16u64
        | (data[6] as u64) << 8u64 | data[7] as u64;
    (u ^ SIGN_MASK) as i64
}

/// Writes durations in their wire form.
pub trait DurationEncoder {
    /// Appends the wire form of `v`: its nanoseconds, then its precision.
    fn encode_duration(&mut self, v: Duration)
        requires
            v@.wf(),
    ;
}

impl DurationEncoder for Vec<u8> {
    fn encode_duration(&mut self, v: Duration)
        ensures
            final(self)@ == old(self)@ + encode_spec(v@),
    {
        push_i64(self, v.to_nanos());
        push_i64(self, v.fsp() as i64);
        assert(final(self)@ =~= old(self)@ + encode_spec(v@));
    }
}

impl Duration {
    /// Reads a duration in wire form from the front of `data` and moves `data`
    /// past what was read.
    pub fn decode(data: &mut &[u8]) -> (r: Result<Duration, DurationError>)
        ensures
            result_view(r) == decode_spec(old(data)@),
            r matches Ok(d) ==> d@.wf(),
            old(data)@.len() < 8 ==> final(data)@ == old(data)@,
            8 <= old(data)@.len() < 16 ==> final(data)@ == old(data)@.subrange(
                8,
                old(data)@.len() as int,
            ),
            16 <= old(data)@.len() ==> final(data)@ == old(data)@.subrange(
                16,
                old(data)@.len() as int,
            ),
    {
        if data.len() < 8 {
            return Err(DurationError::UnexpectedEof);
        }
        let nanos = read_i64(*data);
        *data = slice_subrange(*data, 8, data.len());
        if data.len() < 8 {
            return Err(DurationError::UnexpectedEof);
        }
        let fsp = read_i64(*data);
        *data = slice_subrange(*data, 8, data.len());
        Duration::from_nanos(nanos, fsp as i8)
    }
}

} // verus!
