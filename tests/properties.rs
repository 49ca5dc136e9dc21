use mysql_duration::{
    check_fsp, check_hour, check_micros, check_minute, check_second, parse, Duration,
    DurationEncoder, DurationError, MAX_MAGNITUDE,
};
use std::collections::hash_map::DefaultHasher;
use std::hash::{Hash, Hasher};

fn text(input: &str, fsp: i8) -> String {
    Duration::parse(input.as_bytes(), fsp).unwrap().to_string()
}

fn hash_of(d: &Duration) -> u64 {
    let mut h = DefaultHasher::new();
    d.hash(&mut h);
    h.finish()
}

#[test]
fn round_half_up_carries_through_every_field() {
    assert_eq!(text("11:59:59.999999", 3), "12:00:00.000");
    assert_eq!(text("00:59:59.9999995", 6), "01:00:00.000000");
    assert_eq!(text("00:00:00.49", 0), "00:00:00");
    assert_eq!(text("00:00:00.5", 0), "00:00:01");
}

#[test]
fn seven_fraction_digits_round_half_up() {
    assert_eq!(Duration::parse(b"0:0:0.0000005", 6).unwrap().micros(), 1);
    assert_eq!(Duration::parse(b"0:0:0.0000004", 6).unwrap().micros(), 0);
    assert_eq!(text("00:00:00.0123456", 6), "00:00:00.012346");
    assert_eq!(text("00:00:00.0999995", 6), "00:00:00.100000");
    assert_eq!(text("00:00:00.01", 1), "00:00:00.0");
    assert_eq!(text("00:00:00.05", 1), "00:00:00.1");
}

#[test]
fn day_and_block_forms() {
    assert_eq!(text("101112", 0), "10:11:12");
    assert_eq!(text("1 12", 0), "36:00:00");
    assert_eq!(text("1112", 0), "00:11:12");
    assert_eq!(text("8385959", 0), "838:59:59");
}

#[test]
fn sign_and_whitespace_are_tolerated() {
    assert_eq!(text(" - 1 : 2 :  3 .123 ", 3), "-01:02:03.123");
    assert_eq!(text("\t-\n1:2:3\r", 0), "-01:02:03");
}

#[test]
fn negative_zero_literals_parse_to_zero() {
    for input in ["-0", "- 0 ", "-00:00:00", "-0 0", "-.0"] {
        let d = Duration::parse(input.as_bytes(), 6).unwrap();
        assert!(!d.is_neg(), "{}", input);
        assert!(d.is_zero());
        assert_eq!(d, Duration::zero());
    }
    let d = Duration::parse(b"-00:00:00.4", 0).unwrap();
    assert!(!d.is_neg());
    assert_eq!(d.to_string(), "00:00:00");
}

#[test]
fn out_of_range_fields_are_rejected() {
    for fsp in 0..=6 {
        assert!(Duration::parse(b"23:60:59", fsp).is_err());
    }
    let max = Duration::parse(b"838:59:59", 0).unwrap();
    let min = Duration::parse(b"-838:59:59", 0).unwrap();
    assert_eq!(max, min.abs());
    assert_eq!(max.to_string(), "838:59:59");
    assert_eq!(
        Duration::parse(b"839:00:00", 0).unwrap_err(),
        DurationError::InvalidFormat
    );
    assert_eq!(
        Duration::parse(b"838:59:59.5", 0).unwrap_err(),
        DurationError::InvalidHour(839)
    );
    assert_eq!(
        Duration::parse(b"9960", 0).unwrap_err(),
        DurationError::InvalidMinute(99)
    );
    assert_eq!(
        Duration::parse(b"99", 0).unwrap_err(),
        DurationError::InvalidSecond(99)
    );
    assert_eq!(
        Duration::parse(b"12:00:00", 7).unwrap_err(),
        DurationError::InvalidFsp(7)
    );
    assert_eq!(
        Duration::parse(b"12:00:00", -1).unwrap_err(),
        DurationError::InvalidFsp(-1)
    );
    assert_eq!(Duration::parse(b"", 0).unwrap_err(), DurationError::InvalidFormat);
}

#[test]
fn integer_fields_longer_than_seven_digits_are_rejected() {
    assert!(Duration::parse(b"12345678", 0).is_err());
    assert!(Duration::parse(b"1 12345678", 0).is_err());
    assert!(Duration::parse(b"1:12345678", 0).is_err());
    assert_eq!(text("00:00:00.12345678", 6), "00:00:00.123457");
}

#[test]
fn adding_to_the_largest_duration_overflows() {
    let max = Duration::from_micros(MAX_MAGNITUDE as i64, 6).unwrap();
    assert_eq!(max.to_string(), "838:59:59.999999");
    let min = Duration::from_micros(-(MAX_MAGNITUDE as i64), 6).unwrap();
    for small in ["00:00:00.000001", "00:00:01", "1 00:00:00", "838:59:59"] {
        let d = Duration::parse(small.as_bytes(), 6).unwrap();
        assert_eq!(max.checked_add(d), None);
        assert_eq!(min.checked_sub(d), None);
    }
    let zero = Duration::zero();
    assert_eq!(max.checked_add(zero), Some(max));
}

#[test]
fn precision_does_not_take_part_in_comparison() {
    let a = Duration::parse(b"11:30:45.5", 1).unwrap();
    let b = Duration::parse(b"11:30:45.5", 6).unwrap();
    assert_eq!(a.fsp(), 1);
    assert_eq!(b.fsp(), 6);
    assert_eq!(a, b);
    assert_eq!(a.partial_cmp(&b), Some(std::cmp::Ordering::Equal));
    assert_eq!(hash_of(&a), hash_of(&b));
    let c = Duration::parse(b"11:30:45.5", 0).unwrap();
    assert_ne!(a, c);
}

#[test]
fn ordering_follows_signed_length() {
    let values: Vec<Duration> = ["-838:59:59", "-00:00:01", "00:00:00", "00:00:00.5", "00:00:01", "838:59:59"]
        .iter()
        .map(|s| Duration::parse(s.as_bytes(), 1).unwrap())
        .collect();
    for i in 0..values.len() {
        for j in 0..values.len() {
            assert_eq!(values[i].partial_cmp(&values[j]), i.partial_cmp(&j));
        }
    }
}

#[test]
fn decimal_text_of_a_duration() {
    let d = Duration::parse(b"11:30:45.123345", 3).unwrap();
    assert_eq!(d.to_decimal_string(), "113045.123");
}

#[test]
fn encode_then_decode_gives_the_value_back() {
    for (input, fsp) in [("-00:00:00.5", 1), ("838:59:59.999999", 6), ("00:00:00", 0), ("-12:34:56.789", 3)] {
        let d = Duration::parse(input.as_bytes(), fsp).unwrap();
        let mut buf: Vec<u8> = Vec::new();
        buf.encode_duration(d);
        assert_eq!(buf.len(), 16);
        let mut rest = buf.as_slice();
        let got = Duration::decode(&mut rest).unwrap();
        assert!(rest.is_empty());
        assert_eq!(got, d);
        assert_eq!(got.fsp(), d.fsp());
    }
}

#[test]
fn wire_bytes_are_order_preserving_big_endian() {
    let d = Duration::parse(b"00:00:01", 2).unwrap();
    let mut buf: Vec<u8> = Vec::new();
    buf.encode_duration(d);
    assert_eq!(
        buf,
        vec![0x80, 0, 0, 0, 0x3b, 0x9a, 0xca, 0x00, 0x80, 0, 0, 0, 0, 0, 0, 2]
    );
    let n = Duration::parse(b"-00:00:01", 0).unwrap();
    let mut nbuf: Vec<u8> = Vec::new();
    nbuf.encode_duration(n);
    assert!(nbuf < buf);
}

#[test]
fn decode_of_short_input_fails() {
    let mut short: &[u8] = &[0x80, 0, 0];
    assert_eq!(Duration::decode(&mut short).unwrap_err(), DurationError::UnexpectedEof);
    assert_eq!(short.len(), 3);
    let bytes = [0x80u8, 0, 0, 0, 0, 0, 0, 0, 1, 2];
    let mut half: &[u8] = &bytes;
    assert_eq!(Duration::decode(&mut half).unwrap_err(), DurationError::UnexpectedEof);
    assert_eq!(half.len(), 2);
}

#[test]
fn widening_precision_keeps_the_magnitude() {
    let d = Duration::parse(b"-01:02:03.45", 2).unwrap();
    let w = d.round_frac(5).unwrap();
    assert_eq!(w.fsp(), 5);
    assert_eq!((w.hours(), w.minutes(), w.secs(), w.micros(), w.is_neg()), (1, 2, 3, 450000, true));
    assert_eq!(w.to_string(), "-01:02:03.45000");
    assert_eq!(d.round_frac(2).unwrap().to_bits(), d.to_bits());
    assert_eq!(d.round_frac(7).unwrap_err(), DurationError::InvalidFsp(7));
}

#[test]
fn narrowing_precision_rounds_and_may_overflow() {
    let d = Duration::parse(b"838:59:59.999999", 6).unwrap();
    assert_eq!(d.round_frac(0).unwrap_err(), DurationError::InvalidHour(839));
    let e = Duration::parse(b"00:00:00.45", 2).unwrap();
    assert_eq!(e.round_frac(1).unwrap().to_string(), "00:00:00.5");
}

#[test]
fn conversions_from_integers() {
    assert_eq!(Duration::from_micros(-1_500_000, 1).unwrap().to_string(), "-00:00:01.5");
    assert_eq!(Duration::from_millis(3_723_004, 3).unwrap().to_string(), "01:02:03.004");
    assert_eq!(Duration::from_nanos(1_999, 6).unwrap().to_string(), "00:00:00.000001");
    assert_eq!(Duration::from_nanos(-1_999, 6).unwrap().to_string(), "-00:00:00.000001");
    assert_eq!(Duration::from_millis(i64::MAX, 0).unwrap_err(), DurationError::MicrosOverflow);
    assert_eq!(
        Duration::from_micros(i64::MIN, 0).unwrap_err(),
        DurationError::InvalidHour(2562047788)
    );
    assert_eq!(Duration::from_micros(0, 9).unwrap_err(), DurationError::InvalidFsp(9));
}

#[test]
fn whole_seconds_and_nanoseconds() {
    let d = Duration::parse(b"-01:00:01.5", 1).unwrap();
    assert_eq!(d.to_secs(), -3601);
    assert_eq!(d.to_nanos(), -3_601_500_000_000);
    assert_eq!(d.subsec_micros(), 500000);
    let p = Duration::parse(b"00:00:02.25", 2).unwrap();
    assert_eq!(p.to_nanos(), 2_250_000_000);
}

#[test]
fn bit_layout_round_trip() {
    let d = Duration::parse(b"-123:45:06.789", 3).unwrap();
    let bits = d.to_bits();
    assert_eq!(bits >> 63, 1);
    assert_eq!((bits >> 48) & 0x3fff, 123);
    assert_eq!((bits >> 40) & 0xff, 45);
    assert_eq!((bits >> 32) & 0xff, 6);
    assert_eq!((bits >> 8) & 0xff_ffff, 789000);
    assert_eq!(bits & 0xff, 3);
    let back = Duration::from_bits(bits | (1 << 62)).unwrap();
    assert_eq!(back.to_bits(), bits);
    assert_eq!(Duration::from_bits(1_000_000 << 8).unwrap_err(), DurationError::InvalidMicros(1_000_000));
    assert_eq!(Duration::from_bits(60 << 32).unwrap_err(), DurationError::InvalidSecond(60));
    assert_eq!(Duration::from_bits(60 << 40).unwrap_err(), DurationError::InvalidMinute(60));
    assert_eq!(Duration::from_bits(839 << 48).unwrap_err(), DurationError::InvalidHour(839));
    let odd_fsp = Duration::from_bits(7).unwrap();
    assert_eq!(odd_fsp.fsp(), 7);
    assert!(odd_fsp.is_zero());
    assert_eq!(odd_fsp.to_bits(), 7);
    assert_eq!(Duration::from_bits(1 << 63).unwrap(), Duration::zero());
    assert!(!Duration::from_bits(1 << 63).unwrap().is_neg());
}

#[test]
fn small_accessors() {
    let d = Duration::parse(b"-00:00:00.5", 1).unwrap();
    assert!(d.as_mysql_bool());
    assert!(!Duration::zero().as_mysql_bool());
    assert_eq!(d.abs().to_string(), "00:00:00.5");
    assert_eq!(d.maximize_fsp().fsp(), 6);
    assert_eq!(d.maximize_fsp().to_string(), "-00:00:00.500000");
    assert_eq!(d.format("|"), "-00|00|00.5");
    assert_eq!(Duration::parse(b"100:02:03", 0).unwrap().to_string(), "100:02:03");
}

#[test]
fn field_checks() {
    assert_eq!(check_hour(838), Ok(838));
    assert_eq!(check_hour(839), Err(DurationError::InvalidHour(839)));
    assert_eq!(check_minute(59), Ok(59));
    assert_eq!(check_minute(60), Err(DurationError::InvalidMinute(60)));
    assert_eq!(check_second(60), Err(DurationError::InvalidSecond(60)));
    assert_eq!(check_micros(999_999), Ok(999_999));
    assert_eq!(check_micros(1_000_000), Err(DurationError::InvalidMicros(1_000_000)));
    assert_eq!(check_fsp(6), Ok(6));
    assert_eq!(check_fsp(-1), Err(DurationError::InvalidFsp(-1)));
}

#[test]
fn literal_fields_before_combination() {
    let l = parse(b" - 1 10:11:12.5 ", 3).unwrap();
    assert!(l.neg);
    assert_eq!(l.day, Some(1));
    assert_eq!(l.hour, Some(10));
    assert_eq!(l.minute, Some(11));
    assert_eq!(l.second, Some(12));
    assert_eq!(l.fraction, Some(5000000));
    let b = parse(b"1234.5", 0).unwrap();
    assert_eq!((b.day, b.hour, b.fraction), (Some(1234), None, Some(5000000)));
    assert!(parse(b"1::2", 0).is_none());
}
