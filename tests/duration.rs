use mysql_duration::{Duration, DurationEncoder, MAX_FSP, NANOS_PER_SEC};

#[test]
fn test_hours() {
    let cases: Vec<(&str, i8, u32)> = vec![
        ("31 11:30:45", 0, 31 * 24 + 11),
        ("11:30:45", 0, 11),
        ("-11:30:45.9233456", 0, 11),
        ("272:59:59", 0, 272),
    ];

    for (input, fsp, exp) in cases {
        let dur = Duration::parse(input.as_bytes(), fsp).unwrap();
        let res = dur.hours();
        assert_eq!(exp, res);
    }
}

#[test]
fn test_minutes() {
    let cases: Vec<(&str, i8, u32)> = vec![
        ("31 11:30:45", 0, 30),
        ("11:30:45", 0, 30),
        ("-11:30:45.9233456", 0, 30),
    ];

    for (input, fsp, exp) in cases {
        let dur = Duration::parse(input.as_bytes(), fsp).unwrap();
        let res = dur.minutes();
        assert_eq!(exp, res);
    }
}

#[test]
fn test_secs() {
    let cases: Vec<(&str, i8, u32)> = vec![
        ("31 11:30:45", 0, 45),
        ("11:30:45", 0, 45),
        ("-11:30:45.9233456", 1, 45),
        ("-11:30:45.9233456", 0, 46),
    ];

    for (input, fsp, exp) in cases {
        let dur = Duration::parse(input.as_bytes(), fsp).unwrap();
        let res = dur.secs();
        assert_eq!(exp, res);
    }
}

#[test]
fn test_micros() {
    let cases: Vec<(&str, i8, u32)> = vec![
        ("31 11:30:45.123", 6, 123000),
        ("11:30:45.123345", 3, 123000),
        ("11:30:45.123345", 5, 123350),
        ("11:30:45.123345", 6, 123345),
        ("11:30:45.1233456", 6, 123346),
        ("11:30:45.9233456", 0, 0),
        ("11:30:45.000010", 6, 10),
        ("11:30:45.00010", 5, 100),
    ];

    for (input, fsp, exp) in cases {
        let dur = Duration::parse(input.as_bytes(), fsp).unwrap();
        let res = dur.micros();
        assert_eq!(exp, res);
    }
}

#[test]
fn test_parse() {
    let cases: Vec<(&'static [u8], i8, Option<&'static str>)> = vec![
        (b"10:11:12", 0, Some("10:11:12")),
        (b"101112", 0, Some("10:11:12")),
        (b"10:11", 0, Some("10:11:00")),
        (b"101112.123456", 0, Some("10:11:12")),
        (b"1112", 0, Some("00:11:12")),
        (b"12", 0, Some("00:00:12")),
        (b"1 12", 0, Some("36:00:00")),
        (b"1 10:11:12", 0, Some("34:11:12")),
        (b"1 10:11:12.123456", 0, Some("34:11:12")),
        (b"1 10:11:12.123456", 4, Some("34:11:12.1235")),
        (b"1 10:11:12.12", 4, Some("34:11:12.1200")),
        (b"1 10:11:12.1234565", 6, Some("34:11:12.123457")),
        (b"1 10:11:12.9999995", 6, Some("34:11:13.000000")),
        (b"1 10:11:12.123456", 7, None),
        (b"10:11:12.123456", 0, Some("10:11:12")),
        (b"1 10:11", 0, Some("34:11:00")),
        (b"1 10", 0, Some("34:00:00")),
        (b"24 10", 0, Some("586:00:00")),
        (b"-24 10", 0, Some("-586:00:00")),
        (b"0 10", 0, Some("10:00:00")),
        (b"-10:10:10", 0, Some("-10:10:10")),
        (b"-838:59:59", 0, Some("-838:59:59")),
        (b"838:59:59", 0, Some("838:59:59")),
        (b"23:60:59", 0, None),
        (b"54:59:59", 0, Some("54:59:59")),
        (b"2011-11-11 00:00:01", 0, None),
        (b"2011-11-11", 0, None),
        (b"--23", 0, None),
        (b"232 10", 0, None),
        (b"-232 10", 0, None),
        (b"00:00:00.1", 0, Some("00:00:00")),
        (b"00:00:00.1", 1, Some("00:00:00.1")),
        (b"00:00:00.777777", 2, Some("00:00:00.78")),
        (b"00:00:00.777777", 6, Some("00:00:00.777777")),
        (b"00:00:00.001", 3, Some("00:00:00.001")),
        // NOTE: The following case is easy to fail.
        (b"- 1 ", 0, Some("-00:00:01")),
        (b"1:2:3", 0, Some("01:02:03")),
        (b"1 1:2:3", 0, Some("25:02:03")),
        (b"-1 1:2:3.123", 3, Some("-25:02:03.123")),
        (b"-.123", 3, Some("-00:00:00.123")),
        (b"12345", 0, Some("01:23:45")),
        (b"-123", 0, Some("-00:01:23")),
        (b"-23", 0, Some("-00:00:23")),
        (b"- 1 1", 0, Some("-25:00:00")),
        (b"-1 1", 0, Some("-25:00:00")),
        (b" - 1:2:3 .123 ", 3, Some("-01:02:03.123")),
        (b" - 1 :2 :3 .123 ", 3, Some("-01:02:03.123")),
        (b" - 1 : 2 :3 .123 ", 3, Some("-01:02:03.123")),
        (b" - 1 : 2 :  3 .123 ", 3, Some("-01:02:03.123")),
        (b" - 1 .123 ", 3, Some("-00:00:01.123")),
        (b"-", 0, None),
        (b"", 0, None),
        (b"18446744073709551615:59:59", 0, None),
        (b"1::2:3", 0, None),
        (b"1.23 3", 0, None),
    ];

    for (input, fsp, expect) in cases {
        let got = Duration::parse(input, fsp);

        if let Some(expect) = expect {
            assert_eq!(
                expect,
                &got.unwrap_or_else(|_| panic!("{}", std::str::from_utf8(input).unwrap()))
                    .to_string()
            );
        } else {
            assert!(
                got.is_err(),
                "{} should not be passed, got {:?}",
                std::str::from_utf8(input).unwrap(),
                got
            );
        }
    }
}

#[test]
fn test_to_decimal() {
    let cases = vec![
        ("31 11:30:45", 0, "7553045"),
        ("31 11:30:45", 6, "7553045.000000"),
        ("31 11:30:45", 0, "7553045"),
        ("31 11:30:45.123", 6, "7553045.123000"),
        ("11:30:45", 0, "113045"),
        ("11:30:45", 6, "113045.000000"),
        ("11:30:45.123", 6, "113045.123000"),
        ("11:30:45.123345", 0, "113045"),
        ("11:30:45.123345", 3, "113045.123"),
        ("11:30:45.123345", 5, "113045.12335"),
        ("11:30:45.123345", 6, "113045.123345"),
        ("11:30:45.1233456", 6, "113045.123346"),
        ("11:30:45.9233456", 0, "113046"),
        ("-11:30:45.9233456", 0, "-113046"),
    ];

    for (input, fsp, exp) in cases {
        let t = Duration::parse(input.as_bytes(), fsp).unwrap();
        let res = t.to_decimal_string();
        assert_eq!(exp, res);
    }
}

#[test]
fn test_round_frac() {
    let cases = vec![
        ("11:30:45.123456", 4, "11:30:45.1235"),
        ("11:30:45.123456", 6, "11:30:45.123456"),
        ("11:30:45.123456", 0, "11:30:45"),
        ("11:59:59.999999", 3, "12:00:00.000"),
        ("1 11:30:45.123456", 1, "35:30:45.1"),
        ("1 11:30:45.999999", 4, "35:30:46.0000"),
        ("-1 11:30:45.999999", 0, "-35:30:46"),
        ("-1 11:59:59.9999", 2, "-36:00:00.00"),
    ];
    for (input, fsp, exp) in cases {
        let t = Duration::parse(input.as_bytes(), MAX_FSP)
            .unwrap()
            .round_frac(fsp)
            .unwrap();
        let res = t.to_string();
        assert_eq!(exp, res);
    }
}

#[test]
fn test_codec() {
    let cases = vec![
        ("11:30:45.123456", 4),
        ("11:30:45.123456", 6),
        ("11:30:45.123456", 0),
        ("11:59:59.999999", 3),
        ("1 11:30:45.123456", 1),
        ("1 11:30:45.999999", 4),
        ("-1 11:30:45.999999", 0),
        ("-1 11:59:59.9999", 2),
    ];
    for (input, fsp) in cases {
        let t = Duration::parse(input.as_bytes(), fsp).unwrap();
        let mut buf: Vec<u8> = vec![];
        buf.encode_duration(t);
        let got = Duration::decode(&mut buf.as_slice()).unwrap();
        assert_eq!(t, got);
    }
}

#[test]
fn test_checked_add_and_sub_duration() {
    // The largest duration, 838:59:59, in seconds.
    const MAX_TIME_IN_SECS: i64 = (838 * 3600 + 59 * 60 + 59) as i64;

    let cases = vec![
        ("11:30:45.123456", "00:00:14.876545", "11:31:00.000001"),
        ("11:30:45.123456", "00:30:00", "12:00:45.123456"),
        ("11:30:45.123456", "12:30:00", "1 00:00:45.123456"),
        ("11:30:45.123456", "1 12:30:00", "2 00:00:45.123456"),
    ];
    for (lhs, rhs, exp) in cases.clone() {
        let lhs = Duration::parse(lhs.as_bytes(), 6).unwrap();
        let rhs = Duration::parse(rhs.as_bytes(), 6).unwrap();
        let res = lhs.checked_add(rhs).unwrap();
        let exp = Duration::parse(exp.as_bytes(), 6).unwrap();
        assert_eq!(res, exp);
    }
    for (exp, rhs, lhs) in cases {
        let lhs = Duration::parse(lhs.as_bytes(), 6).unwrap();
        let rhs = Duration::parse(rhs.as_bytes(), 6).unwrap();
        let res = lhs.checked_sub(rhs).unwrap();
        let exp = Duration::parse(exp.as_bytes(), 6).unwrap();
        assert_eq!(res, exp);
    }

    let lhs = Duration::parse(b"00:00:01", 6).unwrap();
    let rhs = Duration::from_nanos(MAX_TIME_IN_SECS * NANOS_PER_SEC, 6).unwrap();
    assert_eq!(lhs.checked_add(rhs), None);
    let lhs = Duration::parse(b"-00:00:01", 6).unwrap();
    let rhs = Duration::from_nanos(MAX_TIME_IN_SECS * NANOS_PER_SEC, 6).unwrap();
    assert_eq!(lhs.checked_sub(rhs), None);
}
