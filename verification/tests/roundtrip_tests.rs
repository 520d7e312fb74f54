use groundcontrol::decode::decode_line;
use groundcontrol::float_text::check_float_text;
use groundcontrol::log_record::render_record;
use groundcontrol::num_text::format_i32;
use groundcontrol::num_text::format_u64;
use groundcontrol::num_text::parse_i32;

#[test]
fn decode_then_log_recovers_the_values() {
    let mut s = decode_line(b"1.0,2.5,3.1,10,12,5,5,0").expect("line should decode");
    s.timestamp = 42;
    let record = render_record(&s);
    let text = String::from_utf8(record).expect("records are ASCII");
    assert!(text.ends_with('\n'));
    let fields: Vec<&str> = text.trim_end_matches('\n').split(',').collect();
    assert_eq!(
        fields,
        vec!["42", "1.0", "2.5", "3.1", "10", "12", "5", "5", "false", "false"]
    );
    // Reading the record back recovers the same numeric values.
    assert_eq!(fields[0].parse::<u64>().unwrap(), 42);
    assert_eq!(fields[1].parse::<f64>().unwrap(), 1.0);
    assert_eq!(fields[2].parse::<f64>().unwrap(), 2.5);
    assert_eq!(fields[3].parse::<f64>().unwrap(), 3.1);
    assert_eq!(fields[4].parse::<i32>().unwrap(), 10);
    assert_eq!(fields[5].parse::<i32>().unwrap(), 12);
    assert_eq!(fields[6].parse::<i32>().unwrap(), 5);
    assert_eq!(fields[7].parse::<i32>().unwrap(), 5);
    assert_eq!(fields[8].parse::<bool>().unwrap(), false);
    assert_eq!(fields[9].parse::<bool>().unwrap(), false);
}

#[test]
fn float_text_survives_the_log_verbatim() {
    let mut s = decode_line(b"-1.5e-3,2E5,.5,0,0,0,0,1").expect("line should decode");
    s.timestamp = 7;
    s.oxi_valve_open = true;
    let record = render_record(&s);
    assert_eq!(record, b"7,-1.5e-3,2E5,.5,0,0,0,0,false,true\n".to_vec());
    let reparsed: f64 = "-1.5e-3".parse().unwrap();
    let original: f64 = std::str::from_utf8(&s.elapsed).unwrap().parse().unwrap();
    assert_eq!(reparsed, original);
}

#[test]
fn formats_integers_canonically() {
    assert_eq!(format_u64(0), b"0".to_vec());
    assert_eq!(format_u64(1000), b"1000".to_vec());
    assert_eq!(format_u64(u64::MAX), b"18446744073709551615".to_vec());
    assert_eq!(format_i32(0), b"0".to_vec());
    assert_eq!(format_i32(-42), b"-42".to_vec());
    assert_eq!(format_i32(i32::MIN), b"-2147483648".to_vec());
    assert_eq!(format_i32(i32::MAX), b"2147483647".to_vec());
}

#[test]
fn parses_integers_strictly() {
    assert_eq!(parse_i32(b"0"), Some(0));
    assert_eq!(parse_i32(b"+5"), Some(5));
    assert_eq!(parse_i32(b"-0"), Some(0));
    assert_eq!(parse_i32(b"007"), Some(7));
    assert_eq!(parse_i32(b"-2147483648"), Some(i32::MIN));
    assert_eq!(parse_i32(b"2147483647"), Some(i32::MAX));
    assert_eq!(parse_i32(b"2147483648"), None);
    assert_eq!(parse_i32(b"-2147483649"), None);
    assert_eq!(parse_i32(b"99999999999999999999"), None);
    assert_eq!(parse_i32(b""), None);
    assert_eq!(parse_i32(b"-"), None);
    assert_eq!(parse_i32(b"+"), None);
    assert_eq!(parse_i32(b"1.5"), None);
    assert_eq!(parse_i32(b" 1"), None);
    assert_eq!(parse_i32(b"1 "), None);
    assert_eq!(parse_i32(b"--1"), None);
}

#[test]
fn parse_and_format_round_trip() {
    for v in [0, 1, -1, 42, -42, 1000000, i32::MIN, i32::MAX] {
        assert_eq!(parse_i32(&format_i32(v)), Some(v));
    }
}

#[test]
fn recognizes_float_text() {
    for ok in [
        &b"1.0"[..],
        b"-3.14",
        b".5",
        b"2.",
        b"7",
        b"1e5",
        b"1E-5",
        b"+1.2e+3",
        b"-0.0",
        b"6.02e23",
    ] {
        assert!(check_float_text(ok), "should accept {:?}", ok);
    }
    for bad in [
        &b""[..],
        b".",
        b"e5",
        b"1e",
        b"1e+",
        b"--1",
        b"1.2.3",
        b"1,0",
        b" 1.0",
        b"1.0 ",
        b"1.5e2.5",
        b"+",
    ] {
        assert!(!check_float_text(bad), "should reject {:?}", bad);
    }
}
