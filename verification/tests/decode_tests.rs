use groundcontrol::decode::decode_line;
use groundcontrol::decode::DecodeError;

#[test]
fn decodes_valid_line() {
    let s = decode_line(b"1.0,2.5,3.1,10,12,5,5,0").expect("line should decode");
    assert_eq!(s.elapsed, b"1.0".to_vec());
    assert_eq!(s.flow_fuel, b"2.5".to_vec());
    assert_eq!(s.flow_oxi, b"3.1".to_vec());
    assert_eq!(s.pulse_fuel, 10);
    assert_eq!(s.pulse_oxi, 12);
    assert_eq!(s.pos_fuel, 5);
    assert_eq!(s.pos_oxi, 5);
    assert!(!s.emergency);
    assert_eq!(s.timestamp, 0);
    assert!(!s.fuel_valve_open);
    assert!(!s.oxi_valve_open);
    assert_eq!(s.raw, b"1.0,2.5,3.1,10,12,5,5,0".to_vec());
}

#[test]
fn decodes_negative_and_scientific_floats() {
    let s = decode_line(b"-1.5e-3,2E5,.5,-7,+8,0,0,1").expect("line should decode");
    assert_eq!(s.elapsed, b"-1.5e-3".to_vec());
    assert_eq!(s.flow_fuel, b"2E5".to_vec());
    assert_eq!(s.flow_oxi, b".5".to_vec());
    assert_eq!(s.pulse_fuel, -7);
    assert_eq!(s.pulse_oxi, 8);
    assert!(s.emergency);
}

#[test]
fn decodes_integer_valued_floats() {
    let s = decode_line(b"3,2.,0,1,2,3,4,0").expect("line should decode");
    assert_eq!(s.elapsed, b"3".to_vec());
    assert_eq!(s.flow_fuel, b"2.".to_vec());
}

#[test]
fn rejects_wrong_field_count() {
    assert_eq!(
        decode_line(b"bad,line"),
        Err(DecodeError::FieldCount { found: 2 })
    );
    assert_eq!(decode_line(b""), Err(DecodeError::FieldCount { found: 1 }));
    assert_eq!(
        decode_line(b"1.0,2.5,3.1,10,12,5,5,0,9"),
        Err(DecodeError::FieldCount { found: 9 })
    );
    assert_eq!(
        decode_line(b"1.0,2.5,3.1,10,12,5,5,0,"),
        Err(DecodeError::FieldCount { found: 9 })
    );
}

#[test]
fn rejects_bad_float_field() {
    assert_eq!(
        decode_line(b"x.0,2.5,3.1,10,12,5,5,0"),
        Err(DecodeError::BadField { index: 0 })
    );
    assert_eq!(
        decode_line(b"1.0,,3.1,10,12,5,5,0"),
        Err(DecodeError::BadField { index: 1 })
    );
    assert_eq!(
        decode_line(b"1.0,2.5,1.2.3,10,12,5,5,0"),
        Err(DecodeError::BadField { index: 2 })
    );
    // Whitespace is not trimmed inside fields.
    assert_eq!(
        decode_line(b" 1.0,2.5,3.1,10,12,5,5,0"),
        Err(DecodeError::BadField { index: 0 })
    );
}

#[test]
fn rejects_bad_integer_field() {
    assert_eq!(
        decode_line(b"1.0,2.5,3.1,ten,12,5,5,0"),
        Err(DecodeError::BadField { index: 3 })
    );
    assert_eq!(
        decode_line(b"1.0,2.5,3.1,10,1.5,5,5,0"),
        Err(DecodeError::BadField { index: 4 })
    );
    // Out of 32-bit range.
    assert_eq!(
        decode_line(b"1.0,2.5,3.1,2147483648,12,5,5,0"),
        Err(DecodeError::BadField { index: 3 })
    );
    // The extremes of the range still parse.
    let s = decode_line(b"1.0,2.5,3.1,-2147483648,2147483647,5,5,0").expect("line should decode");
    assert_eq!(s.pulse_fuel, i32::MIN);
    assert_eq!(s.pulse_oxi, i32::MAX);
}

#[test]
fn reports_first_bad_field() {
    assert_eq!(
        decode_line(b"x,2.5,3.1,ten,12,5,5,7"),
        Err(DecodeError::BadField { index: 0 })
    );
}

#[test]
fn rejects_emergency_out_of_range() {
    assert_eq!(
        decode_line(b"1.0,2.5,3.1,10,12,5,5,2"),
        Err(DecodeError::EmergencyRange)
    );
    assert_eq!(
        decode_line(b"1.0,2.5,3.1,10,12,5,5,-1"),
        Err(DecodeError::EmergencyRange)
    );
    assert_eq!(
        decode_line(b"1.0,2.5,3.1,10,12,5,5,true"),
        Err(DecodeError::BadField { index: 7 })
    );
}
