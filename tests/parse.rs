use smdr::types::{NumericField, ParseError, ReducedSMDRRecord, SMDRRecord, parse_duration};
use smdr::numbers::parse_unsigned_exec;
use smdr::fields::split_fields;

const LINE: &str = "2024-01-01 10:00:00,00:01:30,2,2001,In,2002,2002,ACC1,1,abc123,0,Dev1,Alice,Dev2,Bob,5,0";

#[test]
fn duration_with_padding() {
    assert_eq!(parse_duration("01:02:03"), Ok(3723));
}

#[test]
fn duration_without_padding() {
    assert_eq!(parse_duration("1:2:3"), Ok(3723));
}

#[test]
fn duration_without_colons_fails() {
    assert_eq!(parse_duration("99"), Err(ParseError::MalformedDuration));
}

#[test]
fn duration_with_two_parts_fails() {
    assert_eq!(parse_duration("01:02"), Err(ParseError::MalformedDuration));
}

#[test]
fn duration_with_four_parts_fails() {
    assert_eq!(parse_duration("1:2:3:4"), Err(ParseError::MalformedDuration));
}

#[test]
fn duration_with_non_numeric_part_fails() {
    assert_eq!(parse_duration("01:x2:03"), Err(ParseError::MalformedDuration));
    assert_eq!(parse_duration("01::03"), Err(ParseError::MalformedDuration));
    assert_eq!(parse_duration("-1:00:03"), Err(ParseError::MalformedDuration));
}

#[test]
fn duration_too_large_fails() {
    assert_eq!(parse_duration("18446744073709551615:0:0"), Err(ParseError::MalformedDuration));
    assert_eq!(parse_duration("0:0:18446744073709551615"), Ok(18446744073709551615));
    assert_eq!(parse_duration("0:0:18446744073709551616"), Err(ParseError::MalformedDuration));
}

#[test]
fn unsigned_numbers() {
    assert_eq!(parse_unsigned_exec("0", 255), Some(0));
    assert_eq!(parse_unsigned_exec("255", 255), Some(255));
    assert_eq!(parse_unsigned_exec("256", 255), None);
    assert_eq!(parse_unsigned_exec("+7", 255), Some(7));
    assert_eq!(parse_unsigned_exec("+", 255), None);
    assert_eq!(parse_unsigned_exec("", 255), None);
    assert_eq!(parse_unsigned_exec("1 ", 255), None);
    assert_eq!(parse_unsigned_exec("007", 255), Some(7));
}

#[test]
fn split_keeps_empty_fields() {
    assert_eq!(split_fields("a,,b,", ','), vec!["a".to_string(), String::new(), "b".to_string(), String::new()]);
    assert_eq!(split_fields("", ','), vec![String::new()]);
}

#[test]
fn line_parses_into_fields() {
    let r = SMDRRecord::from_line(LINE).unwrap();
    assert_eq!(r.start, "2024-01-01 10:00:00");
    assert_eq!(r.duration, 90);
    assert_eq!(r.ring, 2);
    assert_eq!(r.caller, "2001");
    assert_eq!(r.direction, "In");
    assert_eq!(r.called, "2002");
    assert_eq!(r.dialled, "2002");
    assert_eq!(r.account, "ACC1");
    assert!(r.is_internal);
    assert_eq!(r.call_id, "abc123");
    assert!(!r.continued);
    assert_eq!(r.party_1_device, "Dev1");
    assert_eq!(r.party_1_name, "Alice");
    assert_eq!(r.party_2_device, "Dev2");
    assert_eq!(r.party_2_name, "Bob");
    assert_eq!(r.hold_time, 5);
    assert_eq!(r.park_time, 0);
}

#[test]
fn parsing_twice_gives_the_same_record() {
    let a = SMDRRecord::from_line(LINE).unwrap();
    let b = SMDRRecord::from_line(LINE).unwrap();
    assert_eq!(a, b);
    let bad = "x,1:2,3,,,,,,,,,,,,,,";
    assert_eq!(SMDRRecord::from_line(bad).err(), SMDRRecord::from_line(bad).err());
}

#[test]
fn extra_fields_are_ignored() {
    let line = format!("{},extra,more", LINE);
    assert_eq!(SMDRRecord::from_line(&line).unwrap(), SMDRRecord::from_line(LINE).unwrap());
}

#[test]
fn short_line_is_malformed() {
    assert_eq!(
        SMDRRecord::from_line("a,b,c").err(),
        Some(ParseError::MalformedRecord { expected: 17, actual: 3 })
    );
    assert_eq!(
        SMDRRecord::from_line("").err(),
        Some(ParseError::MalformedRecord { expected: 17, actual: 1 })
    );
}

#[test]
fn bad_duration_in_line() {
    let line = LINE.replace("00:01:30", "90");
    assert_eq!(SMDRRecord::from_line(&line).err(), Some(ParseError::MalformedDuration));
}

#[test]
fn bad_numeric_fields_are_named() {
    let ring = "2024-01-01 10:00:00,00:01:30,300,2001,In,2002,2002,ACC1,1,abc123,0,Dev1,Alice,Dev2,Bob,5,0";
    assert_eq!(SMDRRecord::from_line(ring).err(), Some(ParseError::InvalidNumericField(NumericField::Ring)));
    let hold = "2024-01-01 10:00:00,00:01:30,2,2001,In,2002,2002,ACC1,1,abc123,0,Dev1,Alice,Dev2,Bob,x,0";
    assert_eq!(SMDRRecord::from_line(hold).err(), Some(ParseError::InvalidNumericField(NumericField::HoldTime)));
    let park = "2024-01-01 10:00:00,00:01:30,2,2001,In,2002,2002,ACC1,1,abc123,0,Dev1,Alice,Dev2,Bob,5,";
    assert_eq!(SMDRRecord::from_line(park).err(), Some(ParseError::InvalidNumericField(NumericField::ParkTime)));
}

#[test]
fn flags_are_true_only_for_one() {
    let line = "t,0:0:1,0,c,In,d,e,f,true,id,11,g,h,i,j,0,0";
    let r = SMDRRecord::from_line(line).unwrap();
    assert!(!r.is_internal);
    assert!(!r.continued);
    let line = "t,0:0:1,0,c,In,d,e,f,0,id,1,g,h,i,j,0,0";
    let r = SMDRRecord::from_line(line).unwrap();
    assert!(!r.is_internal);
    assert!(r.continued);
}

#[test]
fn split_and_reduce_part_the_record() {
    let r = SMDRRecord::from_line(LINE).unwrap();
    let (reduced, caller) = ReducedSMDRRecord::split(r.clone());
    assert_eq!(caller.dialled, "2002");
    assert_eq!(caller.caller, "2001");
    assert_eq!(caller.party_2_device, "Dev2");
    assert_eq!(caller.party_2_name, "Bob");
    assert_eq!(reduced.duration, 90);
    assert_eq!(reduced.ring, 2);
    assert_eq!(reduced.direction, "In");
    assert_eq!(reduced.called, "2002");
    assert_eq!(reduced.account, "ACC1");
    assert!(reduced.is_internal);
    assert!(!reduced.continued);
    assert_eq!(reduced.party_1_device, "Dev1");
    assert_eq!(reduced.party_1_name, "Alice");
    assert_eq!(reduced.hold_time, 5);
    assert_eq!(reduced.park_time, 0);
    assert_eq!(ReducedSMDRRecord::reduce(r.clone()), reduced);
    assert_eq!(ReducedSMDRRecord::from(&r), reduced);
}
