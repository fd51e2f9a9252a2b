use sensor_node::clock::WallTime;
use sensor_node::time_source::parse_seconds_response;
use sensor_node::time_source::parse_seconds_text;
use sensor_node::time_source::parse_world_time_text;
use sensor_node::time_source::parse_world_time_response;
use sensor_node::time_source::Error as TimeSourceError;

fn utc(t: i64) -> WallTime {
    WallTime { unix_timestamp: t, offset_seconds: 0 }
}

#[test]
fn seconds_answer_parses() {
    assert_eq!(parse_seconds_response(b"1700000000"), Ok(utc(1_700_000_000)));
    assert_eq!(parse_seconds_response(b"+12"), Ok(utc(12)));
    assert_eq!(parse_seconds_response(b"-5"), Ok(utc(-5)));
    assert_eq!(parse_seconds_response(b"0"), Ok(utc(0)));
}

#[test]
fn seconds_answer_rejects_malformed_integers() {
    assert_eq!(parse_seconds_response(b""), Err(TimeSourceError::ParseInt));
    assert_eq!(parse_seconds_response(b"-"), Err(TimeSourceError::ParseInt));
    assert_eq!(parse_seconds_response(b"12a"), Err(TimeSourceError::ParseInt));
    assert_eq!(parse_seconds_response(b"1700000000\n"), Err(TimeSourceError::ParseInt));
    assert_eq!(parse_seconds_response(b" 1"), Err(TimeSourceError::ParseInt));
    assert_eq!(parse_seconds_response(b"9223372036854775808"), Err(TimeSourceError::ParseInt));
    assert_eq!(parse_seconds_response(b"99999999999999999999999"), Err(TimeSourceError::ParseInt));
}

#[test]
fn seconds_answer_out_of_calendar() {
    assert_eq!(parse_seconds_response(b"253402300799"), Ok(utc(253_402_300_799)));
    assert_eq!(parse_seconds_response(b"253402300800"), Err(TimeSourceError::TimeComponentRange));
    assert_eq!(parse_seconds_response(b"-377705116800"), Ok(utc(-377_705_116_800)));
    assert_eq!(parse_seconds_response(b"-377705116801"), Err(TimeSourceError::TimeComponentRange));
    assert_eq!(parse_seconds_response(b"9223372036854775807"), Err(TimeSourceError::TimeComponentRange));
}

#[test]
fn seconds_answer_rejects_invalid_utf8() {
    assert_eq!(parse_seconds_response(&[0xff, 0x31]), Err(TimeSourceError::Utf8));
}

#[test]
fn world_time_answer_parses() {
    let body = b"abbreviation: CET\nraw_offset: 3600\nunixtime: 1700000000\nutc_offset: +01:00\n";
    assert_eq!(
        parse_world_time_response(body),
        Ok(WallTime { unix_timestamp: 1_700_000_000, offset_seconds: 3600 })
    );
}

#[test]
fn world_time_answer_with_carriage_returns() {
    let body = b"unixtime: 1700000000\r\nraw_offset: -7200\r\n";
    assert_eq!(
        parse_world_time_response(body),
        Ok(WallTime { unix_timestamp: 1_700_000_000, offset_seconds: -7200 })
    );
}

#[test]
fn world_time_answer_last_field_wins() {
    let body = b"unixtime: 1\nunixtime: 2\nraw_offset: 5\nraw_offset: 0";
    assert_eq!(parse_world_time_response(body), Ok(WallTime { unix_timestamp: 2, offset_seconds: 0 }));
}

#[test]
fn world_time_answer_missing_field() {
    assert_eq!(parse_world_time_response(b"unixtime: 1700000000\n"), Err(TimeSourceError::Unknown));
    assert_eq!(parse_world_time_response(b"raw_offset: 0"), Err(TimeSourceError::Unknown));
    assert_eq!(parse_world_time_response(b""), Err(TimeSourceError::Unknown));
}

#[test]
fn world_time_answer_bad_integers() {
    assert_eq!(parse_world_time_response(b"unixtime: abc\nraw_offset: 0"), Err(TimeSourceError::ParseInt));
    assert_eq!(parse_world_time_response(b"unixtime: -1\nraw_offset: 0"), Err(TimeSourceError::ParseInt));
    assert_eq!(parse_world_time_response(b"unixtime: 1\nraw_offset: 3000000000"), Err(TimeSourceError::ParseInt));
    assert_eq!(parse_world_time_response(b"raw_offset: x\nunixtime: 1"), Err(TimeSourceError::ParseInt));
}

#[test]
fn world_time_answer_out_of_range() {
    assert_eq!(
        parse_world_time_response(b"unixtime: 1\nraw_offset: 100000"),
        Err(TimeSourceError::TimeComponentRange)
    );
    assert_eq!(
        parse_world_time_response(b"unixtime: 253402300800\nraw_offset: 0"),
        Err(TimeSourceError::TimeComponentRange)
    );
    assert_eq!(
        parse_world_time_response(b"unixtime: 253402300799\nraw_offset: 3600"),
        Err(TimeSourceError::InvalidInOffset)
    );
    assert_eq!(parse_world_time_response(&[0xc3, 0x28]), Err(TimeSourceError::Utf8));
}

#[test]
fn text_readers_follow_the_utf8_verdict() {
    assert_eq!(parse_seconds_text(b"42", true), Ok(utc(42)));
    assert_eq!(parse_seconds_text(b"42", false), Err(TimeSourceError::Utf8));
    assert_eq!(
        parse_world_time_text(b"unixtime: 7\nraw_offset: -60", true),
        Ok(WallTime { unix_timestamp: 7, offset_seconds: -60 })
    );
    assert_eq!(parse_world_time_text(b"unixtime: 7\nraw_offset: -60", false), Err(TimeSourceError::Utf8));
}

#[test]
fn world_time_answer_valid_offset_near_calendar_end() {
    assert_eq!(
        parse_world_time_response(b"unixtime: 253402297199\nraw_offset: 3600"),
        Ok(WallTime { unix_timestamp: 253_402_297_199, offset_seconds: 3600 })
    );
}
