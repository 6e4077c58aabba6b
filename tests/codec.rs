use enose_relay::codec::{
    channel_fallback, classify_device_line, decode_reading, frame, has_prefix, has_substring,
    is_command, parse_code, split_fields, strip_sensor_tag, DeviceLine, Timestamp, CHANNEL_COUNT,
    FIELD_COUNT,
};

fn at() -> Timestamp {
    Timestamp { secs: 1_700_000_000, nanos: 5 }
}

#[test]
fn decodes_example_line() {
    let rec = decode_reading("SENSOR:12.5,3.1,0.9,0.2,100,50,20,1,2", at()).unwrap();
    let want = ["12.5", "3.1", "0.9", "0.2", "100", "50", "20"];
    assert_eq!(rec.channels.len(), CHANNEL_COUNT);
    for i in 0..CHANNEL_COUNT {
        assert_eq!(rec.channels[i], want[i]);
    }
    let values: Vec<f64> = rec.channels.iter().map(|t| t.parse::<f64>().unwrap()).collect();
    assert_eq!(values, vec![12.5, 3.1, 0.9, 0.2, 100.0, 50.0, 20.0]);
    assert_eq!(rec.state, 1);
    assert_eq!(rec.level, 2);
    assert_eq!(rec.timestamp, at());
}

#[test]
fn short_line_is_rejected() {
    assert!(decode_reading("SENSOR:1,2,3,4,5,6,7,8", at()).is_none());
    assert!(decode_reading("SENSOR:", at()).is_none());
    assert!(decode_reading("", at()).is_none());
}

#[test]
fn extra_fields_are_ignored() {
    let rec = decode_reading("SENSOR:1,2,3,4,5,6,7,8,9,10,11", at()).unwrap();
    assert_eq!(rec.channels[6], "7");
    assert_eq!(rec.state, 8);
    assert_eq!(rec.level, 9);
}

#[test]
fn malformed_fields_keep_the_record() {
    let rec = decode_reading("SENSOR:abc,3.1,,0.2,x,50,20,one,2.5", at()).unwrap();
    assert_eq!(rec.channels[0], "abc");
    assert_eq!(rec.channels[2], "");
    assert_eq!(rec.state, 0);
    assert_eq!(rec.level, 0);
    let no2 = rec.channels[0].parse::<f64>().unwrap_or(channel_fallback(0) as f64);
    let co_mics = rec.channels[4].parse::<f64>().unwrap_or(channel_fallback(4) as f64);
    assert_eq!(no2, -1.0);
    assert_eq!(co_mics, 0.0);
}

#[test]
fn fallbacks_by_channel() {
    for i in 0..4 {
        assert_eq!(channel_fallback(i), -1);
    }
    for i in 4..CHANNEL_COUNT {
        assert_eq!(channel_fallback(i), 0);
    }
    assert_eq!(FIELD_COUNT, 9);
}

#[test]
fn integer_codes() {
    assert_eq!(parse_code("0"), 0);
    assert_eq!(parse_code("42"), 42);
    assert_eq!(parse_code("+7"), 7);
    assert_eq!(parse_code("-13"), -13);
    assert_eq!(parse_code("007"), 7);
    assert_eq!(parse_code("2147483647"), 2147483647);
    assert_eq!(parse_code("-2147483648"), -2147483648);
    assert_eq!(parse_code("2147483648"), 0);
    assert_eq!(parse_code("-2147483649"), 0);
    assert_eq!(parse_code("99999999999999999999"), 0);
    assert_eq!(parse_code(""), 0);
    assert_eq!(parse_code("-"), 0);
    assert_eq!(parse_code("+"), 0);
    assert_eq!(parse_code(" 1"), 0);
    assert_eq!(parse_code("1.0"), 0);
    assert_eq!(parse_code("--1"), 0);
}

#[test]
fn codes_agree_with_std_parsing() {
    for t in ["5", "-5", "+5", "x", "", "2147483648", "-0", "12a", "٣"] {
        assert_eq!(parse_code(t), t.parse::<i32>().unwrap_or(0), "{}", t);
    }
}

#[test]
fn tag_is_stripped_repeatedly() {
    assert_eq!(strip_sensor_tag("SENSOR:1,2"), "1,2");
    assert_eq!(strip_sensor_tag("SENSOR:SENSOR:1"), "1");
    assert_eq!(strip_sensor_tag("1,2"), "1,2");
    assert_eq!(strip_sensor_tag("SENSOR"), "SENSOR");
}

#[test]
fn fields_split_on_commas() {
    assert_eq!(split_fields(""), vec![String::new()]);
    assert_eq!(split_fields("a,,b"), vec!["a", "", "b"]);
    assert_eq!(split_fields("a,"), vec!["a", ""]);
    assert_eq!(split_fields(",x"), vec!["", "x"]);
    assert_eq!(split_fields("1.5"), vec!["1.5"]);
}

#[test]
fn prefixes_and_substrings() {
    assert!(has_prefix("SENSOR:1", "SENSOR:"));
    assert!(!has_prefix("SENS", "SENSOR:"));
    assert!(has_prefix("abc", ""));
    assert!(has_substring("Arduino Connected!", "Connected"));
    assert!(!has_substring("connected", "Connected"));
    assert!(has_substring("x", ""));
    assert!(!has_substring("", "x"));
}

#[test]
fn device_lines_are_classified() {
    assert_eq!(classify_device_line("SENSOR:1,2"), DeviceLine::Sensor);
    assert_eq!(classify_device_line("ARDUINO CONNECTED"), DeviceLine::Ready);
    assert_eq!(classify_device_line("Board Connected"), DeviceLine::Ready);
    assert_eq!(classify_device_line("connected"), DeviceLine::Other);
    assert_eq!(classify_device_line("hello"), DeviceLine::Other);
    assert_eq!(classify_device_line(" SENSOR:1"), DeviceLine::Other);
}

#[test]
fn commands_are_recognized() {
    assert!(is_command("START_SAMPLING"));
    assert!(is_command("STOP_SAMPLING"));
    assert!(is_command("START_SAMPLING 30"));
    assert!(!is_command("IGNORE_ME"));
    assert!(!is_command("start_sampling"));
    assert!(!is_command(" START_SAMPLING"));
    assert!(!is_command(""));
}

#[test]
fn frames_end_with_newline() {
    assert_eq!(frame("abc"), "abc\n");
    assert_eq!(frame(""), "\n");
}
