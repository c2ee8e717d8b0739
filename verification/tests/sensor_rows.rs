use smartfan::decimal::parse_decimal;
use smartfan::render::append_milli;
use smartfan::sensor::parse_optional_milli;
use smartfan::sensor::parse_optional_string;
use smartfan::sensor::ParseError;
use smartfan::sensor::SensorResult;
use smartfan::text::chars_of;

fn thousandths(value: f64) -> i64 {
    (value * 1000.0).round() as i64
}

#[test]
fn test_parse_sensor() {
    let line = "CPU1_Temp | 85.0 | degrees C | ok | na | na | na | 90.0 | 95.0 | 100.0";
    let sensor = SensorResult::from_line(line).unwrap();

    assert_eq!(sensor.sensor_name, "CPU1_Temp");
    assert_eq!(sensor.value, Some(thousandths(85.0)));
    assert_eq!(sensor.unit, Some("degrees C".to_string()));
    assert_eq!(sensor.status, Some("ok".to_string()));
    assert_eq!(sensor.thresholds.uc, Some(thousandths(95.0)));
}

#[test]
fn full_row_fills_every_threshold() {
    let line = "FAN1_F_Speed | 3000.000 | RPM | ok | 100.5 | 200.25 | 300.125 | 9000 | 9500 | 10000 ";
    let sensor = SensorResult::from_line(line).unwrap();
    assert_eq!(sensor.sensor_name, "FAN1_F_Speed");
    assert_eq!(sensor.value, Some(3_000_000));
    assert_eq!(sensor.unit.as_deref(), Some("RPM"));
    assert_eq!(sensor.thresholds.lnr, Some(100_500));
    assert_eq!(sensor.thresholds.lc, Some(200_250));
    assert_eq!(sensor.thresholds.lnc, Some(300_125));
    assert_eq!(sensor.thresholds.unc, Some(9_000_000));
    assert_eq!(sensor.thresholds.uc, Some(9_500_000));
    assert_eq!(sensor.thresholds.unr, Some(10_000_000));
}

#[test]
fn short_row_is_refused() {
    let r = SensorResult::from_line("CPU1_Temp | 85.0 | degrees C | ok");
    assert!(matches!(r, Err(ParseError::InvalidFormat)));
}

#[test]
fn nine_fields_are_refused_and_ten_accepted() {
    let nine = "a|b|c|d|e|f|g|h|i";
    let ten = "a|b|c|d|e|f|g|h|i|j";
    assert!(matches!(SensorResult::from_line(nine), Err(ParseError::InvalidFormat)));
    assert!(SensorResult::from_line(ten).is_ok());
}

#[test]
fn empty_and_header_lines_are_refused() {
    assert!(SensorResult::from_line("").is_err());
    assert!(SensorResult::from_line("Sensor ID | Value | Units").is_err());
}

#[test]
fn fields_past_the_tenth_are_ignored() {
    let line = "CPU1_Temp|1|degrees C|ok|2|3|4|5|6|7|extra|more";
    let sensor = SensorResult::from_line(line).unwrap();
    assert_eq!(sensor.value, Some(1000));
    assert_eq!(sensor.thresholds.unr, Some(7000));
}

#[test]
fn not_applicable_value_is_absent_not_zero() {
    let line = "CPU2_Temp | na | degrees C | na | na | na | na | 90.0 | 95.0 | 100.0";
    let sensor = SensorResult::from_line(line).unwrap();
    assert_eq!(sensor.value, None);
    assert_ne!(sensor.value, Some(0));
    assert_eq!(sensor.status, None);
    assert_eq!(sensor.thresholds.lnr, None);
    assert_eq!(sensor.thresholds.unc, Some(90_000));
}

#[test]
fn value_that_is_no_number_is_absent() {
    let line = "PSU1_Status | 0x1 | discrete | 0x0100 | na | na | na | na | na | na";
    let sensor = SensorResult::from_line(line).unwrap();
    assert_eq!(sensor.value, None);
    assert_eq!(sensor.unit.as_deref(), Some("discrete"));
    assert_eq!(sensor.status.as_deref(), Some("0x0100"));
}

#[test]
fn empty_unit_is_absent() {
    let line = "X | 1 |  | ok | na | na | na | na | na | na";
    let sensor = SensorResult::from_line(line).unwrap();
    assert_eq!(sensor.unit, None);
}

#[test]
fn fields_are_trimmed_of_all_white_space() {
    let line = "\t CPU1_Temp \u{a0}|\u{3000}34.000\r|degrees C|ok|na|na|na|na|na|na\r";
    let sensor = SensorResult::from_line(line).unwrap();
    assert_eq!(sensor.sensor_name, "CPU1_Temp");
    assert_eq!(sensor.value, Some(34_000));
    assert_eq!(sensor.thresholds.unr, None);
}

#[test]
fn optional_string_filters_markers() {
    assert_eq!(parse_optional_string("na"), None);
    assert_eq!(parse_optional_string(""), None);
    assert_eq!(parse_optional_string("ok"), Some("ok".to_string()));
    assert_eq!(parse_optional_string("NA"), Some("NA".to_string()));
    assert_eq!(parse_optional_string("nan"), Some("nan".to_string()));
}

#[test]
fn decimals_read_as_thousandths() {
    assert_eq!(parse_optional_milli("85.0"), Some(85_000));
    assert_eq!(parse_optional_milli("0"), Some(0));
    assert_eq!(parse_optional_milli("0.000"), Some(0));
    assert_eq!(parse_optional_milli("-12.5"), Some(-12_500));
    assert_eq!(parse_optional_milli("+3"), Some(3_000));
    assert_eq!(parse_optional_milli(".5"), Some(500));
    assert_eq!(parse_optional_milli("5."), Some(5_000));
    assert_eq!(parse_optional_milli("-.25"), Some(-250));
    assert_eq!(parse_optional_milli("007.010"), Some(7_010));
    assert_eq!(parse_optional_milli("39.9"), Some(39_900));
}

#[test]
fn digits_past_the_third_are_cut_off() {
    assert_eq!(parse_optional_milli("1.2345"), Some(1_234));
    assert_eq!(parse_optional_milli("1.9999"), Some(1_999));
    assert_eq!(parse_optional_milli("-0.0009"), Some(0));
}

#[test]
fn texts_that_are_no_number_read_as_nothing() {
    for text in [
        "", "na", "-", "+", ".", "-.", "1.2.3", "0x10", "12a", " 1", "1 ", "--1", "1-", "NaN", "nan",
        "١٢", "e", "e5", "1e", "1e+", "1e-", "1e5e5", ".e5", "1e1.5", "1e 5", "in", "infinit",
        "infinityy", "i", "+-1", "1_000",
    ] {
        assert_eq!(parse_optional_milli(text), None, "{:?}", text);
    }
}

#[test]
fn exponents_move_the_point() {
    assert_eq!(parse_optional_milli("1e3"), Some(1_000_000));
    assert_eq!(parse_optional_milli("1E3"), Some(1_000_000));
    assert_eq!(parse_optional_milli("1e+3"), Some(1_000_000));
    assert_eq!(parse_optional_milli("1.5e-2"), Some(15));
    assert_eq!(parse_optional_milli("-1.5E-2"), Some(-15));
    assert_eq!(parse_optional_milli("1.e2"), Some(100_000));
    assert_eq!(parse_optional_milli(".5e1"), Some(5_000));
    assert_eq!(parse_optional_milli("12.345e-1"), Some(1_234));
    assert_eq!(parse_optional_milli("0.0005e1"), Some(5));
    assert_eq!(parse_optional_milli("123456e-3"), Some(123_456));
    assert_eq!(parse_optional_milli("123456e-5"), Some(1_234));
    assert_eq!(parse_optional_milli("123456e-6"), Some(123));
    assert_eq!(parse_optional_milli("123456e-8"), Some(1));
    assert_eq!(parse_optional_milli("123456e-9"), Some(0));
    assert_eq!(parse_optional_milli("1e-1"), Some(100));
    assert_eq!(parse_optional_milli("1e-3"), Some(1));
    assert_eq!(parse_optional_milli("1e-4"), Some(0));
    assert_eq!(parse_optional_milli("34.5e0"), Some(34_500));
    assert_eq!(parse_optional_milli("34.5e-0"), Some(34_500));
    assert_eq!(parse_optional_milli("3.45e1"), Some(34_500));
    assert_eq!(parse_optional_milli("0.001e3"), Some(1_000));
    assert_eq!(parse_optional_milli("00012e000"), Some(12_000));
    assert_eq!(parse_optional_milli("9223372036854.775807e3"), Some(i64::MAX));
}

#[test]
fn exponents_agree_with_floating_point() {
    for text in ["1e3", "2.5e1", "1.25e2", "5e-1", "75e-2", "1.5E+1", "4200e0", "0.5e2", "125e-3"] {
        let number: f64 = text.parse().unwrap();
        assert_eq!(parse_optional_milli(text), Some(thousandths(number)), "{}", text);
    }
}

#[test]
fn exponents_beyond_all_measure() {
    assert_eq!(parse_optional_milli("1e20"), Some(i64::MAX));
    assert_eq!(parse_optional_milli("-1e20"), Some(-i64::MAX));
    assert_eq!(parse_optional_milli("1e99999999999999999999999999999999999999999999"), Some(i64::MAX));
    assert_eq!(parse_optional_milli("0e99999999999999999999999999999999999999999999"), Some(0));
    assert_eq!(parse_optional_milli("0.000e99999999999999999999999999999999999999999"), Some(0));
    assert_eq!(parse_optional_milli("1e-99999999999999999999999999999999999999999999"), Some(0));
    assert_eq!(parse_optional_milli("-7e-99999999999999999999999999999999999999999999"), Some(0));
    assert_eq!(parse_optional_milli("1e18446744073709551616"), Some(i64::MAX));
    assert_eq!(parse_optional_milli("1e-18446744073709551616"), Some(0));
    assert_eq!(parse_optional_milli("1e15"), Some(1_000_000_000_000_000_000));
    assert_eq!(parse_optional_milli("9e15"), Some(9_000_000_000_000_000_000));
    assert_eq!(parse_optional_milli("1e16"), Some(i64::MAX));
}

#[test]
fn infinity_reads_as_the_largest() {
    for text in ["inf", "INF", "Inf", "+inf", "infinity", "Infinity", "+INFINITY"] {
        assert_eq!(parse_optional_milli(text), Some(i64::MAX), "{}", text);
    }
    for text in ["-inf", "-Infinity", "-INFINITY"] {
        assert_eq!(parse_optional_milli(text), Some(-i64::MAX), "{}", text);
    }
}

#[test]
fn largest_and_too_large_decimals() {
    assert_eq!(parse_optional_milli("9223372036854775.807"), Some(i64::MAX));
    assert_eq!(parse_optional_milli("-9223372036854775.807"), Some(-i64::MAX));
    assert_eq!(parse_optional_milli("9223372036854775.806"), Some(i64::MAX - 1));
    assert_eq!(parse_optional_milli("9223372036854775.808"), Some(i64::MAX));
    assert_eq!(parse_optional_milli("9223372036854776"), Some(i64::MAX));
    assert_eq!(parse_optional_milli("-9223372036854776"), Some(-i64::MAX));
    assert_eq!(parse_optional_milli("99999999999999999999999999999999999999999"), Some(i64::MAX));
    assert_eq!(parse_optional_milli("0000000000000000000000000000000000000001"), Some(1_000));
}

#[test]
fn parse_decimal_works_on_characters() {
    assert_eq!(parse_decimal(&chars_of("100.000")), Some(100_000));
    assert_eq!(parse_decimal(&vec!['4', '2']), Some(42_000));
    assert_eq!(parse_decimal(&Vec::new()), None);
}

#[test]
fn parse_errors_render_as_text() {
    assert_eq!(ParseError::InvalidFormat.to_string(), "Invalid sensor data format");
    assert_eq!(ParseError::ParseFailure("value".to_string()).to_string(), "Parse failed: value");
}

#[test]
fn written_decimals_read_back() {
    for v in [0i64, 1, -1, 9, 10, 99, 100, 999, 1_000, 1_001, -34_500, 45_120, i64::MAX, -i64::MAX, i64::MIN + 1] {
        let mut text = String::new();
        append_milli(&mut text, v);
        assert_eq!(parse_optional_milli(&text), Some(v), "{}", text);
    }
    let mut lowest = String::new();
    append_milli(&mut lowest, i64::MIN);
    assert_eq!(parse_optional_milli(&lowest), Some(-i64::MAX));
}
