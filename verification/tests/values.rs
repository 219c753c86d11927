use ros_client::RosError;
use ros_client::ValueFormat;
use ros_client::duration::Duration;
use ros_client::duration::encode_duration;
use ros_client::duration::parse_duration;
use ros_client::field::RosFieldValue;
use ros_client::net::IpAddress;
use ros_client::net::IpNetAddr;
use ros_client::net::IpOrInterface;
use ros_client::net::IpWithInterface;
use ros_client::net::MacAddr;
use ros_client::ranges::ValueRange;
use ros_client::sets::ValueSet;
use ros_client::value::Auto;
use ros_client::value::RosValue;
use ros_client::value::parse_uint;

#[test]
fn check_hash_parse() {
    let parsed_value = <ValueSet<u16> as RosValue>::from_api("1").ok();
    let mut result = ValueSet::<u16>::new();
    result.insert(1u16);
    match parsed_value {
        Some(v) => assert!(v.eq_value(&result)),
        None => panic!("expected a parsed set"),
    }
}

#[test]
fn test_string() {
    let mut value: RosFieldValue<String> = Default::default();
    value.set_from_api("hello").unwrap();
    assert_eq!(Some(String::from("hello")), *value.get());
    assert_eq!(None, value.modified_value(&ValueFormat::Api));
    value.set(String::from("X2"));
    assert_eq!(Some(String::from("X2")), value.modified_value(&ValueFormat::Api));
    value.reset().unwrap();
    assert_eq!(None, value.modified_value(&ValueFormat::Api));
}

#[test]
fn test_option_boolean() {
    let mut value: RosFieldValue<bool> = Default::default();
    value.set_from_api("true").unwrap();
    assert_eq!(Some(true), *value.get());
    value.clear();
    assert_eq!(Some(String::from("")), value.modified_value(&ValueFormat::Api));
    value.set(false);
    assert_eq!(Some(String::from("false")), value.modified_value(&ValueFormat::Api));
}

#[test]
fn test_u16() {
    let mut value: RosFieldValue<u16> = Default::default();
    value.set_from_api("12").unwrap();
    assert_eq!(Some(12), *value.get());
    value.clear();
    assert_eq!(Some(String::from("")), value.modified_value(&ValueFormat::Api));
    value.set(13);
    assert_eq!(Some(String::from("13")), value.modified_value(&ValueFormat::Api));
}

#[test]
fn bool_format_asymmetry() {
    assert_eq!("true", bool::to_api(&true, &ValueFormat::Api));
    assert_eq!("yes", bool::to_api(&true, &ValueFormat::Cli));
    assert_eq!("false", bool::to_api(&false, &ValueFormat::Api));
    assert_eq!("no", bool::to_api(&false, &ValueFormat::Cli));
    assert_eq!(Ok(true), bool::from_api("true").map_err(|_| ()));
    assert_eq!(Ok(true), bool::from_api("yes").map_err(|_| ()));
    assert_eq!(Ok(false), bool::from_api("false").map_err(|_| ()));
    assert_eq!(Ok(false), bool::from_api("no").map_err(|_| ()));
    assert!(bool::from_api("maybe").is_err());
}

#[test]
fn integers_decimal_and_hex() {
    assert_eq!(Ok(18), u16::from_api("18").map_err(|_| ()));
    assert_eq!(Ok(0x1A), u16::from_api("0x1A").map_err(|_| ()));
    assert_eq!(Ok(255), u8::from_api("0xFF").map_err(|_| ()));
    assert!(u8::from_api("256").is_err());
    assert!(u16::from_api("bogus").is_err());
    assert!(u16::from_api("").is_err());
    assert_eq!("18", u16::to_api(&18, &ValueFormat::Api));
    assert_eq!("26", u16::to_api(&0x1A, &ValueFormat::Api));
    assert_eq!(Ok(-5), i8::from_api("-5").map_err(|_| ()));
    assert_eq!("-5", i8::to_api(&-5, &ValueFormat::Api));
    assert_eq!(Some(300), parse_uint("0x12C", 1000));
    assert_eq!(None, parse_uint("0x12C", 100));
    assert_eq!(Ok(None), <Option<u32> as RosValue>::from_api("none").map_err(|_| ()));
    assert_eq!(Ok(Some(7)), <Option<u32> as RosValue>::from_api("7").map_err(|_| ()));
    assert_eq!("none", <Option<u32> as RosValue>::to_api(&None, &ValueFormat::Api));
}

#[test]
fn auto_values() {
    assert!(matches!(Auto::<u16>::from_api("auto"), Ok(Auto::Auto)));
    assert!(matches!(Auto::<u16>::from_api("7"), Ok(Auto::Value(7))));
    assert_eq!("auto", Auto::<u16>::to_api(&Auto::Auto, &ValueFormat::Api));
    assert_eq!("7", Auto::<u16>::to_api(&Auto::Value(7), &ValueFormat::Api));
}

#[test]
fn duration_parse_equivalence() {
    let composite = parse_duration("1h30m");
    let positional = parse_duration("01:30:00");
    assert_eq!(Some(90 * 60 * 1000), composite);
    assert_eq!(composite, positional);
}

#[test]
fn duration_forms() {
    assert_eq!(Some(0), parse_duration(""));
    assert_eq!(Some(0), parse_duration("0s"));
    assert_eq!(Some(250), parse_duration("250ms"));
    assert_eq!(Some(1000), parse_duration("1s"));
    assert_eq!(Some(90_000), parse_duration("1m30s"));
    assert_eq!(Some(26 * 3600 * 1000), parse_duration("1d2h"));
    assert_eq!(None, parse_duration("h"));
    assert_eq!("0s", encode_duration(0));
    assert_eq!("1m30s", encode_duration(90_000));
    assert_eq!("1d2h", encode_duration(26 * 3600 * 1000));
    assert_eq!("250ms", encode_duration(250));
}

#[test]
fn duration_round_trip() {
    for ms in [
        0u64,
        1,
        999,
        1000,
        59_999,
        60_000,
        3_600_000,
        86_400_000,
        90_061_001,
        123_456_789_012,
    ] {
        assert_eq!(Some(ms), parse_duration(&encode_duration(ms)));
    }
    let d = Duration::from_millis(90_061_001);
    let text = d.to_api(&ValueFormat::Api);
    assert_eq!(Ok(d), Duration::from_api(&text).map_err(|_| ()));
}

#[test]
fn range_codec() {
    let single = ValueRange::<u16>::from_api("5").unwrap();
    assert_eq!(5, single.start);
    assert_eq!(5, single.end);
    let wide = ValueRange::<u16>::from_api("5-10").unwrap();
    assert_eq!(5, wide.start);
    assert_eq!(10, wide.end);
    assert_eq!("5", ValueRange { start: 5u16, end: 5u16 }.to_api(&ValueFormat::Api));
    assert_eq!("5-10", ValueRange { start: 5u16, end: 10u16 }.to_api(&ValueFormat::Api));
    assert!(ValueRange::<u16>::from_api("5-x").is_err());
}

#[test]
fn set_round_trip() {
    let mut set = ValueSet::<u16>::new();
    set.insert(3);
    set.insert(1);
    set.insert(2);
    set.insert(1);
    assert_eq!(3, set.len());
    let text = set.to_api(&ValueFormat::Api);
    let back = <ValueSet<u16> as RosValue>::from_api(&text).unwrap();
    assert!(back.eq_value(&set));
    let listed = <ValueSet<u16> as RosValue>::from_api("7,7,9").unwrap();
    let mut expect = ValueSet::<u16>::new();
    expect.insert(9);
    expect.insert(7);
    assert!(listed.eq_value(&expect));
    assert!(<ValueSet<u16> as RosValue>::from_api("1,bad").is_err());
}

#[test]
fn mac_codec() {
    let m = MacAddr::from_api("00:11:22:33:44:ff").unwrap();
    assert_eq!(
        MacAddr { b0: 0, b1: 0x11, b2: 0x22, b3: 0x33, b4: 0x44, b5: 0xFF },
        m
    );
    assert_eq!("00:11:22:33:44:FF", m.to_api(&ValueFormat::Api));
    assert!(MacAddr::from_api("not-a-mac").is_err());
}

#[test]
fn ip_codec() {
    let ip = IpAddress::from_api("10.1.2.3").unwrap();
    assert_eq!(IpAddress::V4(10, 1, 2, 3), ip);
    assert_eq!("10.1.2.3", ip.to_api(&ValueFormat::Api));
    let six = IpAddress::from_api("::1").unwrap();
    assert_eq!("::1", six.to_api(&ValueFormat::Api));
    assert!(IpAddress::from_api("10.1.2").is_err());
    let net = IpNetAddr::from_api("10.1.0.0/16").unwrap();
    assert_eq!(IpAddress::V4(10, 1, 0, 0), net.addr);
    assert_eq!(16, net.prefix_len);
    assert_eq!("10.1.0.0/16", net.to_api(&ValueFormat::Api));
    assert!(IpNetAddr::from_api("10.1.0.0").is_err());
}

#[test]
fn ip_or_interface() {
    let bound = IpWithInterface::from_api("10.0.0.1%ether1").unwrap();
    assert_eq!(IpAddress::V4(10, 0, 0, 1), bound.get_ip());
    assert_eq!("ether1", bound.get_interface());
    assert_eq!("10.0.0.1%ether1", bound.to_api(&ValueFormat::Api));
    assert!(IpWithInterface::from_api("10.0.0.1").is_err());
    let plain = IpOrInterface::from_api("10.0.0.1").unwrap();
    assert_eq!(Some(IpAddress::V4(10, 0, 0, 1)), plain.ip());
    assert_eq!(None, plain.if_name());
    let named = IpOrInterface::from_api("ether1").unwrap();
    assert_eq!(None, named.ip());
    assert_eq!(Some("ether1"), named.if_name());
    let both = IpOrInterface::from_api("10.0.0.1%ether1").unwrap();
    assert_eq!(Some(IpAddress::V4(10, 0, 0, 1)), both.ip());
    assert_eq!(Some("ether1"), both.if_name());
}

#[test]
fn error_messages() {
    assert_eq!(
        "malformed integer: x2",
        u16::from_api("x2").unwrap_err().to_message()
    );
    assert_eq!(
        "malformed boolean: maybe",
        bool::from_api("maybe").unwrap_err().to_message()
    );
    let missing = RosError::field_missing_error(String::from("color"), String::from("red"));
    assert_eq!("unknown field color carrying value red", missing.to_message());
    let wrapped = RosError::FieldWriteError {
        field_name: String::from("pvid"),
        field_value: String::from("abc"),
        error: Box::new(RosError::ParseIntError(String::from("abc"))),
    };
    assert_eq!(
        "field pvid rejected value abc: malformed integer: abc",
        wrapped.to_message()
    );
    let umbrella = RosError::Umbrella(vec![
        RosError::SimpleMessage(String::from("one")),
        RosError::SimpleMessage(String::from("two")),
    ]);
    assert_eq!("failures collected: 2", umbrella.to_message());
}
