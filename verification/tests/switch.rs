use yew_router::switch::{build_route_from_switch, Route, Switch};

fn route(text: &str) -> Route<()> {
    Route { route: text.to_string(), state: None }
}

fn written<S: Switch>(value: S) -> String {
    let built: Route<()> = build_route_from_switch(value);
    assert!(built.state.is_none());
    built.route
}

#[test]
fn isize_build_route() {
    let mut route = "/".to_string();
    let state: Option<String> = None;
    let _ = state.or((-432isize).build_route_section(&mut route));
    assert_eq!(route, "/-432".to_string());
}

#[test]
fn integers_are_written_in_decimal() {
    assert_eq!(written(0u8), "0");
    assert_eq!(written(255u8), "255");
    assert_eq!(written(1000u16), "1000");
    assert_eq!(written(u32::MAX), "4294967295");
    assert_eq!(written(u64::MAX), u64::MAX.to_string());
    assert_eq!(written(u128::MAX), u128::MAX.to_string());
    assert_eq!(written(usize::MAX), usize::MAX.to_string());
    assert_eq!(written(-1i8), "-1");
    assert_eq!(written(i8::MIN), "-128");
    assert_eq!(written(i16::MIN), "-32768");
    assert_eq!(written(i32::MIN), i32::MIN.to_string());
    assert_eq!(written(i64::MIN), i64::MIN.to_string());
    assert_eq!(written(i128::MIN), i128::MIN.to_string());
    assert_eq!(written(i128::MAX), i128::MAX.to_string());
    assert_eq!(written(isize::MIN), isize::MIN.to_string());
    assert_eq!(written(10i32), "10");
    assert_eq!(written(-907i64), "-907");
}

#[test]
fn integers_are_read_from_decimal() {
    assert_eq!(u8::switch(route("0")), Some(0));
    assert_eq!(u8::switch(route("255")), Some(255));
    assert_eq!(u8::switch(route("256")), None);
    assert_eq!(u8::switch(route("+7")), Some(7));
    assert_eq!(u8::switch(route("007")), Some(7));
    assert_eq!(u8::switch(route("-0")), None);
    assert_eq!(u8::switch(route("-7")), None);
    assert_eq!(u8::switch(route("")), None);
    assert_eq!(u8::switch(route("+")), None);
    assert_eq!(u8::switch(route("7a")), None);
    assert_eq!(u8::switch(route(" 7")), None);
    assert_eq!(u8::switch(route("٣")), None);
    assert_eq!(i8::switch(route("-128")), Some(-128));
    assert_eq!(i8::switch(route("-129")), None);
    assert_eq!(i8::switch(route("127")), Some(127));
    assert_eq!(i8::switch(route("128")), None);
    assert_eq!(i8::switch(route("-0")), Some(0));
    assert_eq!(i8::switch(route("-")), None);
    assert_eq!(i8::switch(route("--1")), None);
    assert_eq!(i8::switch(route("+-1")), None);
    assert_eq!(i16::switch(route("-32768")), Some(i16::MIN));
    assert_eq!(i32::switch(route("-2147483648")), Some(i32::MIN));
    assert_eq!(i32::switch(route("2147483648")), None);
    assert_eq!(i64::switch(route("-9223372036854775808")), Some(i64::MIN));
    assert_eq!(u16::switch(route("65535")), Some(u16::MAX));
    assert_eq!(u16::switch(route("65536")), None);
    assert_eq!(u32::switch(route("4294967295")), Some(u32::MAX));
    assert_eq!(u64::switch(route("18446744073709551616")), None);
    assert_eq!(usize::switch(route("22")), Some(22));
    assert_eq!(isize::switch(route("-432")), Some(-432));
    assert_eq!(
        u128::switch(route("340282366920938463463374607431768211455")),
        Some(u128::MAX)
    );
    assert_eq!(u128::switch(route("340282366920938463463374607431768211456")), None);
    assert_eq!(
        i128::switch(route("-170141183460469231731687303715884105728")),
        Some(i128::MIN)
    );
    assert_eq!(i128::switch(route("-170141183460469231731687303715884105729")), None);
    assert_eq!(
        i128::switch(route("170141183460469231731687303715884105727")),
        Some(i128::MAX)
    );
    assert_eq!(i128::switch(route("170141183460469231731687303715884105728")), None);
    assert_eq!(i128::switch(route("9999999999999999999999999999999999999999999")), None);
}

#[test]
fn reading_agrees_with_the_standard_library() {
    for text in [
        "0", "1", "-1", "+1", "12", "-12", "127", "128", "-128", "-129", "255", "256", "00",
        "-00", "+0", "", "+", "-", "1-", "1+", "a", "1a", "0x10", "1_000", "١",
    ] {
        assert_eq!(i8::switch(route(text)), text.parse::<i8>().ok(), "i8 {:?}", text);
        assert_eq!(u8::switch(route(text)), text.parse::<u8>().ok(), "u8 {:?}", text);
        assert_eq!(i64::switch(route(text)), text.parse::<i64>().ok(), "i64 {:?}", text);
        assert_eq!(u128::switch(route(text)), text.parse::<u128>().ok(), "u128 {:?}", text);
    }
}

#[test]
fn writing_and_reading_agree() {
    for value in [i16::MIN, -1000, -1, 0, 1, 9, 10, 99, 100, 12345, i16::MAX] {
        assert_eq!(written(value), value.to_string());
        assert_eq!(i16::switch(route(&written(value))), Some(value));
    }
    for value in [0u64, 9, 10, 11, 1234567890123456789, u64::MAX] {
        assert_eq!(written(value), value.to_string());
        assert_eq!(u64::switch(route(&written(value))), Some(value));
    }
}

#[test]
fn truth_values_are_read_and_written_as_words() {
    assert_eq!(written(true), "true");
    assert_eq!(written(false), "false");
    assert_eq!(bool::switch(route("true")), Some(true));
    assert_eq!(bool::switch(route("false")), Some(false));
    assert_eq!(bool::switch(route("True")), None);
    assert_eq!(bool::switch(route("1")), None);
    assert_eq!(bool::switch(route("")), None);
    assert_eq!(bool::switch(route("truefalse")), None);
}

#[test]
fn strings_are_read_and_written_as_they_are() {
    assert_eq!(written("lorem/ipsum".to_string()), "lorem/ipsum");
    assert_eq!(written(String::new()), "");
    assert_eq!(String::switch(route("lorem")), Some("lorem".to_string()));
    assert_eq!(String::switch(route("")), Some(String::new()));
}

#[test]
fn route_section_is_appended_to_what_is_there() {
    let mut text = "/capture/number/".to_string();
    let state: Option<()> = 22usize.build_route_section(&mut text);
    assert_eq!(state, None);
    assert_eq!(text, "/capture/number/22");
    let state: Option<()> = "/x".to_string().build_route_section(&mut text);
    assert_eq!(state, None);
    assert_eq!(text, "/capture/number/22/x");
    let state: Option<()> = true.build_route_section(&mut text);
    assert_eq!(state, None);
    assert_eq!(text, "/capture/number/22/xtrue");
}

#[test]
fn state_comes_back_with_the_value() {
    let part = Route { route: "17".to_string(), state: Some("kept".to_string()) };
    assert_eq!(u32::from_route_part(part), (Some(17), Some("kept".to_string())));
    let part = Route { route: "x".to_string(), state: Some(5u8) };
    assert_eq!(u32::from_route_part(part), (None, Some(5u8)));
    let part: Route<u8> = Route { route: "x".to_string(), state: None };
    assert_eq!(String::from_route_part(part), (Some("x".to_string()), None));
}

#[test]
fn no_default_when_the_key_is_missing() {
    assert_eq!(u8::key_not_available(), None);
    assert_eq!(String::key_not_available(), None);
    assert_eq!(bool::key_not_available(), None);
}
