use lan_iot_hub::json::{JsonNumber, JsonValue};

fn reading(j: &JsonValue) -> Option<(u64, String)> {
    j.as_f64().map(|f| (f.bits, f.text))
}

#[test]
fn integers_read_as_floats() {
    assert_eq!(reading(&JsonValue::uint(18)), Some((18f64.to_bits(), "18".to_string())));
    assert_eq!(reading(&JsonValue::uint(0)), Some((0f64.to_bits(), "0".to_string())));
    assert_eq!(reading(&JsonValue::integer(-7)), Some(((-7f64).to_bits(), "-7".to_string())));
    assert_eq!(reading(&JsonValue::uint(1 << 53)), Some((((1u64 << 53) as f64).to_bits(), "9007199254740992".to_string())));
    let big = (1u64 << 53) - 1;
    assert_eq!(reading(&JsonValue::uint(big)), Some(((big as f64).to_bits(), big.to_string())));
    assert_eq!(reading(&JsonValue::integer(-(1i64 << 40) - 3)), Some((((-(1i64 << 40) - 3) as f64).to_bits(), (-(1i64 << 40) - 3).to_string())));
    for x in [(1u64 << 53) + 1, (1u64 << 53) + 3, (1u64 << 53) + 6, 12345678901234567, (1u64 << 54) - 1, (1u64 << 54) - 2] {
        assert_eq!(reading(&JsonValue::uint(x)), Some(((x as f64).to_bits(), format!("{}", x as f64))));
        let n = -(x as i64);
        assert_eq!(reading(&JsonValue::integer(n)), Some(((n as f64).to_bits(), format!("{}", n as f64))));
    }
    assert_eq!(reading(&JsonValue::uint((1 << 53) + 1)), Some((9007199254740992f64.to_bits(), "9007199254740992".to_string())));
    assert_eq!(reading(&JsonValue::uint(1 << 54)), None);
    assert_eq!(reading(&JsonValue::uint(u64::MAX)), None);
    assert_eq!(reading(&JsonValue::Str("1".into())), None);
    let carried = JsonValue::Number(JsonNumber::PosInt(3, Some(lan_iot_hub::json::Float64 { bits: 3f64.to_bits(), text: "3".into() })));
    assert_eq!(reading(&carried), Some((3f64.to_bits(), "3".to_string())));
}
