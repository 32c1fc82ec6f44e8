use lan_iot_hub::companion::CompanionDevice;
use lan_iot_hub::json::{JsonValue, JsonNumber};
use lan_iot_hub::lan::{
    default_commands, default_id, default_name, finish_scan, infer_kind, parse_health, probe_step, scan_hosts, scan_ports,
    scan_urls, LanEndpoint, ProbeNext, ProbeReply,
};

fn s(x: &str) -> JsonValue {
    JsonValue::Str(x.to_string())
}

fn obj(pairs: Vec<(&str, JsonValue)>) -> JsonValue {
    JsonValue::Object(pairs.into_iter().map(|(k, v)| (k.to_string(), v)).collect())
}

fn strs(v: &[&str]) -> JsonValue {
    JsonValue::Array(v.iter().map(|x| s(x)).collect())
}

#[test]
fn parse_windows_health() {
    let ep = parse_health(
        "http://192.168.1.20:9876",
        &obj(vec![
            ("ok", JsonValue::Bool(true)),
            ("lan_iot", JsonValue::Bool(true)),
            ("kind", s("pc")),
            ("id", s("companion.office")),
            ("name", s("Office PC")),
            ("service", s("companion.windows")),
        ]),
    )
    .expect("pc");
    assert_eq!(ep.kind, "pc");
    assert_eq!(ep.id, "companion.office");
    assert!(ep.commands.contains(&"lock".into()));
}

#[test]
fn parse_chip_health() {
    let ep = parse_health(
        "http://192.168.1.40:9878",
        &obj(vec![
            ("ok", JsonValue::Bool(true)),
            ("lan_iot", JsonValue::Bool(true)),
            ("kind", s("chip")),
            ("id", s("chip.esp32_desk")),
            ("name", s("Desk ESP32")),
            ("service", s("lan-iot-chip")),
            ("commands", strs(&["ping", "turn_on", "turn_off"])),
        ]),
    )
    .expect("chip");
    assert_eq!(ep.kind, "chip");
    assert_eq!(ep.id, "chip.esp32_desk");
}

#[test]
fn parse_robot_health() {
    let ep = parse_health(
        "http://192.168.1.50:9879",
        &obj(vec![
            ("ok", JsonValue::Bool(true)),
            ("lan_iot", JsonValue::Bool(true)),
            ("kind", s("robot")),
            ("id", s("robot.lan_demo")),
            ("name", s("Hall robot")),
            ("service", s("lan-iot-robot")),
            ("commands", strs(&["ping", "stop", "dock", "start"])),
        ]),
    )
    .expect("robot");
    assert_eq!(ep.kind, "robot");
    assert_eq!(ep.id, "robot.lan_demo");
    assert!(ep.commands.contains(&"stop".into()));
    assert!(ep.commands.contains(&"dock".into()));
}

#[test]
fn ignore_random_ok_json() {
    assert!(parse_health("http://127.0.0.1:80", &obj(vec![("ok", JsonValue::Bool(true)), ("server", s("nginx"))])).is_none());
}

#[test]
fn health_without_ok_is_ignored() {
    assert!(parse_health("http://h:9876", &obj(vec![("lan_iot", JsonValue::Bool(true))])).is_none());
    assert!(parse_health("http://h:9876", &obj(vec![("ok", JsonValue::Bool(false)), ("lan_iot", JsonValue::Bool(true))])).is_none());
}

#[test]
fn missing_fields_are_inferred() {
    let ep = parse_health("http://192.168.1.7:9877/", &obj(vec![("ok", JsonValue::Bool(true)), ("service", s("companion.android"))])).unwrap();
    assert_eq!(ep.kind, "phone");
    assert_eq!(ep.id, "phone.192_168_1_7_9877/");
    assert_eq!(ep.name, "Phone (phone.192_168_1_7_9877/)");
    assert_eq!(ep.base_url, "http://192.168.1.7:9877");
    assert_eq!(ep.commands, vec!["ping".to_string(), "notify".to_string(), "lock".to_string()]);
    assert!(!ep.adopted);
}

#[test]
fn commands_keep_only_strings() {
    let ep = parse_health(
        "http://h:1",
        &obj(vec![
            ("ok", JsonValue::Bool(true)),
            ("lan_iot", JsonValue::Bool(true)),
            ("commands", JsonValue::Array(vec![s("a"), JsonValue::Number(JsonNumber::PosInt(3, None)), s("b")])),
        ]),
    )
    .unwrap();
    assert_eq!(ep.commands, vec!["a".to_string(), "b".to_string()]);
    assert_eq!(ep.kind, "pc");
}

#[test]
fn kinds_from_service_and_port() {
    assert_eq!(infer_kind("companion.android", 1), "phone");
    assert_eq!(infer_kind("x", 9877), "phone");
    assert_eq!(infer_kind("lan-iot-robot", 1), "robot");
    assert_eq!(infer_kind("x", 9879), "robot");
    assert_eq!(infer_kind("chip", 1), "chip");
    assert_eq!(infer_kind("x", 9878), "chip");
    assert_eq!(infer_kind("x", 9876), "pc");
}

#[test]
fn default_identity() {
    assert_eq!(default_id("pc", "http://10.0.0.2:9876"), "pc.10_0_0_2_9876");
    assert_eq!(default_id("pc", "https://box:1"), "pc.box_1");
    assert_eq!(default_name("chip", "c"), "R&D chip hook (c)");
    assert_eq!(default_name("robot", "r"), "Robot (r)");
    assert_eq!(default_name("phone", "p"), "Phone (p)");
    assert_eq!(default_name("pc", "x"), "PC (x)");
    assert_eq!(default_commands("robot"), vec!["ping".to_string(), "stop".into(), "dock".into(), "start".into()]);
    assert_eq!(default_commands("chip"), vec!["ping".to_string(), "turn_on".into(), "turn_off".into()]);
}

#[test]
fn ports_from_env() {
    assert_eq!(scan_ports(None), vec![9876, 9877, 9878, 9879]);
    assert_eq!(scan_ports(Some(" 80, x ,8080")), vec![80, 8080]);
    assert_eq!(scan_ports(Some("nope")), vec![9876, 9877, 9878, 9879]);
}

#[test]
fn hosts_cover_private_subnet() {
    let hosts = scan_hosts(Some((192, 168, 1, 20)), Some(" extra.local ,,"));
    assert!(hosts.contains(&"127.0.0.1".to_string()));
    assert!(hosts.contains(&"localhost".to_string()));
    assert!(hosts.contains(&"host.docker.internal".to_string()));
    assert!(hosts.contains(&"192.168.1.1".to_string()));
    assert!(hosts.contains(&"192.168.1.254".to_string()));
    assert!(!hosts.contains(&"192.168.1.255".to_string()));
    assert!(hosts.contains(&"extra.local".to_string()));
    assert!(!hosts.contains(&"".to_string()));
    assert_eq!(hosts.len(), 3 + 254 + 1);
    let public = scan_hosts(Some((8, 8, 4, 4)), None);
    assert_eq!(public.len(), 4);
}

#[test]
fn urls_sorted_and_unique() {
    let hosts = vec!["b".to_string(), "a".to_string(), "a".to_string()];
    let urls = scan_urls(&hosts, &vec![2, 1]);
    assert_eq!(urls, vec!["http://a:1".to_string(), "http://a:2".into(), "http://b:1".into(), "http://b:2".into()]);
}

#[test]
fn probe_steps() {
    assert!(matches!(probe_step("http://h", ProbeReply::SendFailed), ProbeNext::Stop(None)));
    assert!(matches!(probe_step("http://h", ProbeReply::BadBody), ProbeNext::Stop(None)));
    assert!(matches!(probe_step("http://h", ProbeReply::NotSuccess), ProbeNext::Next));
    assert!(matches!(probe_step("http://h", ProbeReply::Body(obj(vec![("ok", JsonValue::Bool(true))]))), ProbeNext::Next));
    match probe_step("http://h:9879", ProbeReply::Body(obj(vec![("ok", JsonValue::Bool(true)), ("lan_iot", JsonValue::Bool(true))]))) {
        ProbeNext::Stop(Some(ep)) => {
            assert_eq!(ep.kind, "robot");
            assert_eq!(ep.base_url, "http://h:9879");
        }
        _ => panic!("expected an endpoint"),
    }
}

fn ep(kind: &str, id: &str, base: &str) -> LanEndpoint {
    LanEndpoint { id: id.into(), name: "n".into(), kind: kind.into(), base_url: base.into(), commands: vec![], adopted: false }
}

#[test]
fn scan_marks_adopted_and_orders() {
    let found = vec![ep("robot", "r1", "http://r:1"), ep("pc", "p2", "http://p:2"), ep("pc", "p1", "http://p:1")];
    let adopted = vec![
        CompanionDevice { id: "other".into(), name: "x".into(), base_url: "http://p:2/".into(), kind: "pc".into() },
        CompanionDevice { id: "r1".into(), name: "y".into(), base_url: "http://zzz".into(), kind: "robot".into() },
    ];
    let out = finish_scan(found, &adopted);
    let ids: Vec<&str> = out.iter().map(|e| e.id.as_str()).collect();
    assert_eq!(ids, vec!["p1", "p2", "r1"]);
    assert!(!out[0].adopted);
    assert!(out[1].adopted);
    assert!(out[2].adopted);
}
