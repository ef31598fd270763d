use cni_gesprek::driver_script::ScriptDriver;
use cni_gesprek::ip_json::{addr_infos_from_json, get_member, parse_json_array, routes_from_json, JsonValue};

const ADDR_SHOW: &str = r#"[{"ifindex":2,"ifname":"eth0","flags":["BROADCAST","MULTICAST","UP"],
"addr_info":[{"family":"inet6","local":"2001:db8::5","prefixlen":64,"scope":"global","flags":["tentative"]},
{"family":"inet6","local":"2001:db8::6","prefixlen":64,"scope":"global"}]},
{"ifindex":3,"ifname":"eth1"},
{"ifindex":4,"ifname":"eth2","addr_info":[{"local":"2001:db8:1::7","prefixlen":48,"flags":["dadfailed",7]}]}]"#;

#[test]
fn parse_json_array_reads_values() {
    let values = parse_json_array(r#"[null, true, 7, -1, 2.5, "x", [1], {"k": "v"}]"#).unwrap();
    assert_eq!(values.len(), 8);
    assert!(matches!(values[0], JsonValue::Null));
    assert!(matches!(values[1], JsonValue::Bool(true)));
    assert!(matches!(values[2], JsonValue::Number(Some(7))));
    assert!(matches!(values[3], JsonValue::Number(None)));
    assert!(matches!(values[4], JsonValue::Number(None)));
    assert!(matches!(&values[5], JsonValue::Str(s) if s == "x"));
    assert!(matches!(&values[6], JsonValue::Array(items) if items.len() == 1));
    assert!(matches!(get_member(&values[7], "k"), Some(JsonValue::Str(s)) if s == "v"));
    assert!(get_member(&values[7], "missing").is_none());
    assert!(get_member(&values[5], "k").is_none());
}

#[test]
fn parse_json_array_refuses_other_text() {
    assert!(parse_json_array("{ invalid json").is_err());
    assert!(parse_json_array(r#"{"a": 1}"#).is_err());
    assert_eq!(parse_json_array("[]").unwrap().len(), 0);
}

#[test]
fn routes_from_json_reads_dev_and_gateway() {
    let values = parse_json_array(r#"[{"dev":"eth0","gateway":"fe80::1"},{"dev":5}]"#).unwrap();
    let routes = routes_from_json(&values);
    assert_eq!(routes.len(), 2);
    assert_eq!(routes[0].dev.as_deref(), Some("eth0"));
    assert_eq!(routes[0].gateway.as_deref(), Some("fe80::1"));
    assert_eq!(routes[1].dev, None);
    assert_eq!(routes[1].gateway, None);
}

#[test]
fn addr_infos_from_json_flattens_in_order() {
    let values = parse_json_array(ADDR_SHOW).unwrap();
    let infos = addr_infos_from_json(&values);
    assert_eq!(infos.len(), 3);
    assert_eq!(infos[0].local.as_deref(), Some("2001:db8::5"));
    assert_eq!(infos[0].prefixlen, Some(64));
    assert_eq!(infos[0].flags, vec!["tentative".to_string()]);
    assert!(infos[1].flags.is_empty());
    assert_eq!(infos[2].local.as_deref(), Some("2001:db8:1::7"));
    assert_eq!(infos[2].flags, vec!["dadfailed".to_string()]);
}

#[test]
fn gateway_from_output_cases() {
    assert_eq!(
        ScriptDriver::gateway_from_output(r#"[{"dev":"eth0","gateway":"fe80::1"}]"#),
        Ok(Some(0xfe80_0000_0000_0000_0000_0000_0000_0001))
    );
    assert_eq!(ScriptDriver::gateway_from_output(r#"[{"dev":"eth0"}]"#), Ok(None));
    assert_eq!(ScriptDriver::gateway_from_output("garbage"), Ok(None));
    assert_eq!(
        ScriptDriver::gateway_from_output(r#"[{"gateway":"nope"}]"#).unwrap_err(),
        "Invalid IPv6 gateway address 'nope': invalid IPv6 address syntax"
    );
}

#[test]
fn subnet_from_output_cases() {
    let subnet = ScriptDriver::subnet_from_output(ADDR_SHOW, "eth0").unwrap();
    assert_eq!(subnet.address, 0x2001_0db8_0000_0000_0000_0000_0000_0005);
    assert_eq!(subnet.prefix_length, 64);
    assert_eq!(
        ScriptDriver::subnet_from_output("[]", "eth0").unwrap_err(),
        "No global IPv6 address found on interface eth0"
    );
    let err = ScriptDriver::subnet_from_output("not json", "eth0").unwrap_err();
    assert!(!err.is_empty());
    assert!(!err.contains("No global IPv6 address"));
}

#[test]
fn dad_observation_from_output_cases() {
    let o = ScriptDriver::dad_observation_from_output(ADDR_SHOW, "2001:db8::5").unwrap();
    assert!(o.found && !o.ready && !o.failed);
    let o = ScriptDriver::dad_observation_from_output(ADDR_SHOW, "2001:db8::6").unwrap();
    assert!(o.found && o.ready && !o.failed);
    let o = ScriptDriver::dad_observation_from_output(ADDR_SHOW, "2001:db8:1::7").unwrap();
    assert!(o.found && !o.ready && o.failed);
    let o = ScriptDriver::dad_observation_from_output(ADDR_SHOW, "2001:db8::9").unwrap();
    assert!(!o.found);
    let err = ScriptDriver::dad_observation_from_output("{ bad", "2001:db8::5").unwrap_err();
    assert!(err.starts_with("Failed to parse addr show JSON: "));
}

#[test]
fn check_interface_outcome_requires_up() {
    assert_eq!(ScriptDriver::check_interface_outcome("eth0", r#"[{"ifname":"eth0","flags":["BROADCAST","UP"]}]"#), Ok(()));
    assert_eq!(
        ScriptDriver::check_interface_outcome("eth0", r#"[{"ifname":"eth0","flags":["BROADCAST"]}]"#).unwrap_err(),
        "Interface eth0 is not UP"
    );
    assert_eq!(ScriptDriver::check_interface_outcome("eth0", "[]").unwrap_err(), "Interface eth0 is not UP");
    assert!(ScriptDriver::check_interface_outcome("eth0", "nope").unwrap_err().starts_with("Failed to parse link show JSON: "));
}
