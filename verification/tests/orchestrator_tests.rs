use cni_gesprek::cni::{CniConfig, CniDns};
use cni_gesprek::orchestrator::{CniInterface, CniIp, CniOrchestrator, CniResult, NetworkConfiguration, ValidationStep};
use cni_gesprek::utils::{is_address_in_subnet, parse_cidr};

fn create_test_config() -> CniConfig {
    CniConfig {
        cni_version: "1.0.0".to_string(),
        name: "test-network".to_string(),
        plugin_type: "cni-gesprek".to_string(),
        master: Some("eth0".to_string()),
        pod_cidr: Some("2001:db8::/64".to_string()),
        dns: None,
    }
}

const GATEWAY: u128 = 0x2001_0db8_0000_0000_0000_0000_0000_0001;

#[test]
fn test_plan_add_operation_with_config_cidr() {
    let config = create_test_config();
    let result = CniOrchestrator::plan_add_operation(&config, None, "eth0", "veth0", None, Some(GATEWAY)).unwrap();

    assert_eq!(result.interface_name, "veth0");
    assert_eq!(result.master_interface, "eth0");
    assert_eq!(result.gateway, Some(GATEWAY));
    assert!(result.target_ip.starts_with("2001:db8:"));
    assert!(result.target_ip.ends_with("/64"));
    assert!(result.temporary_name.starts_with("ipvl"));
}

#[test]
fn test_plan_add_operation_with_cli_cidr() {
    let config = create_test_config();
    let result = CniOrchestrator::plan_add_operation(&config, Some("2001:db8:1::/64"), "eth0", "veth0", None, None).unwrap();

    assert!(result.target_ip.starts_with("2001:db8:1:"));
}

#[test]
fn test_plan_add_operation_with_driver_subnet() {
    let mut config = create_test_config();
    config.pod_cidr = None; // Remove config CIDR

    let result =
        CniOrchestrator::plan_add_operation(&config, None, "eth0", "veth0", Some(("2001:db8:2::".to_string(), 64)), None)
            .unwrap();

    assert!(result.target_ip.starts_with("2001:db8:2:"));
}

#[test]
fn test_plan_check_operation() {
    let config = create_test_config();
    let steps = CniOrchestrator::plan_check_operation(&config, "veth0", "eth0").unwrap();

    assert_eq!(steps.len(), 3);
    assert_eq!(steps[0], ValidationStep::NetnsExists);
    assert_eq!(steps[1], ValidationStep::MasterInterface("eth0".to_string()));
    assert_eq!(steps[2], ValidationStep::TargetInterface("veth0".to_string()));
}

#[test]
fn test_should_proceed_with_del() {
    // Dry run should always proceed
    assert!(CniOrchestrator::should_proceed_with_del(false, true));
    assert!(CniOrchestrator::should_proceed_with_del(true, true));

    // Non-dry run should proceed only if netns exists
    assert!(!CniOrchestrator::should_proceed_with_del(false, false));
    assert!(CniOrchestrator::should_proceed_with_del(true, false));
}

#[test]
fn test_create_add_result() {
    let config = create_test_config();
    let network_config = NetworkConfiguration {
        interface_name: "veth0".to_string(),
        target_ip: "2001:db8::42/64".to_string(),
        gateway: Some(GATEWAY),
        master_interface: "eth0".to_string(),
        temporary_name: "ipvl12345".to_string(),
    };

    let result = CniOrchestrator::create_add_result(&config, &network_config, "/proc/123/ns/net");

    assert_eq!(result.cni_version, "1.0.0");
    assert_eq!(result.interfaces.len(), 1);
    assert_eq!(result.interfaces[0].name, "veth0");
    assert_eq!(result.ips.len(), 1);
    assert_eq!(result.ips[0].address, "2001:db8::42/64");
}

#[test]
fn test_version_response() {
    let response = CniOrchestrator::create_version_response();
    assert!(response.contains("1.0.0"));
    assert!(response.contains("supportedVersions"));
}

#[test]
fn test_cni_result_serialization() {
    let result = CniResult {
        cni_version: "1.0.0".to_string(),
        interfaces: vec![CniInterface {
            name: "eth0".to_string(),
            mac: "aa:bb:cc:dd:ee:ff".to_string(),
            sandbox: "/proc/123/ns/net".to_string(),
        }],
        ips: vec![CniIp { version: "6".to_string(), address: "2001:db8::1/64".to_string(), interface: 0 }],
        dns: Some(CniDns {
            nameservers: Some(vec!["2001:db8::53".to_string()]),
            domain: Some("example.com".to_string()),
            search: None,
            options: None,
        }),
    };

    let json = result.to_json_string();
    assert_eq!(
        json,
        "{\"cniVersion\":\"1.0.0\",\"interfaces\":[{\"name\":\"eth0\",\"mac\":\"aa:bb:cc:dd:ee:ff\",\"sandbox\":\"/proc/123/ns/net\"}],\"ips\":[{\"version\":\"6\",\"address\":\"2001:db8::1/64\",\"interface\":0}],\"dns\":{\"nameservers\":[\"2001:db8::53\"],\"domain\":\"example.com\"}}"
    );
}

#[test]
fn result_json_escapes_strings() {
    let result = CniResult {
        cni_version: "1.0\"x\\".to_string(),
        interfaces: vec![
            CniInterface { name: "a\nb".to_string(), mac: "\u{1}".to_string(), sandbox: "\t".to_string() },
            CniInterface { name: "é".to_string(), mac: String::new(), sandbox: "\u{8}\u{c}\r".to_string() },
        ],
        ips: vec![],
        dns: Some(CniDns { nameservers: None, domain: None, search: Some(vec![]), options: Some(vec!["a".to_string(), "b".to_string()]) }),
    };
    assert_eq!(
        result.to_json_string(),
        "{\"cniVersion\":\"1.0\\\"x\\\\\",\"interfaces\":[{\"name\":\"a\\nb\",\"mac\":\"\\u0001\",\"sandbox\":\"\\t\"},{\"name\":\"é\",\"mac\":\"\",\"sandbox\":\"\\b\\f\\r\"}],\"ips\":[],\"dns\":{\"search\":[],\"options\":[\"a\",\"b\"]}}"
    );
}

#[test]
fn success_result_and_its_json() {
    let r = CniOrchestrator::create_success_result();
    assert_eq!(r.cni_version, "1.0.0");
    assert!(r.interfaces.is_empty() && r.ips.is_empty() && r.dns.is_none());
    assert_eq!(r.to_json_string(), "{\"cniVersion\":\"1.0.0\",\"interfaces\":[],\"ips\":[]}");
}

#[test]
fn exact_version_response() {
    assert_eq!(
        CniOrchestrator::create_version_response(),
        "{\"cniVersion\": \"1.0.0\", \"supportedVersions\": [\"1.0.0\"]}"
    );
}

#[test]
fn plan_check_refuses_other_versions() {
    let mut config = create_test_config();
    config.cni_version = "0.4.0".to_string();
    assert_eq!(
        CniOrchestrator::plan_check_operation(&config, "veth0", "eth0").unwrap_err(),
        "Unsupported CNI version: 0.4.0"
    );
}

#[test]
fn plan_add_errors() {
    let mut config = create_test_config();
    config.pod_cidr = None;
    assert_eq!(
        CniOrchestrator::plan_add_operation(&config, None, "eth0", "veth0", None, None).unwrap_err(),
        "No pod CIDR specified in config, CLI args, or master interface"
    );
    assert_eq!(
        CniOrchestrator::plan_add_operation(&config, Some("2001:db8::/129"), "eth0", "veth0", None, None).unwrap_err(),
        "Invalid CIDR format '2001:db8::/129': invalid IP address syntax"
    );
}

#[test]
fn plan_add_target_lies_in_the_subnet_and_names_are_fresh() {
    let config = create_test_config();
    for _ in 0..20 {
        let plan = CniOrchestrator::plan_add_operation(&config, Some("2001:db8:aa::/48"), "eth0", "net1", None, None).unwrap();
        let (addr, prefix) = parse_cidr(&plan.target_ip).unwrap();
        assert_eq!(prefix, 48);
        assert_eq!(is_address_in_subnet(addr, "2001:db8:aa::/48"), Ok(true));
        assert_eq!(plan.temporary_name.len(), 12);
        assert!(plan.temporary_name[4..].chars().all(|c| c.is_ascii_hexdigit() && !c.is_ascii_uppercase()));
    }
    // The subnet found on the interface is used as address/prefix
    let mut no_cidr = create_test_config();
    no_cidr.pod_cidr = None;
    let plan = CniOrchestrator::plan_add_operation(&no_cidr, None, "eth0", "net1", Some(("2001:db8:5::9".to_string(), 128)), None)
        .unwrap();
    assert_eq!(plan.target_ip, "2001:db8:5::9/128");
}

#[test]
fn add_result_keeps_dns_and_fields() {
    let mut config = create_test_config();
    config.dns = Some(CniDns {
        nameservers: Some(vec!["2001:db8::53".to_string()]),
        domain: None,
        search: Some(vec!["example.com".to_string()]),
        options: None,
    });
    let nc = NetworkConfiguration {
        interface_name: "net1".to_string(),
        target_ip: "2001:db8::7/64".to_string(),
        gateway: None,
        master_interface: "eth0".to_string(),
        temporary_name: "ipvl00000000".to_string(),
    };
    let r = CniOrchestrator::create_add_result(&config, &nc, "/var/run/netns/x");
    assert_eq!(r.interfaces[0].mac, "");
    assert_eq!(r.interfaces[0].sandbox, "/var/run/netns/x");
    assert_eq!(r.ips[0].version, "6");
    assert_eq!(r.ips[0].interface, 0);
    assert_eq!(
        r.to_json_string(),
        "{\"cniVersion\":\"1.0.0\",\"interfaces\":[{\"name\":\"net1\",\"mac\":\"\",\"sandbox\":\"/var/run/netns/x\"}],\"ips\":[{\"version\":\"6\",\"address\":\"2001:db8::7/64\",\"interface\":0}],\"dns\":{\"nameservers\":[\"2001:db8::53\"],\"search\":[\"example.com\"]}}"
    );
}
