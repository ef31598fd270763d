use cni_gesprek::driver_script::ScriptDriver;

/// Test that validates the concept of malicious input patterns
#[test]
fn test_malicious_patterns_concept() {
    // These are examples of patterns that should be rejected by validation
    let malicious_patterns = [
        // Command injection patterns
        "; rm -rf /",
        "& rm -rf /",
        "| rm -rf /",
        "&& rm -rf /",
        "|| rm -rf /",
        // Shell metacharacters
        "`whoami`",
        "$(whoami)",
        "${HOME}",
        // Path traversal
        "../../../etc/passwd",
        "....//....//etc//passwd",
        // Control characters
        "test\0/bin/sh",
        "test\n/bin/sh",
        "test\r\n/bin/sh",
    ];

    // Test that these patterns contain dangerous sequences
    for pattern in &malicious_patterns {
        let has_dangerous_chars = pattern.contains(';')
            || pattern.contains('&')
            || pattern.contains('|')
            || pattern.contains('`')
            || pattern.contains('$')
            || pattern.contains('\0')
            || pattern.contains('\n')
            || pattern.contains('\r')
            || pattern.contains("..");

        assert!(has_dangerous_chars, "Pattern {} should be considered dangerous", pattern);
        // Every one of them is refused as an interface name and as a namespace path
        assert!(ScriptDriver::validate_interface_name(pattern).is_err());
        assert!(ScriptDriver::validate_netns_path(pattern).is_err());
    }
}

/// Test validation of interface name patterns
#[test]
fn security_fuzzing_tests_test_interface_name_patterns() {
    let valid_names = ["eth0", "wlan0", "br0", "docker0", "veth123"];
    let invalid_names = ["eth0; rm -rf /", "wlan0`whoami`", "br0 && evil"];

    // Valid names should have safe characters
    for name in &valid_names {
        assert!(name.chars().all(|c| c.is_ascii_alphanumeric() || c == '_' || c == '-' || c == '.'));
        assert!(name.len() <= 15);
        assert!(ScriptDriver::validate_interface_name(name).is_ok());
    }

    // Invalid names should contain dangerous patterns
    for name in &invalid_names {
        let has_danger = name.contains(';') || name.contains('`') || name.contains('&');
        assert!(has_danger, "Name {} should be detected as dangerous", name);
        assert!(ScriptDriver::validate_interface_name(name).is_err());
    }
}

/// Test IP/CIDR validation patterns
#[test]
fn test_ip_cidr_patterns() {
    let valid_cidrs = ["192.168.1.1/24", "2001:db8::1/64", "10.0.0.0/8"];
    let invalid_cidrs = ["192.168.1.1/24; rm -rf /", "10.0.0.1`curl evil.com`"];

    // Valid CIDRs should match expected format
    for cidr in &valid_cidrs {
        assert!(cidr.contains('/'));
        let parts: Vec<&str> = cidr.split('/').collect();
        assert_eq!(parts.len(), 2);
        assert!(ScriptDriver::validate_ip_cidr(cidr).is_ok());
    }

    // Invalid CIDRs should contain dangerous patterns
    for cidr in &invalid_cidrs {
        let has_danger = cidr.contains(';') || cidr.contains('`') || cidr.contains('&');
        assert!(has_danger, "CIDR {} should be detected as dangerous", cidr);
        assert!(ScriptDriver::validate_ip_cidr(cidr).is_err());
    }
}

/// Test network namespace path patterns
#[test]
fn test_netns_path_patterns() {
    let valid_paths = ["/proc/123/ns/net", "/var/run/netns/test", "/run/netns/container"];
    let invalid_paths = ["/var/run/netns/test; rm -rf /", "/proc/123/ns/net`evil`"];

    // Valid paths should match expected patterns
    for path_str in &valid_paths {
        assert!(
            path_str.starts_with("/proc/") || path_str.starts_with("/var/run/netns/") || path_str.starts_with("/run/netns/")
        );
        assert!(ScriptDriver::validate_netns_path(path_str).is_ok());
    }

    // Invalid paths should contain dangerous patterns
    for path_str in &invalid_paths {
        let has_danger = path_str.contains(';') || path_str.contains('`') || path_str.contains('&');
        assert!(has_danger, "Path {} should be detected as dangerous", path_str);
        assert!(ScriptDriver::validate_netns_path(path_str).is_err());
    }
}
