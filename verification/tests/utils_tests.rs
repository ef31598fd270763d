use cni_gesprek::driver::Ipv6Subnet;
use cni_gesprek::utils::{generate_random_ip, is_address_in_subnet, parse_cidr, split_ipv6_address};
use std::collections::HashSet;

fn addr_of(text_with_prefix: &str) -> u128 {
    parse_cidr(&format!("{}/128", text_with_prefix.split('/').next().unwrap())).unwrap().0
}

#[test]
fn test_generate_random_ip_basic() {
    let cidr = "2001:db8::/64";
    let result = generate_random_ip(cidr).unwrap();

    // Should be in format IP/64
    assert!(result.contains('/'));
    let parts: Vec<&str> = result.split('/').collect();
    assert_eq!(parts.len(), 2);
    assert_eq!(parts[1], "64");

    // Should start with the correct prefix (2001:db8)
    let bytes = addr_of(&result).to_be_bytes();
    assert_eq!(bytes[0], 0x20);
    assert_eq!(bytes[1], 0x01);
    assert_eq!(bytes[2], 0x0d);
    assert_eq!(bytes[3], 0xb8);
}

#[test]
fn test_generate_random_ip_edge_cases() {
    // Test /0 prefix (whole IPv6 space)
    let result = generate_random_ip("2001:db8::1/0").unwrap();
    assert!(result.contains("/0"));

    // Test /128 prefix (single IP)
    let result = generate_random_ip("2001:db8::1/128").unwrap();
    assert_eq!(result, "2001:db8::1/128");

    // Test /64 prefix (standard)
    let result = generate_random_ip("2001:db8:1:2::/64").unwrap();
    assert!(result.contains("/64"));
    let bytes = addr_of(&result).to_be_bytes();

    // First 8 bytes should match prefix
    assert_eq!(bytes[0], 0x20);
    assert_eq!(bytes[1], 0x01);
    assert_eq!(bytes[2], 0x0d);
    assert_eq!(bytes[3], 0xb8);
    assert_eq!(bytes[4], 0x00);
    assert_eq!(bytes[5], 0x01);
    assert_eq!(bytes[6], 0x00);
    assert_eq!(bytes[7], 0x02);
}

#[test]
fn test_generate_random_ip_randomness() {
    let cidr = "2001:db8::/64";
    let mut generated_ips = HashSet::new();

    // Generate multiple IPs and ensure they're different
    for _ in 0..10 {
        let ip = generate_random_ip(cidr).unwrap();
        generated_ips.insert(ip);
    }

    // Should have generated different IPs (very high probability)
    assert!(generated_ips.len() > 1);
}

#[test]
fn test_generate_random_ip_invalid_cidr() {
    // Invalid format
    assert!(generate_random_ip("not-a-cidr").is_err());

    // Invalid IP
    assert!(generate_random_ip("invalid-ip/64").is_err());

    // Invalid prefix length
    assert!(generate_random_ip("2001:db8::/129").is_err());

    // No prefix length
    assert!(generate_random_ip("2001:db8::").is_err());

    // IPv4 is refused too
    assert!(generate_random_ip("192.168.1.0/24").is_err());
}

#[test]
fn test_generate_random_ip_prefix_preservation() {
    // Test various prefix lengths
    let test_cases = vec![
        ("2001:db8::/32", 32u32),
        ("2001:db8:1::/48", 48),
        ("2001:db8:1:2::/64", 64),
        ("2001:db8:1:2:3::/80", 80),
        ("2001:db8:1:2:3:4::/96", 96),
    ];

    for (cidr, prefix_len) in test_cases {
        let result = generate_random_ip(cidr).unwrap();
        let gen_bytes = addr_of(&result).to_be_bytes();
        let base_bytes = addr_of(cidr).to_be_bytes();

        let prefix_bytes = prefix_len / 8;
        let prefix_bits = prefix_len % 8;

        // Check full bytes
        for i in 0..prefix_bytes as usize {
            assert_eq!(base_bytes[i], gen_bytes[i], "Prefix mismatch at byte {} for {}", i, cidr);
        }

        // Check partial byte if any
        if prefix_bits > 0 {
            let byte_idx = prefix_bytes as usize;
            let mask = 0xFFu8 << (8 - prefix_bits);
            assert_eq!(base_bytes[byte_idx] & mask, gen_bytes[byte_idx] & mask, "Prefix mismatch in partial byte for {}", cidr);
        }
    }

    // Prefixes that do not fall on a byte boundary keep their bits too
    for (cidr, prefix_len) in [("2001:db8::/33", 33u32), ("2001:db8:ffff::/63", 63), ("2001:db8::/121", 121)] {
        let generated = addr_of(&generate_random_ip(cidr).unwrap());
        let mask = u128::MAX << (128 - prefix_len);
        assert_eq!(addr_of(cidr) & mask, generated & mask, "Prefix mismatch for {}", cidr);
    }
}

#[test]
fn test_ip_generation_within_subnet() {
    let cidr = "2001:db8:1:2::/64";

    for _ in 0..20 {
        let generated = generate_random_ip(cidr).unwrap();
        let ip_u128 = addr_of(&generated);
        let base_u128 = addr_of("2001:db8:1:2::");

        // First 64 bits should be the same
        let subnet_mask = 0xFFFFFFFFFFFFFFFF_u128 << 64;
        assert_eq!(ip_u128 & subnet_mask, base_u128 & subnet_mask, "Generated IP {} not in subnet {}", generated, cidr);
        assert_eq!(is_address_in_subnet(ip_u128, cidr), Ok(true));
    }
}

#[test]
fn test_generate_random_ip_stress() {
    let cidr = "2001:db8::/96"; // Small host space for collision testing
    let mut ips = HashSet::new();

    for _ in 0..1000 {
        let ip = generate_random_ip(cidr).unwrap();
        ips.insert(ip);
    }

    assert!(ips.len() > 900, "Poor randomness: only {} unique IPs out of 1000", ips.len());
}

#[test]
fn test_cidr_validation_patterns() {
    let test_cases = vec![
        ("2001:db8::/64", true),
        ("2001:db8:1:2:3:4:5:6/128", true),
        ("::/0", true),
        ("invalid", false),
        ("2001:db8::/129", false),
        ("2001:db8::/-1", false),
        ("2001:db8::", false),
    ];

    for (cidr, should_be_valid) in test_cases {
        let result = generate_random_ip(cidr);
        if should_be_valid {
            assert!(result.is_ok(), "Expected {} to be valid", cidr);
        } else {
            assert!(result.is_err(), "Expected {} to be invalid", cidr);
        }
    }
}

#[test]
fn test_error_propagation() {
    // Test that errors are properly propagated through the system
    let invalid_cidr = "not-a-cidr";
    let error = generate_random_ip(invalid_cidr).unwrap_err();
    assert!(error.contains("Invalid CIDR format"));
    assert_eq!(error, "Invalid CIDR format 'not-a-cidr': invalid IP address syntax");
}

#[test]
fn host_bits_of_the_cidr_do_not_matter() {
    // A /128 gives back the network address, which is the address itself
    assert_eq!(generate_random_ip("2001:db8::5/128").unwrap(), "2001:db8::5/128");
    // The network of 2001:db8::ffff/112 is 2001:db8::/112
    for _ in 0..10 {
        let r = generate_random_ip("2001:db8::ffff/112").unwrap();
        assert_eq!(is_address_in_subnet(addr_of(&r), "2001:db8::/112"), Ok(true));
    }
}

#[test]
fn parse_cidr_gives_the_network() {
    assert_eq!(parse_cidr("2001:db8::1/64"), Ok((0x2001_0db8_0000_0000_0000_0000_0000_0000, 64)));
    assert_eq!(parse_cidr("::/0"), Ok((0, 0)));
    assert_eq!(parse_cidr("::1/128"), Ok((1, 128)));
    assert_eq!(parse_cidr("x"), Err("Invalid CIDR format 'x': invalid IP address syntax".to_string()));
}

#[test]
fn membership_by_range() {
    let base: u128 = 0x2001_0db8_0000_0000_0000_0000_0000_0000;
    assert_eq!(is_address_in_subnet(base, "2001:db8::/64"), Ok(true));
    assert_eq!(is_address_in_subnet(base | 0xffff_ffff_ffff_ffff, "2001:db8::/64"), Ok(true));
    assert_eq!(is_address_in_subnet(base + (1u128 << 64), "2001:db8::/64"), Ok(false));
    assert_eq!(is_address_in_subnet(base - 1, "2001:db8::/64"), Ok(false));
    assert_eq!(is_address_in_subnet(12345, "::/0"), Ok(true));
    assert_eq!(is_address_in_subnet(base + 1, "2001:db8::1/128"), Ok(true));
    assert_eq!(is_address_in_subnet(base + 2, "2001:db8::1/128"), Ok(false));
    assert!(is_address_in_subnet(base, "bad").is_err());
}

#[test]
fn split_address_parts() {
    let addr: u128 = 0x2001_0db8_0001_0002_0003_0004_0005_0006;
    assert_eq!(
        split_ipv6_address(addr, 64),
        Ok((0x2001_0db8_0001_0002_0000_0000_0000_0000, 0x0003_0004_0005_0006))
    );
    assert_eq!(split_ipv6_address(addr, 0), Ok((0, addr)));
    assert_eq!(split_ipv6_address(addr, 128), Ok((addr, 0)));
    assert_eq!(split_ipv6_address(addr, 129), Err("Prefix length cannot be greater than 128".to_string()));
    let (net, host) = split_ipv6_address(addr, 37).unwrap();
    assert_eq!(net | host, addr);
    assert_eq!(net & host, 0);
}

#[test]
fn subnet_type() {
    assert_eq!(Ipv6Subnet::new(1, 129).unwrap_err(), "Invalid prefix length: 129");
    let s = Ipv6Subnet::new(0x2001_0db8_0000_0000_0000_0000_0000_0001, 64).unwrap();
    assert_eq!(s.address, 0x2001_0db8_0000_0000_0000_0000_0000_0001);
    assert_eq!(s.to_cidr_string(), "2001:db8::1/64");
}
