use cni_gesprek::environment::{CniEnvironment, EnvVars, EnvironmentProvider, MockEnvironmentProvider};

#[test]
fn test_mock_environment_provider() {
    let mut provider = MockEnvironmentProvider::new();

    // Initially empty
    assert!(provider.get("TEST_VAR").is_none());

    // Set a variable
    provider.set("TEST_VAR", "test_value");
    assert_eq!(provider.get("TEST_VAR"), Some("test_value".to_string()));

    // Test required variable that exists
    assert!(provider.get_required("TEST_VAR").is_ok());

    // Test required variable that doesn't exist
    assert!(provider.get_required("MISSING_VAR").is_err());

    // Test multiple variables
    provider.set_multiple([("VAR1", "value1"), ("VAR2", "value2")]);

    let result = provider.get_required_multiple(&["TEST_VAR", "VAR1", "VAR2"]);
    assert!(result.is_ok());
    let vars = result.unwrap();
    assert_eq!(vars.len(), 3);
    assert_eq!(vars.get("TEST_VAR"), Some("test_value".to_string()));
    assert_eq!(vars.get("VAR1"), Some("value1".to_string()));
    assert_eq!(vars.get("VAR2"), Some("value2".to_string()));
}

#[test]
fn test_cni_environment_load() {
    let mut provider = MockEnvironmentProvider::new();
    provider
        .set("CNI_COMMAND", "ADD")
        .set("CNI_NETNS", "/proc/123/ns/net")
        .set("CNI_IFNAME", "eth0")
        .set("CNI_CONTAINERID", "container123")
        .set("CNI_PATH", "/usr/lib/cni");

    let cni_env = CniEnvironment::load(&provider);

    assert_eq!(cni_env.command, "ADD");
    assert_eq!(cni_env.netns, Some("/proc/123/ns/net".to_string()));
    assert_eq!(cni_env.ifname, Some("eth0".to_string()));
    assert_eq!(cni_env.container_id, Some("container123".to_string()));
    assert_eq!(cni_env.path, Some("/usr/lib/cni".to_string()));
}

#[test]
fn test_cni_environment_validation() {
    let mut provider = MockEnvironmentProvider::new();

    // Test ADD command validation - should require netns, ifname
    provider.set("CNI_COMMAND", "ADD").set("CNI_NETNS", "/proc/123/ns/net").set("CNI_IFNAME", "eth0");

    let cni_env = CniEnvironment::load(&provider);
    assert!(cni_env.validate_for_command().is_ok());

    // Test DEL command validation - should require container_id too
    provider.set("CNI_COMMAND", "DEL");
    let cni_env = CniEnvironment::load(&provider);
    assert!(cni_env.validate_for_command().is_err()); // Missing container_id

    provider.set("CNI_CONTAINERID", "container123");
    let cni_env = CniEnvironment::load(&provider);
    assert!(cni_env.validate_for_command().is_ok());

    // Test VERSION command - should not require additional vars
    provider.clear().set("CNI_COMMAND", "VERSION");
    let cni_env = CniEnvironment::load(&provider);
    assert!(cni_env.validate_for_command().is_ok());
}

#[test]
fn test_cni_environment_getters() {
    let mut provider = MockEnvironmentProvider::new();
    provider
        .set("CNI_COMMAND", "ADD")
        .set("CNI_NETNS", "/proc/123/ns/net")
        .set("CNI_IFNAME", "eth0")
        .set("CNI_CONTAINERID", "container123");

    let cni_env = CniEnvironment::load(&provider);

    assert_eq!(cni_env.get_netns().unwrap(), "/proc/123/ns/net");
    assert_eq!(cni_env.get_ifname().unwrap(), "eth0");
    assert_eq!(cni_env.get_container_id().unwrap(), "container123");

    // Test error cases
    let empty_env = CniEnvironment::load(&MockEnvironmentProvider::new());
    assert!(empty_env.get_netns().is_err());
    assert!(empty_env.get_ifname().is_err());
    assert!(empty_env.get_container_id().is_err());
}

#[test]
fn validation_messages_per_command() {
    let mut provider = MockEnvironmentProvider::new();
    provider.set("CNI_COMMAND", "CHECK");
    let msg = |p: &MockEnvironmentProvider| CniEnvironment::load(p).validate_for_command().unwrap_err().message();
    assert_eq!(msg(&provider), "Environment variable 'CNI_NETNS' required for command 'CHECK' is not set");
    provider.set("CNI_NETNS", "/var/run/netns/a");
    assert_eq!(msg(&provider), "Environment variable 'CNI_IFNAME' required for command 'CHECK' is not set");
    provider.set("CNI_IFNAME", "eth0");
    assert_eq!(msg(&provider), "Environment variable 'CNI_CONTAINERID' required for command 'CHECK' is not set");
    provider.set("CNI_CONTAINERID", "c");
    assert!(CniEnvironment::load(&provider).validate_for_command().is_ok());

    // ADD does not need the container id
    provider.unset("CNI_CONTAINERID").set("CNI_COMMAND", "ADD");
    assert!(CniEnvironment::load(&provider).validate_for_command().is_ok());

    for cmd in ["STATUS", "GC", "VERSION"] {
        provider.clear().set("CNI_COMMAND", cmd);
        assert!(CniEnvironment::load(&provider).validate_for_command().is_ok());
    }
    provider.clear().set("CNI_COMMAND", "UNKNOWN");
    assert_eq!(
        msg(&provider),
        "Environment variable 'CNI_COMMAND' has invalid value 'UNKNOWN', expected: one of ADD, DEL, CHECK, GC, VERSION, STATUS"
    );
}

fn add_env(netns: &str, ifname: &str, container_id: &str) -> MockEnvironmentProvider {
    let mut provider = MockEnvironmentProvider::new();
    provider
        .set("CNI_COMMAND", "ADD")
        .set("CNI_NETNS", netns)
        .set("CNI_IFNAME", ifname)
        .set("CNI_CONTAINERID", container_id);
    provider
}

fn refusal(provider: &MockEnvironmentProvider) -> String {
    CniEnvironment::load(provider).validate_for_command().unwrap_err().message()
}

#[test]
fn comprehensive_integration_tests_test_missing_environment_variables() {
    let mut provider = MockEnvironmentProvider::new();
    provider.set("CNI_COMMAND", "ADD").set("CNI_CONTAINERID", "test").set("CNI_IFNAME", "eth0");
    assert!(refusal(&provider).contains("Environment variable 'CNI_NETNS' required for command 'ADD' is not set"));
}

#[test]
fn test_missing_cni_ifname() {
    let mut provider = MockEnvironmentProvider::new();
    provider.set("CNI_COMMAND", "ADD").set("CNI_CONTAINERID", "test").set("CNI_NETNS", "/proc/123/ns/net");
    assert!(refusal(&provider).contains("Environment variable 'CNI_IFNAME' required for command 'ADD' is not set"));
}

#[test]
fn comprehensive_integration_tests_test_unknown_command() {
    let mut provider = MockEnvironmentProvider::new();
    provider.set("CNI_COMMAND", "UNKNOWN");
    assert!(refusal(&provider).contains("Environment variable 'CNI_COMMAND' has invalid value 'UNKNOWN'"));
}

#[test]
fn test_invalid_netns_path_format() {
    let provider = add_env("/invalid/path", "eth0", "test");
    assert!(refusal(&provider).contains("Environment variable 'CNI_NETNS' has invalid value '/invalid/path'"));
}

#[test]
fn test_invalid_interface_name_format() {
    let provider = add_env("/proc/123/ns/net", "invalid interface name", "test");
    assert!(refusal(&provider).contains("Environment variable 'CNI_IFNAME' has invalid value 'invalid interface name'"));
}

#[test]
fn test_invalid_container_id_format() {
    let mut provider = add_env("/proc/123/ns/net", "eth0", "invalid@container#id");
    provider.set("CNI_COMMAND", "DEL");
    assert!(refusal(&provider)
        .contains("Environment variable 'CNI_CONTAINERID' has invalid value 'invalid@container#id'"));
}

#[test]
fn test_interface_name_too_long() {
    let provider = add_env("/proc/123/ns/net", "very-long-interface-name", "test");
    let m = refusal(&provider);
    assert!(m.contains("Environment variable 'CNI_IFNAME' has invalid value 'very-long-interface-name'"));
    assert!(m.contains("maximum 15 characters"));
}

#[test]
fn test_interface_name_starts_with_dot() {
    let provider = add_env("/proc/123/ns/net", ".eth0", "test");
    let m = refusal(&provider);
    assert!(m.contains("Environment variable 'CNI_IFNAME' has invalid value '.eth0'"));
    assert!(m.contains("does not start with a dot"));
}

#[test]
fn test_very_long_container_id() {
    let long_id = "a".repeat(100);
    let provider = add_env("/proc/123/ns/net", "eth0", &long_id);
    let m = refusal(&provider);
    assert!(m.contains("Environment variable 'CNI_CONTAINERID'"));
    assert!(m.contains("maximum 64 characters"));
}

#[test]
fn test_valid_environment_variables() {
    assert!(CniEnvironment::load(&add_env("/proc/1234/ns/net", "eth0", "test-container-123")).validate_for_command().is_ok());
    assert!(CniEnvironment::load(&add_env("/var/run/netns/test-namespace", "veth1234", "test")).validate_for_command().is_ok());
    assert!(CniEnvironment::load(&add_env("/run/netns/my-test-ns", "cni-12345", "test")).validate_for_command().is_ok());
    let sixty_four = "b".repeat(64);
    assert!(CniEnvironment::load(&add_env("/proc/self/ns/net", "net1", &sixty_four)).validate_for_command().is_ok());
}

#[test]
fn getter_messages() {
    let empty_env = CniEnvironment::load(&MockEnvironmentProvider::new());
    assert_eq!(empty_env.command, "VERSION");
    assert_eq!(empty_env.get_netns().unwrap_err(), "CNI_NETNS not set");
    assert_eq!(empty_env.get_ifname().unwrap_err(), "CNI_IFNAME not set");
    assert_eq!(empty_env.get_container_id().unwrap_err(), "CNI_CONTAINERID not set");
}

#[test]
fn required_variables() {
    let mut provider = MockEnvironmentProvider::new();
    provider.set("A", "1");
    assert_eq!(provider.get_required("A"), Ok("1".to_string()));
    assert_eq!(provider.get_required("B"), Err("B not set".to_string()));
    assert!(provider.is_set("A"));
    assert!(!provider.is_set("B"));
    // The first missing key is reported
    assert_eq!(provider.get_required_multiple(&["A", "B", "C"]).unwrap_err(), "B not set");
    assert_eq!(provider.get_required_multiple(&[]).unwrap().len(), 0);
}

#[test]
fn set_overwrites_and_unset_removes() {
    let mut provider = MockEnvironmentProvider::default();
    provider.set("K", "old").set("K", "new");
    assert_eq!(provider.get("K"), Some("new".to_string()));
    provider.set_multiple([("K", "a"), ("K", "b")]);
    assert_eq!(provider.get("K"), Some("b".to_string()));
    provider.unset("K");
    assert_eq!(provider.get("K"), None);
    provider.unset("never-set");
    assert_eq!(provider.get("never-set"), None);
}

#[test]
fn env_vars_map() {
    let mut vars = EnvVars::new();
    assert_eq!(vars.len(), 0);
    vars.insert("X", "1");
    vars.insert("Y", "2");
    vars.insert("X", "3");
    assert_eq!(vars.len(), 2);
    assert_eq!(vars.get("X"), Some("3".to_string()));
    vars.remove("X");
    assert_eq!(vars.get("X"), None);
    assert_eq!(vars.len(), 1);
    vars.clear();
    assert_eq!(vars.len(), 0);
}

#[test]
fn cloned_environment_is_equal() {
    let mut provider = MockEnvironmentProvider::new();
    provider.set("CNI_COMMAND", "DEL").set("CNI_NETNS", "/run/netns/a");
    let env = CniEnvironment::load(&provider);
    let copy = env.clone();
    assert_eq!(copy.command, "DEL");
    assert_eq!(copy.netns, Some("/run/netns/a".to_string()));
    assert_eq!(copy.ifname, None);
}

#[test]
fn test_system_environment_provider() {
    let mut vars = EnvVars::new();
    vars.insert("PATH", "/usr/sbin:/usr/bin:/sbin:/bin");
    vars.insert("HOME", "/root");
    let provider = cni_gesprek::environment::SystemEnvironmentProvider::from_vars(vars);

    // Test getting an environment variable that should exist
    let path = provider.get("PATH");
    assert!(path.is_some());
    assert_eq!(path.unwrap(), "/usr/sbin:/usr/bin:/sbin:/bin");

    // Test getting a non-existent variable
    let nonexistent = provider.get("NONEXISTENT_VAR_12345");
    assert!(nonexistent.is_none());
    assert_eq!(provider.get_required("NONEXISTENT_VAR_12345").unwrap_err(), "NONEXISTENT_VAR_12345 not set");
}
