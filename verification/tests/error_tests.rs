use cni_gesprek::error::{CniError, CommandError, ConfigError, EnvironmentError};

#[test]
fn error_messages() {
    let e: CniError = ConfigError::MissingConfig { command: "ADD".to_string(), reason: "stdin empty".to_string() }.into();
    assert_eq!(e.message(), "Configuration error: Missing configuration for command 'ADD': stdin empty");
    let e: CniError = ConfigError::ParseError { message: "bad".to_string() }.into();
    assert_eq!(e.message(), "Configuration error: Failed to parse CNI configuration: bad");
    let e: CniError = EnvironmentError::MissingVariable { variable: "CNI_NETNS".to_string(), command: "ADD".to_string() }.into();
    assert_eq!(e.message(), "Environment error: Environment variable 'CNI_NETNS' required for command 'ADD' is not set");
    let e: CniError = EnvironmentError::InvalidValue {
        name: "CNI_IFNAME".to_string(),
        value: "x y".to_string(),
        expected: "a name".to_string(),
    }
    .into();
    assert_eq!(e.message(), "Environment error: Environment variable 'CNI_IFNAME' has invalid value 'x y', expected: a name");
    let e: CniError = CommandError::UnknownCommand { command: "FROB".to_string() }.into();
    assert_eq!(e.message(), "Command error: Unknown CNI command: FROB");
    let e: CniError = CommandError::NetnsNotFound { netns: "/run/netns/x".to_string() }.into();
    assert_eq!(e.message(), "Command error: Network namespace does not exist: /run/netns/x");
    let e: CniError = CommandError::InterfaceNotFound { interface: "eth0".to_string(), netns: "/run/netns/x".to_string() }.into();
    assert_eq!(e.message(), "Command error: Interface 'eth0' not found in network namespace '/run/netns/x'");
}

#[test]
fn general_errors_are_parse_errors() {
    let e = CniError::general("boom".to_string());
    assert_eq!(e.message(), "Configuration error: Failed to parse CNI configuration: General error: boom");
    match e {
        CniError::Config(ConfigError::ParseError { message }) => assert_eq!(message, "General error: boom"),
        other => panic!("unexpected {:?}", other),
    }
}
