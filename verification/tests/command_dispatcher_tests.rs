use cni_gesprek::cni::{CniConfig, CniContext, CniDns};
use cni_gesprek::command_dispatcher::{Args, CommandConfig, CommandContext, CommandDispatcher};
use cni_gesprek::driver_dryrun::DryRunDriver;
use cni_gesprek::environment::MockEnvironmentProvider;
use cni_gesprek::error::{CniError, CommandError, ConfigError};
use cni_gesprek::output::{MockOutputWriter, SilentOutputWriter};
use cni_gesprek::utils::is_address_in_subnet;
use cni_gesprek::utils::parse_cidr;

fn create_test_context() -> (MockOutputWriter, CniContext, DryRunDriver) {
    let mut env_provider = MockEnvironmentProvider::new();
    env_provider
        .set("CNI_COMMAND", "VERSION")
        .set("CNI_CONTAINERID", "test-container")
        .set("CNI_NETNS", "/var/run/netns/test")
        .set("CNI_IFNAME", "eth0");

    let cni_context = CniContext::load(&env_provider, false).unwrap();
    let output = MockOutputWriter::new();
    let driver = DryRunDriver;

    (output, cni_context, driver)
}

fn no_args() -> Args {
    Args { interface: None, pod_cidr: None, dry_run: false }
}

fn context_for(command: &str, config: Option<CniConfig>) -> CniContext {
    let mut env_provider = MockEnvironmentProvider::new();
    env_provider
        .set("CNI_COMMAND", command)
        .set("CNI_CONTAINERID", "test-container")
        .set("CNI_NETNS", "/var/run/netns/test")
        .set("CNI_IFNAME", "eth0");
    let mut ctx = CniContext::load(&env_provider, true).unwrap();
    ctx.config = config;
    ctx
}

fn config(pod_cidr: Option<&str>, master: Option<&str>) -> CniConfig {
    CniConfig {
        cni_version: "1.0.0".to_string(),
        name: "test-network".to_string(),
        plugin_type: "cni-gesprek".to_string(),
        master: master.map(|m| m.to_string()),
        pod_cidr: pod_cidr.map(|c| c.to_string()),
        dns: None,
    }
}

fn general_message(e: &CniError) -> String {
    match e {
        CniError::Config(ConfigError::ParseError { message }) => message.clone(),
        other => panic!("not a general error: {:?}", other),
    }
}

/// The value of the JSON string member `name` in `json`.
fn string_member<'a>(json: &'a str, name: &str) -> &'a str {
    let key = format!("\"{}\":\"", name);
    let start = json.find(&key).unwrap() + key.len();
    let end = start + json[start..].find('"').unwrap();
    &json[start..end]
}

#[test]
fn test_supported_commands() {
    let commands = CommandDispatcher::<MockOutputWriter>::supported_commands();
    assert!(commands.contains(&"ADD"));
    assert!(commands.contains(&"DEL"));
    assert!(commands.contains(&"CHECK"));
    assert!(commands.contains(&"GC"));
    assert!(commands.contains(&"VERSION"));
    assert!(commands.contains(&"STATUS"));
}

#[test]
fn test_is_supported_command() {
    assert!(CommandDispatcher::<MockOutputWriter>::is_supported_command("ADD"));
    assert!(CommandDispatcher::<MockOutputWriter>::is_supported_command("VERSION"));
    assert!(!CommandDispatcher::<MockOutputWriter>::is_supported_command("UNKNOWN"));
    assert!(!CommandDispatcher::<MockOutputWriter>::is_supported_command(""));
}

#[test]
fn test_dispatch_version_command() {
    let (mut output, cni_context, driver) = create_test_context();
    let args = Args { interface: None, pod_cidr: None, dry_run: false };

    let result = {
        let mut dispatcher = CommandDispatcher::new(&mut output);
        dispatcher.dispatch("VERSION", &args, &cni_context, &driver)
    };
    assert!(result.is_ok());

    let output_lines = output.get_output();
    assert!(!output_lines.is_empty());
    assert!(output_lines[0].contains("cniVersion"));
}

#[test]
fn test_dispatch_unknown_command() {
    let (mut output, cni_context, driver) = create_test_context();
    let args = Args { interface: None, pod_cidr: None, dry_run: false };

    let config = CommandConfig { allow_unknown_commands: false, exit_on_error: false };

    let result = {
        let mut dispatcher = CommandDispatcher::new(&mut output);
        dispatcher.dispatch_with_config("UNKNOWN", &args, &cni_context, &driver, &config)
    };
    assert!(result.is_err());

    let error_lines = output.get_errors();
    assert!(!error_lines.is_empty());
    assert!(error_lines[0].contains("Unknown CNI_COMMAND"));
}

#[test]
fn test_command_config_default() {
    let config = CommandConfig::default();
    assert!(!config.allow_unknown_commands);
    assert!(config.exit_on_error);
}

#[test]
fn version_writes_the_exact_reply() {
    let (mut output, cni_context, driver) = create_test_context();
    CommandDispatcher::new(&mut output).dispatch("VERSION", &no_args(), &cni_context, &driver).unwrap();
    assert_eq!(
        output.get_output(),
        vec!["{\"cniVersion\": \"1.0.0\", \"supportedVersions\": [\"1.0.0\"]}"]
    );
    assert!(output.get_errors().is_empty());
}

#[test]
fn gc_writes_the_empty_result() {
    let (mut output, cni_context, driver) = create_test_context();
    CommandDispatcher::new(&mut output).dispatch("GC", &no_args(), &cni_context, &driver).unwrap();
    assert_eq!(output.get_output(), vec!["{\"cniVersion\":\"1.0.0\",\"interfaces\":[],\"ips\":[]}"]);
}

#[test]
fn status_with_the_dry_run_driver_succeeds() {
    let ctx = context_for("STATUS", Some(config(None, None)));
    let mut output = MockOutputWriter::new();
    CommandDispatcher::new(&mut output).dispatch("STATUS", &no_args(), &ctx, &DryRunDriver).unwrap();
    assert_eq!(output.get_output(), vec!["{\"cniVersion\":\"1.0.0\",\"interfaces\":[],\"ips\":[]}"]);
}

#[test]
fn unknown_command_names_the_command() {
    let (mut output, cni_context, driver) = create_test_context();
    let r = CommandDispatcher::new(&mut output).dispatch("FROB", &no_args(), &cni_context, &driver);
    match r {
        Err(CniError::Command(CommandError::UnknownCommand { command })) => assert_eq!(command, "FROB"),
        other => panic!("unexpected {:?}", other),
    }
    assert_eq!(output.get_errors(), vec!["Unknown CNI_COMMAND: FROB"]);
    assert!(output.get_output().is_empty());
}

#[test]
fn unknown_command_allowed_by_the_configuration_still_fails() {
    let (mut output, cni_context, driver) = create_test_context();
    let config = CommandConfig { allow_unknown_commands: true, exit_on_error: false };
    let r = CommandDispatcher::new(&mut output).dispatch_with_config("FROB", &no_args(), &cni_context, &driver, &config);
    assert!(r.is_err());
    assert_eq!(output.get_errors(), vec!["Unknown CNI_COMMAND: FROB"]);
}

#[test]
fn add_without_configuration_fails_before_the_driver() {
    let ctx = context_for("ADD", None);
    let mut output = MockOutputWriter::new();
    let r = CommandDispatcher::new(&mut output).dispatch("ADD", &no_args(), &ctx, &DryRunDriver);
    assert_eq!(general_message(&r.unwrap_err()), "General error: Missing CNI configuration on stdin");
    assert!(output.get_output().is_empty());
    assert!(output.get_errors().is_empty());
}

#[test]
fn add_with_a_configured_pod_cidr_writes_one_result() {
    let ctx = context_for("ADD", Some(config(Some("2001:db8:1::/64"), Some("eth0"))));
    let mut output = MockOutputWriter::new();
    CommandDispatcher::new(&mut output).dispatch("ADD", &no_args(), &ctx, &DryRunDriver).unwrap();
    let lines = output.get_output();
    assert_eq!(lines.len(), 1);
    let json = &lines[0];
    assert!(json.starts_with("{\"cniVersion\":\"1.0.0\",\"interfaces\":[{\"name\":\"eth0\",\"mac\":\"\",\"sandbox\":\"/var/run/netns/test\"}],\"ips\":[{\"version\":\"6\",\"address\":\""));
    assert!(json.ends_with("\",\"interface\":0}]}"));
    let address = string_member(json, "address");
    assert!(address.ends_with("/64"));
    let (addr, prefix) = parse_cidr(address).unwrap();
    assert_eq!(prefix, 64);
    assert_eq!(is_address_in_subnet(addr, "2001:db8:1::/64"), Ok(true));
}

#[test]
fn add_prefers_the_pod_cidr_of_the_arguments() {
    let ctx = context_for("ADD", Some(config(Some("2001:db8:1::/64"), None)));
    let args = Args { interface: Some("eth9".to_string()), pod_cidr: Some("2001:db8:7::/80".to_string()), dry_run: true };
    let mut output = MockOutputWriter::new();
    CommandDispatcher::new(&mut output).dispatch("ADD", &args, &ctx, &DryRunDriver).unwrap();
    let lines = output.get_output();
    let address = string_member(&lines[0], "address");
    assert!(address.ends_with("/80"));
    let (addr, _) = parse_cidr(address).unwrap();
    assert_eq!(is_address_in_subnet(addr, "2001:db8:7::/80"), Ok(true));
}

#[test]
fn add_uses_the_subnet_of_the_master_interface_without_a_pod_cidr() {
    let ctx = context_for("ADD", Some(config(None, None)));
    let mut output = MockOutputWriter::new();
    CommandDispatcher::new(&mut output).dispatch("ADD", &no_args(), &ctx, &DryRunDriver).unwrap();
    let lines = output.get_output();
    let address = string_member(&lines[0], "address");
    let (addr, prefix) = parse_cidr(address).unwrap();
    assert_eq!(prefix, 64);
    assert_eq!(is_address_in_subnet(addr, "2001:db8::/64"), Ok(true));
}

#[test]
fn add_with_a_bad_pod_cidr_fails_and_writes_nothing() {
    let ctx = context_for("ADD", Some(config(Some("not-a-cidr"), None)));
    let mut output = MockOutputWriter::new();
    let r = CommandDispatcher::new(&mut output).dispatch("ADD", &no_args(), &ctx, &DryRunDriver);
    assert_eq!(
        general_message(&r.unwrap_err()),
        "General error: Invalid CIDR format 'not-a-cidr': invalid IP address syntax"
    );
    assert!(output.get_output().is_empty());
}

#[test]
fn add_result_carries_the_dns_settings() {
    let mut c = config(Some("2001:db8::/64"), None);
    c.dns = Some(CniDns {
        nameservers: Some(vec!["2001:db8::53".to_string()]),
        domain: Some("example.com".to_string()),
        search: None,
        options: None,
    });
    let ctx = context_for("ADD", Some(c));
    let mut output = MockOutputWriter::new();
    CommandDispatcher::new(&mut output).dispatch("ADD", &no_args(), &ctx, &DryRunDriver).unwrap();
    let lines = output.get_output();
    assert!(lines[0].ends_with(",\"dns\":{\"nameservers\":[\"2001:db8::53\"],\"domain\":\"example.com\"}}"));
}

#[test]
fn del_with_the_dry_run_driver_succeeds_silently() {
    let ctx = context_for("DEL", Some(config(None, None)));
    let mut output = MockOutputWriter::new();
    CommandDispatcher::new(&mut output).dispatch("DEL", &no_args(), &ctx, &DryRunDriver).unwrap();
    assert!(output.get_output().is_empty());
    assert!(output.get_errors().is_empty());
}

#[test]
fn del_without_container_id_fails() {
    let mut env_provider = MockEnvironmentProvider::new();
    env_provider.set("CNI_COMMAND", "VERSION").set("CNI_NETNS", "/var/run/netns/x").set("CNI_IFNAME", "eth0");
    let ctx = CniContext::load(&env_provider, true).unwrap();
    let mut output = MockOutputWriter::new();
    let r = CommandDispatcher::new(&mut output).dispatch("DEL", &no_args(), &ctx, &DryRunDriver);
    assert_eq!(general_message(&r.unwrap_err()), "General error: CNI_CONTAINERID not set");
}

#[test]
fn check_with_the_dry_run_driver_succeeds_and_writes_nothing() {
    let ctx = context_for("CHECK", Some(config(None, Some("eth0"))));
    let mut output = MockOutputWriter::new();
    CommandDispatcher::new(&mut output).dispatch("CHECK", &no_args(), &ctx, &DryRunDriver).unwrap();
    assert!(output.get_output().is_empty());
    assert!(output.get_errors().is_empty());
}

#[test]
fn check_refuses_another_cni_version() {
    let mut c = config(None, Some("eth0"));
    c.cni_version = "0.4.0".to_string();
    let ctx = context_for("CHECK", Some(c));
    let mut output = MockOutputWriter::new();
    let r = CommandDispatcher::new(&mut output).dispatch("CHECK", &no_args(), &ctx, &DryRunDriver);
    assert_eq!(general_message(&r.unwrap_err()), "General error: Unsupported CNI version: 0.4.0");
}

#[test]
fn silent_writer_dispatch_succeeds() {
    let (_, cni_context, driver) = create_test_context();
    let mut silent = SilentOutputWriter;
    assert!(CommandDispatcher::new(&mut silent).dispatch("VERSION", &no_args(), &cni_context, &driver).is_ok());
}

#[test]
fn command_context_finds_the_master_interface() {
    let ctx = CommandContext::new(
        Args { interface: Some("eth7".to_string()), pod_cidr: None, dry_run: false },
        context_for("ADD", Some(config(None, Some("eth3")))),
    );
    assert_eq!(ctx.get_master_interface(&DryRunDriver).unwrap(), "eth7");
    let ctx = CommandContext::new(no_args(), context_for("ADD", Some(config(None, Some("eth3")))));
    assert_eq!(ctx.get_master_interface(&DryRunDriver).unwrap(), "eth3");
    let ctx = CommandContext::new(no_args(), context_for("ADD", Some(config(None, None))));
    assert_eq!(ctx.get_master_interface(&DryRunDriver).unwrap(), "eth0");
    assert_eq!(ctx.require_config().unwrap().name, "test-network");
    let ctx = CommandContext::new(no_args(), context_for("ADD", None));
    assert_eq!(general_message(&ctx.require_config().unwrap_err()), "General error: Missing CNI configuration on stdin");
}
