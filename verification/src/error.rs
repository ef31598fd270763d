//! Error types of the plugin and their messages.

use vstd::prelude::*;

verus! {

/// Root error type for all CNI-gesprek operations
#[derive(Debug)]
pub enum CniError {
    /// Configuration-related errors
    Config(ConfigError),
    /// Environment variable errors
    Environment(EnvironmentError),
    /// Command execution errors
    Command(CommandError),
}

/// Configuration-related errors
#[derive(Debug)]
pub enum ConfigError {
    /// Missing required CNI configuration
    MissingConfig { command: String, reason: String },
    /// JSON parsing errors
    ParseError { message: String },
}

/// Environment variable errors
#[derive(Debug)]
pub enum EnvironmentError {
    /// Missing required environment variable
    MissingVariable { variable: String, command: String },
    /// Invalid environment variable value
    InvalidValue { name: String, value: String, expected: String },
}

/// Command execution errors
#[derive(Debug)]
pub enum CommandError {
    /// Unknown CNI command
    UnknownCommand { command: String },
    /// Network namespace not found
    NetnsNotFound { netns: String },
    /// Interface not found in network namespace
    InterfaceNotFound { interface: String, netns: String },
}

/// Convenience type alias for CNI results
pub type CniResult<T> = Result<T, CniError>;

/// The message of a configuration error.
pub open spec fn config_error_text(e: ConfigError) -> Seq<char> {
    match e {
        ConfigError::MissingConfig { command, reason } =>
            "Missing configuration for command '"@ + command@ + "': "@ + reason@,
        ConfigError::ParseError { message } => "Failed to parse CNI configuration: "@ + message@,
    }
}

/// The message of an environment error.
pub open spec fn environment_error_text(e: EnvironmentError) -> Seq<char> {
    match e {
        EnvironmentError::MissingVariable { variable, command } =>
            "Environment variable '"@ + variable@ + "' required for command '"@ + command@ + "' is not set"@,
        EnvironmentError::InvalidValue { name, value, expected } =>
            "Environment variable '"@ + name@ + "' has invalid value '"@ + value@ + "', expected: "@ + expected@,
    }
}

/// The message of a command error.
pub open spec fn command_error_text(e: CommandError) -> Seq<char> {
    match e {
        CommandError::UnknownCommand { command } => "Unknown CNI command: "@ + command@,
        CommandError::NetnsNotFound { netns } => "Network namespace does not exist: "@ + netns@,
        CommandError::InterfaceNotFound { interface, netns } =>
            "Interface '"@ + interface@ + "' not found in network namespace '"@ + netns@ + "'"@,
    }
}

/// The message of an error.
pub open spec fn cni_error_text(e: CniError) -> Seq<char> {
    match e {
        CniError::Config(c) => "Configuration error: "@ + config_error_text(c),
        CniError::Environment(c) => "Environment error: "@ + environment_error_text(c),
        CniError::Command(c) => "Command error: "@ + command_error_text(c),
    }
}

impl ConfigError {
    /// The human-readable message.
    pub fn message(&self) -> (s: String)
        ensures
            s@ == config_error_text(*self),
    {
        match self {
            ConfigError::MissingConfig { command, reason } => {
                let s = String::from_str("Missing configuration for command '");
                let s = s.concat(command.as_str()).concat("': ").concat(reason.as_str());
                proof {
                    assert(s@ =~= config_error_text(*self));
                }
                s
            },
            ConfigError::ParseError { message } => {
                let s = String::from_str("Failed to parse CNI configuration: ").concat(message.as_str());
                s
            },
        }
    }
}

impl EnvironmentError {
    /// The human-readable message.
    pub fn message(&self) -> (s: String)
        ensures
            s@ == environment_error_text(*self),
    {
        match self {
            EnvironmentError::MissingVariable { variable, command } => {
                let s = String::from_str("Environment variable '").concat(variable.as_str());
                let s = s.concat("' required for command '").concat(command.as_str()).concat("' is not set");
                proof {
                    assert(s@ =~= environment_error_text(*self));
                }
                s
            },
            EnvironmentError::InvalidValue { name, value, expected } => {
                let s = String::from_str("Environment variable '").concat(name.as_str());
                let s = s.concat("' has invalid value '").concat(value.as_str());
                let s = s.concat("', expected: ").concat(expected.as_str());
                proof {
                    assert(s@ =~= environment_error_text(*self));
                }
                s
            },
        }
    }
}

impl CommandError {
    /// The human-readable message.
    pub fn message(&self) -> (s: String)
        ensures
            s@ == command_error_text(*self),
    {
        match self {
            CommandError::UnknownCommand { command } => String::from_str("Unknown CNI command: ").concat(
                command.as_str(),
            ),
            CommandError::NetnsNotFound { netns } => String::from_str("Network namespace does not exist: ").concat(
                netns.as_str(),
            ),
            CommandError::InterfaceNotFound { interface, netns } => {
                let s = String::from_str("Interface '").concat(interface.as_str());
                let s = s.concat("' not found in network namespace '").concat(netns.as_str()).concat("'");
                proof {
                    assert(s@ =~= command_error_text(*self));
                }
                s
            },
        }
    }
}

impl CniError {
    /// The human-readable message.
    pub fn message(&self) -> (s: String)
        ensures
            s@ == cni_error_text(*self),
    {
        match self {
            CniError::Config(e) => String::from_str("Configuration error: ").concat(e.message().as_str()),
            CniError::Environment(e) => String::from_str("Environment error: ").concat(e.message().as_str()),
            CniError::Command(e) => String::from_str("Command error: ").concat(e.message().as_str()),
        }
    }

    /// The error that a general failure with message `message` becomes:
    /// a configuration parse error reading `General error: <message>`.
    pub fn general(message: String) -> (e: CniError)
        ensures
            e matches CniError::Config(ConfigError::ParseError { message: m })
                && m@ == "General error: "@ + message@,
    {
        CniError::Config(ConfigError::ParseError {
            message: String::from_str("General error: ").concat(message.as_str()),
        })
    }
}

impl From<ConfigError> for CniError {
    fn from(e: ConfigError) -> (r: Self) {
        CniError::Config(e)
    }
}

impl vstd::std_specs::convert::FromSpecImpl<ConfigError> for CniError {
    open spec fn obeys_from_spec() -> bool {
        true
    }

    open spec fn from_spec(e: ConfigError) -> Self {
        CniError::Config(e)
    }
}

impl From<EnvironmentError> for CniError {
    fn from(e: EnvironmentError) -> (r: Self) {
        CniError::Environment(e)
    }
}

impl vstd::std_specs::convert::FromSpecImpl<EnvironmentError> for CniError {
    open spec fn obeys_from_spec() -> bool {
        true
    }

    open spec fn from_spec(e: EnvironmentError) -> Self {
        CniError::Environment(e)
    }
}

impl From<CommandError> for CniError {
    fn from(e: CommandError) -> (r: Self) {
        CniError::Command(e)
    }
}

impl vstd::std_specs::convert::FromSpecImpl<CommandError> for CniError {
    open spec fn obeys_from_spec() -> bool {
        true
    }

    open spec fn from_spec(e: CommandError) -> Self {
        CniError::Command(e)
    }
}

} // verus!
