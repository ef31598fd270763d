//! CNI network configuration and the context of one plugin invocation.

use vstd::prelude::*;

use crate::environment::{opt_text, loaded_from, vars_problem, CniEnvironment, EnvironmentProvider};
use crate::text::{is_blank, is_white_space, text_eq};

verus! {

/// CNI configuration structure from JSON input
#[derive(Debug)]
pub struct CniConfig {
    pub cni_version: String,
    pub name: String,
    pub plugin_type: String,
    pub master: Option<String>,
    pub pod_cidr: Option<String>,
    pub dns: Option<CniDns>,
}

/// DNS settings handed through to the runtime.
#[derive(Debug)]
pub struct CniDns {
    pub nameservers: Option<Vec<String>>,
    pub domain: Option<String>,
    pub search: Option<Vec<String>>,
    pub options: Option<Vec<String>>,
}

/// The texts of an optional list of strings.
pub open spec fn texts(v: Option<Vec<String>>) -> Option<Seq<Seq<char>>> {
    match v {
        Some(v) => Some(v@.map_values(|s: String| s@)),
        None => None,
    }
}

/// A copy of an optional list of strings.
pub fn copy_strings(v: &Option<Vec<String>>) -> (r: Option<Vec<String>>)
    ensures
        texts(r) == texts(*v),
        r matches Some(w) ==> v matches Some(u) && w@ == u@,
{
    match v {
        None => None,
        Some(items) => {
            let mut out: Vec<String> = Vec::new();
            let n = items.len();
            let mut i: usize = 0;
            while i < n
                invariant
                    n == items@.len(),
                    i <= n,
                    out@ == items@.subrange(0, i as int),
                decreases n - i,
            {
                out.push(items[i].clone());
                proof {
                    assert(out@ =~= items@.subrange(0, i + 1));
                }
                i = i + 1;
            }
            proof {
                assert(out@ =~= items@);
            }
            Some(out)
        },
    }
}

impl CniDns {
    /// Both hold the same settings.
    pub open spec fn same_as(&self, other: &CniDns) -> bool {
        &&& texts(self.nameservers) == texts(other.nameservers)
        &&& opt_text(self.domain) == opt_text(other.domain)
        &&& texts(self.search) == texts(other.search)
        &&& texts(self.options) == texts(other.options)
    }
}

/// Both hold the same DNS settings, or neither holds any.
pub open spec fn same_dns(a: Option<CniDns>, b: Option<CniDns>) -> bool {
    match (a, b) {
        (Some(x), Some(y)) => x.same_as(&y),
        (None, None) => true,
        _ => false,
    }
}

impl Clone for CniDns {
    fn clone(&self) -> (r: Self)
        ensures
            r.same_as(self),
    {
        CniDns {
            nameservers: copy_strings(&self.nameservers),
            domain: self.domain.clone(),
            search: copy_strings(&self.search),
            options: copy_strings(&self.options),
        }
    }
}

impl CniConfig {
    /// Both hold the same configuration.
    pub open spec fn same_as(&self, other: &CniConfig) -> bool {
        &&& self.cni_version == other.cni_version
        &&& self.name == other.name
        &&& self.plugin_type == other.plugin_type
        &&& self.master == other.master
        &&& self.pod_cidr == other.pod_cidr
        &&& same_dns(self.dns, other.dns)
    }
}

impl Clone for CniConfig {
    fn clone(&self) -> (r: Self)
        ensures
            r.same_as(self),
    {
        CniConfig {
            cni_version: self.cni_version.clone(),
            name: self.name.clone(),
            plugin_type: self.plugin_type.clone(),
            master: self.master.clone(),
            pod_cidr: self.pod_cidr.clone(),
            dns: match &self.dns {
                Some(d) => Some(d.clone()),
                None => None,
            },
        }
    }
}

/// Comprehensive CNI context that consolidates all CNI-specific data
#[derive(Debug)]
pub struct CniContext {
    pub environment: CniEnvironment,
    pub config: Option<CniConfig>,
    pub is_dry_run: bool,
}

impl CniContext {
    /// Both hold the same environment, configuration and dry-run flag.
    pub open spec fn same_as(&self, other: &CniContext) -> bool {
        &&& self.environment == other.environment
        &&& self.is_dry_run == other.is_dry_run
        &&& match (self.config, other.config) {
            (Some(a), Some(b)) => a.same_as(&b),
            (None, None) => true,
            _ => false,
        }
    }
}

impl Clone for CniContext {
    fn clone(&self) -> (r: Self)
        ensures
            r.same_as(self),
    {
        CniContext {
            environment: self.environment.clone(),
            config: match &self.config {
                Some(c) => Some(c.clone()),
                None => None,
            },
            is_dry_run: self.is_dry_run,
        }
    }
}

/// The commands that read a network configuration on standard input.
pub open spec fn command_needs_config(cmd: Seq<char>) -> bool {
    cmd == "ADD"@ || cmd == "DEL"@ || cmd == "CHECK"@ || cmd == "STATUS"@
}

/// Whether `cmd` is one of the commands that read a configuration.
pub fn is_config_command(cmd: &str) -> (r: bool)
    ensures
        r == command_needs_config(cmd@),
{
    text_eq(cmd, "ADD") || text_eq(cmd, "DEL") || text_eq(cmd, "CHECK") || text_eq(cmd, "STATUS")
}

impl CniContext {
    /// Create a new CniContext from the environment.
    ///
    /// The environment is validated for its command first; the dry-run flag
    /// is set by the argument or by a `DRY_RUN` variable. The configuration
    /// is left empty: the caller reads it from standard input where
    /// `needs_config` says the command takes one.
    pub fn load<E: EnvironmentProvider>(env_provider: &E, args_dry_run: bool) -> (r: Result<Self, String>)
        ensures
            r is Ok == (vars_problem(env_provider.vars()) is None),
            r matches Err(e) ==> vars_problem(env_provider.vars()) == Some(e@),
            r matches Ok(c) ==> {
                &&& loaded_from(c.environment, env_provider.vars())
                &&& c.is_dry_run == (args_dry_run || env_provider.vars().contains_key("DRY_RUN"@))
                &&& c.config is None
            },
    {
        let environment = CniEnvironment::load(env_provider);
        match environment.validate_for_command() {
            Ok(()) => {},
            Err(e) => {
                return Err(e.message());
            },
        }
        let is_dry_run = args_dry_run || env_provider.is_set("DRY_RUN");
        Ok(Self { environment, config: None, is_dry_run })
    }

    /// Whether `input`, read from standard input for `command`, holds a
    /// configuration to parse: the command reads one and the input is not
    /// blank.
    pub fn stdin_holds_config(command: &str, input: &str) -> (r: bool)
        ensures
            r == (command_needs_config(command@) && !(forall|i: int| 0 <= i < input@.len() ==> is_white_space(#[trigger] input@[i]))),
    {
        is_config_command(command) && !is_blank(input)
    }

    /// Get the configuration, returning an error if it's required but missing
    pub fn require_config(&self) -> (r: Result<&CniConfig, String>)
        ensures
            self.config matches Some(c) ==> r == Ok::<&CniConfig, String>(&c),
            self.config is None ==> (r matches Err(e) && e@ == "Missing CNI configuration on stdin"@),
    {
        match &self.config {
            Some(c) => Ok(c),
            None => Err(String::from_str("Missing CNI configuration on stdin")),
        }
    }

    /// Check if this is a command that requires configuration
    pub fn needs_config(&self) -> (r: bool)
        ensures
            r == command_needs_config(self.environment.command@),
    {
        is_config_command(self.environment.command.as_str())
    }

    /// Validate that the configuration is available if needed
    pub fn validate_config(&self) -> (r: Result<(), String>)
        ensures
            r is Err == (command_needs_config(self.environment.command@) && self.config is None),
            r matches Err(e) ==> e@ == "Configuration required for this CNI command but none provided"@,
    {
        if self.needs_config() && self.config.is_none() {
            return Err(String::from_str("Configuration required for this CNI command but none provided"));
        }
        Ok(())
    }
}

} // verus!
