//! Pure planning of CNI operations: the network configuration of an ADD,
//! the checks of a CHECK, the DEL decision, and the result documents with
//! their JSON text.

use vstd::prelude::*;

use crate::cni::{copy_strings, texts, CniConfig, CniDns};
use crate::environment::opt_text;
use crate::json::{joined, lemma_joined_push, lemma_member_appended, member, push_member_name, push_quoted, push_string_array, quoted, string_array};
use crate::text::{decimal, decimal_string, text_eq};
use crate::utils::{cidr_text, generate_random_ip, in_subnet, invalid_cidr_message, ipv6_net_syntax};

verus! {

/// Core CNI operation results
#[derive(Debug)]
pub struct NetworkConfiguration {
    pub interface_name: String,
    pub target_ip: String,
    pub gateway: Option<u128>,
    pub master_interface: String,
    pub temporary_name: String,
}

/// CNI operation result structures
#[derive(Debug)]
pub struct CniResult {
    pub cni_version: String,
    pub interfaces: Vec<CniInterface>,
    pub ips: Vec<CniIp>,
    pub dns: Option<CniDns>,
}

#[derive(Debug)]
pub struct CniInterface {
    pub name: String,
    pub mac: String,
    pub sandbox: String,
}

#[derive(Debug)]
pub struct CniIp {
    pub version: String,
    pub address: String,
    pub interface: usize,
}

/// Validation steps that should be performed during CHECK operation
#[derive(Debug)]
pub enum ValidationStep {
    NetnsExists,
    MasterInterface(String),
    TargetInterface(String),
}

impl PartialEq for ValidationStep {
    fn eq(&self, other: &Self) -> (r: bool) {
        match (self, other) {
            (ValidationStep::NetnsExists, ValidationStep::NetnsExists) => true,
            (ValidationStep::MasterInterface(a), ValidationStep::MasterInterface(b)) => text_eq(a.as_str(), b.as_str()),
            (ValidationStep::TargetInterface(a), ValidationStep::TargetInterface(b)) => text_eq(a.as_str(), b.as_str()),
            _ => false,
        }
    }
}

impl vstd::std_specs::cmp::PartialEqSpecImpl for ValidationStep {
    open spec fn obeys_eq_spec() -> bool {
        true
    }

    open spec fn eq_spec(&self, other: &Self) -> bool {
        match (self, other) {
            (ValidationStep::NetnsExists, ValidationStep::NetnsExists) => true,
            (ValidationStep::MasterInterface(a), ValidationStep::MasterInterface(b)) => a@ == b@,
            (ValidationStep::TargetInterface(a), ValidationStep::TargetInterface(b)) => a@ == b@,
            _ => false,
        }
    }
}

/// The pod CIDR an ADD uses: the command line first, then the network
/// configuration, then the subnet found on the master interface.
pub open spec fn chosen_cidr(
    config: CniConfig,
    cli_pod_cidr: Option<Seq<char>>,
    driver_subnet: Option<(Seq<char>, u8)>,
) -> Option<Seq<char>> {
    if cli_pod_cidr is Some {
        cli_pod_cidr
    } else if config.pod_cidr is Some {
        Some(config.pod_cidr->0@)
    } else {
        match driver_subnet {
            Some(s) => Some(s.0 + seq!['/'] + decimal(s.1 as nat)),
            None => None,
        }
    }
}

/// The text of a subnet found on an interface.
pub open spec fn subnet_text(s: &Option<(String, u8)>) -> Option<(Seq<char>, u8)> {
    match s {
        Some(s) => Some((s.0@, s.1)),
        None => None,
    }
}

/// The pod CIDR an ADD with these inputs uses.
pub open spec fn planned_cidr(
    config: CniConfig,
    cli_pod_cidr: Option<&str>,
    driver_subnet: &Option<(String, u8)>,
) -> Option<Seq<char>> {
    chosen_cidr(
        config,
        match cli_pod_cidr {
            Some(c) => Some(c@),
            None => None,
        },
        subnet_text(driver_subnet),
    )
}

/// A lowercase hexadecimal digit.
pub open spec fn is_hex_digit(c: char) -> bool {
    ('0' <= c && c <= '9') || ('a' <= c && c <= 'f')
}

/// A temporary interface name: `ipvl` and eight hexadecimal digits.
pub open spec fn is_temporary_name(s: Seq<char>) -> bool {
    &&& s.len() == 12
    &&& s.subrange(0, 4) == "ipvl"@
    &&& forall|i: int| 4 <= i < 12 ==> is_hex_digit(#[trigger] s[i])
}

/// A random `usize` from `rand::random`.
/// Trusted for its type only: nothing is promised of the value.
#[verifier::external_body]
fn random_usize() -> usize {
    rand::random::<usize>()
}

/// The lowercase hexadecimal digits, by value.
pub open spec fn hex_digits() -> Seq<char> {
    seq!['0', '1', '2', '3', '4', '5', '6', '7', '8', '9', 'a', 'b', 'c', 'd', 'e', 'f']
}

/// The temporary name that the random draws `draws` give: `ipvl` and, for
/// each draw, the hexadecimal digit of the draw modulo 16.
pub open spec fn temporary_name_of(draws: Seq<usize>) -> Seq<char> {
    "ipvl"@ + draws.map_values(|d: usize| hex_digits()[(d % 16) as int])
}

fn hex_digit_str(d: usize) -> (s: &'static str)
    requires
        d < 16,
    ensures
        s@ == seq![hex_digits()[d as int]],
{
    proof {
        reveal_strlit("0"); reveal_strlit("1"); reveal_strlit("2"); reveal_strlit("3");
        reveal_strlit("4"); reveal_strlit("5"); reveal_strlit("6"); reveal_strlit("7");
        reveal_strlit("8"); reveal_strlit("9"); reveal_strlit("a"); reveal_strlit("b");
        reveal_strlit("c"); reveal_strlit("d"); reveal_strlit("e"); reveal_strlit("f");
    }
    let s = if d == 0 { "0" } else if d == 1 { "1" } else if d == 2 { "2" } else if d == 3 { "3" }
    else if d == 4 { "4" } else if d == 5 { "5" } else if d == 6 { "6" } else if d == 7 { "7" }
    else if d == 8 { "8" } else if d == 9 { "9" } else if d == 10 { "a" } else if d == 11 { "b" }
    else if d == 12 { "c" } else if d == 13 { "d" } else if d == 14 { "e" } else { "f" };
    assert(s@ =~= seq![hex_digits()[d as int]]);
    s
}

/// The temporary name for the random draws `draws`: `ipvl` followed, for
/// each draw in turn, by the hexadecimal digit of the draw modulo 16.
pub fn temporary_name_from(draws: &Vec<usize>) -> (s: String)
    ensures
        s@ == temporary_name_of(draws@),
{
    proof {
        reveal_strlit("ipvl");
    }
    let mut name = String::from_str("ipvl");
    let n = draws.len();
    let mut i: usize = 0;
    while i < n
        invariant
            n == draws@.len(),
            i <= n,
            name@ == temporary_name_of(draws@.subrange(0, i as int)),
        decreases n - i,
    {
        let ghost before = name@;
        name.append(hex_digit_str(draws[i] % 16));
        proof {
            assert(temporary_name_of(draws@.subrange(0, i + 1)) =~= before + seq![
                hex_digits()[(draws@[i as int] % 16) as int],
            ]);
        }
        i = i + 1;
    }
    proof {
        assert(draws@.subrange(0, n as int) =~= draws@);
    }
    name
}

/// A hexadecimal digit's position among `hex_digits`.
pub open spec fn hex_value(c: char) -> usize {
    if c <= '9' {
        ((c as u32) - 48) as usize
    } else {
        ((c as u32) - 87) as usize
    }
}

/// Each lowercase hexadecimal digit is the digit of its value.
proof fn lemma_hex_value(c: char)
    requires
        is_hex_digit(c),
    ensures
        hex_value(c) < 16,
        hex_digits()[hex_value(c) as int] == c,
{
    assert(c == '0' || c == '1' || c == '2' || c == '3' || c == '4' || c == '5' || c == '6' || c == '7' || c == '8'
        || c == '9' || c == 'a' || c == 'b' || c == 'c' || c == 'd' || c == 'e' || c == 'f');
}

/// Every temporary name, `ipvl` and eight lowercase hexadecimal digits, is
/// the name of some eight random draws; and draws that differ modulo 16
/// at some place give different names.
pub proof fn lemma_temporary_names_follow_draws(name: Seq<char>, a: Seq<usize>, b: Seq<usize>, k: int)
    ensures
        is_temporary_name(name) ==> exists|draws: Seq<usize>| draws.len() == 8 && temporary_name_of(draws) == name,
        a.len() == b.len() && 0 <= k < a.len() && a[k] % 16 != b[k] % 16 ==> temporary_name_of(a)
            != temporary_name_of(b),
{
    reveal_strlit("ipvl");
    if is_temporary_name(name) {
        let draws = Seq::new(8, |i: int| hex_value(name[4 + i]));
        assert forall|i: int| 0 <= i < 8 implies #[trigger] hex_digits()[(draws[i] % 16) as int] == name[4 + i] by {
            lemma_hex_value(name[4 + i]);
        }
        assert(temporary_name_of(draws) =~= name) by {
            assert(name.subrange(0, 4) == "ipvl"@);
            assert forall|j: int| 0 <= j < 12 implies temporary_name_of(draws)[j] == name[j] by {
                if j < 4 {
                    assert(name[j] == name.subrange(0, 4)[j]);
                } else {
                    assert(hex_digits()[(draws[j - 4] % 16) as int] == name[4 + (j - 4)]);
                }
            }
        }
    }
    if a.len() == b.len() && 0 <= k < a.len() && a[k] % 16 != b[k] % 16 {
        let x = (a[k] % 16) as int;
        let y = (b[k] % 16) as int;
        assert(hex_digits()[x] != hex_digits()[y]);
        assert(temporary_name_of(a)[4 + k] == hex_digits()[x]);
        assert(temporary_name_of(b)[4 + k] == hex_digits()[y]);
    }
}

/// A fresh temporary interface name with a random suffix: that of eight
/// draws of `rand::random`.
pub fn random_temporary_name() -> (s: String)
    ensures
        is_temporary_name(s@),
        exists|draws: Seq<usize>| draws.len() == 8 && s@ == temporary_name_of(draws),
{
    let mut draws: Vec<usize> = Vec::new();
    while draws.len() < 8
        invariant
            draws@.len() <= 8,
        decreases 8 - draws@.len(),
    {
        draws.push(random_usize());
    }
    let name = temporary_name_from(&draws);
    proof {
        reveal_strlit("ipvl");
        assert(name@.subrange(0, 4) =~= "ipvl"@);
        assert forall|j: int| 4 <= j < 12 implies is_hex_digit(#[trigger] name@[j]) by {
            let d = (draws@[j - 4] % 16) as int;
            assert(name@[j] == hex_digits()[d]);
        }
    }
    name
}

/// Business logic orchestrator for CNI operations
#[derive(Debug)]
pub struct CniOrchestrator;

impl CniOrchestrator {
    /// Plan network configuration for ADD operation
    pub fn plan_add_operation(
        config: &CniConfig,
        cli_pod_cidr: Option<&str>,
        master_interface: &str,
        interface_name: &str,
        driver_subnet: Option<(String, u8)>,
        gateway: Option<u128>,
    ) -> (r: Result<NetworkConfiguration, String>)
        ensures
            planned_cidr(*config, cli_pod_cidr, &driver_subnet) is None ==> (r matches Err(e)
                && e@ == "No pod CIDR specified in config, CLI args, or master interface"@),
            planned_cidr(*config, cli_pod_cidr, &driver_subnet) matches Some(c) ==> (
                ipv6_net_syntax(c) is None ==> (r matches Err(e) && e@ == invalid_cidr_message(c))),
            planned_cidr(*config, cli_pod_cidr, &driver_subnet) matches Some(c) ==> (
                ipv6_net_syntax(c) matches Some(net) ==> (r matches Ok(nc) && {
                    &&& nc.interface_name@ == interface_name@
                    &&& nc.master_interface@ == master_interface@
                    &&& nc.gateway == gateway
                    &&& is_temporary_name(nc.temporary_name@)
                    &&& exists|a: u128| #[trigger] in_subnet(net.0, net.1, a) && nc.target_ip@ == cidr_text(a, net.1)
                })),
    {
        let ghost cidr = planned_cidr(*config, cli_pod_cidr, &driver_subnet);
        let cidr_string = match cli_pod_cidr {
            Some(cli_cidr) => String::from_str(cli_cidr),
            None => match &config.pod_cidr {
                Some(conf_cidr) => conf_cidr.clone(),
                None => match driver_subnet {
                    Some((ip, pfx)) => {
                        proof {
                            reveal_strlit("/");
                        }
                        let s = ip.concat("/");
                        let p = decimal_string(pfx as u64);
                        let c = s.concat(p.as_str());
                        assert(c@ =~= ip@ + seq!['/'] + decimal(pfx as nat));
                        c
                    },
                    None => {
                        return Err(String::from_str("No pod CIDR specified in config, CLI args, or master interface"));
                    },
                },
            },
        };
        assert(cidr == Some(cidr_string@));
        let target_ip = match generate_random_ip(cidr_string.as_str()) {
            Ok(t) => t,
            Err(e) => {
                return Err(e);
            },
        };
        let temporary_name = random_temporary_name();
        Ok(NetworkConfiguration {
            interface_name: String::from_str(interface_name),
            target_ip,
            gateway,
            master_interface: String::from_str(master_interface),
            temporary_name,
        })
    }

    /// Create CNI result structure for ADD operation success
    pub fn create_add_result(config: &CniConfig, network_config: &NetworkConfiguration, netns_path: &str) -> (r: CniResult)
        ensures
            r.cni_version == config.cni_version,
            r.interfaces@.len() == 1,
            r.interfaces@[0].name == network_config.interface_name,
            r.interfaces@[0].mac@ == Seq::<char>::empty(),
            r.interfaces@[0].sandbox@ == netns_path@,
            r.ips@.len() == 1,
            r.ips@[0].version@ == "6"@,
            r.ips@[0].address == network_config.target_ip,
            r.ips@[0].interface == 0,
            crate::cni::same_dns(r.dns, config.dns),
            result_json(r) == add_result_json(*config, network_config.interface_name@, network_config.target_ip@, netns_path@),
    {
        let dns = match &config.dns {
            Some(d) => Some(d.clone()),
            None => None,
        };
        let mut interfaces = Vec::new();
        interfaces.push(CniInterface {
            name: network_config.interface_name.clone(),
            mac: String::new(),
            sandbox: String::from_str(netns_path),
        });
        let mut ips = Vec::new();
        ips.push(CniIp { version: String::from_str("6"), address: network_config.target_ip.clone(), interface: 0 });
        let r = CniResult { cni_version: config.cni_version.clone(), interfaces, ips, dns };
        proof {
            lemma_same_dns_json(r.dns, config.dns);
            assert(r.interfaces@.map_values(|i: CniInterface| interface_json(i))
                =~= seq![interface_json_of(network_config.interface_name@, Seq::empty(), netns_path@)]);
            assert(r.ips@.map_values(|i: CniIp| ip_json(i)) =~= seq![ip_json_of("6"@, network_config.target_ip@, 0)]);
        }
        r
    }

    /// Plan validation steps for CHECK operation
    pub fn plan_check_operation(config: &CniConfig, interface_name: &str, master_interface: &str) -> (r: Result<Vec<ValidationStep>, String>)
        ensures
            config.cni_version@ != "1.0.0"@ ==> (r matches Err(e) && e@ == "Unsupported CNI version: "@ + config.cni_version@),
            config.cni_version@ == "1.0.0"@ ==> (r matches Ok(steps) && {
                &&& steps@.len() == 3
                &&& steps@[0] is NetnsExists
                &&& steps@[1] matches ValidationStep::MasterInterface(m) && m@ == master_interface@
                &&& steps@[2] matches ValidationStep::TargetInterface(t) && t@ == interface_name@
            }),
    {
        if !text_eq(config.cni_version.as_str(), "1.0.0") {
            return Err(String::from_str("Unsupported CNI version: ").concat(config.cni_version.as_str()));
        }
        let mut steps = Vec::new();
        steps.push(ValidationStep::NetnsExists);
        steps.push(ValidationStep::MasterInterface(String::from_str(master_interface)));
        steps.push(ValidationStep::TargetInterface(String::from_str(interface_name)));
        Ok(steps)
    }

    /// Determine if DEL operation should proceed: always in a dry run,
    /// otherwise only where the network namespace still exists.
    pub fn should_proceed_with_del(netns_exists: bool, is_dry_run: bool) -> (r: bool)
        ensures
            r == (is_dry_run || netns_exists),
    {
        if is_dry_run {
            return true;
        }
        netns_exists
    }

    /// Create standard success response for operations without specific output
    pub fn create_success_result() -> (r: CniResult)
        ensures
            r.cni_version@ == "1.0.0"@,
            r.interfaces@.len() == 0,
            r.ips@.len() == 0,
            r.dns is None,
            result_json(r) == success_json(),
    {
        let r = CniResult { cni_version: String::from_str("1.0.0"), interfaces: Vec::new(), ips: Vec::new(), dns: None };
        proof {
            assert(r.interfaces@.map_values(|i: CniInterface| interface_json(i)) =~= Seq::<Seq<char>>::empty());
            assert(r.ips@.map_values(|i: CniIp| ip_json(i)) =~= Seq::<Seq<char>>::empty());
        }
        r
    }

    /// Create VERSION response
    pub fn create_version_response() -> (r: &'static str)
        ensures
            r@ == "{\"cniVersion\": \"1.0.0\", \"supportedVersions\": [\"1.0.0\"]}"@,
    {
        "{\"cniVersion\": \"1.0.0\", \"supportedVersions\": [\"1.0.0\"]}"
    }
}

/// The JSON object of an interface with these fields.
pub open spec fn interface_json_of(name: Seq<char>, mac: Seq<char>, sandbox: Seq<char>) -> Seq<char> {
    seq!['{'] + joined(seq![
        member("name"@, quoted(name)),
        member("mac"@, quoted(mac)),
        member("sandbox"@, quoted(sandbox)),
    ]) + seq!['}']
}

/// The JSON object of an interface.
pub open spec fn interface_json(i: CniInterface) -> Seq<char> {
    interface_json_of(i.name@, i.mac@, i.sandbox@)
}

/// The JSON object of an address with these fields.
pub open spec fn ip_json_of(version: Seq<char>, address: Seq<char>, interface: nat) -> Seq<char> {
    seq!['{'] + joined(seq![
        member("version"@, quoted(version)),
        member("address"@, quoted(address)),
        member("interface"@, decimal(interface)),
    ]) + seq!['}']
}

/// The JSON object of an address.
pub open spec fn ip_json(i: CniIp) -> Seq<char> {
    ip_json_of(i.version@, i.address@, i.interface as nat)
}

/// `m` with the member `name` appended where the list `v` is present.
pub open spec fn with_array(m: Seq<Seq<char>>, name: Seq<char>, v: Option<Seq<Seq<char>>>) -> Seq<Seq<char>> {
    match v {
        Some(v) => m.push(member(name, string_array(v))),
        None => m,
    }
}

/// `m` with the member `name` appended where the string `v` is present.
pub open spec fn with_text(m: Seq<Seq<char>>, name: Seq<char>, v: Option<Seq<char>>) -> Seq<Seq<char>> {
    match v {
        Some(v) => m.push(member(name, quoted(v))),
        None => m,
    }
}

/// The members of the JSON object of DNS settings: the settings that are present.
pub open spec fn dns_members(d: CniDns) -> Seq<Seq<char>> {
    with_array(
        with_array(
            with_text(with_array(Seq::empty(), "nameservers"@, texts(d.nameservers)), "domain"@, opt_text(d.domain)),
            "search"@,
            texts(d.search),
        ),
        "options"@,
        texts(d.options),
    )
}

/// The DNS object of a result has one member per setting that is present,
/// in the order nameservers, domain, search, options, each holding that
/// setting: in particular an `options` member exactly when options are
/// given, whatever the other settings are.
pub proof fn lemma_dns_members_are_the_present_settings(d: CniDns)
    ensures
        dns_members(d).len() == (if d.nameservers is Some { 1nat } else { 0nat }) + (if d.domain is Some {
            1nat
        } else {
            0nat
        }) + (if d.search is Some { 1nat } else { 0nat }) + (if d.options is Some { 1nat } else { 0nat }),
        texts(d.nameservers) matches Some(v) ==> dns_members(d)[0] == member("nameservers"@, string_array(v)),
        opt_text(d.domain) matches Some(v) ==> dns_members(d).contains(member("domain"@, quoted(v))),
        texts(d.search) matches Some(v) ==> dns_members(d).contains(member("search"@, string_array(v))),
        texts(d.options) matches Some(v) ==> dns_members(d).last() == member("options"@, string_array(v)),
{
    let m0 = with_array(Seq::empty(), "nameservers"@, texts(d.nameservers));
    let m1 = with_text(m0, "domain"@, opt_text(d.domain));
    let m2 = with_array(m1, "search"@, texts(d.search));
    let m3 = with_array(m2, "options"@, texts(d.options));
    assert(m3 == dns_members(d));
    if opt_text(d.domain) is Some {
        let x = member("domain"@, quoted(opt_text(d.domain)->0));
        let k = m1.len() - 1;
        assert(m1[k] == x);
        assert(m2[k] == x);
        assert(m3[k] == x);
        assert(m3.contains(x));
    }
    if texts(d.search) is Some {
        let x = member("search"@, string_array(texts(d.search)->0));
        let k = m2.len() - 1;
        assert(m2[k] == x);
        assert(m3[k] == x);
        assert(m3.contains(x));
    }
    if d.nameservers is Some {
        assert(m0[0] == m3[0]);
    }
}

/// The JSON object of DNS settings.
pub open spec fn dns_json(d: CniDns) -> Seq<char> {
    seq!['{'] + joined(dns_members(d)) + seq!['}']
}

/// The members of the JSON object of a result with these fields, each
/// interface and address already in JSON; `dns` only where it is present.
pub open spec fn result_members_of(
    version: Seq<char>,
    interfaces: Seq<Seq<char>>,
    ips: Seq<Seq<char>>,
    dns: Option<CniDns>,
) -> Seq<Seq<char>> {
    let base = seq![
        member("cniVersion"@, quoted(version)),
        member("interfaces"@, seq!['['] + joined(interfaces) + seq![']']),
        member("ips"@, seq!['['] + joined(ips) + seq![']']),
    ];
    match dns {
        Some(d) => base.push(member("dns"@, dns_json(d))),
        None => base,
    }
}

/// The compact JSON text of a result with these fields.
pub open spec fn result_json_of(version: Seq<char>, interfaces: Seq<Seq<char>>, ips: Seq<Seq<char>>, dns: Option<CniDns>) -> Seq<char> {
    seq!['{'] + joined(result_members_of(version, interfaces, ips, dns)) + seq!['}']
}

/// The members of the JSON object of a result.
pub open spec fn result_members(r: CniResult) -> Seq<Seq<char>> {
    result_members_of(
        r.cni_version@,
        r.interfaces@.map_values(|i: CniInterface| interface_json(i)),
        r.ips@.map_values(|i: CniIp| ip_json(i)),
        r.dns,
    )
}

/// The compact JSON text of a result, members in declaration order.
pub open spec fn result_json(r: CniResult) -> Seq<char> {
    seq!['{'] + joined(result_members(r)) + seq!['}']
}

/// The JSON text of the result of an ADD: one interface in the sandbox
/// `netns` with an empty MAC address, one IPv6 address on it, and the DNS
/// settings of the configuration.
pub open spec fn add_result_json(config: CniConfig, ifname: Seq<char>, target_ip: Seq<char>, netns: Seq<char>) -> Seq<char> {
    result_json_of(
        config.cni_version@,
        seq![interface_json_of(ifname, Seq::empty(), netns)],
        seq![ip_json_of("6"@, target_ip, 0)],
        config.dns,
    )
}

/// DNS settings that hold the same values give the same members in a result.
pub proof fn lemma_same_dns_json(a: Option<CniDns>, b: Option<CniDns>)
    requires
        crate::cni::same_dns(a, b),
    ensures
        forall|version: Seq<char>, interfaces: Seq<Seq<char>>, ips: Seq<Seq<char>>|
            #[trigger] result_json_of(version, interfaces, ips, a) == result_json_of(version, interfaces, ips, b),
{
    match (a, b) {
        (Some(x), Some(y)) => {
            assert(dns_members(x) == dns_members(y));
        },
        _ => {},
    }
}

/// The JSON text of a result with no interfaces and no addresses.
pub open spec fn success_json() -> Seq<char> {
    result_json_of("1.0.0"@, Seq::empty(), Seq::empty(), None)
}

/// Appends the JSON object of `i`.
fn push_interface(out: &mut String, i: &CniInterface)
    ensures
        final(out)@ == old(out)@ + interface_json(*i),
{
    proof {
        reveal_strlit("{");
        reveal_strlit("}");
    }
    let ghost start = out@;
    out.append("{");
    push_member_name(out, "name", true);
    push_quoted(out, i.name.as_str());
    push_member_name(out, "mac", false);
    push_quoted(out, i.mac.as_str());
    push_member_name(out, "sandbox", false);
    push_quoted(out, i.sandbox.as_str());
    out.append("}");
    proof {
        let m = seq![
            member("name"@, quoted(i.name@)),
            member("mac"@, quoted(i.mac@)),
            member("sandbox"@, quoted(i.sandbox@)),
        ];
        lemma_joined_push(seq![m[0]], m[1]);
        lemma_joined_push(seq![m[0], m[1]], m[2]);
        lemma_joined_push(Seq::empty(), m[0]);
        assert(seq![m[0]] =~= Seq::<Seq<char>>::empty().push(m[0]));
        assert(seq![m[0], m[1]] =~= seq![m[0]].push(m[1]));
        assert(m =~= seq![m[0], m[1]].push(m[2]));
        assert(out@ =~= start + interface_json(*i));
    }
}

/// Appends the JSON object of `i`.
fn push_ip(out: &mut String, i: &CniIp)
    ensures
        final(out)@ == old(out)@ + ip_json(*i),
{
    proof {
        reveal_strlit("{");
        reveal_strlit("}");
    }
    let ghost start = out@;
    out.append("{");
    push_member_name(out, "version", true);
    push_quoted(out, i.version.as_str());
    push_member_name(out, "address", false);
    push_quoted(out, i.address.as_str());
    push_member_name(out, "interface", false);
    let n = decimal_string(i.interface as u64);
    out.append(n.as_str());
    out.append("}");
    proof {
        let m = seq![
            member("version"@, quoted(i.version@)),
            member("address"@, quoted(i.address@)),
            member("interface"@, decimal(i.interface as nat)),
        ];
        lemma_joined_push(seq![m[0]], m[1]);
        lemma_joined_push(seq![m[0], m[1]], m[2]);
        lemma_joined_push(Seq::empty(), m[0]);
        assert(seq![m[0]] =~= Seq::<Seq<char>>::empty().push(m[0]));
        assert(seq![m[0], m[1]] =~= seq![m[0]].push(m[1]));
        assert(m =~= seq![m[0], m[1]].push(m[2]));
        assert(out@ =~= start + ip_json(*i));
    }
}

/// Appends the member `name` holding the array `v` where it is present,
/// extending the text of the members `m` written after `prefix`.
fn push_array_member(
    out: &mut String,
    name: &str,
    v: &Option<Vec<String>>,
    first: bool,
    Ghost(prefix): Ghost<Seq<char>>,
    Ghost(m): Ghost<Seq<Seq<char>>>,
)
    requires
        old(out)@ == prefix + joined(m),
        first == (m.len() == 0),
    ensures
        final(out)@ == prefix + joined(with_array(m, name@, texts(*v))),
{
    match v {
        Some(items) => {
            push_member_name(out, name, first);
            push_string_array(out, items);
            proof {
                lemma_member_appended(prefix, m, name@, string_array(items@.map_values(|s: String| s@)));
            }
        },
        None => {},
    }
}

/// Appends the member `name` holding the string `v` where it is present,
/// extending the text of the members `m` written after `prefix`.
fn push_text_member(
    out: &mut String,
    name: &str,
    v: &Option<String>,
    first: bool,
    Ghost(prefix): Ghost<Seq<char>>,
    Ghost(m): Ghost<Seq<Seq<char>>>,
)
    requires
        old(out)@ == prefix + joined(m),
        first == (m.len() == 0),
    ensures
        final(out)@ == prefix + joined(with_text(m, name@, opt_text(*v))),
{
    match v {
        Some(t) => {
            push_member_name(out, name, first);
            push_quoted(out, t.as_str());
            proof {
                lemma_member_appended(prefix, m, name@, quoted(t@));
            }
        },
        None => {},
    }
}

/// Appends the JSON object of `d`.
fn push_dns(out: &mut String, d: &CniDns)
    ensures
        final(out)@ == old(out)@ + dns_json(*d),
{
    proof {
        reveal_strlit("{");
        reveal_strlit("}");
    }
    let ghost start = out@;
    out.append("{");
    let ghost prefix = out@;
    let ghost m0 = Seq::<Seq<char>>::empty();
    assert(out@ == prefix + joined(m0));
    push_array_member(out, "nameservers", &d.nameservers, true, Ghost(prefix), Ghost(m0));
    let ghost m1 = with_array(m0, "nameservers"@, texts(d.nameservers));
    push_text_member(out, "domain", &d.domain, d.nameservers.is_none(), Ghost(prefix), Ghost(m1));
    let ghost m2 = with_text(m1, "domain"@, opt_text(d.domain));
    push_array_member(
        out,
        "search",
        &d.search,
        d.nameservers.is_none() && d.domain.is_none(),
        Ghost(prefix),
        Ghost(m2),
    );
    let ghost m3 = with_array(m2, "search"@, texts(d.search));
    push_array_member(
        out,
        "options",
        &d.options,
        d.nameservers.is_none() && d.domain.is_none() && d.search.is_none(),
        Ghost(prefix),
        Ghost(m3),
    );
    assert(out@ == prefix + joined(dns_members(*d)));
    out.append("}");
    proof {
        assert(out@ =~= start + dns_json(*d));
    }
}

/// Appends the JSON array of the objects of `items`.
fn push_interfaces(out: &mut String, items: &Vec<CniInterface>)
    ensures
        final(out)@ == old(out)@ + seq!['['] + joined(items@.map_values(|i: CniInterface| interface_json(i))) + seq![']'],
{
    proof {
        reveal_strlit("[");
        reveal_strlit("]");
    }
    out.append("[");
    let ghost head = out@;
    let ghost all = items@.map_values(|i: CniInterface| interface_json(i));
    let n = items.len();
    let mut k: usize = 0;
    while k < n
        invariant
            n == items@.len(),
            k <= n,
            all == items@.map_values(|i: CniInterface| interface_json(i)),
            out@ == head + joined(all.subrange(0, k as int)),
        decreases n - k,
    {
        proof {
            reveal_strlit(",");
        }
        if k > 0 {
            out.append(",");
        }
        push_interface(out, &items[k]);
        proof {
            assert(all.subrange(0, k + 1) =~= all.subrange(0, k as int).push(all[k as int]));
            lemma_joined_push(all.subrange(0, k as int), all[k as int]);
        }
        k = k + 1;
    }
    proof {
        assert(all.subrange(0, n as int) =~= all);
    }
    out.append("]");
}

/// Appends the JSON array of the objects of `items`.
fn push_ips(out: &mut String, items: &Vec<CniIp>)
    ensures
        final(out)@ == old(out)@ + seq!['['] + joined(items@.map_values(|i: CniIp| ip_json(i))) + seq![']'],
{
    proof {
        reveal_strlit("[");
        reveal_strlit("]");
    }
    out.append("[");
    let ghost head = out@;
    let ghost all = items@.map_values(|i: CniIp| ip_json(i));
    let n = items.len();
    let mut k: usize = 0;
    while k < n
        invariant
            n == items@.len(),
            k <= n,
            all == items@.map_values(|i: CniIp| ip_json(i)),
            out@ == head + joined(all.subrange(0, k as int)),
        decreases n - k,
    {
        proof {
            reveal_strlit(",");
        }
        if k > 0 {
            out.append(",");
        }
        push_ip(out, &items[k]);
        proof {
            assert(all.subrange(0, k + 1) =~= all.subrange(0, k as int).push(all[k as int]));
            lemma_joined_push(all.subrange(0, k as int), all[k as int]);
        }
        k = k + 1;
    }
    proof {
        assert(all.subrange(0, n as int) =~= all);
    }
    out.append("]");
}

impl CniResult {
    /// The compact JSON text of the result, as the CNI runtime reads it.
    pub fn to_json_string(&self) -> (s: String)
        ensures
            s@ == result_json(*self),
    {
        proof {
            reveal_strlit("{");
            reveal_strlit("}");
        }
        let mut out = String::from_str("{");
        let ghost prefix = out@;
        let ghost m0 = Seq::<Seq<char>>::empty();
        assert(out@ == prefix + joined(m0));
        push_member_name(&mut out, "cniVersion", true);
        push_quoted(&mut out, self.cni_version.as_str());
        proof {
            lemma_member_appended(prefix, m0, "cniVersion"@, quoted(self.cni_version@));
        }
        let ghost m1 = m0.push(member("cniVersion"@, quoted(self.cni_version@)));
        push_member_name(&mut out, "interfaces", false);
        push_interfaces(&mut out, &self.interfaces);
        let ghost v2 = seq!['['] + joined(self.interfaces@.map_values(|i: CniInterface| interface_json(i))) + seq![']'];
        proof {
            lemma_member_appended(prefix, m1, "interfaces"@, v2);
        }
        let ghost m2 = m1.push(member("interfaces"@, v2));
        push_member_name(&mut out, "ips", false);
        push_ips(&mut out, &self.ips);
        let ghost v3 = seq!['['] + joined(self.ips@.map_values(|i: CniIp| ip_json(i))) + seq![']'];
        proof {
            lemma_member_appended(prefix, m2, "ips"@, v3);
        }
        let ghost m3 = m2.push(member("ips"@, v3));
        assert(m3 =~= seq![
            member("cniVersion"@, quoted(self.cni_version@)),
            member("interfaces"@, v2),
            member("ips"@, v3),
        ]);
        match &self.dns {
            Some(d) => {
                push_member_name(&mut out, "dns", false);
                push_dns(&mut out, d);
                proof {
                    lemma_member_appended(prefix, m3, "dns"@, dns_json(*d));
                }
            },
            None => {},
        }
        assert(out@ == prefix + joined(result_members(*self)));
        out.append("}");
        proof {
            assert(out@ =~= result_json(*self));
        }
        out
    }
}

} // verus!