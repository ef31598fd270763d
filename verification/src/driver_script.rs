//! The rules of the driver that configures interfaces through the `ip`,
//! `nsenter` and `sysctl` commands: validation of everything that reaches a
//! command line, the command lines themselves, how command output and
//! failures are read, and the wait for duplicate address detection.
//! Running the commands is left to the caller.

use vstd::prelude::*;

use crate::environment::opt_text;
use crate::text::{char_string, decimal, decimal_string, has_char, has_infix, has_text, starts_with, text_eq};
use crate::driver::Ipv6Subnet;
use crate::ip_json::{
    addr_entries, addr_infos_from_json, addr_infos_of, json_array_of, parse_json_array, routes_from_json, routes_of,
    addr_info_of, str_member, string_member, string_member_of, u64_member, JsonValue,
};
use crate::utils::{ipv6_string, ipv6_text};

verus! {

/// Whether the regular expression `pattern` compiles and matches somewhere
/// in `text`, as the `regex` crate decides it.
pub uninterp spec fn regex_matches(pattern: Seq<char>, text: Seq<char>) -> bool;

/// Compiles `pattern` with `regex::Regex::new` and asks `is_match` of it on `text`.
/// Trusted: the result is named `regex_matches`; a pattern that does not
/// compile matches nothing.
#[verifier::external_body]
fn regex_is_match(pattern: &str, text: &str) -> (r: bool)
    ensures
        r == regex_matches(pattern@, text@),
{
    match regex::Regex::new(pattern) {
        Ok(re) => re.is_match(text),
        Err(_) => false,
    }
}

/// Whether the standard library parses `text` as an IPv4 address.
pub uninterp spec fn is_ipv4_text(text: Seq<char>) -> bool;

/// What the standard library's IPv6 address parser makes of `text`.
pub uninterp spec fn ipv6_addr_syntax(text: Seq<char>) -> Option<u128>;

/// Parses `text` with the standard library's `FromStr` for IPv4 addresses.
/// Trusted: the result is named `is_ipv4_text`.
#[verifier::external_body]
fn parses_as_ipv4(text: &str) -> (r: bool)
    ensures
        r == is_ipv4_text(text@),
{
    text.parse::<core::net::Ipv4Addr>().is_ok()
}

/// Parses `text` with the standard library's `FromStr` for IPv6 addresses.
/// Trusted: the result is named `ipv6_addr_syntax`.
#[verifier::external_body]
pub(crate) fn parse_ipv6_addr(text: &str) -> (r: Option<u128>)
    ensures
        r == ipv6_addr_syntax(text@),
{
    match text.parse::<core::net::Ipv6Addr>() {
        Ok(a) => Some(u128::from(a)),
        Err(_) => None,
    }
}

/// The first character of `list` that occurs in `s`.
pub open spec fn first_present(s: Seq<char>, list: Seq<char>) -> Option<char>
    decreases list.len(),
{
    if list.len() == 0 {
        None
    } else if s.contains(list[0]) {
        Some(list[0])
    } else {
        first_present(s, list.drop_first())
    }
}

/// The first text of `list` that occurs in `s`.
pub open spec fn first_present_text(s: Seq<char>, list: Seq<Seq<char>>) -> Option<Seq<char>>
    decreases list.len(),
{
    if list.len() == 0 {
        None
    } else if has_infix(s, list[0]) {
        Some(list[0])
    } else {
        first_present_text(s, list.drop_first())
    }
}

fn find_first_present(s: &str, list: &[char]) -> (r: Option<char>)
    ensures
        r == first_present(s@, list@),
{
    let n = list.len();
    let mut i: usize = 0;
    assert(list@.subrange(0, n as int) =~= list@);
    while i < n
        invariant
            n == list@.len(),
            i <= n,
            first_present(s@, list@) == first_present(s@, list@.subrange(i as int, n as int)),
        decreases n - i,
    {
        let ghost rest = list@.subrange(i as int, n as int);
        assert(rest[0] == list@[i as int]);
        assert(rest.drop_first() =~= list@.subrange(i + 1, n as int));
        if has_char(s, list[i]) {
            return Some(list[i]);
        }
        i = i + 1;
    }
    assert(list@.subrange(n as int, n as int).len() == 0);
    None
}

/// The characters that let a name break out of a command line.
pub open spec fn shell_chars() -> Seq<char> {
    seq!['&', '|', ';', '`', '$', '>', '<', ' ', '\n', '\r', '\t']
}

/// The characters refused in an address: those of `shell_chars` and NUL.
pub open spec fn cidr_shell_chars() -> Seq<char> {
    seq!['&', '|', ';', '`', '$', '>', '<', ' ', '\n', '\r', '\t', '\0']
}

/// The pattern interface names must match.
pub open spec fn interface_name_pattern() -> Seq<char> {
    "^[a-zA-Z0-9._-]+$"@
}

/// Why an interface name is refused: the checks in order, the pattern last.
pub open spec fn interface_name_problem(name: Seq<char>, byte_len: nat, pattern_ok: bool) -> Option<Seq<char>> {
    if name.len() == 0 {
        Some("Interface name cannot be empty"@)
    } else if byte_len > 15 {
        Some("Interface name '"@ + name + "' too long (max 15 characters)"@)
    } else if name[0] == '.' {
        Some("Interface name '"@ + name + "' cannot start with a dot"@)
    } else if name.contains('\0') {
        Some("Interface name '"@ + name + "' contains null byte"@)
    } else if first_present(name, shell_chars()) is Some {
        Some("Interface name '"@ + name + "' contains dangerous character '"@
            + seq![first_present(name, shell_chars())->0] + "'"@)
    } else if !pattern_ok {
        Some("Interface name '"@ + name + "' contains invalid characters"@)
    } else {
        None
    }
}

/// A result that is `Ok` where `problem` is `None` and otherwise the error it names.
pub open spec fn verdict(r: Result<(), String>, problem: Option<Seq<char>>) -> bool {
    match problem {
        None => r is Ok,
        Some(m) => r matches Err(e) && e@ == m,
    }
}

/// The text before the first `/` of `s`, all of `s` where it has none.
pub open spec fn before_slash(s: Seq<char>) -> Seq<char> {
    if s.contains('/') {
        s.subrange(0, s.index_of_first('/')->0)
    } else {
        s
    }
}

/// The pattern of an IPv4 address with a prefix length.
pub open spec fn ipv4_cidr_pattern() -> Seq<char> {
    "^[0-9.]+/[0-9]+$"@
}

/// The pattern of an IPv6 address with a prefix length.
pub open spec fn ipv6_cidr_pattern() -> Seq<char> {
    "^[0-9a-fA-F:]+/[0-9]+$"@
}

/// Why an address with prefix length is refused, given whether it matches
/// the IPv4 and IPv6 patterns and whether its address part parses as an
/// IPv4 or an IPv6 address.
pub open spec fn ip_cidr_problem(
    s: Seq<char>,
    byte_len: nat,
    v4_pattern_ok: bool,
    v6_pattern_ok: bool,
    addr_is_v4: bool,
    addr_is_v6: bool,
) -> Option<Seq<char>> {
    if s.len() == 0 {
        Some("IP/CIDR cannot be empty"@)
    } else if first_present(s, cidr_shell_chars()) is Some {
        Some("IP/CIDR contains dangerous character '"@ + seq![first_present(s, cidr_shell_chars())->0] + "'"@)
    } else if byte_len > 43 {
        Some("IP/CIDR string too long: "@ + s)
    } else if !v4_pattern_ok && !v6_pattern_ok {
        Some("Invalid IP/CIDR format: "@ + s)
    } else if !addr_is_v4 && !addr_is_v6 {
        Some("Invalid IP address: "@ + before_slash(s))
    } else {
        None
    }
}

/// The multicast range `ff00::/8`.
pub open spec fn is_multicast(addr: u128) -> bool {
    addr >> 120u32 == 0xffu128
}

/// The pattern an address text must match.
pub open spec fn ipv6_text_pattern() -> Seq<char> {
    "^[0-9a-fA-F:]+$"@
}

/// Why an address is refused for an interface, given its text, the text's
/// length in bytes and whether it matches `ipv6_text_pattern`.
pub open spec fn ipv6_address_problem(addr: u128, text: Seq<char>, byte_len: nat, pattern_ok: bool) -> Option<Seq<char>> {
    if is_multicast(addr) {
        Some("Multicast IPv6 address not allowed: "@ + text)
    } else if addr == 0 {
        Some("Unspecified IPv6 address not allowed: "@ + text)
    } else if !pattern_ok {
        Some("Invalid IPv6 address format: "@ + text)
    } else if byte_len > 39 {
        Some("IPv6 address string too long: "@ + text)
    } else {
        None
    }
}

/// The shapes a network namespace path may take.
pub open spec fn netns_patterns() -> Seq<Seq<char>> {
    seq![
        "^/proc/\\d+/ns/net$"@,
        "^/proc/self/ns/net$"@,
        "^/var/run/netns/[a-zA-Z0-9_-]+$"@,
        "^/run/netns/[a-zA-Z0-9_-]+$"@,
    ]
}

/// Whether `path` matches one of the namespace path patterns.
pub open spec fn matches_netns_pattern(path: Seq<char>) -> bool {
    exists|i: int| 0 <= i < 4 && regex_matches(#[trigger] netns_patterns()[i], path)
}

/// Why a network namespace path is refused, given whether it has one of the known shapes.
pub open spec fn netns_path_problem(p: Seq<char>, byte_len: nat, shape_ok: bool) -> Option<Seq<char>> {
    if p.len() == 0 {
        Some("Network namespace path cannot be empty"@)
    } else if byte_len > 256 {
        Some("Network namespace path too long: "@ + p)
    } else if has_infix(p, ".."@) {
        Some("Path traversal detected: "@ + p)
    } else if p.contains('\0') {
        Some("Null byte in netns path: "@ + p)
    } else if first_present(p, shell_chars()) is Some {
        Some("Dangerous character '"@ + seq![first_present(p, shell_chars())->0] + "' in netns path: "@ + p)
    } else if !shape_ok {
        Some("Invalid network namespace path: "@ + p)
    } else {
        None
    }
}

/// The ipvlan modes that may be asked for.
pub open spec fn is_ipvlan_mode(mode: Seq<char>) -> bool {
    mode == "l2"@ || mode == "l3"@ || mode == "l3s"@
}

/// The text of `s` before its first `/`.
fn address_part(s: &str) -> (r: &str)
    ensures
        r@ == before_slash(s@),
{
    let n = s.unicode_len();
    let mut i: usize = 0;
    while i < n
        invariant
            n == s@.len(),
            i <= n,
            forall|j: int| 0 <= j < i ==> s@[j] != '/',
        decreases n - i,
    {
        if s.get_char(i) == '/' {
            proof {
                s@.index_of_first_ensures('/');
                assert(s@.contains('/'));
                let k = s@.index_of_first('/')->0;
                assert(k == i as int) by {
                    if k < i {
                        assert(s@[k] != '/');
                    }
                }
            }
            return s.substring_char(0, i);
        }
        i = i + 1;
    }
    proof {
        assert(!s@.contains('/'));
    }
    s.substring_char(0, n)
}

/// The programs the driver may run.
pub open spec fn is_allowed_program(cmd: Seq<char>) -> bool {
    cmd == "ip"@ || cmd == "nsenter"@ || cmd == "sysctl"@
}

/// The sequences refused inside a command argument, in the order they are looked for.
pub open spec fn dangerous_sequences() -> Seq<Seq<char>> {
    seq!["$("@, "`"@, "&"@, "||"@, "&&"@, ";"@, "|"@, ">"@, "<"@]
}

/// Why one command argument is refused.
pub open spec fn arg_problem(arg: Seq<char>, byte_len: nat) -> Option<Seq<char>> {
    if arg.contains('\0') {
        Some("Null byte in command argument: "@ + arg)
    } else if byte_len > 1024 {
        Some("Command argument too long: "@ + arg)
    } else if first_present_text(arg, dangerous_sequences()) is Some {
        Some("Dangerous sequence '"@ + first_present_text(arg, dangerous_sequences())->0 + "' in argument: "@ + arg)
    } else {
        None
    }
}

/// Why a list of arguments is refused: the problem of the first refused argument.
pub open spec fn args_problem(args: Seq<&str>) -> Option<Seq<char>>
    decreases args.len(),
{
    if args.len() == 0 {
        None
    } else if arg_problem(args[0]@, args[0].len() as nat) is Some {
        arg_problem(args[0]@, args[0].len() as nat)
    } else {
        args_problem(args.drop_first())
    }
}

/// Why a command line is refused before it is run.
pub open spec fn command_problem(cmd: Seq<char>, args: Seq<&str>) -> Option<Seq<char>> {
    if !is_allowed_program(cmd) {
        Some("Command not allowed: "@ + cmd)
    } else if args_problem(args) is Some {
        args_problem(args)
    } else if args.len() > 32 {
        Some("Too many arguments: "@ + decimal(args.len()))
    } else {
        None
    }
}

/// `items` separated by single spaces.
pub open spec fn space_joined(items: Seq<Seq<char>>) -> Seq<char>
    decreases items.len(),
{
    if items.len() == 0 {
        Seq::empty()
    } else if items.len() == 1 {
        items[0]
    } else {
        space_joined(items.drop_last()) + seq![' '] + items.last()
    }
}

/// The texts of a list of strings.
pub open spec fn str_texts(items: Seq<&str>) -> Seq<Seq<char>> {
    items.map_values(|s: &str| s@)
}

/// The texts of a list of owned strings.
pub open spec fn string_texts(items: Seq<String>) -> Seq<Seq<char>> {
    items.map_values(|s: String| s@)
}

/// What `str::to_lowercase` makes of `s`.
pub uninterp spec fn lowercase(s: Seq<char>) -> Seq<char>;

/// Lowercases `s` with `str::to_lowercase`.
/// Trusted: the result is named `lowercase`.
#[verifier::external_body]
fn to_lowercase(s: &str) -> (r: String)
    ensures
        r@ == lowercase(s@),
{
    s.to_lowercase()
}

/// A failure message of `ip` that says the interface does not exist.
pub open spec fn reports_missing_device(message: Seq<char>) -> bool {
    has_infix(lowercase(message), "cannot find device"@)
        || has_infix(lowercase(message), "no such device"@)
        || has_infix(lowercase(message), "link not found"@)
}

/// `["--net=<netns>", "-F", "--"]` followed by `cmd`: the arguments of
/// `nsenter` that run `cmd` inside a network namespace.
pub open spec fn ns_args_spec(netns: Seq<char>, cmd: Seq<Seq<char>>) -> Seq<Seq<char>> {
    seq!["--net="@ + netns, "-F"@, "--"@] + cmd
}

/// Owned copies of `items`.
fn strings(items: &[&str]) -> (v: Vec<String>)
    ensures
        string_texts(v@) == str_texts(items@),
{
    let mut v: Vec<String> = Vec::new();
    let n = items.len();
    let mut i: usize = 0;
    while i < n
        invariant
            n == items@.len(),
            i <= n,
            string_texts(v@) == str_texts(items@.subrange(0, i as int)),
        decreases n - i,
    {
        let ghost before = v@;
        v.push(String::from_str(items[i]));
        proof {
            assert(string_texts(v@) =~= string_texts(before).push(items@[i as int]@));
            assert(str_texts(items@.subrange(0, i + 1)) =~= str_texts(items@.subrange(0, i as int)).push(items@[i as int]@));
        }
        i = i + 1;
    }
    proof {
        assert(items@.subrange(0, n as int) =~= items@);
    }
    v
}

/// The arguments of `nsenter` that run `cmd` inside the namespace `netns`.
pub fn ns_args(netns: &str, cmd: &[&str]) -> (v: Vec<String>)
    ensures
        string_texts(v@) == ns_args_spec(netns@, str_texts(cmd@)),
{
    let mut v: Vec<String> = Vec::new();
    v.push(String::from_str("--net=").concat(netns));
    v.push(String::from_str("-F"));
    v.push(String::from_str("--"));
    let n = cmd.len();
    let mut i: usize = 0;
    while i < n
        invariant
            n == cmd@.len(),
            i <= n,
            string_texts(v@) == ns_args_spec(netns@, str_texts(cmd@.subrange(0, i as int))),
        decreases n - i,
    {
        let ghost before = v@;
        v.push(String::from_str(cmd[i]));
        proof {
            assert(string_texts(v@) =~= string_texts(before).push(cmd@[i as int]@));
            assert(str_texts(cmd@.subrange(0, i + 1)) =~= str_texts(cmd@.subrange(0, i as int)).push(cmd@[i as int]@));
            assert(string_texts(v@) =~= ns_args_spec(netns@, str_texts(cmd@.subrange(0, i + 1))));
        }
        i = i + 1;
    }
    proof {
        assert(cmd@.subrange(0, n as int) =~= cmd@);
        assert(string_texts(v@) =~= ns_args_spec(netns@, str_texts(cmd@)));
    }
    v
}

fn find_first_present_text<'a>(s: &str, list: &[&'a str]) -> (r: Option<&'a str>)
    ensures
        match first_present_text(s@, str_texts(list@)) {
            Some(t) => r matches Some(x) && x@ == t,
            None => r is None,
        },
{
    let n = list.len();
    let mut i: usize = 0;
    assert(str_texts(list@).subrange(0, n as int) =~= str_texts(list@));
    while i < n
        invariant
            n == list@.len(),
            i <= n,
            first_present_text(s@, str_texts(list@)) == first_present_text(s@, str_texts(list@).subrange(i as int, n as int)),
        decreases n - i,
    {
        let ghost rest = str_texts(list@).subrange(i as int, n as int);
        assert(rest[0] == list@[i as int]@);
        assert(rest.drop_first() =~= str_texts(list@).subrange(i + 1, n as int));
        if has_text(s, list[i]) {
            return Some(list[i]);
        }
        i = i + 1;
    }
    None
}

fn arg_check(arg: &str) -> (r: Result<(), String>)
    ensures
        verdict(r, arg_problem(arg@, arg.len() as nat)),
{
    if has_char(arg, '\0') {
        return Err(String::from_str("Null byte in command argument: ").concat(arg));
    }
    if arg.len() > 1024 {
        return Err(String::from_str("Command argument too long: ").concat(arg));
    }
    let sequences: [&str; 9] = ["$(", "`", "&", "||", "&&", ";", "|", ">", "<"];
    assert(str_texts(sequences@) =~= dangerous_sequences());
    match find_first_present_text(arg, &sequences) {
        Some(seq) => {
            let e = String::from_str("Dangerous sequence '").concat(seq);
            return Err(e.concat("' in argument: ").concat(arg));
        },
        None => {},
    }
    Ok(())
}

/// Why an interface name is refused, or `None`.
pub open spec fn iface_problem(name: &str) -> Option<Seq<char>> {
    interface_name_problem(name@, name.len() as nat, regex_matches(interface_name_pattern(), name@))
}

/// Why a network namespace path is refused, or `None`.
pub open spec fn netns_problem(path: &str) -> Option<Seq<char>> {
    netns_path_problem(path@, path.len() as nat, matches_netns_pattern(path@))
}

/// Why an address with prefix length is refused, or `None`.
pub open spec fn cidr_problem(c: &str) -> Option<Seq<char>> {
    ip_cidr_problem(
        c@,
        c.len() as nat,
        regex_matches(ipv4_cidr_pattern(), c@),
        regex_matches(ipv6_cidr_pattern(), c@),
        is_ipv4_text(before_slash(c@)),
        ipv6_addr_syntax(before_slash(c@)) is Some,
    )
}

/// Why a gateway address is refused, or `None`.
pub open spec fn address_problem(addr: u128) -> Option<Seq<char>> {
    ipv6_address_problem(
        addr,
        ipv6_text(addr),
        crate::text::utf8_len(ipv6_text(addr)),
        regex_matches(ipv6_text_pattern(), ipv6_text(addr)),
    )
}

/// Why an ipvlan mode is refused, or `None`.
pub open spec fn mode_problem(mode: &str) -> Option<Seq<char>> {
    if is_ipvlan_mode(mode@) {
        None
    } else {
        Some("Invalid ipvlan mode: "@ + mode@)
    }
}

/// The first of two problems.
pub open spec fn either(a: Option<Seq<char>>, b: Option<Seq<char>>) -> Option<Seq<char>> {
    if a is Some {
        a
    } else {
        b
    }
}

/// A command line that is refused for `problem`, or built as `args` where there is none.
pub open spec fn planned(r: Result<Vec<String>, String>, problem: Option<Seq<char>>, args: Seq<Seq<char>>) -> bool {
    match problem {
        Some(m) => r matches Err(e) && e@ == m,
        None => r matches Ok(v) && string_texts(v@) == args,
    }
}

/// One route as `ip -j route` reports it.
#[derive(Debug)]
pub struct RouteEntry {
    /// The device, where the route names one.
    pub dev: Option<String>,
    /// The gateway, where the route has one.
    pub gateway: Option<String>,
}

/// One address as `ip -j addr show` reports it.
#[derive(Debug)]
pub struct AddrInfo {
    /// The address, where it is given as a string.
    pub local: Option<String>,
    /// The prefix length, where it is given as a non-negative integer.
    pub prefixlen: Option<u64>,
    /// The flags given as strings.
    pub flags: Vec<String>,
}

/// The first address that has both an address and a prefix length.
pub open spec fn first_complete(infos: Seq<AddrInfo>) -> Option<AddrInfo>
    decreases infos.len(),
{
    if infos.len() == 0 {
        None
    } else if infos[0].local is Some && infos[0].prefixlen is Some {
        Some(infos[0])
    } else {
        first_complete(infos.drop_first())
    }
}

/// The error for an address text that does not parse.
pub open spec fn bad_address_message(text: Seq<char>) -> Seq<char> {
    "Invalid IPv6 address '"@ + text + "': invalid IPv6 address syntax"@
}

/// The error for a gateway text that does not parse.
pub open spec fn bad_gateway_message(text: Seq<char>) -> Seq<char> {
    "Invalid IPv6 gateway address '"@ + text + "': invalid IPv6 address syntax"@
}

/// What the duplicate address detection state of an address shows.
#[derive(Debug)]
pub struct DadObservation {
    /// The address is configured.
    pub found: bool,
    /// An entry of the address has finished detection.
    pub ready: bool,
    /// An entry of the address failed detection.
    pub failed: bool,
}

/// The address of an entry as the wait compares it: empty where none is given.
pub open spec fn local_text(info: AddrInfo) -> Seq<char> {
    match info.local {
        Some(l) => l@,
        None => Seq::empty(),
    }
}

/// An entry carries the flag `flag`.
pub open spec fn has_flag(info: AddrInfo, flag: Seq<char>) -> bool {
    exists|k: int| 0 <= k < info.flags@.len() && #[trigger] info.flags@[k]@ == flag
}

/// What `infos` show of the address `target`.
pub open spec fn dad_observation(infos: Seq<AddrInfo>, target: Seq<char>) -> DadObservation {
    DadObservation {
        found: exists|i: int| 0 <= i < infos.len() && local_text(#[trigger] infos[i]) == target,
        ready: exists|i: int|
            0 <= i < infos.len() && local_text(#[trigger] infos[i]) == target && !has_flag(infos[i], "dadfailed"@)
                && !has_flag(infos[i], "tentative"@),
        failed: exists|i: int|
            0 <= i < infos.len() && local_text(#[trigger] infos[i]) == target && has_flag(infos[i], "dadfailed"@),
    }
}

/// The step the wait for duplicate address detection takes next.
#[derive(Debug)]
pub enum DadStep {
    /// Query the state of the address.
    Query,
    /// Sleep this many milliseconds, then start the next attempt.
    Sleep(u64),
    /// Detection completed: the address is usable.
    Completed,
    /// Detection found the address in use elsewhere.
    DuplicateDetected,
    /// The time for detection ran out.
    TimedOut,
}

/// Seconds the wait for duplicate address detection may take.
pub const DAD_TIMEOUT_SECS: u64 = 10;

/// Milliseconds of the first pause between queries.
pub const DAD_INITIAL_INTERVAL_MS: u64 = 50;

/// Milliseconds the pause between queries grows to at most.
pub const DAD_MAX_INTERVAL_MS: u64 = 500;

/// The pause after one of `interval` milliseconds: half as long again, at most
/// `DAD_MAX_INTERVAL_MS`.
pub open spec fn next_interval(interval: u64) -> u64 {
    if interval + interval / 2 < DAD_MAX_INTERVAL_MS {
        (interval + interval / 2) as u64
    } else {
        DAD_MAX_INTERVAL_MS
    }
}

/// The wait for duplicate address detection: how many attempts were made
/// and how long the next pause is.
#[derive(Debug)]
pub struct DadWait {
    attempts: u64,
    interval_ms: u64,
}

impl DadWait {
    #[verifier::type_invariant]
    spec fn bounded(&self) -> bool {
        self.interval_ms <= DAD_MAX_INTERVAL_MS
    }

    /// The number of attempts started.
    pub closed spec fn spec_attempts(&self) -> u64 {
        self.attempts
    }

    /// The length of the next pause in milliseconds.
    pub closed spec fn spec_interval(&self) -> u64 {
        self.interval_ms
    }

    /// A wait that has made no attempt and pauses `DAD_INITIAL_INTERVAL_MS` first.
    pub fn new() -> (w: Self)
        ensures
            w.spec_attempts() == 0,
            w.spec_interval() == DAD_INITIAL_INTERVAL_MS,
    {
        DadWait { attempts: 0, interval_ms: DAD_INITIAL_INTERVAL_MS }
    }

    /// The number of attempts started.
    pub fn attempts(&self) -> (n: u64)
        ensures
            n == self.spec_attempts(),
    {
        self.attempts
    }

    /// The length of the next pause in milliseconds.
    pub fn interval_ms(&self) -> (n: u64)
        ensures
            n == self.spec_interval(),
            n <= DAD_MAX_INTERVAL_MS,
    {
        proof {
            use_type_invariant(self);
        }
        self.interval_ms
    }

    /// Starts an attempt `elapsed_nanos` nanoseconds after the wait began:
    /// past the timeout the wait has timed out, otherwise the state is queried.
    pub fn start_attempt(&mut self, elapsed_nanos: u128) -> (step: DadStep)
        requires
            old(self).spec_attempts() < u64::MAX,
        ensures
            final(self).spec_attempts() == old(self).spec_attempts() + 1,
            final(self).spec_interval() == old(self).spec_interval(),
            elapsed_nanos > DAD_TIMEOUT_SECS * 1_000_000_000 ==> step is TimedOut,
            elapsed_nanos <= DAD_TIMEOUT_SECS * 1_000_000_000 ==> step is Query,
    {
        proof {
            use_type_invariant(&*self);
        }
        self.attempts = self.attempts + 1;
        if elapsed_nanos > (DAD_TIMEOUT_SECS as u128) * 1_000_000_000 {
            DadStep::TimedOut
        } else {
            DadStep::Query
        }
    }

    /// The step after a query showed `observation`: a failed detection ends
    /// the wait, a finished one completes it, and otherwise the wait pauses
    /// and the pause after it grows.
    pub fn observe(&mut self, observation: &DadObservation) -> (step: DadStep)
        ensures
            final(self).spec_attempts() == old(self).spec_attempts(),
            observation.failed ==> step is DuplicateDetected && final(self).spec_interval() == old(self).spec_interval(),
            !observation.failed && observation.found && observation.ready ==> step is Completed
                && final(self).spec_interval() == old(self).spec_interval(),
            !observation.failed && !(observation.found && observation.ready) ==> step == DadStep::Sleep(
                old(self).spec_interval(),
            ) && final(self).spec_interval() == next_interval(old(self).spec_interval()),
    {
        proof {
            use_type_invariant(&*self);
        }
        if observation.failed {
            return DadStep::DuplicateDetected;
        }
        if observation.found && observation.ready {
            return DadStep::Completed;
        }
        let current = self.interval_ms;
        let grown = current + current / 2;
        self.interval_ms = if grown < DAD_MAX_INTERVAL_MS {
            grown
        } else {
            DAD_MAX_INTERVAL_MS
        };
        DadStep::Sleep(current)
    }
}

/// Whether `info` carries the flag `flag`.
fn info_has_flag(info: &AddrInfo, flag: &str) -> (r: bool)
    ensures
        r == has_flag(*info, flag@),
{
    let n = info.flags.len();
    let mut k: usize = 0;
    while k < n
        invariant
            n == info.flags@.len(),
            k <= n,
            forall|j: int| 0 <= j < k ==> info.flags@[j]@ != flag@,
        decreases n - k,
    {
        if text_eq(info.flags[k].as_str(), flag) {
            return true;
        }
        k = k + 1;
    }
    false
}

/// The commands that configure an interface inside a namespace.
#[derive(Debug)]
pub struct NetnsConfigurationPlan {
    /// The arguments of `nsenter` for each step that must succeed, in order:
    /// rename, add the address, set up, accept router advertisements.
    pub steps: Vec<Vec<String>>,
    /// The arguments of `nsenter` that add the default route, whose failure
    /// is ignored (the route may exist already).
    pub gateway_route: Option<Vec<String>>,
    /// The address whose duplicate address detection is waited for.
    pub target_ip: String,
}

/// The texts of a list of argument lists.
pub open spec fn step_texts(steps: Seq<Vec<String>>) -> Seq<Seq<Seq<char>>> {
    steps.map_values(|v: Vec<String>| string_texts(v@))
}

/// Why a gateway is refused, or `None` (also where there is none).
pub open spec fn gateway_problem(gateway: Option<u128>) -> Option<Seq<char>> {
    match gateway {
        Some(g) => address_problem(g),
        None => None,
    }
}

/// Why the configuration of an interface in a namespace is refused: the
/// path, the two names, the address and the gateway are checked in turn.
pub open spec fn configure_problem(
    netns_path: &str,
    temp_ifname: &str,
    target_ifname: &str,
    ip_cidr: &str,
    gateway: Option<u128>,
) -> Option<Seq<char>> {
    either(
        netns_problem(netns_path),
        either(
            iface_problem(temp_ifname),
            either(iface_problem(target_ifname), either(cidr_problem(ip_cidr), gateway_problem(gateway))),
        ),
    )
}

/// The steps that configure an interface in a namespace.
pub open spec fn configure_steps(netns: Seq<char>, temp: Seq<char>, target: Seq<char>, ip_cidr: Seq<char>) -> Seq<Seq<Seq<char>>> {
    seq![
        ns_args_spec(netns, seq!["ip"@, "link"@, "set"@, "dev"@, temp, "name"@, target]),
        ns_args_spec(netns, seq!["ip"@, "addr"@, "add"@, ip_cidr, "dev"@, target]),
        ns_args_spec(netns, seq!["ip"@, "link"@, "set"@, "up"@, "dev"@, target]),
        ns_args_spec(netns, seq!["sysctl"@, "-w"@, "net.ipv6.conf."@ + target + ".accept_ra=2"@]),
    ]
}

/// The step that adds the default route through `gateway`.
pub open spec fn gateway_step(netns: Seq<char>, gateway: u128, target: Seq<char>) -> Seq<Seq<char>> {
    ns_args_spec(netns, seq!["ip"@, "-6"@, "route"@, "add"@, "default"@, "via"@, ipv6_text(gateway), "dev"@, target])
}

/// What the configuration of an interface in a namespace does next.
#[derive(Debug)]
pub enum ConfigureAction {
    /// Run the step of the plan at this index; it must succeed.
    RunStep(usize),
    /// Run the plan's gateway route; its failure is ignored.
    AddGatewayRoute,
    /// Wait for duplicate address detection of the target address.
    WaitForDad,
    /// Stop with this error: a step that must succeed failed.
    Fail(String),
}

/// The action after `done` actions, the last of which ended in `last`: a
/// failed step stops the configuration with its error; the steps run in
/// order, then the gateway route where there is one, whatever its outcome,
/// then the wait.
pub open spec fn configure_action(steps: nat, has_route: bool, done: nat, last: Result<(), String>) -> ConfigureAction {
    if 0 < done <= steps && last is Err {
        ConfigureAction::Fail(last->Err_0)
    } else if done < steps {
        ConfigureAction::RunStep(done as usize)
    } else if done == steps && has_route {
        ConfigureAction::AddGatewayRoute
    } else {
        ConfigureAction::WaitForDad
    }
}

impl NetnsConfigurationPlan {
    /// The action after `done` actions of this plan have been taken, the
    /// last of them with outcome `last` (`Ok` before the first).
    pub fn next_action(&self, done: usize, last: &Result<(), String>) -> (a: ConfigureAction)
        ensures
            a == configure_action(self.steps@.len(), self.gateway_route is Some, done as nat, *last),
    {
        if 0 < done && done <= self.steps.len() {
            if let Err(e) = last {
                return ConfigureAction::Fail(e.clone());
            }
        }
        if done < self.steps.len() {
            ConfigureAction::RunStep(done)
        } else if done == self.steps.len() && self.gateway_route.is_some() {
            ConfigureAction::AddGatewayRoute
        } else {
            ConfigureAction::WaitForDad
        }
    }
}

/// The elements of `ip -j` output read as a JSON array; none where it
/// does not read as one.
pub open spec fn json_elements(output: Seq<char>) -> Seq<JsonValue> {
    match json_array_of(output) {
        Ok(values) => values,
        Err(_) => Seq::empty(),
    }
}

/// The string member `key` of the first route in `ip -j route` output;
/// none where the output does not read as a JSON array, the array is empty
/// or its first element has no such string.
pub open spec fn first_route_member(output: Seq<char>, key: Seq<char>) -> Option<Seq<char>> {
    let values = json_elements(output);
    if values.len() > 0 {
        str_member(values[0], key)
    } else {
        None
    }
}

/// The first `addr_info` element with both a string `local` and a number
/// `prefixlen`.
pub open spec fn first_complete_entry(entries: Seq<JsonValue>) -> Option<JsonValue>
    decreases entries.len(),
{
    if entries.len() == 0 {
        None
    } else if str_member(entries[0], "local"@) is Some && u64_member(entries[0], "prefixlen"@) is Some {
        Some(entries[0])
    } else {
        first_complete_entry(entries.drop_first())
    }
}

/// The first complete address read from the elements is read from the
/// first complete element.
proof fn lemma_first_complete_read(infos: Seq<AddrInfo>, entries: Seq<JsonValue>)
    requires
        addr_infos_of(infos, entries),
    ensures
        match first_complete(infos) {
            None => first_complete_entry(entries) is None,
            Some(a) => first_complete_entry(entries) matches Some(v) && addr_info_of(a, v) && a.local is Some
                && a.prefixlen is Some,
        },
    decreases infos.len(),
{
    if infos.len() > 0 {
        assert(addr_info_of(infos[0], entries[0]));
        assert forall|i: int| 0 <= i < infos.drop_first().len() implies addr_info_of(
            #[trigger] infos.drop_first()[i],
            entries.drop_first()[i],
        ) by {
            assert(addr_info_of(infos[i + 1], entries[i + 1]));
        }
        lemma_first_complete_read(infos.drop_first(), entries.drop_first());
    }
}

/// The address of an `addr_info` element as the wait compares it: empty
/// where it has none.
pub open spec fn entry_local(v: JsonValue) -> Seq<char> {
    match str_member(v, "local"@) {
        Some(l) => l,
        None => Seq::empty(),
    }
}

/// What the `addr_info` elements `entries` show of the address `target`.
pub open spec fn entries_observation(entries: Seq<JsonValue>, target: Seq<char>) -> DadObservation {
    DadObservation {
        found: exists|i: int| 0 <= i < entries.len() && entry_local(#[trigger] entries[i]) == target,
        ready: exists|i: int|
            0 <= i < entries.len() && entry_local(#[trigger] entries[i]) == target && !string_member(
                entries[i],
                "flags"@,
            ).contains("dadfailed"@) && !string_member(entries[i], "flags"@).contains("tentative"@),
        failed: exists|i: int|
            0 <= i < entries.len() && entry_local(#[trigger] entries[i]) == target && string_member(
                entries[i],
                "flags"@,
            ).contains("dadfailed"@),
    }
}

/// What addresses read from elements show is what the elements show.
proof fn lemma_observation_read(infos: Seq<AddrInfo>, entries: Seq<JsonValue>, target: Seq<char>)
    requires
        addr_infos_of(infos, entries),
    ensures
        dad_observation(infos, target) == entries_observation(entries, target),
{
    assert forall|i: int| 0 <= i < infos.len() implies local_text(#[trigger] infos[i]) == entry_local(entries[i])
        && (forall|f: Seq<char>| has_flag(infos[i], f) == #[trigger] string_member(entries[i], "flags"@).contains(f)) by {
        assert(addr_info_of(infos[i], entries[i]));
        let texts = infos[i].flags@.map_values(|s: String| s@);
        assert forall|f: Seq<char>| has_flag(infos[i], f) == #[trigger] string_member(entries[i], "flags"@).contains(f) by {
            if has_flag(infos[i], f) {
                let k = choose|k: int| 0 <= k < infos[i].flags@.len() && #[trigger] infos[i].flags@[k]@ == f;
                assert(texts[k] == f);
            }
            if string_member(entries[i], "flags"@).contains(f) {
                let k = choose|k: int| 0 <= k < texts.len() && texts[k] == f;
                assert(infos[i].flags@[k]@ == f);
            }
        }
    }
    let a = dad_observation(infos, target);
    let b = entries_observation(entries, target);
    if a.found {
        let i = choose|i: int| 0 <= i < infos.len() && local_text(#[trigger] infos[i]) == target;
        assert(entry_local(entries[i]) == target);
    }
    if b.found {
        let i = choose|i: int| 0 <= i < entries.len() && entry_local(#[trigger] entries[i]) == target;
        assert(local_text(infos[i]) == target);
    }
    if a.ready {
        let i = choose|i: int|
            0 <= i < infos.len() && local_text(#[trigger] infos[i]) == target && !has_flag(infos[i], "dadfailed"@)
                && !has_flag(infos[i], "tentative"@);
        assert(entry_local(entries[i]) == target);
    }
    if b.ready {
        let i = choose|i: int|
            0 <= i < entries.len() && entry_local(#[trigger] entries[i]) == target && !string_member(
                entries[i],
                "flags"@,
            ).contains("dadfailed"@) && !string_member(entries[i], "flags"@).contains("tentative"@);
        assert(local_text(infos[i]) == target);
    }
    if a.failed {
        let i = choose|i: int|
            0 <= i < infos.len() && local_text(#[trigger] infos[i]) == target && has_flag(infos[i], "dadfailed"@);
        assert(entry_local(entries[i]) == target);
    }
    if b.failed {
        let i = choose|i: int|
            0 <= i < entries.len() && entry_local(#[trigger] entries[i]) == target && string_member(
                entries[i],
                "flags"@,
            ).contains("dadfailed"@);
        assert(local_text(infos[i]) == target);
    }
}

/// The interface that `ip -j link show` reports first is up: its `flags`
/// hold `UP`.
pub open spec fn link_is_up(values: Seq<JsonValue>) -> bool {
    values.len() > 0 && string_member(values[0], "flags"@).contains("UP"@)
}

/// What the search for the upstream interface does next.
#[derive(Debug)]
pub enum UpstreamStep {
    /// Query the default routes, of IPv6 where the flag is set, else of IPv4.
    Query(bool),
    /// The upstream interface is this device.
    Use(String),
    /// No default route names a device.
    GiveUp(String),
}

/// The message when no default route names a device.
pub open spec fn no_upstream_message() -> Seq<char> {
    "Could not infer default interface from routing table"@
}

/// No character of `list` occurs in `s` when none is found first.
pub proof fn lemma_none_present(s: Seq<char>, list: Seq<char>)
    requires
        first_present(s, list) is None,
    ensures
        forall|i: int| 0 <= i < list.len() ==> !s.contains(#[trigger] list[i]),
    decreases list.len(),
{
    if list.len() > 0 {
        lemma_none_present(s, list.drop_first());
        assert forall|i: int| 0 <= i < list.len() implies !s.contains(#[trigger] list[i]) by {
            if i > 0 {
                assert(list[i] == list.drop_first()[i - 1]);
            }
        }
    }
}

/// No character of `list` is found first when none occurs in `s`.
proof fn lemma_absent_not_found(s: Seq<char>, list: Seq<char>)
    requires
        forall|i: int| 0 <= i < list.len() ==> !s.contains(#[trigger] list[i]),
    ensures
        first_present(s, list) is None,
    decreases list.len(),
{
    if list.len() > 0 {
        assert(!s.contains(list[0]));
        assert forall|i: int| 0 <= i < list.drop_first().len() implies !s.contains(#[trigger] list.drop_first()[i]) by {
            assert(list.drop_first()[i] == list[i + 1]);
        }
        lemma_absent_not_found(s, list.drop_first());
    }
}

/// An interface name is accepted exactly when it is 1 to 15 bytes long,
/// does not start with a dot, holds no NUL byte and none of the characters
/// &, |, ;, backquote, $, >, <, space, newline, carriage return or tab, and
/// matches the name pattern. A dot after the first character is no reason to refuse
/// a name (`eth0.100` names a VLAN interface).
pub proof fn lemma_interface_name_accepted_exactly(name: Seq<char>, byte_len: nat, pattern_ok: bool)
    ensures
        (interface_name_problem(name, byte_len, pattern_ok) is None) <==> ({
            &&& 0 < name.len()
            &&& byte_len <= 15
            &&& name[0] != '.'
            &&& !name.contains('\0')
            &&& !name.contains('&') && !name.contains('|') && !name.contains(';') && !name.contains('`')
            &&& !name.contains('$') && !name.contains('>') && !name.contains('<') && !name.contains(' ')
            &&& !name.contains('\n') && !name.contains('\r') && !name.contains('\t')
            &&& pattern_ok
        }),
{
    let sc = shell_chars();
    if interface_name_problem(name, byte_len, pattern_ok) is None {
        lemma_accepted_interface_name(name, byte_len, pattern_ok);
        assert(sc[0] == '&' && sc[1] == '|' && sc[2] == ';' && sc[3] == '`' && sc[4] == '$' && sc[5] == '>');
        assert(sc[6] == '<' && sc[7] == ' ' && sc[8] == '\n' && sc[9] == '\r' && sc[10] == '\t');
    }
    if 0 < name.len() && !name.contains('&') && !name.contains('|') && !name.contains(';') && !name.contains('`')
        && !name.contains('$') && !name.contains('>') && !name.contains('<') && !name.contains(' ')
        && !name.contains('\n') && !name.contains('\r') && !name.contains('\t') {
        assert forall|i: int| 0 <= i < sc.len() implies !name.contains(#[trigger] sc[i]) by {
            assert(sc.len() == 11);
        }
        lemma_absent_not_found(name, sc);
    }
}

/// No text of `list` occurs in `s` when none is found first.
pub proof fn lemma_no_text_present(s: Seq<char>, list: Seq<Seq<char>>)
    requires
        first_present_text(s, list) is None,
    ensures
        forall|i: int| 0 <= i < list.len() ==> !has_infix(s, #[trigger] list[i]),
    decreases list.len(),
{
    if list.len() > 0 {
        lemma_no_text_present(s, list.drop_first());
        assert forall|i: int| 0 <= i < list.len() implies !has_infix(s, #[trigger] list[i]) by {
            if i > 0 {
                assert(list[i] == list.drop_first()[i - 1]);
            }
        }
    }
}

/// An accepted interface name is safe on a command line: it is not empty,
/// at most 15 bytes long, does not start with a dot, and holds neither NUL
/// nor any shell control character; it matches the name pattern.
pub proof fn lemma_accepted_interface_name(name: Seq<char>, byte_len: nat, pattern_ok: bool)
    requires
        interface_name_problem(name, byte_len, pattern_ok) is None,
    ensures
        name.len() > 0,
        byte_len <= 15,
        name[0] != '.',
        !name.contains('\0'),
        forall|i: int| 0 <= i < shell_chars().len() ==> !name.contains(#[trigger] shell_chars()[i]),
        pattern_ok,
{
    lemma_none_present(name, shell_chars());
}

/// An accepted network namespace path is safe: not empty, at most 256
/// bytes, without `..`, NUL or shell control characters, and of one of the
/// known shapes.
pub proof fn lemma_accepted_netns_path(p: Seq<char>, byte_len: nat, shape_ok: bool)
    requires
        netns_path_problem(p, byte_len, shape_ok) is None,
    ensures
        p.len() > 0,
        byte_len <= 256,
        !has_infix(p, ".."@),
        !p.contains('\0'),
        forall|i: int| 0 <= i < shell_chars().len() ==> !p.contains(#[trigger] shell_chars()[i]),
        shape_ok,
{
    lemma_none_present(p, shell_chars());
}

/// An accepted address with prefix length holds none of the refused
/// characters, is at most 43 bytes, has one of the two shapes and an
/// address part that parses.
pub proof fn lemma_accepted_ip_cidr(
    s: Seq<char>,
    byte_len: nat,
    v4_pattern_ok: bool,
    v6_pattern_ok: bool,
    addr_is_v4: bool,
    addr_is_v6: bool,
)
    requires
        ip_cidr_problem(s, byte_len, v4_pattern_ok, v6_pattern_ok, addr_is_v4, addr_is_v6) is None,
    ensures
        s.len() > 0,
        byte_len <= 43,
        forall|i: int| 0 <= i < cidr_shell_chars().len() ==> !s.contains(#[trigger] cidr_shell_chars()[i]),
        v4_pattern_ok || v6_pattern_ok,
        addr_is_v4 || addr_is_v6,
{
    lemma_none_present(s, cidr_shell_chars());
}

/// Every argument of an accepted argument list is free of NUL, at most
/// 1024 bytes long and holds no shell control sequence.
pub proof fn lemma_accepted_args(args: Seq<&str>)
    requires
        args_problem(args) is None,
    ensures
        forall|i: int| 0 <= i < args.len() ==> arg_problem((#[trigger] args[i])@, args[i].len() as nat) is None,
    decreases args.len(),
{
    if args.len() > 0 {
        lemma_accepted_args(args.drop_first());
        assert forall|i: int| 0 <= i < args.len() implies arg_problem((#[trigger] args[i])@, args[i].len() as nat) is None by {
            if i > 0 {
                assert(args[i] == args.drop_first()[i - 1]);
            }
        }
    }
}

/// A command line that passes the checks runs an allowed program with at
/// most 32 arguments, none of which holds NUL, is longer than 1024 bytes or
/// holds a shell control sequence.
pub proof fn lemma_accepted_command(cmd: Seq<char>, args: Seq<&str>)
    requires
        command_problem(cmd, args) is None,
    ensures
        is_allowed_program(cmd),
        args.len() <= 32,
        forall|i: int| 0 <= i < args.len() ==> {
            &&& !(#[trigger] args[i])@.contains('\0')
            &&& args[i].len() <= 1024
            &&& forall|j: int| 0 <= j < dangerous_sequences().len() ==> !has_infix(args[i]@, #[trigger] dangerous_sequences()[j])
        },
{
    lemma_accepted_args(args);
    assert forall|i: int| 0 <= i < args.len() implies {
        &&& !(#[trigger] args[i])@.contains('\0')
        &&& args[i].len() <= 1024
        &&& forall|j: int| 0 <= j < dangerous_sequences().len() ==> !has_infix(args[i]@, #[trigger] dangerous_sequences()[j])
    } by {
        assert(arg_problem(args[i]@, args[i].len() as nat) is None);
        lemma_no_text_present(args[i]@, dangerous_sequences());
    }
}

/// The pause between queries never exceeds `DAD_MAX_INTERVAL_MS` and never
/// shrinks: from a pause within the limit, the next is within it and at
/// least as long.
pub proof fn lemma_backoff_bounded_and_growing(interval: u64)
    requires
        interval <= DAD_MAX_INTERVAL_MS,
    ensures
        next_interval(interval) <= DAD_MAX_INTERVAL_MS,
        interval <= next_interval(interval),
{
}

/// From the first pause, the pauses reach the limit and then stay there:
/// the seventh pause and every one after it last `DAD_MAX_INTERVAL_MS`.
pub proof fn lemma_backoff_reaches_limit()
    ensures
        next_interval(DAD_INITIAL_INTERVAL_MS) == 75,
        next_interval(next_interval(next_interval(next_interval(next_interval(next_interval(DAD_INITIAL_INTERVAL_MS))))))
            == DAD_MAX_INTERVAL_MS,
        next_interval(DAD_MAX_INTERVAL_MS) == DAD_MAX_INTERVAL_MS,
{
}

/// Driver that configures interfaces through system commands.
#[derive(Debug)]
pub struct ScriptDriver;

impl ScriptDriver {
    /// The verdict on an interface name, given whether it matches `interface_name_pattern`.
    pub fn interface_name_verdict(ifname: &str, pattern_ok: bool) -> (r: Result<(), String>)
        ensures
            verdict(r, interface_name_problem(ifname@, ifname.len() as nat, pattern_ok)),
    {
        if ifname.unicode_len() == 0 {
            return Err(String::from_str("Interface name cannot be empty"));
        }
        if ifname.len() > 15 {
            let e = String::from_str("Interface name '").concat(ifname).concat("' too long (max 15 characters)");
            return Err(e);
        }
        if ifname.get_char(0) == '.' {
            return Err(String::from_str("Interface name '").concat(ifname).concat("' cannot start with a dot"));
        }
        if has_char(ifname, '\0') {
            return Err(String::from_str("Interface name '").concat(ifname).concat("' contains null byte"));
        }
        let dangerous: [char; 11] = ['&', '|', ';', '`', '$', '>', '<', ' ', '\n', '\r', '\t'];
        assert(dangerous@ =~= shell_chars());
        match find_first_present(ifname, &dangerous) {
            Some(ch) => {
                let e = String::from_str("Interface name '").concat(ifname).concat("' contains dangerous character '");
                let e = e.concat(char_string(ch).as_str()).concat("'");
                return Err(e);
            },
            None => {},
        }
        if !pattern_ok {
            return Err(String::from_str("Interface name '").concat(ifname).concat("' contains invalid characters"));
        }
        Ok(())
    }

    /// Validate interface name against Linux naming rules and prevent injection
    pub fn validate_interface_name(ifname: &str) -> (r: Result<(), String>)
        ensures
            verdict(
                r,
                interface_name_problem(
                    ifname@,
                    ifname.len() as nat,
                    regex_matches(interface_name_pattern(), ifname@),
                ),
            ),
    {
        let pattern_ok = regex_is_match("^[a-zA-Z0-9._-]+$", ifname);
        Self::interface_name_verdict(ifname, pattern_ok)
    }

    /// The verdict on an address with prefix length, given the pattern and parse results.
    pub fn ip_cidr_verdict(
        ip_cidr: &str,
        v4_pattern_ok: bool,
        v6_pattern_ok: bool,
        addr_is_v4: bool,
        addr_is_v6: bool,
    ) -> (r: Result<(), String>)
        ensures
            verdict(r, ip_cidr_problem(ip_cidr@, ip_cidr.len() as nat, v4_pattern_ok, v6_pattern_ok, addr_is_v4, addr_is_v6)),
    {
        if ip_cidr.unicode_len() == 0 {
            return Err(String::from_str("IP/CIDR cannot be empty"));
        }
        let dangerous: [char; 12] = ['&', '|', ';', '`', '$', '>', '<', ' ', '\n', '\r', '\t', '\0'];
        assert(dangerous@ =~= cidr_shell_chars());
        match find_first_present(ip_cidr, &dangerous) {
            Some(ch) => {
                let e = String::from_str("IP/CIDR contains dangerous character '");
                return Err(e.concat(char_string(ch).as_str()).concat("'"));
            },
            None => {},
        }
        if ip_cidr.len() > 43 {
            return Err(String::from_str("IP/CIDR string too long: ").concat(ip_cidr));
        }
        if !v4_pattern_ok && !v6_pattern_ok {
            return Err(String::from_str("Invalid IP/CIDR format: ").concat(ip_cidr));
        }
        if !addr_is_v4 && !addr_is_v6 {
            let addr_part = address_part(ip_cidr);
            return Err(String::from_str("Invalid IP address: ").concat(addr_part));
        }
        Ok(())
    }

    /// Validate IP/CIDR notation to prevent injection
    pub fn validate_ip_cidr(ip_cidr: &str) -> (r: Result<(), String>)
        ensures
            verdict(
                r,
                ip_cidr_problem(
                    ip_cidr@,
                    ip_cidr.len() as nat,
                    regex_matches(ipv4_cidr_pattern(), ip_cidr@),
                    regex_matches(ipv6_cidr_pattern(), ip_cidr@),
                    is_ipv4_text(before_slash(ip_cidr@)),
                    ipv6_addr_syntax(before_slash(ip_cidr@)) is Some,
                ),
            ),
    {
        let v4_pattern_ok = regex_is_match("^[0-9.]+/[0-9]+$", ip_cidr);
        let v6_pattern_ok = regex_is_match("^[0-9a-fA-F:]+/[0-9]+$", ip_cidr);
        let addr_part = address_part(ip_cidr);
        let addr_is_v4 = parses_as_ipv4(addr_part);
        let addr_is_v6 = parse_ipv6_addr(addr_part).is_some();
        Self::ip_cidr_verdict(ip_cidr, v4_pattern_ok, v6_pattern_ok, addr_is_v4, addr_is_v6)
    }

    /// The verdict on an address for an interface, given its text and
    /// whether the text matches `ipv6_text_pattern`.
    pub fn ipv6_address_verdict(addr: u128, addr_str: &str, pattern_ok: bool) -> (r: Result<(), String>)
        ensures
            verdict(r, ipv6_address_problem(addr, addr_str@, addr_str.len() as nat, pattern_ok)),
    {
        if addr >> 120u32 == 0xffu128 {
            return Err(String::from_str("Multicast IPv6 address not allowed: ").concat(addr_str));
        }
        if addr == 0 {
            return Err(String::from_str("Unspecified IPv6 address not allowed: ").concat(addr_str));
        }
        if !pattern_ok {
            return Err(String::from_str("Invalid IPv6 address format: ").concat(addr_str));
        }
        if addr_str.len() > 39 {
            return Err(String::from_str("IPv6 address string too long: ").concat(addr_str));
        }
        Ok(())
    }

    /// Validate IPv6 address to prevent injection
    pub fn validate_ipv6_address(addr: u128) -> (r: Result<(), String>)
        ensures
            verdict(
                r,
                ipv6_address_problem(
                    addr,
                    ipv6_text(addr),
                    crate::text::utf8_len(ipv6_text(addr)),
                    regex_matches(ipv6_text_pattern(), ipv6_text(addr)),
                ),
            ),
    {
        let addr_str = ipv6_string(addr);
        let pattern_ok = regex_is_match("^[0-9a-fA-F:]+$", addr_str.as_str());
        Self::ipv6_address_verdict(addr, addr_str.as_str(), pattern_ok)
    }

    /// The verdict on a network namespace path, given whether it has one of the known shapes.
    pub fn netns_path_verdict(netns_str: &str, shape_ok: bool) -> (r: Result<(), String>)
        ensures
            verdict(r, netns_path_problem(netns_str@, netns_str.len() as nat, shape_ok)),
    {
        if netns_str.unicode_len() == 0 {
            return Err(String::from_str("Network namespace path cannot be empty"));
        }
        if netns_str.len() > 256 {
            return Err(String::from_str("Network namespace path too long: ").concat(netns_str));
        }
        if has_text(netns_str, "..") {
            return Err(String::from_str("Path traversal detected: ").concat(netns_str));
        }
        if has_char(netns_str, '\0') {
            return Err(String::from_str("Null byte in netns path: ").concat(netns_str));
        }
        let dangerous: [char; 11] = ['&', '|', ';', '`', '$', '>', '<', ' ', '\n', '\r', '\t'];
        assert(dangerous@ =~= shell_chars());
        match find_first_present(netns_str, &dangerous) {
            Some(ch) => {
                let e = String::from_str("Dangerous character '").concat(char_string(ch).as_str());
                return Err(e.concat("' in netns path: ").concat(netns_str));
            },
            None => {},
        }
        if !shape_ok {
            return Err(String::from_str("Invalid network namespace path: ").concat(netns_str));
        }
        Ok(())
    }

    /// Validate network namespace path to prevent injection
    pub fn validate_netns_path(netns_path: &str) -> (r: Result<(), String>)
        ensures
            verdict(r, netns_path_problem(netns_path@, netns_path.len() as nat, matches_netns_pattern(netns_path@))),
    {
        let patterns: [&str; 4] = [
            "^/proc/\\d+/ns/net$",
            "^/proc/self/ns/net$",
            "^/var/run/netns/[a-zA-Z0-9_-]+$",
            "^/run/netns/[a-zA-Z0-9_-]+$",
        ];
        let mut shape_ok = false;
        let mut i: usize = 0;
        while i < 4
            invariant
                i <= 4,
                forall|j: int| 0 <= j < 4 ==> (#[trigger] patterns@[j])@ == netns_patterns()[j],
                shape_ok == exists|j: int| 0 <= j < i && regex_matches(#[trigger] netns_patterns()[j], netns_path@),
            decreases 4 - i,
        {
            if !shape_ok && regex_is_match(patterns[i], netns_path) {
                shape_ok = true;
            }
            i = i + 1;
        }
        Self::netns_path_verdict(netns_path, shape_ok)
    }

    /// The checks made on a command line before it is run: the program must be
    /// `ip`, `nsenter` or `sysctl`, no argument may hold NUL, be longer than
    /// 1024 bytes or hold a shell control sequence, and there may be at most
    /// 32 arguments.
    pub fn check_command(cmd: &str, args: &[&str]) -> (r: Result<(), String>)
        ensures
            verdict(r, command_problem(cmd@, args@)),
    {
        if !(text_eq(cmd, "ip") || text_eq(cmd, "nsenter") || text_eq(cmd, "sysctl")) {
            return Err(String::from_str("Command not allowed: ").concat(cmd));
        }
        let n = args.len();
        let mut i: usize = 0;
        assert(args@.subrange(0, n as int) =~= args@);
        while i < n
            invariant
                n == args@.len(),
                i <= n,
                args_problem(args@) == args_problem(args@.subrange(i as int, n as int)),
                is_allowed_program(cmd@),
            decreases n - i,
        {
            let ghost rest = args@.subrange(i as int, n as int);
            assert(rest[0] == args@[i as int]);
            assert(rest.drop_first() =~= args@.subrange(i + 1, n as int));
            match arg_check(args[i]) {
                Ok(()) => {},
                Err(e) => {
                    assert(args_problem(rest) == arg_problem(rest[0]@, rest[0].len() as nat));
                    return Err(e);
                },
            }
            i = i + 1;
        }
        if n > 32 {
            return Err(String::from_str("Too many arguments: ").concat(decimal_string(n as u64).as_str()));
        }
        Ok(())
    }

    /// The message of a command that ran and failed.
    pub fn command_failure_message(cmd: &str, args: &[&str], stderr: &str) -> (s: String)
        ensures
            s@ == "Command failed: "@ + cmd@ + seq![' '] + space_joined(str_texts(args@)) + "\nError: "@ + stderr@,
    {
        proof {
            reveal_strlit(" ");
        }
        let mut s = String::from_str("Command failed: ").concat(cmd).concat(" ");
        let ghost head = s@;
        let n = args.len();
        let mut i: usize = 0;
        while i < n
            invariant
                n == args@.len(),
                i <= n,
                s@ == head + space_joined(str_texts(args@.subrange(0, i as int))),
            decreases n - i,
        {
            proof {
                reveal_strlit(" ");
            }
            if i > 0 {
                s.append(" ");
            }
            s.append(args[i]);
            proof {
                let sub = str_texts(args@.subrange(0, i + 1));
                assert(sub.drop_last() =~= str_texts(args@.subrange(0, i as int)));
                if i == 0 {
                    assert(space_joined(sub) == sub[0]);
                    assert(space_joined(str_texts(args@.subrange(0, 0))) =~= Seq::<char>::empty());
                }
                assert(s@ =~= head + space_joined(sub));
            }
            i = i + 1;
        }
        proof {
            assert(args@.subrange(0, n as int) =~= args@);
        }
        s.append("\nError: ");
        s.append(stderr);
        proof {
            assert(s@ =~= "Command failed: "@ + cmd@ + seq![' '] + space_joined(str_texts(args@)) + "\nError: "@ + stderr@);
        }
        s
    }

    /// Whether a failure message of `ip` says that the interface does not exist.
    pub fn is_missing_device_error(message: &str) -> (r: bool)
        ensures
            r == reports_missing_device(message@),
    {
        let lower = to_lowercase(message);
        has_text(lower.as_str(), "cannot find device") || has_text(lower.as_str(), "no such device") || has_text(
            lower.as_str(),
            "link not found",
        )
    }

    /// The outcome of deleting an interface inside a namespace, given how
    /// the command ended: an interface that does not exist counts as deleted.
    pub fn delete_in_netns_outcome(run: Result<String, String>) -> (r: Result<(), String>)
        ensures
            run is Ok ==> r is Ok,
            run matches Err(e) ==> (if reports_missing_device(e@) {
                r is Ok
            } else {
                r matches Err(e2) && e2@ == e@
            }),
    {
        match run {
            Ok(_) => Ok(()),
            Err(e) => {
                if Self::is_missing_device_error(e.as_str()) {
                    Ok(())
                } else {
                    Err(e)
                }
            },
        }
    }

    /// The answer to whether an interface exists inside a namespace, given
    /// how `ip link show` ended.
    pub fn exists_in_netns_outcome(run: Result<String, String>) -> (r: Result<bool, String>)
        ensures
            run is Ok ==> r == Ok::<bool, String>(true),
            run matches Err(e) ==> (if reports_missing_device(e@) {
                r == Ok::<bool, String>(false)
            } else {
                r matches Err(e2) && e2@ == e@
            }),
    {
        match run {
            Ok(_) => Ok(true),
            Err(e) => {
                if Self::is_missing_device_error(e.as_str()) {
                    Ok(false)
                } else {
                    Err(e)
                }
            },
        }
    }

    /// The arguments of `ip` that show an interface, after validating its name.
    pub fn check_interface_args(ifname: &str) -> (r: Result<Vec<String>, String>)
        ensures
            planned(r, iface_problem(ifname), seq!["-j"@, "link"@, "show"@, "dev"@, ifname@]),
    {
        match Self::validate_interface_name(ifname) {
            Ok(()) => {},
            Err(e) => {
                return Err(e);
            },
        }
        let items = ["-j", "link", "show", "dev", ifname];

        assert(str_texts(items@) =~= seq!["-j"@, "link"@, "show"@, "dev"@, ifname@]);

        let v = strings(&items);
        Ok(v)
    }

    /// The arguments of `ip` that create an ipvlan interface `temp_name` in
    /// bridge mode on `parent`, after validating both names and the mode.
    pub fn create_ipvlan_args(parent: &str, mode: &str, temp_name: &str) -> (r: Result<Vec<String>, String>)
        ensures
            planned(
                r,
                either(iface_problem(parent), either(iface_problem(temp_name), mode_problem(mode))),
                seq!["link"@, "add"@, "link"@, parent@, "name"@, temp_name@, "type"@, "ipvlan"@, "mode"@, mode@, "bridge"@],
            ),
    {
        match Self::validate_interface_name(parent) {
            Ok(()) => {},
            Err(e) => {
                return Err(e);
            },
        }
        match Self::validate_interface_name(temp_name) {
            Ok(()) => {},
            Err(e) => {
                return Err(e);
            },
        }
        match Self::validate_ipvlan_mode(mode) {
            Ok(()) => {},
            Err(e) => {
                return Err(e);
            },
        }
        let items = ["link", "add", "link", parent, "name", temp_name, "type", "ipvlan", "mode", mode, "bridge"];

        assert(str_texts(items@) =~= seq!["link"@, "add"@, "link"@, parent@, "name"@, temp_name@, "type"@, "ipvlan"@, "mode"@, mode@, "bridge"@]);

        let v = strings(&items);
        Ok(v)
    }

    /// The arguments of `ip` that delete an interface, after validating its name.
    pub fn delete_interface_args(ifname: &str) -> (r: Result<Vec<String>, String>)
        ensures
            planned(r, iface_problem(ifname), seq!["link"@, "delete"@, ifname@]),
    {
        match Self::validate_interface_name(ifname) {
            Ok(()) => {},
            Err(e) => {
                return Err(e);
            },
        }
        let items = ["link", "delete", ifname];

        assert(str_texts(items@) =~= seq!["link"@, "delete"@, ifname@]);

        let v = strings(&items);
        Ok(v)
    }

    /// The arguments of `ip` that move an interface into a namespace, after
    /// validating the name and the path.
    pub fn set_netns_args(ifname: &str, netns_path: &str) -> (r: Result<Vec<String>, String>)
        ensures
            planned(
                r,
                either(iface_problem(ifname), netns_problem(netns_path)),
                seq!["link"@, "set"@, "dev"@, ifname@, "netns"@, netns_path@],
            ),
    {
        match Self::validate_interface_name(ifname) {
            Ok(()) => {},
            Err(e) => {
                return Err(e);
            },
        }
        match Self::validate_netns_path(netns_path) {
            Ok(()) => {},
            Err(e) => {
                return Err(e);
            },
        }
        let items = ["link", "set", "dev", ifname, "netns", netns_path];

        assert(str_texts(items@) =~= seq!["link"@, "set"@, "dev"@, ifname@, "netns"@, netns_path@]);

        let v = strings(&items);
        Ok(v)
    }

    /// The arguments of `nsenter` that delete an interface inside a
    /// namespace, after validating the path and the name.
    pub fn delete_in_netns_args(netns_path: &str, ifname: &str) -> (r: Result<Vec<String>, String>)
        ensures
            planned(
                r,
                either(netns_problem(netns_path), iface_problem(ifname)),
                ns_args_spec(netns_path@, seq!["ip"@, "link"@, "delete"@, "dev"@, ifname@]),
            ),
    {
        match Self::validate_netns_path(netns_path) {
            Ok(()) => {},
            Err(e) => {
                return Err(e);
            },
        }
        match Self::validate_interface_name(ifname) {
            Ok(()) => {},
            Err(e) => {
                return Err(e);
            },
        }
        let items = ["ip", "link", "delete", "dev", ifname];

        assert(str_texts(items@) =~= seq!["ip"@, "link"@, "delete"@, "dev"@, ifname@]);

        let v = ns_args(netns_path, &items);
        Ok(v)
    }

    /// The arguments of `nsenter` that show an interface inside a namespace,
    /// after validating the path and the name.
    pub fn exists_in_netns_args(netns_path: &str, ifname: &str) -> (r: Result<Vec<String>, String>)
        ensures
            planned(
                r,
                either(netns_problem(netns_path), iface_problem(ifname)),
                ns_args_spec(netns_path@, seq!["ip"@, "link"@, "show"@, "dev"@, ifname@]),
            ),
    {
        match Self::validate_netns_path(netns_path) {
            Ok(()) => {},
            Err(e) => {
                return Err(e);
            },
        }
        match Self::validate_interface_name(ifname) {
            Ok(()) => {},
            Err(e) => {
                return Err(e);
            },
        }
        let items = ["ip", "link", "show", "dev", ifname];

        assert(str_texts(items@) =~= seq!["ip"@, "link"@, "show"@, "dev"@, ifname@]);

        let v = ns_args(netns_path, &items);
        Ok(v)
    }

    /// The arguments of `ip` that list the default IPv6 routes of an
    /// interface, after validating its name.
    pub fn gateway_query_args(ifname: &str) -> (r: Result<Vec<String>, String>)
        ensures
            planned(r, iface_problem(ifname), seq!["-6"@, "-j"@, "route"@, "show"@, "default"@, "dev"@, ifname@]),
    {
        match Self::validate_interface_name(ifname) {
            Ok(()) => {},
            Err(e) => {
                return Err(e);
            },
        }
        let items = ["-6", "-j", "route", "show", "default", "dev", ifname];

        assert(str_texts(items@) =~= seq!["-6"@, "-j"@, "route"@, "show"@, "default"@, "dev"@, ifname@]);

        let v = strings(&items);
        Ok(v)
    }

    /// The arguments of `ip` that list the global IPv6 addresses of an
    /// interface, after validating its name.
    pub fn subnet_query_args(ifname: &str) -> (r: Result<Vec<String>, String>)
        ensures
            planned(
                r,
                iface_problem(ifname),
                seq!["-j"@, "-6"@, "addr"@, "show"@, "dev"@, ifname@, "scope"@, "global"@],
            ),
    {
        match Self::validate_interface_name(ifname) {
            Ok(()) => {},
            Err(e) => {
                return Err(e);
            },
        }
        let items = ["-j", "-6", "addr", "show", "dev", ifname, "scope", "global"];

        assert(str_texts(items@) =~= seq!["-j"@, "-6"@, "addr"@, "show"@, "dev"@, ifname@, "scope"@, "global"@]);

        let v = strings(&items);
        Ok(v)
    }

    /// The arguments of `ip` that list the default routes, of IPv6 or of IPv4.
    pub fn default_route_args(ipv6: bool) -> (v: Vec<String>)
        ensures
            string_texts(v@) == seq![if ipv6 { "-6"@ } else { "-4"@ }, "-j"@, "route"@, "show"@, "default"@],
    {
        if ipv6 {
            strings(&["-6", "-j", "route", "show", "default"])
        } else {
            strings(&["-4", "-j", "route", "show", "default"])
        }
    }

    /// The arguments of `nsenter` that show the IPv6 addresses of an
    /// interface inside a namespace, for the wait for duplicate address detection.
    pub fn dad_query_args(netns_path: &str, interface: &str) -> (v: Vec<String>)
        ensures
            string_texts(v@) == ns_args_spec(netns_path@, seq!["ip"@, "-j"@, "-6"@, "addr"@, "show"@, "dev"@, interface@]),
    {
        ns_args(netns_path, &["ip", "-j", "-6", "addr", "show", "dev", interface])
    }

    /// The search for the upstream interface starts with the IPv6 default routes.
    pub fn upstream_start() -> (step: UpstreamStep)
        ensures
            step == UpstreamStep::Query(true),
    {
        UpstreamStep::Query(true)
    }

    /// The step after the default routes of IPv6 (`ipv6`) or of IPv4 were
    /// listed, given what `ip -j route` printed: the device of the first
    /// route where it names one (output that does not read as JSON counts
    /// as no routes); else the IPv4 routes after the IPv6 ones, and no
    /// device after both.
    pub fn upstream_step(ipv6: bool, output: &str) -> (step: UpstreamStep)
        ensures
            first_route_member(output@, "dev"@) matches Some(d) ==> (step matches UpstreamStep::Use(s) && s@ == d),
            first_route_member(output@, "dev"@) is None ==> (if ipv6 {
                step == UpstreamStep::Query(false)
            } else {
                step matches UpstreamStep::GiveUp(m) && m@ == no_upstream_message()
            }),
    {
        let routes = Self::routes_in_output(output);
        proof {
            reveal_strlit("dev");
        }
        match Self::route_device(&routes) {
            Some(dev) => UpstreamStep::Use(dev),
            None => {
                if ipv6 {
                    UpstreamStep::Query(false)
                } else {
                    UpstreamStep::GiveUp(String::from_str("Could not infer default interface from routing table"))
                }
            },
        }
    }

    /// The routes of `ip -j route` output; none where it does not read as
    /// a JSON array.
    pub fn routes_in_output(output: &str) -> (r: Vec<RouteEntry>)
        ensures
            routes_of(r@, json_elements(output@)),
    {
        match parse_json_array(output) {
            Ok(values) => routes_from_json(&values),
            Err(_) => Vec::new(),
        }
    }

    /// The gateway of the first route of `ip -j route` output: none where
    /// there is no route (also where the output does not read as JSON) or
    /// the route has no gateway, an error where the gateway does not parse.
    pub fn gateway_from_output(output: &str) -> (r: Result<Option<u128>, String>)
        ensures
            match first_route_member(output@, "gateway"@) {
                None => r == Ok::<Option<u128>, String>(None),
                Some(g) => match ipv6_addr_syntax(g) {
                    Some(a) => r == Ok::<Option<u128>, String>(Some(a)),
                    None => r matches Err(e) && e@ == bad_gateway_message(g),
                },
            },
    {
        let routes = Self::routes_in_output(output);
        proof {
            reveal_strlit("gateway");
        }
        Self::route_gateway(&routes)
    }

    /// The subnet of the first global address in `ip -j addr show` output:
    /// the output must read as a JSON array (else the parser's error), and
    /// the first `addr_info` element with an address and a prefix length
    /// gives the subnet, as `subnet_from_addresses` reads it.
    pub fn subnet_from_output(output: &str, ifname: &str) -> (r: Result<Ipv6Subnet, String>)
        ensures
            match json_array_of(output@) {
                Err(e) => r matches Err(x) && x@ == e,
                Ok(values) => match first_complete_entry(addr_entries(values)) {
                    None => r matches Err(e) && e@ == "No global IPv6 address found on interface "@ + ifname@,
                    Some(v) => {
                        let text = str_member(v, "local"@)->0;
                        let pfx = u64_member(v, "prefixlen"@)->0 as u8;
                        match ipv6_addr_syntax(text) {
                            None => r matches Err(e) && e@ == bad_address_message(text),
                            Some(a) => if pfx > 128 {
                                r matches Err(e) && e@ == "Invalid prefix length: "@ + decimal(pfx as nat)
                            } else {
                                r matches Ok(s) && s.address == a && s.prefix_length == pfx
                            },
                        }
                    },
                },
            },
    {
        match parse_json_array(output) {
            Err(e) => Err(e),
            Ok(values) => {
                let infos = addr_infos_from_json(&values);
                proof {
                    lemma_first_complete_read(infos@, addr_entries(values@));
                    if first_complete(infos@) is Some {
                        let a = first_complete(infos@)->0;
                        let v = first_complete_entry(addr_entries(values@))->0;
                        assert(a.local is Some);
                        assert(opt_text(a.local) == Some(a.local->0@));
                        assert(opt_text(a.local) == str_member(v, "local"@));
                        assert(a.local->0@ == str_member(v, "local"@)->0);
                        assert(a.prefixlen->0 == u64_member(v, "prefixlen"@)->0);
                    }
                }
                Self::subnet_from_addresses(&infos, ifname)
            },
        }
    }

    /// What `ip -j addr show` output shows of the address `target_ip`; an
    /// error where the output does not read as a JSON array.
    pub fn dad_observation_from_output(output: &str, target_ip: &str) -> (r: Result<DadObservation, String>)
        ensures
            match json_array_of(output@) {
                Err(e) => r matches Err(x) && x@ == "Failed to parse addr show JSON: "@ + e,
                Ok(values) => r == Ok::<DadObservation, String>(entries_observation(addr_entries(values), target_ip@)),
            },
    {
        match parse_json_array(output) {
            Err(e) => Err(String::from_str("Failed to parse addr show JSON: ").concat(e.as_str())),
            Ok(values) => {
                let infos = addr_infos_from_json(&values);
                proof {
                    lemma_observation_read(infos@, addr_entries(values@), target_ip@);
                }
                Ok(Self::observe_dad(&infos, target_ip))
            },
        }
    }

    /// Whether `ip -j link show dev <ifname>` output shows the interface up:
    /// an error where the output does not read as a JSON array or the
    /// interface's flags do not hold `UP`.
    pub fn check_interface_outcome(ifname: &str, output: &str) -> (r: Result<(), String>)
        ensures
            match json_array_of(output@) {
                Err(e) => r matches Err(x) && x@ == "Failed to parse link show JSON: "@ + e,
                Ok(values) => if link_is_up(values) {
                    r is Ok
                } else {
                    r matches Err(x) && x@ == "Interface "@ + ifname@ + " is not UP"@
                },
            },
    {
        let values = match parse_json_array(output) {
            Err(e) => {
                return Err(String::from_str("Failed to parse link show JSON: ").concat(e.as_str()));
            },
            Ok(values) => values,
        };
        if values.len() > 0 {
            proof {
                reveal_strlit("flags");
                reveal_strlit("UP");
            }
            let flags = string_member_of(&values[0], "flags");
            let ghost texts = flags@.map_values(|s: String| s@);
            let mut i: usize = 0;
            while i < flags.len()
                invariant
                    i <= flags@.len(),
                    json_array_of(output@) == Ok::<Seq<JsonValue>, Seq<char>>(values@),
                    values@.len() > 0,
                    texts == flags@.map_values(|s: String| s@),
                    texts == string_member(values@[0], "flags"@),
                    forall|j: int| 0 <= j < i ==> texts[j] != "UP"@,
                decreases flags@.len() - i,
            {
                if text_eq(flags[i].as_str(), "UP") {
                    assert(texts[i as int] == "UP"@);
                    return Ok(());
                }
                i = i + 1;
            }
        }
        Err(String::from_str("Interface ").concat(ifname).concat(" is not UP"))
    }

    /// The device of the first route, where it names one.
    pub fn route_device(routes: &Vec<RouteEntry>) -> (r: Option<String>)
        ensures
            routes@.len() == 0 ==> r is None,
            routes@.len() > 0 ==> r == routes@[0].dev,
    {
        if routes.len() == 0 {
            return None;
        }
        routes[0].dev.clone()
    }

    /// The gateway of the first route: `None` where there is no route or it
    /// has no gateway, an error where the gateway does not parse.
    pub fn route_gateway(routes: &Vec<RouteEntry>) -> (r: Result<Option<u128>, String>)
        ensures
            (routes@.len() == 0 || routes@[0].gateway is None) ==> r == Ok::<Option<u128>, String>(None),
            routes@.len() > 0 && routes@[0].gateway is Some ==> ({
                let g = routes@[0].gateway->0@;
                match ipv6_addr_syntax(g) {
                    Some(a) => r == Ok::<Option<u128>, String>(Some(a)),
                    None => r matches Err(e) && e@ == bad_gateway_message(g),
                }
            }),
    {
        if routes.len() == 0 {
            return Ok(None);
        }
        match &routes[0].gateway {
            None => Ok(None),
            Some(g) => match parse_ipv6_addr(g.as_str()) {
                Some(a) => Ok(Some(a)),
                None => {
                    let e = String::from_str("Invalid IPv6 gateway address '").concat(g.as_str());
                    Err(e.concat("': invalid IPv6 address syntax"))
                },
            },
        }
    }

    /// The subnet of the first address that has both an address and a
    /// prefix length; the prefix length is cut to its low eight bits.
    pub fn subnet_from_addresses(infos: &Vec<AddrInfo>, ifname: &str) -> (r: Result<Ipv6Subnet, String>)
        ensures
            first_complete(infos@) is None ==> (r matches Err(e)
                && e@ == "No global IPv6 address found on interface "@ + ifname@),
            first_complete(infos@) matches Some(info) ==> ({
                let text = info.local->0@;
                let pfx = info.prefixlen->0 as u8;
                match ipv6_addr_syntax(text) {
                    None => r matches Err(e) && e@ == bad_address_message(text),
                    Some(a) => if pfx > 128 {
                        r matches Err(e) && e@ == "Invalid prefix length: "@ + decimal(pfx as nat)
                    } else {
                        r matches Ok(s) && s.address == a && s.prefix_length == pfx
                    },
                }
            }),
    {
        let n = infos.len();
        let mut i: usize = 0;
        assert(infos@.subrange(0, n as int) =~= infos@);
        while i < n
            invariant
                n == infos@.len(),
                i <= n,
                first_complete(infos@) == first_complete(infos@.subrange(i as int, n as int)),
            decreases n - i,
        {
            let ghost rest = infos@.subrange(i as int, n as int);
            assert(rest[0] == infos@[i as int]);
            assert(rest.drop_first() =~= infos@.subrange(i + 1, n as int));
            let info = &infos[i];
            match (&info.local, info.prefixlen) {
                (Some(ip_str), Some(pfx)) => {
                    let addr = match parse_ipv6_addr(ip_str.as_str()) {
                        Some(a) => a,
                        None => {
                            let e = String::from_str("Invalid IPv6 address '").concat(ip_str.as_str());
                            return Err(e.concat("': invalid IPv6 address syntax"));
                        },
                    };
                    return Ipv6Subnet::new(addr, pfx as u8);
                },
                _ => {},
            }
            i = i + 1;
        }
        Err(String::from_str("No global IPv6 address found on interface ").concat(ifname))
    }

    /// What the addresses `infos` show of the detection state of `target_ip`.
    pub fn observe_dad(infos: &Vec<AddrInfo>, target_ip: &str) -> (o: DadObservation)
        ensures
            o == dad_observation(infos@, target_ip@),
    {
        let mut found = false;
        let mut ready = false;
        let mut failed = false;
        let n = infos.len();
        let mut i: usize = 0;
        while i < n
            invariant
                n == infos@.len(),
                i <= n,
                found == exists|j: int| 0 <= j < i && local_text(#[trigger] infos@[j]) == target_ip@,
                ready == exists|j: int|
                    0 <= j < i && local_text(#[trigger] infos@[j]) == target_ip@ && !has_flag(infos@[j], "dadfailed"@)
                        && !has_flag(infos@[j], "tentative"@),
                failed == exists|j: int|
                    0 <= j < i && local_text(#[trigger] infos@[j]) == target_ip@ && has_flag(infos@[j], "dadfailed"@),
            decreases n - i,
        {
            let info = &infos[i];
            let local: &str = match &info.local {
                Some(l) => l.as_str(),
                None => "",
            };
            proof {
                reveal_strlit("");
            }
            assert(local@ == local_text(infos@[i as int]));
            if text_eq(local, target_ip) {
                found = true;
                if info_has_flag(info, "dadfailed") {
                    failed = true;
                } else if !info_has_flag(info, "tentative") {
                    ready = true;
                }
            }
            i = i + 1;
        }
        DadObservation { found, ready, failed }
    }

    /// The message of a wait that timed out after `elapsed_secs` seconds
    /// (already rendered) and `attempts` attempts.
    pub fn dad_timeout_message(target_ip: &str, interface: &str, elapsed_secs: &str, attempts: u64) -> (s: String)
        ensures
            s@ == "Timed out waiting for IPv6 DAD to complete for "@ + target_ip@ + " on interface "@ + interface@
                + " after "@ + elapsed_secs@ + "s ("@ + decimal(attempts as nat) + " attempts)"@,
    {
        let s = String::from_str("Timed out waiting for IPv6 DAD to complete for ").concat(target_ip);
        let s = s.concat(" on interface ").concat(interface).concat(" after ").concat(elapsed_secs);
        let s = s.concat("s (").concat(decimal_string(attempts).as_str()).concat(" attempts)");
        proof {
            assert(s@ =~= "Timed out waiting for IPv6 DAD to complete for "@ + target_ip@ + " on interface "@ + interface@
                + " after "@ + elapsed_secs@ + "s ("@ + decimal(attempts as nat) + " attempts)"@);
        }
        s
    }

    /// The message of a detection that found the address in use.
    pub fn dad_failed_message(target_ip: &str, interface: &str, elapsed_secs: &str) -> (s: String)
        ensures
            s@ == "IPv6 DAD failed for "@ + target_ip@ + " on interface "@ + interface@
                + " - duplicate address detected after "@ + elapsed_secs@ + "s"@,
    {
        let s = String::from_str("IPv6 DAD failed for ").concat(target_ip);
        let s = s.concat(" on interface ").concat(interface).concat(" - duplicate address detected after ");
        let s = s.concat(elapsed_secs).concat("s");
        proof {
            assert(s@ =~= "IPv6 DAD failed for "@ + target_ip@ + " on interface "@ + interface@
                + " - duplicate address detected after "@ + elapsed_secs@ + "s"@);
        }
        s
    }

    /// The message of a query of the detection state that failed.
    pub fn dad_query_failed_message(target_ip: &str, interface: &str, error: &str) -> (s: String)
        ensures
            s@ == "Failed to query IPv6 address state for "@ + target_ip@ + " on interface "@ + interface@ + ": "@
                + error@,
    {
        let s = String::from_str("Failed to query IPv6 address state for ").concat(target_ip);
        let s = s.concat(" on interface ").concat(interface).concat(": ").concat(error);
        proof {
            assert(s@ =~= "Failed to query IPv6 address state for "@ + target_ip@ + " on interface "@ + interface@
                + ": "@ + error@);
        }
        s
    }

    /// The commands that configure an interface inside a namespace, after
    /// validating the path, both names, the address and the gateway.
    pub fn configure_in_netns_plan(
        netns_path: &str,
        temp_ifname: &str,
        target_ifname: &str,
        ip_cidr: &str,
        gateway: Option<u128>,
    ) -> (r: Result<NetnsConfigurationPlan, String>)
        ensures
            configure_problem(netns_path, temp_ifname, target_ifname, ip_cidr, gateway) matches Some(m) ==> (r matches Err(
                e,
            ) && e@ == m),
            configure_problem(netns_path, temp_ifname, target_ifname, ip_cidr, gateway) is None ==> (r matches Ok(plan) && {
                &&& step_texts(plan.steps@) == configure_steps(netns_path@, temp_ifname@, target_ifname@, ip_cidr@)
                &&& match gateway {
                    Some(g) => plan.gateway_route matches Some(v) && string_texts(v@) == gateway_step(
                        netns_path@,
                        g,
                        target_ifname@,
                    ),
                    None => plan.gateway_route is None,
                }
                &&& plan.target_ip@ == before_slash(ip_cidr@)
            }),
    {
        match Self::validate_netns_path(netns_path) {
            Ok(()) => {},
            Err(e) => {
                return Err(e);
            },
        }
        match Self::validate_interface_name(temp_ifname) {
            Ok(()) => {},
            Err(e) => {
                return Err(e);
            },
        }
        match Self::validate_interface_name(target_ifname) {
            Ok(()) => {},
            Err(e) => {
                return Err(e);
            },
        }
        match Self::validate_ip_cidr(ip_cidr) {
            Ok(()) => {},
            Err(e) => {
                return Err(e);
            },
        }
        match gateway {
            Some(gw) => match Self::validate_ipv6_address(gw) {
                Ok(()) => {},
                Err(e) => {
                    return Err(e);
                },
            },
            None => {},
        }
        let ghost expected = configure_steps(netns_path@, temp_ifname@, target_ifname@, ip_cidr@);
        let mut steps: Vec<Vec<String>> = Vec::new();
        let rename = ["ip", "link", "set", "dev", temp_ifname, "name", target_ifname];
        assert(str_texts(rename@) =~= seq!["ip"@, "link"@, "set"@, "dev"@, temp_ifname@, "name"@, target_ifname@]);
        steps.push(ns_args(netns_path, &rename));
        let add = ["ip", "addr", "add", ip_cidr, "dev", target_ifname];
        assert(str_texts(add@) =~= seq!["ip"@, "addr"@, "add"@, ip_cidr@, "dev"@, target_ifname@]);
        steps.push(ns_args(netns_path, &add));
        let up = ["ip", "link", "set", "up", "dev", target_ifname];
        assert(str_texts(up@) =~= seq!["ip"@, "link"@, "set"@, "up"@, "dev"@, target_ifname@]);
        steps.push(ns_args(netns_path, &up));
        let sysctl_key = String::from_str("net.ipv6.conf.").concat(target_ifname).concat(".accept_ra=2");
        let sysctl = ["sysctl", "-w", sysctl_key.as_str()];
        assert(str_texts(sysctl@) =~= seq!["sysctl"@, "-w"@, "net.ipv6.conf."@ + target_ifname@ + ".accept_ra=2"@]);
        steps.push(ns_args(netns_path, &sysctl));
        assert(step_texts(steps@) =~= expected);
        let gateway_route = match gateway {
            Some(gw) => {
                let gw_str = ipv6_string(gw);
                let route = ["ip", "-6", "route", "add", "default", "via", gw_str.as_str(), "dev", target_ifname];
                assert(str_texts(route@) =~= seq![
                    "ip"@, "-6"@, "route"@, "add"@, "default"@, "via"@, ipv6_text(gw), "dev"@, target_ifname@,
                ]);
                Some(ns_args(netns_path, &route))
            },
            None => None,
        };
        let target_ip = String::from_str(address_part(ip_cidr));
        Ok(NetnsConfigurationPlan { steps, gateway_route, target_ip })
    }

    /// Validate mode parameter for ipvlan creation
    pub fn validate_ipvlan_mode(mode: &str) -> (r: Result<(), String>)
        ensures
            is_ipvlan_mode(mode@) ==> r is Ok,
            !is_ipvlan_mode(mode@) ==> (r matches Err(e) && e@ == "Invalid ipvlan mode: "@ + mode@),
    {
        if text_eq(mode, "l2") || text_eq(mode, "l3") || text_eq(mode, "l3s") {
            Ok(())
        } else {
            Err(String::from_str("Invalid ipvlan mode: ").concat(mode))
        }
    }
}

} // verus!
