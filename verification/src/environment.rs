//! Environment variables: the provider abstraction, an in-memory provider,
//! and the CNI environment read from it.

use vstd::prelude::*;

use crate::driver_script::{
    interface_name_pattern, interface_name_problem, matches_netns_pattern, netns_path_problem, regex_matches,
    ScriptDriver,
};
use crate::error::{environment_error_text, EnvironmentError};
use crate::text::{text_eq, utf8_len};

verus! {

/// A finite map from variable names to values, kept as a list of entries
/// in insertion order with no name twice.
#[derive(Debug)]
pub struct EnvVars {
    entries: Vec<(String, String)>,
}

/// The names of a list of entries, in order.
pub open spec fn entry_keys(entries: Seq<(String, String)>) -> Seq<Seq<char>> {
    entries.map_values(|e: (String, String)| e.0@)
}

/// Within a list of entries with distinct names, the position of a name is unique.
proof fn lemma_index_of_unique(keys: Seq<Seq<char>>, k: Seq<char>, i: int)
    requires
        keys.no_duplicates(),
        0 <= i < keys.len(),
        keys[i] == k,
    ensures
        keys.index_of(k) == i,
{
    assert(keys.contains(k));
    let j = keys.index_of(k);
    assert(0 <= j < keys.len() && keys[j] == k);
}

impl EnvVars {
    #[verifier::type_invariant]
    spec fn names_distinct(&self) -> bool {
        entry_keys(self.entries@).no_duplicates()
    }

    /// The names held, in insertion order.
    pub closed spec fn keys(&self) -> Seq<Seq<char>> {
        entry_keys(self.entries@)
    }

    /// The value of the entry for name `k`.
    closed spec fn value_of(&self, k: Seq<char>) -> Seq<char> {
        self.entries@[self.keys().index_of(k)].1@
    }

    /// The variables as a map from names to values.
    pub closed spec fn view(&self) -> Map<Seq<char>, Seq<char>> {
        Map::new(|k: Seq<char>| self.keys().contains(k), |k: Seq<char>| self.value_of(k))
    }

    /// An empty map.
    pub fn new() -> (m: Self)
        ensures
            m@ == Map::<Seq<char>, Seq<char>>::empty(),
    {
        let m = EnvVars { entries: Vec::new() };
        assert(m@ =~= Map::<Seq<char>, Seq<char>>::empty());
        m
    }

    /// The position of `key`, if it is held.
    fn find(&self, key: &str) -> (r: Option<usize>)
        ensures
            r matches Some(i) ==> i < self.entries@.len() && self.keys()[i as int] == key@,
            r is None ==> !self.keys().contains(key@),
    {
        let n = self.entries.len();
        let mut i: usize = 0;
        while i < n
            invariant
                n == self.entries@.len(),
                i <= n,
                forall|j: int| 0 <= j < i ==> self.keys()[j] != key@,
            decreases n - i,
        {
            if text_eq(self.entries[i].0.as_str(), key) {
                return Some(i);
            }
            i = i + 1;
        }
        None
    }

    /// The value held for `key`.
    pub fn get(&self, key: &str) -> (r: Option<String>)
        ensures
            r is Some == self@.contains_key(key@),
            r matches Some(v) ==> v@ == self@[key@],
    {
        proof {
            use_type_invariant(self);
        }
        match self.find(key) {
            Some(i) => {
                proof {
                    lemma_index_of_unique(self.keys(), key@, i as int);
                }
                Some(self.entries[i].1.clone())
            },
            None => None,
        }
    }

    /// The number of variables held.
    pub fn len(&self) -> (n: usize)
        ensures
            n == self@.len(),
            self@.dom().finite(),
    {
        proof {
            use_type_invariant(self);
            self.keys().unique_seq_to_set();
            assert(self@.dom() =~= self.keys().to_set());
        }
        self.entries.len()
    }

    /// Sets `key` to `value`, replacing an earlier value.
    pub fn insert(&mut self, key: &str, value: &str)
        ensures
            final(self)@ == old(self)@.insert(key@, value@),
    {
        proof {
            use_type_invariant(&*self);
        }
        let ghost pre = *self;
        let entry = (String::from_str(key), String::from_str(value));
        match self.find(key) {
            Some(i) => {
                let mut entries = Vec::new();
                std::mem::swap(&mut entries, &mut self.entries);
                entries.set(i, entry);
                proof {
                    assert(entry_keys(entries@) =~= pre.keys());
                }
                self.entries = entries;
                proof {
                    assert(self.keys() =~= pre.keys());
                    assert forall|k: Seq<char>| #[trigger] self.keys().contains(k) implies self.value_of(k)
                        == pre@.insert(key@, value@)[k] by {
                        let j = self.keys().index_of(k);
                        lemma_index_of_unique(self.keys(), k, j);
                        if k == key@ {
                            lemma_index_of_unique(self.keys(), k, i as int);
                        } else {
                            lemma_index_of_unique(pre.keys(), k, j);
                        }
                    }
                    assert(self@ =~= pre@.insert(key@, value@));
                }
            },
            None => {
                let mut entries = Vec::new();
                std::mem::swap(&mut entries, &mut self.entries);
                entries.push(entry);
                proof {
                    assert(entry_keys(entries@) =~= pre.keys().push(key@));
                }
                self.entries = entries;
                proof {
                    assert(self.keys() =~= pre.keys().push(key@));
                    assert forall|k: Seq<char>| #[trigger] self.keys().contains(k) == (pre.keys().contains(k) || k == key@) by {
                        if pre.keys().contains(k) {
                            let j = pre.keys().index_of(k);
                            assert(self.keys()[j] == k);
                        }
                        if k == key@ {
                            assert(self.keys()[pre.keys().len() as int] == k);
                        }
                        if self.keys().contains(k) {
                            let j = self.keys().index_of(k);
                            if j < pre.keys().len() {
                                assert(pre.keys()[j] == k);
                            }
                        }
                    }
                    assert forall|k: Seq<char>| #[trigger] self.keys().contains(k) implies self.value_of(k)
                        == pre@.insert(key@, value@)[k] by {
                        let n = pre.keys().len();
                        if k == key@ {
                            lemma_index_of_unique(self.keys(), k, n as int);
                        } else {
                            let j = pre.keys().index_of(k);
                            assert(self.keys()[self.keys().index_of(k)] == k);
                            lemma_index_of_unique(pre.keys(), k, j);
                            lemma_index_of_unique(self.keys(), k, j);
                        }
                    }
                    assert(self@ =~= pre@.insert(key@, value@));
                }
            },
        }
    }

    /// Removes `key`, if it is held.
    pub fn remove(&mut self, key: &str)
        ensures
            final(self)@ == old(self)@.remove(key@),
    {
        proof {
            use_type_invariant(&*self);
        }
        let ghost pre = *self;
        match self.find(key) {
            Some(i) => {
                let mut entries = Vec::new();
                std::mem::swap(&mut entries, &mut self.entries);
                entries.remove(i);
                proof {
                    assert(entry_keys(entries@) =~= pre.keys().remove(i as int));
                }
                self.entries = entries;
                proof {
                    assert(self.keys() =~= pre.keys().remove(i as int));
                    assert forall|k: Seq<char>| #[trigger] self.keys().contains(k) implies k != key@
                        && pre.keys().contains(k) && self.value_of(k) == pre.value_of(k) by {
                        let j = self.keys().index_of(k);
                        let pj = if j < i { j } else { j + 1 };
                        assert(pre.keys()[pj] == k);
                        lemma_index_of_unique(pre.keys(), k, pj);
                        lemma_index_of_unique(pre.keys(), key@, i as int);
                    }
                    assert forall|k: Seq<char>| pre.keys().contains(k) && k != key@ implies #[trigger] self.keys().contains(k) by {
                        let pj = pre.keys().index_of(k);
                        lemma_index_of_unique(pre.keys(), key@, i as int);
                        let j = if pj < i { pj } else { pj - 1 };
                        assert(self.keys()[j] == k);
                    }
                    assert(self@ =~= pre@.remove(key@));
                }
            },
            None => {
                assert(self@ =~= pre@.remove(key@));
            },
        }
    }

    /// Removes every variable.
    pub fn clear(&mut self)
        ensures
            final(self)@ == Map::<Seq<char>, Seq<char>>::empty(),
    {
        self.entries = Vec::new();
        assert(self@ =~= Map::<Seq<char>, Seq<char>>::empty());
    }
}

/// `Some` of the value of `k` in `vars`, `None` where it is unset.
pub open spec fn lookup(vars: Map<Seq<char>, Seq<char>>, k: Seq<char>) -> Option<Seq<char>> {
    if vars.contains_key(k) {
        Some(vars[k])
    } else {
        None
    }
}

/// The text of an optional string.
pub open spec fn opt_text(o: Option<String>) -> Option<Seq<char>> {
    match o {
        Some(s) => Some(s@),
        None => None,
    }
}

/// The error text for a variable that is required but unset.
pub open spec fn not_set_message(key: Seq<char>) -> Seq<char> {
    key + " not set"@
}

/// The map of the variables `keys` names, each with its value in `vars`.
pub open spec fn selected(vars: Map<Seq<char>, Seq<char>>, keys: Seq<&str>) -> Map<Seq<char>, Seq<char>> {
    Map::new(
        |k: Seq<char>| exists|i: int| 0 <= i < keys.len() && #[trigger] keys[i]@ == k,
        |k: Seq<char>| vars[k],
    )
}

/// Trait for abstracting environment variable access
pub trait EnvironmentProvider {
    /// The variables the provider holds.
    spec fn vars(&self) -> Map<Seq<char>, Seq<char>>;

    /// Get an environment variable value
    fn get(&self, key: &str) -> (r: Option<String>)
        ensures
            r is Some == self.vars().contains_key(key@),
            r matches Some(v) ==> v@ == self.vars()[key@],
    ;

    /// Get an environment variable, returning an error if not set
    fn get_required(&self, key: &str) -> (r: Result<String, String>)
        ensures
            self.vars().contains_key(key@) ==> (r matches Ok(v) && v@ == self.vars()[key@]),
            !self.vars().contains_key(key@) ==> (r matches Err(e) && e@ == not_set_message(key@)),
    {
        match self.get(key) {
            Some(v) => Ok(v),
            None => Err(String::from_str(key).concat(" not set")),
        }
    }

    /// Check if an environment variable exists (regardless of value)
    fn is_set(&self, key: &str) -> (r: bool)
        ensures
            r == self.vars().contains_key(key@),
    {
        self.get(key).is_some()
    }

    /// Get multiple required environment variables at once
    fn get_required_multiple(&self, keys: &[&str]) -> (r: Result<EnvVars, String>)
        ensures
            (forall|i: int| 0 <= i < keys@.len() ==> self.vars().contains_key(#[trigger] keys@[i]@))
                ==> (r matches Ok(m) && m@ == selected(self.vars(), keys@)),
            r matches Err(e) ==> exists|i: int|
                0 <= i < keys@.len() && !self.vars().contains_key(#[trigger] keys@[i]@)
                && (forall|j: int| 0 <= j < i ==> self.vars().contains_key(#[trigger] keys@[j]@))
                && e@ == not_set_message(keys@[i]@),
    {
        let mut result = EnvVars::new();
        let n = keys.len();
        let mut i: usize = 0;
        while i < n
            invariant
                n == keys@.len(),
                i <= n,
                forall|j: int| 0 <= j < i ==> self.vars().contains_key(#[trigger] keys@[j]@),
                result@ == selected(self.vars(), keys@.subrange(0, i as int)),
            decreases n - i,
        {
            let key = keys[i];
            let value = match self.get_required(key) {
                Ok(v) => v,
                Err(e) => {
                    return Err(e);
                },
            };
            let ghost before = result@;
            result.insert(key, value.as_str());
            proof {
                assert(result@ =~= selected(self.vars(), keys@.subrange(0, i + 1))) by {
                    let sub = keys@.subrange(0, i + 1);
                    assert forall|k: Seq<char>| result@.contains_key(k) == selected(self.vars(), sub).contains_key(k) by {
                        if result@.contains_key(k) && k != key@ {
                            let j = choose|j: int| 0 <= j < i && #[trigger] keys@.subrange(0, i as int)[j]@ == k;
                            assert(sub[j]@ == k);
                        }
                        if k == key@ {
                            assert(sub[i as int]@ == k);
                        }
                        if selected(self.vars(), sub).contains_key(k) {
                            let j = choose|j: int| 0 <= j < i + 1 && #[trigger] sub[j]@ == k;
                            if j < i {
                                assert(keys@.subrange(0, i as int)[j]@ == k);
                            }
                        }
                    }
                }
            }
            i = i + 1;
        }
        proof {
            assert(keys@.subrange(0, n as int) =~= keys@);
        }
        Ok(result)
    }
}

/// The map `m` with each pair of `pairs` set in turn.
pub open spec fn set_all(m: Map<Seq<char>, Seq<char>>, pairs: Seq<(&str, &str)>) -> Map<Seq<char>, Seq<char>>
    decreases pairs.len(),
{
    if pairs.len() == 0 {
        m
    } else {
        set_all(m, pairs.drop_last()).insert(pairs.last().0@, pairs.last().1@)
    }
}

/// The environment of the process, as the program read it when it started.
#[derive(Debug)]
pub struct SystemEnvironmentProvider {
    variables: EnvVars,
}

impl SystemEnvironmentProvider {
    /// The provider of the variables `variables` of the process.
    pub fn from_vars(variables: EnvVars) -> (p: Self)
        ensures
            p.vars() == variables@,
    {
        Self { variables }
    }
}

impl EnvironmentProvider for SystemEnvironmentProvider {
    closed spec fn vars(&self) -> Map<Seq<char>, Seq<char>> {
        self.variables@
    }

    fn get(&self, key: &str) -> (r: Option<String>) {
        self.variables.get(key)
    }
}

/// Mock implementation for testing
#[derive(Debug)]
pub struct MockEnvironmentProvider {
    variables: EnvVars,
}

impl MockEnvironmentProvider {
    /// Create a new mock environment provider
    pub fn new() -> (m: Self)
        ensures
            m.vars() == Map::<Seq<char>, Seq<char>>::empty(),
    {
        Self { variables: EnvVars::new() }
    }

    /// Set an environment variable for testing
    pub fn set(&mut self, key: &str, value: &str) -> (r: &mut Self)
        ensures
            r.vars() == old(self).vars().insert(key@, value@),
            *final(self) == *final(r),
    {
        self.variables.insert(key, value);
        self
    }

    /// Set multiple environment variables at once
    pub fn set_multiple<const N: usize>(&mut self, vars: [(&str, &str); N]) -> (r: &mut Self)
        ensures
            r.vars() == set_all(old(self).vars(), vars@),
            *final(self) == *final(r),
    {
        let mut i: usize = 0;
        while i < N
            invariant
                i <= N,
                vars@.len() == N,
                self.vars() == set_all(old(self).vars(), vars@.subrange(0, i as int)),
            decreases N - i,
        {
            let (key, value) = vars[i];
            self.variables.insert(key, value);
            proof {
                assert(vars@.subrange(0, i + 1).drop_last() =~= vars@.subrange(0, i as int));
            }
            i = i + 1;
        }
        proof {
            assert(vars@.subrange(0, N as int) =~= vars@);
        }
        self
    }

    /// Remove an environment variable
    pub fn unset(&mut self, key: &str) -> (r: &mut Self)
        ensures
            r.vars() == old(self).vars().remove(key@),
            *final(self) == *final(r),
    {
        self.variables.remove(key);
        self
    }

    /// Clear all environment variables
    pub fn clear(&mut self) -> (r: &mut Self)
        ensures
            r.vars() == Map::<Seq<char>, Seq<char>>::empty(),
            *final(self) == *final(r),
    {
        self.variables.clear();
        self
    }
}

impl Default for MockEnvironmentProvider {
    fn default() -> (m: Self)
        ensures
            m.vars() == Map::<Seq<char>, Seq<char>>::empty(),
    {
        Self::new()
    }
}

impl EnvironmentProvider for MockEnvironmentProvider {
    closed spec fn vars(&self) -> Map<Seq<char>, Seq<char>> {
        self.variables@
    }

    fn get(&self, key: &str) -> (r: Option<String>) {
        self.variables.get(key)
    }
}

fn missing_variable(variable: &str, command: &str) -> (e: EnvironmentError)
    ensures
        environment_error_text(e) == missing_text(variable@, command@),
{
    EnvironmentError::MissingVariable { variable: String::from_str(variable), command: String::from_str(command) }
}

fn invalid_value(name: &str, value: &str, expected: &str) -> (e: EnvironmentError)
    ensures
        environment_error_text(e) == invalid_text(name@, value@, expected@),
{
    EnvironmentError::InvalidValue {
        name: String::from_str(name),
        value: String::from_str(value),
        expected: String::from_str(expected),
    }
}

/// What a network namespace path was expected to be, where it is refused.
fn netns_value_check(p: &str) -> (r: Option<&'static str>)
    ensures
        match netns_value_problem(p@) {
            Some(x) => r matches Some(s) && s@ == x,
            None => r is None,
        },
{
    proof {
        reveal_strlit("a path of the form /proc/<pid>/ns/net, /proc/self/ns/net, /var/run/netns/<name> or /run/netns/<name>");
    }
    match ScriptDriver::validate_netns_path(p) {
        Ok(()) => None,
        Err(_) => Some("a path of the form /proc/<pid>/ns/net, /proc/self/ns/net, /var/run/netns/<name> or /run/netns/<name>"),
    }
}

/// What an interface name was expected to be, where it is refused.
fn ifname_value_check(n: &str) -> (r: Option<&'static str>)
    ensures
        match ifname_value_problem(n@) {
            Some(x) => r matches Some(s) && s@ == x,
            None => r is None,
        },
{
    match ScriptDriver::validate_interface_name(n) {
        Ok(()) => None,
        Err(_) => {
            if n.unicode_len() == 0 {
                Some("a non-empty interface name")
            } else if n.len() > 15 {
                Some("an interface name of maximum 15 characters")
            } else if n.get_char(0) == '.' {
                Some("an interface name that does not start with a dot")
            } else {
                Some("an interface name of letters, digits, '.', '_' and '-'")
            }
        },
    }
}

fn id_char(c: char) -> (r: bool)
    ensures
        r == is_id_char(c),
{
    ('a' <= c && c <= 'z') || ('A' <= c && c <= 'Z') || ('0' <= c && c <= '9') || c == '.' || c == '_' || c == '-'
}

/// What a container id was expected to be, where it is refused.
fn container_id_value_check(c: &str) -> (r: Option<&'static str>)
    ensures
        match container_id_value_problem(c@) {
            Some(x) => r matches Some(s) && s@ == x,
            None => r is None,
        },
{
    let n = c.unicode_len();
    if n == 0 {
        return Some("a non-empty container id");
    }
    if n > 64 {
        return Some("a container id of maximum 64 characters");
    }
    let mut i: usize = 0;
    while i < n
        invariant
            n == c@.len(),
            0 < n <= 64,
            i <= n,
            forall|j: int| 0 <= j < i ==> is_id_char(#[trigger] c@[j]),
        decreases n - i,
    {
        if !id_char(c.get_char(i)) {
            assert(!is_id_char(c@[i as int]));
            return Some("a container id of letters, digits, '.', '_' and '-'");
        }
        i = i + 1;
    }
    None
}

/// CNI-specific environment variables container
#[derive(Debug)]
pub struct CniEnvironment {
    pub command: String,
    pub netns: Option<String>,
    pub ifname: Option<String>,
    pub container_id: Option<String>,
    pub path: Option<String>,
}

/// The commands that need a network namespace and an interface name.
pub open spec fn is_attach_command(cmd: Seq<char>) -> bool {
    cmd == "ADD"@ || cmd == "DEL"@ || cmd == "CHECK"@
}

/// The commands that need no further variables.
pub open spec fn is_plain_command(cmd: Seq<char>) -> bool {
    cmd == "VERSION"@ || cmd == "STATUS"@ || cmd == "GC"@
}

/// The message of a variable that `command` needs and that is not set.
pub open spec fn missing_text(variable: Seq<char>, command: Seq<char>) -> Seq<char> {
    "Environment variable '"@ + variable + "' required for command '"@ + command + "' is not set"@
}

/// The message of a variable whose value is refused.
pub open spec fn invalid_text(name: Seq<char>, value: Seq<char>, expected: Seq<char>) -> Seq<char> {
    "Environment variable '"@ + name + "' has invalid value '"@ + value + "', expected: "@ + expected
}

/// What a valid network namespace path looks like.
pub open spec fn netns_expectation() -> Seq<char> {
    "a path of the form /proc/<pid>/ns/net, /proc/self/ns/net, /var/run/netns/<name> or /run/netns/<name>"@
}

/// What is wrong with a network namespace path, as what was expected instead.
pub open spec fn netns_value_problem(p: Seq<char>) -> Option<Seq<char>> {
    if netns_path_problem(p, utf8_len(p), matches_netns_pattern(p)) is Some {
        Some(netns_expectation())
    } else {
        None
    }
}

/// What is wrong with an interface name, as what was expected instead.
pub open spec fn ifname_value_problem(n: Seq<char>) -> Option<Seq<char>> {
    if interface_name_problem(n, utf8_len(n), regex_matches(interface_name_pattern(), n)) is None {
        None
    } else if n.len() == 0 {
        Some("a non-empty interface name"@)
    } else if utf8_len(n) > 15 {
        Some("an interface name of maximum 15 characters"@)
    } else if n[0] == '.' {
        Some("an interface name that does not start with a dot"@)
    } else {
        Some("an interface name of letters, digits, '.', '_' and '-'"@)
    }
}

/// A character a container id may hold: an ASCII letter or digit, `.`, `_` or `-`.
pub open spec fn is_id_char(c: char) -> bool {
    ('a' <= c && c <= 'z') || ('A' <= c && c <= 'Z') || ('0' <= c && c <= '9') || c == '.' || c == '_' || c == '-'
}

/// What is wrong with a container id, as what was expected instead.
pub open spec fn container_id_value_problem(c: Seq<char>) -> Option<Seq<char>> {
    if c.len() == 0 {
        Some("a non-empty container id"@)
    } else if c.len() > 64 {
        Some("a container id of maximum 64 characters"@)
    } else if exists|i: int| 0 <= i < c.len() && !is_id_char(#[trigger] c[i]) {
        Some("a container id of letters, digits, '.', '_' and '-'"@)
    } else {
        None
    }
}

/// What the command `cmd` is expected to be.
pub open spec fn command_expectation() -> Seq<char> {
    "one of ADD, DEL, CHECK, GC, VERSION, STATUS"@
}

/// What is missing or wrong in an environment with command `cmd` and the
/// given variables, as the error text; `None` where nothing is. Missing
/// variables are reported first, then refused values in the order
/// namespace, interface name, container id.
pub open spec fn environment_problem(
    cmd: Seq<char>,
    netns: Option<Seq<char>>,
    ifname: Option<Seq<char>>,
    container_id: Option<Seq<char>>,
) -> Option<Seq<char>> {
    if is_attach_command(cmd) {
        if netns is None {
            Some(missing_text("CNI_NETNS"@, cmd))
        } else if ifname is None {
            Some(missing_text("CNI_IFNAME"@, cmd))
        } else if container_id is None && (cmd == "DEL"@ || cmd == "CHECK"@) {
            Some(missing_text("CNI_CONTAINERID"@, cmd))
        } else if netns_value_problem(netns->0) is Some {
            Some(invalid_text("CNI_NETNS"@, netns->0, netns_value_problem(netns->0)->0))
        } else if ifname_value_problem(ifname->0) is Some {
            Some(invalid_text("CNI_IFNAME"@, ifname->0, ifname_value_problem(ifname->0)->0))
        } else if container_id is Some && container_id_value_problem(container_id->0) is Some {
            Some(invalid_text("CNI_CONTAINERID"@, container_id->0, container_id_value_problem(container_id->0)->0))
        } else {
            None
        }
    } else if is_plain_command(cmd) {
        None
    } else {
        Some(invalid_text("CNI_COMMAND"@, cmd, command_expectation()))
    }
}

/// The command an environment with variables `vars` names: `VERSION` where none is set.
pub open spec fn command_of(vars: Map<Seq<char>, Seq<char>>) -> Seq<char> {
    if vars.contains_key("CNI_COMMAND"@) {
        vars["CNI_COMMAND"@]
    } else {
        "VERSION"@
    }
}

/// `env` holds what the variables `vars` say.
pub open spec fn loaded_from(env: CniEnvironment, vars: Map<Seq<char>, Seq<char>>) -> bool {
    &&& env.command@ == command_of(vars)
    &&& opt_text(env.netns) == lookup(vars, "CNI_NETNS"@)
    &&& opt_text(env.ifname) == lookup(vars, "CNI_IFNAME"@)
    &&& opt_text(env.container_id) == lookup(vars, "CNI_CONTAINERID"@)
    &&& opt_text(env.path) == lookup(vars, "CNI_PATH"@)
}

/// The problem of the environment that variables `vars` give.
pub open spec fn vars_problem(vars: Map<Seq<char>, Seq<char>>) -> Option<Seq<char>> {
    environment_problem(
        command_of(vars),
        lookup(vars, "CNI_NETNS"@),
        lookup(vars, "CNI_IFNAME"@),
        lookup(vars, "CNI_CONTAINERID"@),
    )
}

impl CniEnvironment {
    /// The problem `validate_for_command` reports for this environment.
    pub open spec fn problem(&self) -> Option<Seq<char>> {
        environment_problem(
            self.command@,
            opt_text(self.netns),
            opt_text(self.ifname),
            opt_text(self.container_id),
        )
    }

    /// Load CNI environment from an environment provider
    pub fn load<E: EnvironmentProvider>(env: &E) -> (r: Self)
        ensures
            loaded_from(r, env.vars()),
            r.problem() == vars_problem(env.vars()),
    {
        let command = match env.get("CNI_COMMAND") {
            Some(c) => c,
            None => String::from_str("VERSION"),
        };
        Self {
            command,
            netns: env.get("CNI_NETNS"),
            ifname: env.get("CNI_IFNAME"),
            container_id: env.get("CNI_CONTAINERID"),
            path: env.get("CNI_PATH"),
        }
    }

    /// Validate that all required environment variables are present for a
    /// given command and that their values are well formed.
    pub fn validate_for_command(&self) -> (r: Result<(), EnvironmentError>)
        ensures
            self.problem() is None ==> r is Ok,
            self.problem() matches Some(m) ==> (r matches Err(e) && environment_error_text(e) == m),
    {
        let cmd = self.command.as_str();
        let is_del = text_eq(cmd, "DEL");
        let is_check = text_eq(cmd, "CHECK");
        if text_eq(cmd, "ADD") || is_del || is_check {
            let netns = match &self.netns {
                Some(v) => v.as_str(),
                None => {
                    return Err(missing_variable("CNI_NETNS", cmd));
                },
            };
            let ifname = match &self.ifname {
                Some(v) => v.as_str(),
                None => {
                    return Err(missing_variable("CNI_IFNAME", cmd));
                },
            };
            if self.container_id.is_none() && (is_del || is_check) {
                return Err(missing_variable("CNI_CONTAINERID", cmd));
            }
            match netns_value_check(netns) {
                Some(expected) => {
                    return Err(invalid_value("CNI_NETNS", netns, expected));
                },
                None => {},
            }
            match ifname_value_check(ifname) {
                Some(expected) => {
                    return Err(invalid_value("CNI_IFNAME", ifname, expected));
                },
                None => {},
            }
            match &self.container_id {
                Some(c) => match container_id_value_check(c.as_str()) {
                    Some(expected) => {
                        return Err(invalid_value("CNI_CONTAINERID", c.as_str(), expected));
                    },
                    None => {},
                },
                None => {},
            }
        } else if text_eq(cmd, "VERSION") || text_eq(cmd, "STATUS") || text_eq(cmd, "GC") {
        } else {
            return Err(invalid_value("CNI_COMMAND", cmd, "one of ADD, DEL, CHECK, GC, VERSION, STATUS"));
        }
        Ok(())
    }

    /// Get the network namespace path, returning an error if not set
    pub fn get_netns(&self) -> (r: Result<&str, String>)
        ensures
            self.netns matches Some(v) ==> (r matches Ok(s) && s@ == v@),
            self.netns is None ==> (r matches Err(e) && e@ == "CNI_NETNS not set"@),
    {
        match &self.netns {
            Some(v) => Ok(v.as_str()),
            None => Err(String::from_str("CNI_NETNS not set")),
        }
    }

    /// Get the interface name, returning an error if not set
    pub fn get_ifname(&self) -> (r: Result<&str, String>)
        ensures
            self.ifname matches Some(v) ==> (r matches Ok(s) && s@ == v@),
            self.ifname is None ==> (r matches Err(e) && e@ == "CNI_IFNAME not set"@),
    {
        match &self.ifname {
            Some(v) => Ok(v.as_str()),
            None => Err(String::from_str("CNI_IFNAME not set")),
        }
    }

    /// Get the container ID, returning an error if not set
    pub fn get_container_id(&self) -> (r: Result<&str, String>)
        ensures
            self.container_id matches Some(v) ==> (r matches Ok(s) && s@ == v@),
            self.container_id is None ==> (r matches Err(e) && e@ == "CNI_CONTAINERID not set"@),
    {
        match &self.container_id {
            Some(v) => Ok(v.as_str()),
            None => Err(String::from_str("CNI_CONTAINERID not set")),
        }
    }
}

impl Clone for CniEnvironment {
    fn clone(&self) -> (r: Self)
        ensures
            r == *self,
    {
        CniEnvironment {
            command: self.command.clone(),
            netns: self.netns.clone(),
            ifname: self.ifname.clone(),
            container_id: self.container_id.clone(),
            path: self.path.clone(),
        }
    }
}

/// What a read gives back after a write: after `set(key, value)` the key
/// reads `value` and every other key reads as before; after `unset(key)`
/// the key reads nothing and every other key reads as before.
pub proof fn lemma_read_after_write(
    vars: Map<Seq<char>, Seq<char>>,
    key: Seq<char>,
    value: Seq<char>,
    other: Seq<char>,
)
    ensures
        lookup(vars.insert(key, value), key) == Some(value),
        other != key ==> lookup(vars.insert(key, value), other) == lookup(vars, other),
        lookup(vars.remove(key), key) is None,
        other != key ==> lookup(vars.remove(key), other) == lookup(vars, other),
{
}

} // verus!
