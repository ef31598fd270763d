//! The JSON that `ip -j` prints: a JSON array read with serde_json, the
//! members that the driver looks at, and the routes and addresses it holds.

use vstd::prelude::*;

use crate::driver_script::{AddrInfo, RouteEntry};
use crate::environment::opt_text;

verus! {

#[verifier::external_type_specification]
#[verifier::external_body]
pub struct ExJsonValue(serde_json::Value);

/// A JSON value.
#[derive(Debug)]
pub enum JsonValue {
    Null,
    Bool(bool),
    /// A number, with its value where it is an integer that fits in `u64`.
    Number(Option<u64>),
    Str(String),
    Array(Vec<JsonValue>),
    /// The members of an object, each key once.
    Object(Vec<(String, JsonValue)>),
}

/// What serde_json makes of `text` read as a JSON array: its elements, or
/// the text of its error.
pub uninterp spec fn json_array_of(text: Seq<char>) -> Result<Seq<JsonValue>, Seq<char>>;

/// Reads `text` with `serde_json::from_str` as a `Vec<serde_json::Value>`.
/// Trusted: the elements, converted one for one, or the error's text, are
/// named `json_array_of`.
#[verifier::external_body]
pub fn parse_json_array(text: &str) -> (r: Result<Vec<JsonValue>, String>)
    ensures
        match r {
            Ok(v) => json_array_of(text@) == Ok::<Seq<JsonValue>, Seq<char>>(v@),
            Err(e) => json_array_of(text@) == Err::<Seq<JsonValue>, Seq<char>>(e@),
        },
{
    match serde_json::from_str::<Vec<serde_json::Value>>(text) {
        Ok(values) => Ok(values.iter().map(json_value).collect()),
        Err(e) => Err(e.to_string()),
    }
}

/// The conversion of one `serde_json::Value` for `parse_json_array`, whose
/// contract covers it: each variant to its own, a number by `as_u64`, an
/// object's members in the map's order.
#[verifier::external_body]
fn json_value(v: &serde_json::Value) -> JsonValue {
    match v {
        serde_json::Value::Null => JsonValue::Null,
        serde_json::Value::Bool(b) => JsonValue::Bool(*b),
        serde_json::Value::Number(n) => JsonValue::Number(n.as_u64()),
        serde_json::Value::String(s) => JsonValue::Str(s.clone()),
        serde_json::Value::Array(items) => JsonValue::Array(items.iter().map(json_value).collect()),
        serde_json::Value::Object(members) => JsonValue::Object(
            members.iter().map(|(k, x)| (k.clone(), json_value(x))).collect(),
        ),
    }
}

/// The index of the first member of `pairs` named `key`.
pub open spec fn is_first_key(pairs: Seq<(String, JsonValue)>, key: Seq<char>, i: int) -> bool {
    &&& 0 <= i < pairs.len()
    &&& pairs[i].0@ == key
    &&& forall|j: int| 0 <= j < i ==> #[trigger] pairs[j].0@ != key
}

/// The value of the member `key` of an object; none for anything else.
pub open spec fn member(v: JsonValue, key: Seq<char>) -> Option<JsonValue> {
    match v {
        JsonValue::Object(pairs) => if exists|i: int| is_first_key(pairs@, key, i) {
            Some(pairs@[choose|i: int| is_first_key(pairs@, key, i)].1)
        } else {
            None
        },
        _ => None,
    }
}

/// The member `key` where it is a string.
pub open spec fn str_member(v: JsonValue, key: Seq<char>) -> Option<Seq<char>> {
    match member(v, key) {
        Some(JsonValue::Str(s)) => Some(s@),
        _ => None,
    }
}

/// The member `key` where it is a number that fits in `u64`.
pub open spec fn u64_member(v: JsonValue, key: Seq<char>) -> Option<u64> {
    match member(v, key) {
        Some(JsonValue::Number(n)) => n,
        _ => None,
    }
}

/// The items of the member `key` where it is an array.
pub open spec fn array_member(v: JsonValue, key: Seq<char>) -> Option<Seq<JsonValue>> {
    match member(v, key) {
        Some(JsonValue::Array(items)) => Some(items@),
        _ => None,
    }
}

/// The strings among `items`, in order.
pub open spec fn string_items(items: Seq<JsonValue>) -> Seq<Seq<char>>
    decreases items.len(),
{
    if items.len() == 0 {
        Seq::empty()
    } else {
        let rest = string_items(items.drop_last());
        match items.last() {
            JsonValue::Str(s) => rest.push(s@),
            _ => rest,
        }
    }
}

/// The strings of the array member `key`; none where there is no such array.
pub open spec fn string_member(v: JsonValue, key: Seq<char>) -> Seq<Seq<char>> {
    match array_member(v, key) {
        Some(items) => string_items(items),
        None => Seq::empty(),
    }
}

/// The value of the member `key` of `v`, where `v` is an object that has one.
pub fn get_member<'a>(v: &'a JsonValue, key: &str) -> (r: Option<&'a JsonValue>)
    ensures
        match member(*v, key@) {
            Some(x) => r matches Some(y) && *y == x,
            None => r is None,
        },
{
    match v {
        JsonValue::Object(pairs) => {
            let n = pairs.len();
            let mut i: usize = 0;
            while i < n
                invariant
                    n == pairs@.len(),
                    *v == JsonValue::Object(*pairs),
                    i <= n,
                    forall|j: int| 0 <= j < i ==> #[trigger] pairs@[j].0@ != key@,
                decreases n - i,
            {
                if crate::text::text_eq(pairs[i].0.as_str(), key) {
                    proof {
                        assert(is_first_key(pairs@, key@, i as int));
                        let k = choose|k: int| is_first_key(pairs@, key@, k);
                        assert(k == i as int);
                    }
                    return Some(&pairs[i].1);
                }
                i = i + 1;
            }
            None
        },
        _ => None,
    }
}

/// The member `key` of `v` where it is a string, copied.
fn str_member_of(v: &JsonValue, key: &str) -> (r: Option<String>)
    ensures
        opt_text(r) == str_member(*v, key@),
{
    match get_member(v, key) {
        Some(JsonValue::Str(s)) => Some(s.clone()),
        _ => None,
    }
}

/// The member `key` of `v` where it is a number that fits in `u64`.
fn u64_member_of(v: &JsonValue, key: &str) -> (r: Option<u64>)
    ensures
        r == u64_member(*v, key@),
{
    match get_member(v, key) {
        Some(JsonValue::Number(n)) => *n,
        _ => None,
    }
}

/// The strings of the array member `key` of `v`, copied in order.
pub fn string_member_of(v: &JsonValue, key: &str) -> (r: Vec<String>)
    ensures
        r@.map_values(|s: String| s@) == string_member(*v, key@),
{
    let mut out: Vec<String> = Vec::new();
    match get_member(v, key) {
        Some(JsonValue::Array(items)) => {
            let n = items.len();
            let mut i: usize = 0;
            while i < n
                invariant
                    n == items@.len(),
                    i <= n,
                    out@.map_values(|s: String| s@) == string_items(items@.subrange(0, i as int)),
                decreases n - i,
            {
                assert(items@.subrange(0, i + 1).drop_last() =~= items@.subrange(0, i as int));
                assert(items@.subrange(0, i + 1).last() == items@[i as int]);
                match &items[i] {
                    JsonValue::Str(s) => {
                        out.push(s.clone());
                    },
                    _ => {},
                }
                assert(out@.map_values(|s: String| s@) =~= string_items(items@.subrange(0, i + 1)));
                i = i + 1;
            }
            assert(items@.subrange(0, n as int) =~= items@);
        },
        _ => {
            assert(out@.map_values(|s: String| s@) =~= Seq::<Seq<char>>::empty());
        },
    }
    out
}

/// A route read from a route element: its string members `dev` and `gateway`.
pub open spec fn route_of(r: RouteEntry, v: JsonValue) -> bool {
    &&& opt_text(r.dev) == str_member(v, "dev"@)
    &&& opt_text(r.gateway) == str_member(v, "gateway"@)
}

/// Each route is read from the element at its place.
pub open spec fn routes_of(routes: Seq<RouteEntry>, values: Seq<JsonValue>) -> bool {
    &&& routes.len() == values.len()
    &&& forall|i: int| 0 <= i < routes.len() ==> route_of(#[trigger] routes[i], values[i])
}

/// The routes of the elements of `ip -j route` output, one per element.
pub fn routes_from_json(values: &Vec<JsonValue>) -> (r: Vec<RouteEntry>)
    ensures
        routes_of(r@, values@),
{
    let mut out: Vec<RouteEntry> = Vec::new();
    let n = values.len();
    let mut i: usize = 0;
    while i < n
        invariant
            n == values@.len(),
            i <= n,
            out@.len() == i,
            forall|j: int| 0 <= j < i ==> route_of(#[trigger] out@[j], values@[j]),
        decreases n - i,
    {
        proof {
            reveal_strlit("dev");
            reveal_strlit("gateway");
        }
        let dev = str_member_of(&values[i], "dev");
        let gateway = str_member_of(&values[i], "gateway");
        out.push(RouteEntry { dev, gateway });
        i = i + 1;
    }
    out
}

/// An address read from an `addr_info` element: its string `local`, its
/// number `prefixlen` and the strings of its array `flags`.
pub open spec fn addr_info_of(a: AddrInfo, v: JsonValue) -> bool {
    &&& opt_text(a.local) == str_member(v, "local"@)
    &&& a.prefixlen == u64_member(v, "prefixlen"@)
    &&& a.flags@.map_values(|s: String| s@) == string_member(v, "flags"@)
}

/// Each address is read from the element at its place.
pub open spec fn addr_infos_of(infos: Seq<AddrInfo>, values: Seq<JsonValue>) -> bool {
    &&& infos.len() == values.len()
    &&& forall|i: int| 0 <= i < infos.len() ==> addr_info_of(#[trigger] infos[i], values[i])
}

/// The `addr_info` elements of all interfaces, in order; an interface
/// without an `addr_info` array has none.
pub open spec fn addr_entries(values: Seq<JsonValue>) -> Seq<JsonValue>
    decreases values.len(),
{
    if values.len() == 0 {
        Seq::empty()
    } else {
        addr_entries(values.drop_last()) + match array_member(values.last(), "addr_info"@) {
            Some(items) => items,
            None => Seq::empty(),
        }
    }
}

/// The address read from one `addr_info` element.
fn addr_info_from_json(v: &JsonValue) -> (r: AddrInfo)
    ensures
        addr_info_of(r, *v),
{
    proof {
        reveal_strlit("local");
        reveal_strlit("prefixlen");
        reveal_strlit("flags");
    }
    AddrInfo {
        local: str_member_of(v, "local"),
        prefixlen: u64_member_of(v, "prefixlen"),
        flags: string_member_of(v, "flags"),
    }
}

/// The addresses of the elements of `ip -j addr show` output: those of
/// each interface's `addr_info` array, in order.
pub fn addr_infos_from_json(values: &Vec<JsonValue>) -> (r: Vec<AddrInfo>)
    ensures
        addr_infos_of(r@, addr_entries(values@)),
{
    let mut out: Vec<AddrInfo> = Vec::new();
    let n = values.len();
    let mut i: usize = 0;
    while i < n
        invariant
            n == values@.len(),
            i <= n,
            addr_infos_of(out@, addr_entries(values@.subrange(0, i as int))),
        decreases n - i,
    {
        let ghost before = addr_entries(values@.subrange(0, i as int));
        assert(values@.subrange(0, i + 1).drop_last() =~= values@.subrange(0, i as int));
        assert(values@.subrange(0, i + 1).last() == values@[i as int]);
        proof {
            reveal_strlit("addr_info");
        }
        match get_member(&values[i], "addr_info") {
            Some(JsonValue::Array(items)) => {
                let m = items.len();
                let mut j: usize = 0;
                while j < m
                    invariant
                        m == items@.len(),
                        j <= m,
                        addr_infos_of(out@, before + items@.subrange(0, j as int)),
                    decreases m - j,
                {
                    let info = addr_info_from_json(&items[j]);
                    out.push(info);
                    assert(before + items@.subrange(0, j + 1) =~= (before + items@.subrange(0, j as int)).push(items@[j as int]));
                    j = j + 1;
                }
                assert(items@.subrange(0, m as int) =~= items@);
                assert(addr_entries(values@.subrange(0, i + 1)) =~= before + items@);
            },
            _ => {
                assert(addr_entries(values@.subrange(0, i + 1)) =~= before);
            },
        }
        i = i + 1;
    }
    assert(values@.subrange(0, n as int) =~= values@);
    out
}

} // verus!
