//! IPv6 subnet arithmetic: CIDR parsing, membership, splitting an address
//! into network and host parts, and drawing a random address in a subnet.
//!
//! Addresses are carried as `u128` in network byte order (the first group
//! of the textual form is the most significant).

use rand::Rng;
use vstd::prelude::*;

use crate::text::{decimal, decimal_string};

verus! {

/// The netmask of a prefix length: the `prefix_len` most significant bits set.
pub open spec fn network_mask(prefix_len: u8) -> u128 {
    if prefix_len == 0 {
        0
    } else {
        0xffff_ffff_ffff_ffff_ffff_ffff_ffff_ffffu128 << ((128 - prefix_len) as u32)
    }
}

/// The host mask of a prefix length: the bits that the netmask leaves clear.
pub open spec fn host_mask(prefix_len: u8) -> u128 {
    !network_mask(prefix_len)
}

/// `addr` lies in the subnet `network/prefix_len`: both agree on the network bits.
pub open spec fn in_subnet(network: u128, prefix_len: u8, addr: u128) -> bool {
    addr & network_mask(prefix_len) == network & network_mask(prefix_len)
}

/// Containment as the range test of the network library: the address lies
/// between the network address and the last address of the subnet.
pub open spec fn subnet_range_contains(addr_of_net: u128, prefix_len: u8, addr: u128) -> bool {
    let first = addr_of_net & network_mask(prefix_len);
    let last = first | host_mask(prefix_len);
    first <= addr && addr <= last
}

/// What the network library's CIDR parser makes of `text`: the address as
/// written and the prefix length, or `None` where the text is no IPv6 CIDR.
pub uninterp spec fn ipv6_net_syntax(text: Seq<char>) -> Option<(u128, u8)>;

/// The standard textual form of an IPv6 address.
pub uninterp spec fn ipv6_text(addr: u128) -> Seq<char>;

/// `addr/prefix_len` in text.
pub open spec fn cidr_text(addr: u128, prefix_len: u8) -> Seq<char> {
    ipv6_text(addr) + seq!['/'] + decimal(prefix_len as nat)
}

/// The error text for a string that does not parse as an IPv6 CIDR.
pub open spec fn invalid_cidr_message(cidr: Seq<char>) -> Seq<char> {
    "Invalid CIDR format '"@ + cidr + "': invalid IP address syntax"@
}

/// Parses `text` with `ipnet::Ipv6Net::from_str`.
/// Trusted: the result is the address and prefix length the parser read,
/// `None` on a syntax error; the parser only builds networks whose prefix
/// length is at most 128.
#[verifier::external_body]
fn parse_ipv6_net(text: &str) -> (r: Option<(u128, u8)>)
    ensures
        r == ipv6_net_syntax(text@),
        r matches Some(n) ==> n.1 <= 128,
{
    match text.parse::<ipnet::Ipv6Net>() {
        Ok(net) => Some((u128::from(net.addr()), net.prefix_len())),
        Err(_) => None,
    }
}

/// The `Display` text of the standard library's IPv6 address type.
/// Trusted: the result is that text, named `ipv6_text`.
#[verifier::external_body]
pub(crate) fn ipv6_string(addr: u128) -> (s: String)
    ensures
        s@ == ipv6_text(addr),
{
    core::net::Ipv6Addr::from(addr).to_string()
}

/// A random `u128` from the thread-local generator of `rand`.
/// Trusted for its type only: nothing is promised of the value.
#[verifier::external_body]
pub(crate) fn random_u128() -> u128 {
    rand::thread_rng().gen::<u128>()
}

/// `addr/prefix_len` as text.
pub fn cidr_string(addr: u128, prefix_len: u8) -> (s: String)
    ensures
        s@ == cidr_text(addr, prefix_len),
{
    let a = ipv6_string(addr);
    let a = a.concat("/");
    let p = decimal_string(prefix_len as u64);
    let s = a.concat(p.as_str());
    proof {
        reveal_strlit("/");
        assert(s@ =~= cidr_text(addr, prefix_len));
    }
    s
}

/// Computes the netmask of `prefix_len` as the executable code does it.
pub fn netmask(prefix_len: u8) -> (m: u128)
    requires
        prefix_len <= 128,
    ensures
        m == network_mask(prefix_len),
{
    let host_bits: u32 = 128 - prefix_len as u32;
    if host_bits >= 128 {
        0
    } else {
        u128::MAX << host_bits
    }
}

/// Computes the host mask of `prefix_len`: `2^(128 - prefix_len) - 1`.
pub fn hostmask(prefix_len: u8) -> (m: u128)
    requires
        prefix_len <= 128,
    ensures
        m == host_mask(prefix_len),
{
    let host_bits: u32 = 128 - prefix_len as u32;
    if host_bits >= 128 {
        assert(!(0u128) == u128::MAX) by (bit_vector);
        u128::MAX
    } else {
        assert(1u128 << host_bits >= 1u128 && (1u128 << host_bits) - 1u128 == !(u128::MAX << host_bits))
            by (bit_vector)
            requires
                host_bits < 128u32,
        ;
        (1u128 << host_bits) - 1
    }
}

/// Combines the network bits of `network` with the host bits of `random`.
pub fn address_from_host_bits(network: u128, prefix_len: u8, random: u128) -> (a: u128)
    requires
        prefix_len <= 128,
    ensures
        a == (network & network_mask(prefix_len)) | (random & host_mask(prefix_len)),
        in_subnet(network, prefix_len, a),
{
    let m = netmask(prefix_len);
    let h = hostmask(prefix_len);
    let a = (network & m) | (random & h);
    assert(((network & m) | (random & !m)) & m == network & m) by (bit_vector);
    a
}

/// Generate a random IPv6 address within the given CIDR subnet.
///
/// The text is `address/prefix`, the address drawn at random among the
/// addresses of the subnet; a `/128` network gives back its one address.
pub fn generate_random_ip(cidr: &str) -> (r: Result<String, String>)
    ensures
        ipv6_net_syntax(cidr@) is None ==> (r matches Err(e) && e@ == invalid_cidr_message(cidr@)),
        ipv6_net_syntax(cidr@) matches Some(net) ==> (r matches Ok(s) && exists|a: u128|
            #[trigger] in_subnet(net.0, net.1, a) && s@ == cidr_text(a, net.1)),
{
    let parsed = parse_ipv6_net(cidr);
    let (addr, prefix_len) = match parsed {
        Some(n) => n,
        None => {
            return Err(invalid_cidr_message_string(cidr));
        },
    };
    let network_addr = addr & netmask(prefix_len);
    assert(network_addr & network_mask(prefix_len) == addr & network_mask(prefix_len)) by (bit_vector)
        requires
            network_addr == addr & network_mask(prefix_len),
    ;
    if prefix_len == 128 {
        assert(in_subnet(addr, prefix_len, network_addr));
        return Ok(cidr_string(network_addr, prefix_len));
    }
    let random = random_u128();
    let final_ip = address_from_host_bits(network_addr, prefix_len, random);
    assert(in_subnet(addr, prefix_len, final_ip));
    Ok(cidr_string(final_ip, prefix_len))
}

fn invalid_cidr_message_string(cidr: &str) -> (e: String)
    ensures
        e@ == invalid_cidr_message(cidr@),
{
    let e = String::from_str("Invalid CIDR format '");
    let e = e.concat(cidr);
    let e = e.concat("': invalid IP address syntax");
    proof {
        assert(e@ =~= invalid_cidr_message(cidr@));
    }
    e
}

/// Parse and validate a CIDR string, returning the network address and the
/// prefix length.
pub fn parse_cidr(cidr: &str) -> (r: Result<(u128, u8), String>)
    ensures
        ipv6_net_syntax(cidr@) is None ==> (r matches Err(e) && e@ == invalid_cidr_message(cidr@)),
        ipv6_net_syntax(cidr@) matches Some(net) ==> r == Ok::<(u128, u8), String>(
            (net.0 & network_mask(net.1), net.1),
        ),
{
    match parse_ipv6_net(cidr) {
        Some((addr, prefix_len)) => Ok((addr & netmask(prefix_len), prefix_len)),
        None => Err(invalid_cidr_message_string(cidr)),
    }
}

/// Check if an IPv6 address is within a given CIDR subnet.
pub fn is_address_in_subnet(addr: u128, cidr: &str) -> (r: Result<bool, String>)
    ensures
        ipv6_net_syntax(cidr@) is None ==> (r matches Err(e) && e@ == invalid_cidr_message(cidr@)),
        ipv6_net_syntax(cidr@) matches Some(net) ==> r == Ok::<bool, String>(
            subnet_range_contains(net.0, net.1, addr),
        ),
{
    match parse_ipv6_net(cidr) {
        Some((net_addr, prefix_len)) => {
            let first = net_addr & netmask(prefix_len);
            let last = first | hostmask(prefix_len);
            Ok(first <= addr && addr <= last)
        },
        None => Err(invalid_cidr_message_string(cidr)),
    }
}

/// Extract network and host portions from an IPv6 address given a prefix length.
pub fn split_ipv6_address(addr: u128, prefix_len: u8) -> (r: Result<(u128, u128), String>)
    ensures
        prefix_len > 128 ==> (r matches Err(e) && e@ == "Prefix length cannot be greater than 128"@),
        prefix_len <= 128 ==> r == Ok::<(u128, u128), String>(
            (addr & network_mask(prefix_len), addr & host_mask(prefix_len)),
        ),
{
    if prefix_len > 128 {
        return Err(String::from_str("Prefix length cannot be greater than 128"));
    }
    let addr_u128 = addr;
    let host_bits: u32 = 128 - prefix_len as u32;
    let network_mask: u128 = if host_bits >= 128 {
        0
    } else {
        u128::MAX << host_bits
    };
    let network_u128 = addr_u128 & network_mask;
    let host_u128 = addr_u128 & !network_mask;
    Ok((network_u128, host_u128))
}

/// Splitting an address gives two disjoint parts that together are the address.
pub proof fn lemma_split_recombines(addr: u128, prefix_len: u8)
    requires
        prefix_len <= 128,
    ensures
        (addr & network_mask(prefix_len)) | (addr & host_mask(prefix_len)) == addr,
        (addr & network_mask(prefix_len)) & (addr & host_mask(prefix_len)) == 0,
{
    let m = network_mask(prefix_len);
    assert((addr & m) | (addr & !m) == addr && (addr & m) & (addr & !m) == 0) by (bit_vector);
}

/// The range test of the network library and the prefix comparison agree:
/// an address lies between the first and the last address of a subnet
/// exactly when its network bits are those of the subnet.
pub proof fn lemma_range_contains_iff_in_subnet(network: u128, prefix_len: u8, addr: u128)
    requires
        prefix_len <= 128,
    ensures
        subnet_range_contains(network, prefix_len, addr) == in_subnet(network, prefix_len, addr),
{
    if prefix_len == 0 {
        assert(network & 0u128 == 0u128 && addr & 0u128 == 0u128 && !0u128 == u128::MAX) by (bit_vector);
        assert(0u128 | u128::MAX == u128::MAX) by (bit_vector);
    } else {
        let k: u32 = (128 - prefix_len) as u32;
        assert(k < 128);
        assert(
            ((network & (u128::MAX << k)) <= addr && addr <= ((network & (u128::MAX << k)) | !(u128::MAX << k)))
            == ((addr & (u128::MAX << k)) == (network & (u128::MAX << k)))
        ) by (bit_vector)
            requires
                k < 128u32,
        ;
    }
}

} // verus!
