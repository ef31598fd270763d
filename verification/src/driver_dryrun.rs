//! A driver that changes nothing: it answers with fixed values and
//! describes, line by line, the commands a real driver would run.

use vstd::prelude::*;

use crate::driver::{Ipv6Subnet, NetworkDriver};
use crate::utils::{ipv6_string, ipv6_text};

verus! {

/// The address `fe80::1`, the gateway a dry run reports.
pub const SIMULATED_GATEWAY: u128 = 0xfe80_0000_0000_0000_0000_0000_0000_0001;

/// The address `2001:db8::1`, the address of the subnet a dry run reports.
pub const SIMULATED_SUBNET_ADDRESS: u128 = 0x2001_0db8_0000_0000_0000_0000_0000_0001;

/// What the `Debug` format of the standard library writes for the path
/// `s`: the path quoted, with its special characters escaped.
pub uninterp spec fn path_debug_text(s: Seq<char>) -> Seq<char>;

/// Formats `s` as a `std::path::Path` with `{:?}`.
/// Trusted: the result is named `path_debug_text`.
#[verifier::external_body]
fn path_debug_quoted(s: &str) -> (r: String)
    ensures
        r@ == path_debug_text(s@),
{
    format!("{:?}", std::path::Path::new(s))
}

/// `nsenter --net=<netns> -F -- ` followed by `rest`.
pub open spec fn in_netns(netns: Seq<char>, rest: Seq<char>) -> Seq<char> {
    "nsenter --net="@ + netns + " -F -- "@ + rest
}

fn in_netns_line(netns: &str, rest: String) -> (s: String)
    ensures
        s@ == in_netns(netns@, rest@),
{
    String::from_str("nsenter --net=").concat(netns).concat(" -F -- ").concat(rest.as_str())
}

/// The lines a dry run prints for configuring an interface in a namespace.
pub open spec fn configure_lines(
    netns: Seq<char>,
    temp: Seq<char>,
    target: Seq<char>,
    ip_cidr: Seq<char>,
    gateway: Option<u128>,
) -> Seq<Seq<char>> {
    let head = seq![
        in_netns(netns, "ip link set dev "@ + temp + " name "@ + target),
        in_netns(netns, "ip addr add "@ + ip_cidr + " dev "@ + target),
        in_netns(netns, "ip link set up dev "@ + target),
        in_netns(netns, "sysctl -w net.ipv6.conf."@ + target + ".accept_ra=2"@),
    ];
    let with_route = match gateway {
        Some(gw) => head.push(in_netns(netns, "ip -6 route add default via "@ + ipv6_text(gw) + " dev "@ + target)),
        None => head,
    };
    with_route.push(in_netns(netns, "ip -j -6 addr show (Wait for DAD)"@))
}

/// Dry-run driver: simulates every operation.
#[derive(Debug)]
pub struct DryRunDriver;

impl DryRunDriver {
    pub fn new() -> Self {
        Self
    }

    /// The line printed when the upstream interface is asked for.
    pub fn detect_upstream_interface_log() -> (s: String)
        ensures
            s@ == "Inferring default interface... (Simulated: eth0)"@,
    {
        String::from_str("Inferring default interface... (Simulated: eth0)")
    }

    /// The line printed when the gateway of `ifname` is asked for.
    pub fn get_interface_gateway_log(ifname: &str) -> (s: String)
        ensures
            s@ == "Checking gateway on "@ + ifname@ + "... (Simulated: fe80::1)"@,
    {
        String::from_str("Checking gateway on ").concat(ifname).concat("... (Simulated: fe80::1)")
    }

    /// The line printed when the subnet of `ifname` is asked for.
    pub fn get_interface_subnet_log(ifname: &str) -> (s: String)
        ensures
            s@ == "Checking subnet on "@ + ifname@ + "... (Simulated: 2001:db8::1/64)"@,
    {
        String::from_str("Checking subnet on ").concat(ifname).concat("... (Simulated: 2001:db8::1/64)")
    }

    /// The line printed when `ifname` is checked.
    pub fn check_interface_log(ifname: &str) -> (s: String)
        ensures
            s@ == "Checking if interface "@ + ifname@ + " exists..."@,
    {
        String::from_str("Checking if interface ").concat(ifname).concat(" exists...")
    }

    /// The line printed for creating an ipvlan interface.
    pub fn create_ipvlan_log(parent: &str, mode: &str, temp_name: &str) -> (s: String)
        ensures
            s@ == "ip link add link "@ + parent@ + " name "@ + temp_name@ + " type ipvlan mode "@ + mode@ + " bridge"@,
    {
        let s = String::from_str("ip link add link ").concat(parent).concat(" name ").concat(temp_name);
        let s = s.concat(" type ipvlan mode ").concat(mode).concat(" bridge");
        proof {
            assert(s@ =~= "ip link add link "@ + parent@ + " name "@ + temp_name@ + " type ipvlan mode "@ + mode@
                + " bridge"@);
        }
        s
    }

    /// The line printed for deleting an interface.
    pub fn delete_interface_log(ifname: &str) -> (s: String)
        ensures
            s@ == "ip link delete "@ + ifname@,
    {
        String::from_str("ip link delete ").concat(ifname)
    }

    /// The line printed for moving an interface into a namespace.
    pub fn set_netns_log(ifname: &str, netns_path: &str) -> (s: String)
        ensures
            s@ == "ip link set dev "@ + ifname@ + " netns "@ + path_debug_text(netns_path@),
    {
        let s = String::from_str("ip link set dev ").concat(ifname).concat(" netns ");
        s.concat(path_debug_quoted(netns_path).as_str())
    }

    /// The lines printed for configuring an interface in a namespace.
    pub fn configure_in_netns_log(
        netns_path: &str,
        temp_ifname: &str,
        target_ifname: &str,
        ip_cidr: &str,
        gateway: Option<u128>,
    ) -> (v: Vec<String>)
        ensures
            v@.map_values(|s: String| s@) == configure_lines(netns_path@, temp_ifname@, target_ifname@, ip_cidr@, gateway),
    {
        let mut v: Vec<String> = Vec::new();
        let l0 = String::from_str("ip link set dev ").concat(temp_ifname).concat(" name ").concat(target_ifname);
        v.push(in_netns_line(netns_path, l0));
        let l1 = String::from_str("ip addr add ").concat(ip_cidr).concat(" dev ").concat(target_ifname);
        v.push(in_netns_line(netns_path, l1));
        let l2 = String::from_str("ip link set up dev ").concat(target_ifname);
        v.push(in_netns_line(netns_path, l2));
        let l3 = String::from_str("sysctl -w net.ipv6.conf.").concat(target_ifname).concat(".accept_ra=2");
        v.push(in_netns_line(netns_path, l3));
        match gateway {
            Some(gw) => {
                let l4 = String::from_str("ip -6 route add default via ").concat(ipv6_string(gw).as_str());
                let l4 = l4.concat(" dev ").concat(target_ifname);
                v.push(in_netns_line(netns_path, l4));
            },
            None => {},
        }
        v.push(in_netns_line(netns_path, String::from_str("ip -j -6 addr show (Wait for DAD)")));
        proof {
            assert(v@.map_values(|s: String| s@) =~= configure_lines(
                netns_path@,
                temp_ifname@,
                target_ifname@,
                ip_cidr@,
                gateway,
            ));
        }
        v
    }

    /// The line printed for deleting an interface inside a namespace.
    pub fn delete_interface_in_netns_log(netns_path: &str, ifname: &str) -> (s: String)
        ensures
            s@ == in_netns(netns_path@, "ip link delete dev "@ + ifname@),
    {
        in_netns_line(netns_path, String::from_str("ip link delete dev ").concat(ifname))
    }

    /// The line printed for looking up an interface inside a namespace.
    pub fn interface_exists_in_netns_log(netns_path: &str, ifname: &str) -> (s: String)
        ensures
            s@ == in_netns(netns_path@, "ip link show dev "@ + ifname@ + " (Simulated: exists)"@),
    {
        let rest = String::from_str("ip link show dev ").concat(ifname).concat(" (Simulated: exists)");
        in_netns_line(netns_path, rest)
    }
}

impl NetworkDriver for DryRunDriver {
    fn detect_upstream_interface(&self) -> (r: Result<String, String>)
        ensures
            r matches Ok(s) && s@ == "eth0"@,
    {
        Ok(String::from_str("eth0"))
    }

    fn get_interface_gateway(&self, ifname: &str) -> (r: Result<Option<u128>, String>)
        ensures
            r == Ok::<Option<u128>, String>(Some(SIMULATED_GATEWAY)),
    {
        Ok(Some(SIMULATED_GATEWAY))
    }

    fn get_interface_subnet(&self, ifname: &str) -> (r: Result<Ipv6Subnet, String>)
        ensures
            r matches Ok(s) && s.address == SIMULATED_SUBNET_ADDRESS && s.prefix_length == 64,
    {
        Ipv6Subnet::new(SIMULATED_SUBNET_ADDRESS, 64)
    }

    fn check_interface(&self, ifname: &str) -> (r: Result<(), String>)
        ensures
            r is Ok,
    {
        Ok(())
    }

    fn create_ipvlan(&self, parent: &str, mode: &str, temp_name: &str) -> (r: Result<(), String>)
        ensures
            r is Ok,
    {
        Ok(())
    }

    fn delete_interface(&self, ifname: &str) -> (r: Result<(), String>)
        ensures
            r is Ok,
    {
        Ok(())
    }

    fn set_netns(&self, ifname: &str, netns_path: &str) -> (r: Result<(), String>)
        ensures
            r is Ok,
    {
        Ok(())
    }

    fn configure_in_netns(
        &self,
        netns_path: &str,
        temp_ifname: &str,
        target_ifname: &str,
        ip_cidr: &str,
        gateway: Option<u128>,
    ) -> (r: Result<(), String>)
        ensures
            r is Ok,
    {
        Ok(())
    }

    fn delete_interface_in_netns(&self, netns_path: &str, ifname: &str) -> (r: Result<(), String>)
        ensures
            r is Ok,
    {
        Ok(())
    }

    fn interface_exists_in_netns(&self, netns_path: &str, ifname: &str) -> (r: Result<bool, String>)
        ensures
            r == Ok::<bool, String>(true),
    {
        Ok(true)
    }

    fn netns_exists(&self, netns_path: &str) -> (r: bool)
        ensures
            r,
    {
        true
    }
}

} // verus!
