//! The network driver abstraction and the subnet type it reports.

use vstd::prelude::*;

use crate::text::{decimal, decimal_string};
use crate::utils::{cidr_string, cidr_text};

verus! {

/// Represents IPv6 subnet information with proper types
#[derive(Debug)]
pub struct Ipv6Subnet {
    pub address: u128,
    pub prefix_length: u8,
}

impl Ipv6Subnet {
    /// A subnet, refused where the prefix length exceeds 128.
    pub fn new(address: u128, prefix_length: u8) -> (r: Result<Self, String>)
        ensures
            prefix_length > 128 ==> (r matches Err(e) && e@ == "Invalid prefix length: "@ + decimal(prefix_length as nat)),
            prefix_length <= 128 ==> (r matches Ok(s) && s.address == address && s.prefix_length == prefix_length),
    {
        if prefix_length > 128 {
            return Err(String::from_str("Invalid prefix length: ").concat(decimal_string(prefix_length as u64).as_str()));
        }
        Ok(Self { address, prefix_length })
    }

    /// `address/prefix_length` as text.
    pub fn to_cidr_string(&self) -> (s: String)
        ensures
            s@ == cidr_text(self.address, self.prefix_length),
    {
        cidr_string(self.address, self.prefix_length)
    }
}

/// The operations a network driver offers. Paths of network namespaces
/// are passed as text; addresses as 128-bit numbers.
pub trait NetworkDriver {
    /// Detects the default upstream interface (usually via default route).
    fn detect_upstream_interface(&self) -> Result<String, String>;

    /// Finds the gateway address associated with the given interface's default route.
    fn get_interface_gateway(&self, ifname: &str) -> Result<Option<u128>, String>;

    /// Finds the first global scope IPv6 subnet on the given interface.
    fn get_interface_subnet(&self, ifname: &str) -> Result<Ipv6Subnet, String>;

    /// Checks that the interface exists and is UP.
    fn check_interface(&self, ifname: &str) -> Result<(), String>;

    /// Creates an ipvlan L2 bridge interface on the host.
    fn create_ipvlan(&self, parent: &str, mode: &str, temp_name: &str) -> Result<(), String>;

    /// Deletes a network interface by name.
    fn delete_interface(&self, ifname: &str) -> Result<(), String>;

    /// Moves a network interface into a specific network namespace.
    fn set_netns(&self, ifname: &str, netns_path: &str) -> Result<(), String>;

    /// Configures the interface inside the namespace: renames it, adds the
    /// address, sets it up, accepts router advertisements, adds the default
    /// route where a gateway is given and waits for duplicate address detection.
    fn configure_in_netns(
        &self,
        netns_path: &str,
        temp_ifname: &str,
        target_ifname: &str,
        ip_cidr: &str,
        gateway: Option<u128>,
    ) -> Result<(), String>;

    /// Deletes a network interface inside a specific network namespace.
    /// Should be idempotent - succeed even if interface doesn't exist.
    fn delete_interface_in_netns(&self, netns_path: &str, ifname: &str) -> Result<(), String>;

    /// Checks if a network interface exists inside a specific network namespace.
    fn interface_exists_in_netns(&self, netns_path: &str, ifname: &str) -> Result<bool, String>;

    /// Whether the network namespace at `netns_path` exists.
    fn netns_exists(&self, netns_path: &str) -> bool;
}

} // verus!
