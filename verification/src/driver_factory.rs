//! Which network driver a run uses.

use vstd::prelude::*;

verus! {

/// Available driver types for explicit driver selection
#[derive(Debug, Clone, Copy, PartialEq, Eq, Structural)]
pub enum DriverType {
    DryRun,
    Script,
}

/// Driver factory responsible for choosing the network driver
/// based on configuration and runtime parameters
#[derive(Debug)]
pub struct DriverFactory;

impl DriverFactory {
    /// The driver a run uses: the dry-run driver when asked for a dry run,
    /// the script driver otherwise. The override is reserved for further
    /// drivers and chooses nothing yet.
    pub fn driver_type(is_dry_run: bool, _override_driver: Option<&str>) -> (r: DriverType)
        ensures
            is_dry_run ==> r == DriverType::DryRun,
            !is_dry_run ==> r == DriverType::Script,
    {
        if is_dry_run {
            DriverType::DryRun
        } else {
            DriverType::Script
        }
    }
}

} // verus!
