//! The events the node broadcasts to its services.

use vstd::prelude::*;

verus! {

/// The mode the node's service is in.
#[derive(Debug, Copy, Clone, PartialEq, Eq, Structural)]
pub enum ServiceStatus {
    Active,
    Maintenance,
    ReadOnlyMode,
    DateImportMode,
}

impl Default for ServiceStatus {
    fn default() -> (r: Self)
        ensures
            r == ServiceStatus::Active,
    {
        ServiceStatus::Active
    }
}

/// The gas schedule was upgraded.
#[derive(Debug, Copy, Clone, Default)]
pub struct GasUpgradeEvent {}

/// The service changed its mode.
#[derive(Debug, Copy, Clone)]
pub struct ServiceStatusEvent {
    pub status: ServiceStatus,
}

impl Default for ServiceStatusEvent {
    fn default() -> (r: Self)
        ensures
            r.status == ServiceStatus::Active,
    {
        ServiceStatusEvent { status: ServiceStatus::default() }
    }
}

/// Asks the pipeline processor for the service's mode.
#[derive(Debug, Copy, Clone)]
pub struct GetServiceStatusMessage {}

} // verus!
