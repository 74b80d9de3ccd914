//! The data model of service units: the unit itself, its namespace, the
//! descriptive record the directory reports for it, and the pending-change
//! and change-result records that the change engine works with.
use vstd::prelude::*;

verus! {

/// Which service-manager namespace a unit lives in.
#[derive(Debug, Clone, Copy, PartialEq, Eq, Structural)]
pub enum ServiceScope {
    System,
    User,
}

/// One service unit as loaded from the directory: its identifier, its
/// persisted enabled flag, and its current runtime-active flag.
#[derive(Debug, Clone)]
pub struct Service {
    pub name: String,
    pub enabled: bool,
    pub active: bool,
}

/// Descriptive details of one unit, as the directory reports them.
#[derive(Debug, Clone)]
pub struct ServiceInfo {
    pub description: String,
    pub active_state: String,
    pub sub_state: String,
    pub fragment_path: String,
    pub triggered_by: String,
    pub documentation: String,
    pub extra_info: String,
}

/// Every field of the record is empty.
pub open spec fn info_is_empty(i: ServiceInfo) -> bool {
    &&& i.description@.len() == 0
    &&& i.active_state@.len() == 0
    &&& i.sub_state@.len() == 0
    &&& i.fragment_path@.len() == 0
    &&& i.triggered_by@.len() == 0
    &&& i.documentation@.len() == 0
    &&& i.extra_info@.len() == 0
}

impl ServiceInfo {
    /// An all-empty info record.
    pub fn empty() -> (r: Self)
        ensures
            info_is_empty(r),
    {
        ServiceInfo {
            description: String::new(),
            active_state: String::new(),
            sub_state: String::new(),
            fragment_path: String::new(),
            triggered_by: String::new(),
            documentation: String::new(),
            extra_info: String::new(),
        }
    }
}

impl Default for ServiceInfo {
    fn default() -> (r: Self)
        ensures
            info_is_empty(r),
    {
        ServiceInfo::empty()
    }
}

/// What is to be done to a dirty service: enable it or disable it.
#[derive(Debug, Clone, Copy, PartialEq, Eq, Structural)]
pub enum ChangeAction {
    Enable,
    Disable,
}

/// The materialized intent for one dirty service, derived on demand.
#[derive(Debug, Clone)]
pub struct PendingChange {
    pub service: String,
    pub scope: ServiceScope,
    pub action: ChangeAction,
}

/// The outcome of applying one pending change.
#[derive(Debug, Clone)]
pub struct ChangeResult {
    pub service: String,
    pub success: bool,
    pub message: String,
}

} // verus!
