//! What the platform reports: errors and resource measurements.

use vstd::prelude::*;

use crate::ids::VolumeId;

verus! {

/// Portable category of a platform failure.
#[derive(Clone, Copy, Debug, PartialEq, Eq, Structural)]
pub enum PlatformErrorKind {
    /// The caller may not do this.
    PermissionDenied,
    /// The platform cannot do this.
    Unsupported,
    /// The source is not there now.
    Unavailable,
    /// A checkpoint cannot be used.
    InvalidCheckpoint,
    /// Change history is missing.
    SourceHistoryGap,
    /// A bound was reached.
    ResourceExhausted,
    /// The caller gave up.
    Cancelled,
    /// Reading or writing failed.
    Io,
    /// A broken assumption.
    Internal,
}

/// A platform failure.
#[derive(Clone, Debug, PartialEq, Eq)]
pub struct PlatformError {
    /// Portable category.
    pub kind: PlatformErrorKind,
    /// What was being done.
    pub operation: &'static str,
    /// Details for diagnosis.
    pub detail: String,
}

impl PlatformError {
    /// The failure of an operation.
    pub fn new(kind: PlatformErrorKind, operation: &'static str, detail: &str) -> (r: Self)
        ensures
            r.kind == kind,
            r.operation@ == operation@,
            r.detail@ == detail@,
    {
        PlatformError { kind, operation, detail: detail.to_owned() }
    }
}

/// A failure with this category, operation and detail.
pub open spec fn reports(
    error: PlatformError,
    kind: PlatformErrorKind,
    operation: Seq<char>,
    detail: Seq<char>,
) -> bool {
    error.kind == kind && error.operation@ == operation && error.detail@ == detail
}

/// Result of a platform operation.
pub type PlatformResult<T> = Result<T, PlatformError>;

/// Where the machine takes its power from.
#[derive(Clone, Copy, Debug, PartialEq, Eq, Structural)]
pub enum PowerSource {
    /// Mains.
    Ac,
    /// Battery.
    Battery,
    /// Not known.
    Unknown,
}

/// What a volume is stored on.
#[derive(Clone, Copy, Debug, PartialEq, Eq, Structural)]
pub enum StorageClass {
    /// Rotating disk.
    Hdd,
    /// Solid-state disk.
    Ssd,
    /// Solid-state disk on the expansion bus.
    Nvme,
    /// Network share.
    Network,
    /// Removable medium.
    Removable,
    /// Not known.
    Unknown,
}

/// Capacity of one volume.
#[derive(Clone, Copy, Debug, PartialEq, Eq, Structural)]
pub struct StorageResources {
    /// The volume.
    pub volume_id: VolumeId,
    /// What it is stored on.
    pub class: StorageClass,
    /// Capacity in bytes.
    pub capacity_bytes: Option<u64>,
    /// Free bytes.
    pub available_bytes: Option<u64>,
}

/// Coarse measurements of the machine.
#[derive(Clone, Debug, PartialEq, Eq)]
pub struct SystemResources {
    /// Logical processors.
    pub logical_processors: u32,
    /// Physical memory in bytes.
    pub total_memory_bytes: Option<u64>,
    /// Memory available in bytes.
    pub available_memory_bytes: Option<u64>,
    /// Processor load in hundredths of a percent.
    pub system_cpu_load_basis_points: Option<u16>,
    /// Load of this process in hundredths of a percent.
    pub process_cpu_load_basis_points: Option<u16>,
    /// Power source.
    pub power_source: PowerSource,
    /// Charge of the battery.
    pub battery_percent: Option<u8>,
    /// Whether the user asked to save energy.
    pub energy_saver: bool,
    /// Disk load in hundredths of a percent.
    pub storage_busy_basis_points: Option<u16>,
    /// Time since the last input.
    pub user_idle_duration_millis: Option<u64>,
    /// Volumes.
    pub storage: Vec<StorageResources>,
}

/// A source of measurements.
pub trait ResourceProvider {
    /// Measures now.
    fn snapshot(&self) -> PlatformResult<SystemResources>;
}

} // verus!
