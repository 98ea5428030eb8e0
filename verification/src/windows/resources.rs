//! Measurements of the machine, from what Windows reports.

use vstd::prelude::*;

use crate::platform::{PowerSource, SystemResources};

verus! {

/// Milliseconds between two readings of a clock that wraps around.
pub fn elapsed_input_millis(now: u32, last_input: u32) -> (r: u64)
    ensures
        r == (now - last_input) % 0x1_0000_0000,
        r <= u32::MAX,
{
    now.wrapping_sub(last_input) as u64
}

/// The power source, the charge of the battery and whether energy is saved.
pub fn decode_power_status(
    ac_line_status: u8,
    battery_life_percent: u8,
    system_status_flag: u8,
) -> (r: (PowerSource, Option<u8>, bool))
    ensures
        r.0 == (if ac_line_status == 0 {
            PowerSource::Battery
        } else if ac_line_status == 1 {
            PowerSource::Ac
        } else {
            PowerSource::Unknown
        }),
        r.1 == (if battery_life_percent <= 100 {
            Some(battery_life_percent)
        } else {
            None
        }),
        r.2 == (system_status_flag == 1),
{
    let source = match ac_line_status {
        0 => PowerSource::Battery,
        1 => PowerSource::Ac,
        _ => PowerSource::Unknown,
    };
    let battery = if battery_life_percent <= 100 {
        Some(battery_life_percent)
    } else {
        None
    };
    (source, battery, system_status_flag == 1)
}

/// What the disk counter is asked for.
#[derive(Clone, Copy, Debug, PartialEq, Eq, Structural)]
pub enum DiskSample {
    /// Nothing: the last value is young enough, or there is no counter.
    Keep(Option<u16>),
    /// A new value.
    Collect,
}

/// The disk load between two looks at the counter.
#[derive(Clone, Copy, Debug, PartialEq, Eq, Structural)]
pub struct DiskBusyState {
    /// Whether the counter was set up, or could not be.
    pub initialization_attempted: bool,
    /// Whether there is a counter.
    pub available: bool,
    /// The last value.
    pub last_value: Option<u16>,
}

/// Nanoseconds between two looks at the counter.
pub const MINIMUM_SAMPLE_INTERVAL_NS: u128 = 1_000_000_000;

impl Default for DiskBusyState {
    fn default() -> (r: Self)
        ensures
            r == (DiskBusyState {
                initialization_attempted: false,
                available: false,
                last_value: None,
            }),
    {
        DiskBusyState { initialization_attempted: false, available: false, last_value: None }
    }
}

impl DiskBusyState {
    /// Whether the counter has yet to be set up. It is tried only once.
    pub fn needs_initialization(&self) -> (r: bool)
        ensures
            r == !self.initialization_attempted,
    {
        !self.initialization_attempted
    }

    /// Notes whether the counter could be set up.
    pub fn initialized(&mut self, available: bool)
        ensures
            *final(self) == (DiskBusyState {
                initialization_attempted: true,
                available,
                ..*old(self)
            }),
    {
        self.initialization_attempted = true;
        self.available = available;
    }

    /// What to do for a sample, given how long ago the counter was looked at.
    pub fn sample(&self, since_collection_ns: u128) -> (r: DiskSample)
        ensures
            r == (if !self.available {
                DiskSample::Keep(None)
            } else if since_collection_ns < MINIMUM_SAMPLE_INTERVAL_NS {
                DiskSample::Keep(self.last_value)
            } else {
                DiskSample::Collect
            }),
    {
        if !self.available {
            DiskSample::Keep(None)
        } else if since_collection_ns < MINIMUM_SAMPLE_INTERVAL_NS {
            DiskSample::Keep(self.last_value)
        } else {
            DiskSample::Collect
        }
    }

    /// Takes what the counter gave: a value that could not be read is not kept.
    pub fn collected(&mut self, readable: bool, value: Option<u16>) -> (r: Option<u16>)
        ensures
            r == (if readable {
                value
            } else {
                None
            }),
            *final(self) == (if readable {
                DiskBusyState { last_value: value, ..*old(self) }
            } else {
                *old(self)
            }),
    {
        if readable {
            self.last_value = value;
            value
        } else {
            None
        }
    }
}

/// The measurements of one moment.
#[derive(Clone, Copy, Debug, PartialEq, Eq)]
pub struct NativeSample {
    /// Processors.
    pub processors: usize,
    /// Memory.
    pub total_memory_bytes: u64,
    /// Memory that is free.
    pub available_memory_bytes: u64,
    /// Processor load in hundredths of a percent.
    pub cpu_basis_points: u16,
    /// Power source, battery and energy saving.
    pub power: (PowerSource, Option<u8>, bool),
    /// Disk load in hundredths of a percent.
    pub storage_busy_basis_points: Option<u16>,
    /// Time since the last input.
    pub user_idle_duration_millis: Option<u64>,
}

/// The measurements in portable form.
pub fn system_resources(sample: NativeSample) -> (r: SystemResources)
    ensures
        r.logical_processors == (if sample.processors > u32::MAX {
            u32::MAX
        } else {
            sample.processors as u32
        }),
        r.total_memory_bytes == Some(sample.total_memory_bytes),
        r.available_memory_bytes == Some(sample.available_memory_bytes),
        r.system_cpu_load_basis_points == Some(sample.cpu_basis_points),
        r.process_cpu_load_basis_points is None,
        r.power_source == sample.power.0,
        r.battery_percent == sample.power.1,
        r.energy_saver == sample.power.2,
        r.storage_busy_basis_points == sample.storage_busy_basis_points,
        r.user_idle_duration_millis == sample.user_idle_duration_millis,
        r.storage@.len() == 0,
{
    let logical_processors: u32 = if sample.processors as u64 > u32::MAX as u64 {
        u32::MAX
    } else {
        sample.processors as u32
    };
    SystemResources {
        logical_processors,
        total_memory_bytes: Some(sample.total_memory_bytes),
        available_memory_bytes: Some(sample.available_memory_bytes),
        system_cpu_load_basis_points: Some(sample.cpu_basis_points),
        process_cpu_load_basis_points: None,
        power_source: sample.power.0,
        battery_percent: sample.power.1,
        energy_saver: sample.power.2,
        storage_busy_basis_points: sample.storage_busy_basis_points,
        user_idle_duration_millis: sample.user_idle_duration_millis,
        storage: Vec::new(),
    }
}

} // verus!
