//! Deterministic resource policy for background work.
//!
//! Coarse measurements come in; what background work may do comes out. Nothing here samples the
//! machine.

use vstd::prelude::*;
use vstd::std_specs::convert::FromSpecImpl;

use core::time::Duration;

use crate::clock::{
    duration_millis_ceil, millis_rounded_up, milliseconds_are_rounded_up, nanoseconds,
};
use crate::platform::{PowerSource, SystemResources};

verus! {

/// Bytes in a mebibyte.
pub const MIB: usize = 1_048_576;

/// How much background work may do.
#[derive(Clone, Copy, Debug, PartialEq, Eq, Structural)]
pub enum GovernorMode {
    /// The user is working: background work pauses.
    Active,
    /// Ordinary background work.
    Balanced,
    /// The user is away and work has piled up.
    IdleBoost,
    /// The machine is short of something: background work pauses.
    Pressure,
    /// On battery: one short quantum at a time.
    Battery,
}

/// How intensively maintenance runs.
#[derive(Clone, Copy, Debug, PartialEq, Eq, Structural)]
pub enum MaintenanceIntensity {
    /// Not at all.
    Paused,
    /// As little as possible.
    Minimal,
    /// As usual.
    Normal,
    /// More than usual.
    Elevated,
}

/// Bounds on one run of background indexing.
#[derive(Clone, Copy, Debug, PartialEq, Eq, Structural)]
pub struct IndexingBudget {
    /// Mutations in one batch.
    pub maximum_batch_mutations: u32,
    /// Batches in one run.
    pub maximum_batches: u32,
    /// Time for one run.
    pub maximum_run_time_millis: u64,
    /// Memory of the index writer.
    pub writer_heap_bytes: usize,
    /// Documents in one rebuild page.
    pub rebuild_page_size: u32,
    /// Projections at a time.
    pub projection_concurrency: u8,
    /// Intensity of maintenance.
    pub maintenance_intensity: MaintenanceIntensity,
    /// Whether background work pauses.
    pub background_paused: bool,
}

impl IndexingBudget {
    /// Returns the time for one run.
    pub fn maximum_run_time(&self) -> (r: Duration)
        ensures
            nanoseconds(r) == self.maximum_run_time_millis * 1_000_000,
    {
        Duration::from_millis(self.maximum_run_time_millis)
    }
}

/// What a resource sample says about pressure.
#[derive(Clone, Copy, Debug, PartialEq, Eq, Structural)]
pub struct SystemPressure {
    /// Available memory in hundredths of a percent.
    pub available_memory_basis_points: Option<u16>,
    /// Processor load in hundredths of a percent.
    pub system_cpu_load_basis_points: Option<u16>,
    /// Disk load in hundredths of a percent.
    pub disk_busy_basis_points: Option<u16>,
    /// Power source.
    pub power_source: PowerSource,
    /// Charge of the battery.
    pub battery_percent: Option<u8>,
    /// Whether the user asked to save energy.
    pub energy_saver: bool,
}

/// A sample that says nothing.
pub open spec fn unknown_pressure() -> SystemPressure {
    SystemPressure {
        available_memory_basis_points: None,
        system_cpu_load_basis_points: None,
        disk_busy_basis_points: None,
        power_source: PowerSource::Unknown,
        battery_percent: None,
        energy_saver: false,
    }
}

impl Default for SystemPressure {
    fn default() -> (r: Self)
        ensures
            r == unknown_pressure(),
    {
        SystemPressure {
            available_memory_basis_points: None,
            system_cpu_load_basis_points: None,
            disk_busy_basis_points: None,
            power_source: PowerSource::Unknown,
            battery_percent: None,
            energy_saver: false,
        }
    }
}

/// The share of memory that is available, in hundredths of a percent; unknown without both
/// numbers or without memory.
pub open spec fn memory_basis_points(total: Option<u64>, available: Option<u64>) -> Option<u16> {
    match (total, available) {
        (Some(total), Some(available)) => if total == 0 {
            None
        } else {
            let usable: int = if available <= total {
                available as int
            } else {
                total as int
            };
            Some((usable * 10_000 / total as int) as u16)
        },
        _ => None,
    }
}

/// The pressure that a sample shows.
pub open spec fn pressure_of(resources: SystemResources) -> SystemPressure {
    SystemPressure {
        available_memory_basis_points: memory_basis_points(
            resources.total_memory_bytes,
            resources.available_memory_bytes,
        ),
        system_cpu_load_basis_points: resources.system_cpu_load_basis_points,
        disk_busy_basis_points: resources.storage_busy_basis_points,
        power_source: resources.power_source,
        battery_percent: resources.battery_percent,
        energy_saver: resources.energy_saver,
    }
}

impl FromSpecImpl<&SystemResources> for SystemPressure {
    open spec fn obeys_from_spec() -> bool {
        true
    }

    open spec fn from_spec(resources: &SystemResources) -> Self {
        pressure_of(*resources)
    }
}

impl From<&SystemResources> for SystemPressure {
    fn from(resources: &SystemResources) -> (r: Self) {
        let available_memory_basis_points = match (
            resources.total_memory_bytes,
            resources.available_memory_bytes,
        ) {
            (Some(total), Some(available)) => {
                if total == 0 {
                    None
                } else {
                    let usable: u64 = if available <= total {
                        available
                    } else {
                        total
                    };
                    let scaled: u128 = usable as u128 * 10_000;
                    let points: u128 = scaled / total as u128;
                    proof {
                        assert(points <= 10_000) by (nonlinear_arith)
                            requires
                                points == (usable as int * 10_000) / (total as int),
                                usable <= total,
                                total > 0,
                        ;
                    }
                    Some(points as u16)
                }
            },
            _ => None,
        };
        SystemPressure {
            available_memory_basis_points,
            system_cpu_load_basis_points: resources.system_cpu_load_basis_points,
            disk_busy_basis_points: resources.storage_busy_basis_points,
            power_source: resources.power_source,
            battery_percent: resources.battery_percent,
            energy_saver: resources.energy_saver,
        }
    }
}

/// What the user and the index are doing.
#[derive(Clone, Copy, Debug, PartialEq, Eq, Structural)]
pub struct WorkloadState {
    /// The user is working now.
    pub user_active: bool,
    /// The user has been away for long enough.
    pub user_idle: bool,
    /// Changes that wait to be indexed.
    pub backlog_mutations: u64,
}

/// An idle index and a user about whom nothing is known.
pub open spec fn no_workload() -> WorkloadState {
    WorkloadState { user_active: false, user_idle: false, backlog_mutations: 0 }
}

impl Default for WorkloadState {
    fn default() -> (r: Self)
        ensures
            r == no_workload(),
    {
        WorkloadState { user_active: false, user_idle: false, backlog_mutations: 0 }
    }
}

/// Thresholds of the policy.
#[derive(Clone, Copy, Debug, PartialEq, Eq, Structural)]
pub struct GovernorConfig {
    /// Search latency that still is acceptable.
    pub search_sla_millis: u64,
    /// Available memory at or below which memory is short.
    pub low_memory_basis_points: u16,
    /// Available memory at or below which work pauses at once.
    pub critical_memory_basis_points: u16,
    /// Processor load at or above which it is high.
    pub high_cpu_basis_points: u16,
    /// Disk load at or above which it is high.
    pub high_disk_basis_points: u16,
    /// Pressured windows before work pauses.
    pub pressure_windows: u8,
    /// Healthy windows before work resumes.
    pub recovery_windows: u8,
    /// Windows after a change of mode in which work does not resume.
    pub cooldown_windows: u8,
    /// Windows for which one request counts as user activity.
    pub interactive_hold_windows: u8,
    /// Time without input after which the user is away.
    pub idle_boost_after_millis: u64,
}

/// The thresholds that apply unless others are given.
pub open spec fn default_config() -> GovernorConfig {
    GovernorConfig {
        search_sla_millis: 75,
        low_memory_basis_points: 1_000,
        critical_memory_basis_points: 500,
        high_cpu_basis_points: 9_000,
        high_disk_basis_points: 9_000,
        pressure_windows: 2,
        recovery_windows: 5,
        cooldown_windows: 3,
        interactive_hold_windows: 3,
        idle_boost_after_millis: 300_000,
    }
}

impl Default for GovernorConfig {
    fn default() -> (r: Self)
        ensures
            r == default_config(),
    {
        GovernorConfig {
            search_sla_millis: 75,
            low_memory_basis_points: 1_000,
            critical_memory_basis_points: 500,
            high_cpu_basis_points: 9_000,
            high_disk_basis_points: 9_000,
            pressure_windows: 2,
            recovery_windows: 5,
            cooldown_windows: 3,
            interactive_hold_windows: 3,
            idle_boost_after_millis: 300_000,
        }
    }
}

/// Why a mode was chosen.
#[derive(Clone, Copy, Debug, PartialEq, Eq, Structural)]
pub enum DecisionReason {
    /// Nothing was reported yet.
    Startup,
    /// The user is working.
    UserActive,
    /// A search took too long.
    SearchSla,
    /// The machine is under load.
    SystemPressure,
    /// Memory is about to run out.
    CriticalMemory,
    /// The machine cannot be measured.
    ResourceTelemetryUnavailable,
    /// The machine runs on battery.
    Battery,
    /// The user asked to save energy.
    EnergySaver,
    /// Nothing speaks against background work.
    Balanced,
    /// The user is away and work has piled up.
    IdleBacklog,
}

/// What background work may do now, and why.
#[derive(Clone, Copy, Debug, PartialEq, Eq, Structural)]
pub struct GovernorDecision {
    /// The mode.
    pub mode: GovernorMode,
    /// Its bounds.
    pub budget: IndexingBudget,
    /// Why it was chosen.
    pub reason: DecisionReason,
    /// How often the mode has changed.
    pub transition_sequence: u64,
}

/// Everything the policy remembers.
#[derive(Clone, Copy, Debug, PartialEq, Eq, Structural)]
pub struct GovernorState {
    /// Thresholds.
    pub config: GovernorConfig,
    /// Current mode.
    pub mode: GovernorMode,
    /// Why it was chosen.
    pub reason: DecisionReason,
    /// Last sample.
    pub pressure: SystemPressure,
    /// Whether the last sample could be taken.
    pub resource_available: bool,
    /// Whether sampling failed and trust must be won back.
    pub resource_recovery_required: bool,
    /// Last workload.
    pub workload: WorkloadState,
    /// Pressured windows in a row.
    pub pressure_streak: u8,
    /// Healthy windows in a row.
    pub recovery_streak: u8,
    /// Windows left in which work does not resume.
    pub cooldown_remaining: u8,
    /// Windows left that count as user activity.
    pub interactive_remaining: u8,
    /// How often the mode has changed.
    pub transition_sequence: u64,
}

/// One more, held at the largest value.
pub open spec fn one_more(value: u8) -> u8 {
    if value == u8::MAX {
        u8::MAX
    } else {
        (value + 1) as u8
    }
}

/// One less, held at zero.
pub open spec fn one_less(value: u8) -> u8 {
    if value == 0 {
        0
    } else {
        (value - 1) as u8
    }
}

/// The bounds of a mode.
pub open spec fn budget_of(mode: GovernorMode, energy_saver: bool) -> IndexingBudget {
    match mode {
        GovernorMode::Active => IndexingBudget {
            maximum_batch_mutations: 0,
            maximum_batches: 0,
            maximum_run_time_millis: 0,
            writer_heap_bytes: (32 * MIB) as usize,
            rebuild_page_size: 1_000,
            projection_concurrency: 0,
            maintenance_intensity: MaintenanceIntensity::Paused,
            background_paused: true,
        },
        GovernorMode::Balanced => IndexingBudget {
            maximum_batch_mutations: 5_000,
            maximum_batches: 20,
            maximum_run_time_millis: 5_000,
            writer_heap_bytes: (64 * MIB) as usize,
            rebuild_page_size: 5_000,
            projection_concurrency: 1,
            maintenance_intensity: MaintenanceIntensity::Normal,
            background_paused: false,
        },
        GovernorMode::IdleBoost => IndexingBudget {
            maximum_batch_mutations: 10_000,
            maximum_batches: 100,
            maximum_run_time_millis: 30_000,
            writer_heap_bytes: (128 * MIB) as usize,
            rebuild_page_size: 10_000,
            projection_concurrency: 1,
            maintenance_intensity: MaintenanceIntensity::Elevated,
            background_paused: false,
        },
        GovernorMode::Pressure => IndexingBudget {
            maximum_batch_mutations: 128,
            maximum_batches: 0,
            maximum_run_time_millis: 0,
            writer_heap_bytes: (32 * MIB) as usize,
            rebuild_page_size: 500,
            projection_concurrency: 0,
            maintenance_intensity: MaintenanceIntensity::Paused,
            background_paused: true,
        },
        GovernorMode::Battery => IndexingBudget {
            maximum_batch_mutations: if energy_saver { 0 } else { 256 },
            maximum_batches: if energy_saver { 0 } else { 1 },
            maximum_run_time_millis: if energy_saver { 0 } else { 250 },
            writer_heap_bytes: (32 * MIB) as usize,
            rebuild_page_size: 1_000,
            projection_concurrency: if energy_saver { 0 } else { 1 },
            maintenance_intensity: if energy_saver {
                MaintenanceIntensity::Paused
            } else {
                MaintenanceIntensity::Minimal
            },
            background_paused: energy_saver,
        },
    }
}

/// The decision that a state stands for.
pub open spec fn decision_of(s: GovernorState) -> GovernorDecision {
    GovernorDecision {
        mode: s.mode,
        budget: budget_of(s.mode, s.pressure.energy_saver),
        reason: s.reason,
        transition_sequence: s.transition_sequence,
    }
}

/// The state before anything was reported.
pub open spec fn initial_state(config: GovernorConfig) -> GovernorState {
    GovernorState {
        config,
        mode: GovernorMode::Balanced,
        reason: DecisionReason::Startup,
        pressure: unknown_pressure(),
        resource_available: true,
        resource_recovery_required: false,
        workload: no_workload(),
        pressure_streak: 0,
        recovery_streak: 0,
        cooldown_remaining: 0,
        interactive_remaining: 0,
        transition_sequence: 0,
    }
}

/// Goes over to a mode. A change of mode counts and starts a cooldown.
pub open spec fn enter(s: GovernorState, mode: GovernorMode, reason: DecisionReason) -> GovernorState {
    if s.mode == mode {
        GovernorState { reason, ..s }
    } else {
        GovernorState {
            mode,
            reason,
            transition_sequence: if s.transition_sequence == u64::MAX {
                u64::MAX
            } else {
                (s.transition_sequence + 1) as u64
            },
            cooldown_remaining: s.config.cooldown_windows,
            ..s
        }
    }
}

/// Memory is about to run out.
pub open spec fn memory_is_critical(s: GovernorState) -> bool {
    s.pressure.available_memory_basis_points matches Some(value) && value
        <= s.config.critical_memory_basis_points
}

/// Memory, processor or disk is short.
pub open spec fn is_pressured(s: GovernorState) -> bool {
    ||| s.pressure.available_memory_basis_points matches Some(value) && value
        <= s.config.low_memory_basis_points
    ||| s.pressure.system_cpu_load_basis_points matches Some(value) && value
        >= s.config.high_cpu_basis_points
    ||| s.pressure.disk_busy_basis_points matches Some(value) && value
        >= s.config.high_disk_basis_points
}

/// The measurements show nothing that is short.
pub open spec fn is_healthy(s: GovernorState) -> bool {
    !memory_is_critical(s) && !is_pressured(s)
}

/// The user is working.
pub open spec fn is_interactive(s: GovernorState) -> bool {
    s.workload.user_active || s.interactive_remaining > 0
}

/// The user is away, work waits, and the machine is on mains.
pub open spec fn may_boost(s: GovernorState) -> bool {
    s.workload.user_idle && s.workload.backlog_mutations > 0 && s.pressure.power_source
        == PowerSource::Ac
}

/// What holds power back: activity first, then the energy saver, then the battery.
pub open spec fn held_back(s: GovernorState) -> Option<GovernorState> {
    if is_interactive(s) {
        Some(
            enter(
                GovernorState { recovery_streak: 0, ..s },
                GovernorMode::Active,
                DecisionReason::UserActive,
            ),
        )
    } else if s.pressure.energy_saver {
        Some(enter(s, GovernorMode::Battery, DecisionReason::EnergySaver))
    } else if s.pressure.power_source == PowerSource::Battery {
        Some(enter(s, GovernorMode::Battery, DecisionReason::Battery))
    } else {
        None
    }
}

/// A healthy window: it counts towards recovery, and enough of them let work resume.
pub open spec fn recovering(s: GovernorState, count_window: bool) -> GovernorState {
    let next = counted(s, count_window);
    let (mode, reason) = if may_boost(next) {
        (GovernorMode::IdleBoost, DecisionReason::IdleBacklog)
    } else {
        (GovernorMode::Balanced, DecisionReason::Balanced)
    };
    if next.mode == mode {
        GovernorState { reason, ..next }
    } else if may_relax(next) {
        GovernorState { recovery_streak: 0, ..enter(next, mode, reason) }
    } else {
        next
    }
}

/// A pressured window: enough of them in a row pause the work.
pub open spec fn under_pressure(s: GovernorState, count_window: bool) -> GovernorState {
    let next = GovernorState {
        pressure_streak: if count_window {
            one_more(s.pressure_streak)
        } else {
            s.pressure_streak
        },
        recovery_streak: 0,
        ..s
    };
    if next.pressure_streak >= next.config.pressure_windows {
        enter(next, GovernorMode::Pressure, DecisionReason::SystemPressure)
    } else {
        match held_back(next) {
            Some(held) => held,
            None => next,
        }
    }
}

/// A window in which the measurements are trusted.
pub open spec fn trusted_window(s: GovernorState, count_window: bool) -> GovernorState {
    if memory_is_critical(s) {
        enter(
            GovernorState { recovery_streak: 0, ..s },
            GovernorMode::Pressure,
            DecisionReason::CriticalMemory,
        )
    } else if is_pressured(s) {
        under_pressure(s, count_window)
    } else {
        let calm = GovernorState { pressure_streak: 0, ..s };
        match held_back(calm) {
            Some(next) => next,
            None => recovering(calm, count_window),
        }
    }
}

/// Without measurements the work pauses.
pub open spec fn untrusted(s: GovernorState) -> GovernorState {
    enter(s, GovernorMode::Pressure, DecisionReason::ResourceTelemetryUnavailable)
}

/// The state when no measurement could be taken.
pub open spec fn cut_off(s: GovernorState) -> GovernorState {
    untrusted(
        GovernorState {
            pressure: unknown_pressure(),
            resource_available: false,
            resource_recovery_required: true,
            workload: WorkloadState { user_idle: false, ..s.workload },
            pressure_streak: 0,
            recovery_streak: 0,
            interactive_remaining: 0,
            ..s
        },
    )
}

/// A window counts as healthy: one more towards recovery, one less of the cooldown.
pub open spec fn counted(s: GovernorState, count_window: bool) -> GovernorState {
    if count_window {
        GovernorState {
            recovery_streak: one_more(s.recovery_streak),
            cooldown_remaining: one_less(s.cooldown_remaining),
            ..s
        }
    } else {
        s
    }
}

/// Enough healthy windows were seen, and the cooldown is over.
pub open spec fn may_relax(s: GovernorState) -> bool {
    s.recovery_streak >= s.config.recovery_windows && s.cooldown_remaining == 0
}

/// The measurements are trusted again. The window that brings this about is the first healthy
/// one of the balanced mode; the cooldown of that mode starts after it.
pub open spec fn trusted_again(s: GovernorState, count_window: bool) -> GovernorState {
    enter(
        GovernorState {
            resource_recovery_required: false,
            recovery_streak: if count_window {
                1
            } else {
                0
            },
            ..s
        },
        GovernorMode::Balanced,
        DecisionReason::Balanced,
    )
}

/// A window after an outage: only healthy windows in a row bring the trust back.
pub open spec fn regaining(s: GovernorState, count_window: bool) -> GovernorState {
    if !is_healthy(s) {
        untrusted(GovernorState { recovery_streak: 0, ..s })
    } else if !may_relax(counted(s, count_window)) {
        untrusted(counted(s, count_window))
    } else {
        trusted_window(trusted_again(counted(s, count_window), count_window), false)
    }
}

/// One evaluation: measurements must be there, and after an outage enough healthy windows must
/// pass before they are trusted again.
pub open spec fn evaluated(s: GovernorState, count_window: bool) -> GovernorState {
    if !s.resource_available {
        untrusted(s)
    } else if s.resource_recovery_required {
        regaining(s, count_window)
    } else {
        trusted_window(s, count_window)
    }
}

/// A window has passed.
pub open spec fn window_passed(s: GovernorState) -> GovernorState {
    GovernorState { interactive_remaining: one_less(s.interactive_remaining), ..s }
}

/// Measurements can be taken and are trusted.
pub open spec fn is_trusted(s: GovernorState) -> bool {
    s.resource_available && !s.resource_recovery_required
}

/// The user is working for the next windows.
pub open spec fn held(s: GovernorState) -> GovernorState {
    GovernorState { interactive_remaining: s.config.interactive_hold_windows, ..s }
}

/// The state once the user has started a request.
pub open spec fn after_request(s: GovernorState) -> GovernorState {
    if is_trusted(s) {
        enter(held(s), GovernorMode::Active, DecisionReason::UserActive)
    } else {
        held(s)
    }
}

/// The state once a search was answered.
pub open spec fn after_search(s: GovernorState, latency_ns: nat) -> GovernorState {
    if is_trusted(s) {
        enter(
            held(s),
            GovernorMode::Active,
            if millis_rounded_up(latency_ns) > s.config.search_sla_millis {
                DecisionReason::SearchSla
            } else {
                DecisionReason::UserActive
            },
        )
    } else {
        held(s)
    }
}

/// The state once the workload changed.
pub open spec fn after_workload(s: GovernorState, workload: WorkloadState) -> GovernorState {
    if workload.user_active && is_trusted(s) {
        enter(
            held(GovernorState { workload, ..s }),
            GovernorMode::Active,
            DecisionReason::UserActive,
        )
    } else {
        GovernorState { workload, ..s }
    }
}

/// The state once the backlog changed.
pub open spec fn after_backlog(s: GovernorState, backlog_mutations: u64) -> GovernorState {
    let told = GovernorState {
        workload: WorkloadState { backlog_mutations, ..s.workload },
        ..s
    };
    if backlog_mutations == 0 && told.mode == GovernorMode::IdleBoost {
        enter(
            GovernorState { recovery_streak: 0, ..told },
            GovernorMode::Balanced,
            DecisionReason::Balanced,
        )
    } else {
        told
    }
}

/// Turns reports into decisions on background work.
pub struct ResourceGovernor {
    state: GovernorState,
}

impl View for ResourceGovernor {
    type V = GovernorState;

    closed spec fn view(&self) -> GovernorState {
        self.state
    }
}

impl Default for ResourceGovernor {
    fn default() -> (r: Self)
        ensures
            r@ == initial_state(default_config()),
    {
        ResourceGovernor::new(GovernorConfig::default())
    }
}

impl ResourceGovernor {
    /// A governor to which nothing was reported yet.
    pub fn new(config: GovernorConfig) -> (r: Self)
        ensures
            r@ == initial_state(config),
    {
        ResourceGovernor {
            state: GovernorState {
                config,
                mode: GovernorMode::Balanced,
                reason: DecisionReason::Startup,
                pressure: SystemPressure::default(),
                resource_available: true,
                resource_recovery_required: false,
                workload: WorkloadState::default(),
                pressure_streak: 0,
                recovery_streak: 0,
                cooldown_remaining: 0,
                interactive_remaining: 0,
                transition_sequence: 0,
            },
        }
    }

    /// The user has started a request: background work gives way before it runs.
    pub fn begin_interactive_request(&mut self) -> (r: GovernorDecision)
        ensures
            final(self)@ == after_request(old(self)@),
            r == decision_of(final(self)@),
    {
        self.state.interactive_remaining = self.state.config.interactive_hold_windows;
        if self.state.resource_available && !self.state.resource_recovery_required {
            self.transition(GovernorMode::Active, DecisionReason::UserActive);
        }
        self.decision()
    }

    /// A search was answered.
    pub fn report_search_latency(&mut self, latency: Duration) -> (r: GovernorDecision)
        ensures
            final(self)@ == after_search(old(self)@, nanoseconds(latency)),
            r == decision_of(final(self)@),
    {
        self.state.interactive_remaining = self.state.config.interactive_hold_windows;
        if !self.state.resource_available || self.state.resource_recovery_required {
            return self.decision();
        }
        let reason = if duration_millis_ceil(latency) > self.state.config.search_sla_millis {
            DecisionReason::SearchSla
        } else {
            DecisionReason::UserActive
        };
        self.transition(GovernorMode::Active, reason);
        self.decision()
    }

    /// A sample was taken.
    pub fn report_system_pressure(&mut self, pressure: SystemPressure) -> (r: GovernorDecision)
        ensures
            final(self)@ == evaluated(
                window_passed(
                    GovernorState { pressure, resource_available: true, ..old(self)@ },
                ),
                true,
            ),
            r == decision_of(final(self)@),
    {
        self.state.pressure = pressure;
        self.state.resource_available = true;
        if self.state.interactive_remaining > 0 {
            self.state.interactive_remaining = self.state.interactive_remaining - 1;
        }
        self.evaluate(true);
        self.decision()
    }

    /// No sample could be taken: work pauses until enough good windows have passed.
    pub fn report_resource_unavailable(&mut self) -> (r: GovernorDecision)
        ensures
            final(self)@ == cut_off(old(self)@),
            r == decision_of(final(self)@),
    {
        self.state.pressure = SystemPressure::default();
        self.state.resource_available = false;
        self.state.resource_recovery_required = true;
        self.state.workload.user_idle = false;
        self.state.pressure_streak = 0;
        self.state.recovery_streak = 0;
        self.state.interactive_remaining = 0;
        self.transition(GovernorMode::Pressure, DecisionReason::ResourceTelemetryUnavailable);
        self.decision()
    }

    /// The workload changed.
    pub fn report_workload(&mut self, workload: WorkloadState) -> (r: GovernorDecision)
        ensures
            final(self)@ == after_workload(old(self)@, workload),
            r == decision_of(final(self)@),
    {
        self.state.workload = workload;
        if workload.user_active && self.state.resource_available
            && !self.state.resource_recovery_required {
            self.state.interactive_remaining = self.state.config.interactive_hold_windows;
            self.transition(GovernorMode::Active, DecisionReason::UserActive);
        }
        self.decision()
    }

    /// The backlog changed. An empty backlog ends a boost at once.
    pub fn report_backlog(&mut self, backlog_mutations: u64) -> (r: GovernorDecision)
        ensures
            final(self)@ == after_backlog(old(self)@, backlog_mutations),
            r == decision_of(final(self)@),
    {
        self.state.workload.backlog_mutations = backlog_mutations;
        if backlog_mutations == 0 && matches!(self.state.mode, GovernorMode::IdleBoost) {
            self.state.recovery_streak = 0;
            self.transition(GovernorMode::Balanced, DecisionReason::Balanced);
        }
        self.decision()
    }

    /// The time since the last input was measured; an unknown time counts as activity and ends a
    /// boost at once.
    pub fn report_user_idle_duration(&mut self, user_idle_duration_millis: Option<u64>) -> (r:
        GovernorDecision)
        ensures
            ({
                let user_idle = user_idle_duration_millis matches Some(idle) && idle
                    >= old(self)@.config.idle_boost_after_millis;
                let told = GovernorState {
                    workload: WorkloadState { user_idle, ..old(self)@.workload },
                    ..old(self)@
                };
                final(self)@ == if !user_idle && told.mode == GovernorMode::IdleBoost {
                    enter(
                        GovernorState { recovery_streak: 0, ..told },
                        GovernorMode::Balanced,
                        DecisionReason::Balanced,
                    )
                } else {
                    evaluated(told, false)
                }
            }),
            r == decision_of(final(self)@),
    {
        self.state.workload.user_idle = match user_idle_duration_millis {
            Some(idle) => idle >= self.state.config.idle_boost_after_millis,
            None => false,
        };
        if !self.state.workload.user_idle && matches!(self.state.mode, GovernorMode::IdleBoost) {
            self.state.recovery_streak = 0;
            self.transition(GovernorMode::Balanced, DecisionReason::Balanced);
        } else {
            self.evaluate(false);
        }
        self.decision()
    }

    /// A window passed without a sample.
    pub fn advance_window(&mut self) -> (r: GovernorDecision)
        ensures
            final(self)@ == evaluated(window_passed(old(self)@), true),
            r == decision_of(final(self)@),
    {
        if self.state.interactive_remaining > 0 {
            self.state.interactive_remaining = self.state.interactive_remaining - 1;
        }
        self.evaluate(true);
        self.decision()
    }

    /// Returns what background work may do now.
    pub fn get_indexing_budget(&self) -> (r: IndexingBudget)
        ensures
            r == budget_of(self@.mode, self@.pressure.energy_saver),
    {
        budget(self.state.mode, self.state.pressure.energy_saver)
    }

    /// Returns the current decision.
    pub fn decision(&self) -> (r: GovernorDecision)
        ensures
            r == decision_of(self@),
    {
        GovernorDecision {
            mode: self.state.mode,
            budget: self.get_indexing_budget(),
            reason: self.state.reason,
            transition_sequence: self.state.transition_sequence,
        }
    }

    fn memory_critical(&self) -> (r: bool)
        ensures
            r == memory_is_critical(self@),
    {
        at_most(
            self.state.pressure.available_memory_basis_points,
            self.state.config.critical_memory_basis_points,
        )
    }

    fn pressured(&self) -> (r: bool)
        ensures
            r == is_pressured(self@),
    {
        at_most(
            self.state.pressure.available_memory_basis_points,
            self.state.config.low_memory_basis_points,
        ) || at_least(
            self.state.pressure.system_cpu_load_basis_points,
            self.state.config.high_cpu_basis_points,
        ) || at_least(
            self.state.pressure.disk_busy_basis_points,
            self.state.config.high_disk_basis_points,
        )
    }

    fn count_healthy(&mut self, count_window: bool)
        ensures
            final(self)@ == counted(old(self)@, count_window),
    {
        if count_window {
            self.state.recovery_streak = self.state.recovery_streak.saturating_add(1);
            self.state.cooldown_remaining = self.state.cooldown_remaining.saturating_sub(1);
        }
    }

    fn evaluate(&mut self, count_window: bool)
        ensures
            final(self)@ == evaluated(old(self)@, count_window),
    {
        if !self.state.resource_available {
            self.transition(GovernorMode::Pressure, DecisionReason::ResourceTelemetryUnavailable);
            return;
        }
        if !self.state.resource_recovery_required {
            self.evaluate_trusted(count_window);
            return;
        }
        if self.memory_critical() || self.pressured() {
            self.state.recovery_streak = 0;
            self.transition(GovernorMode::Pressure, DecisionReason::ResourceTelemetryUnavailable);
            return;
        }
        self.count_healthy(count_window);
        if self.state.recovery_streak < self.state.config.recovery_windows
            || self.state.cooldown_remaining > 0 {
            self.transition(GovernorMode::Pressure, DecisionReason::ResourceTelemetryUnavailable);
            return;
        }
        self.state.resource_recovery_required = false;
        self.state.recovery_streak = if count_window {
            1
        } else {
            0
        };
        self.transition(GovernorMode::Balanced, DecisionReason::Balanced);
        self.evaluate_trusted(false);
    }

    fn evaluate_trusted(&mut self, count_window: bool)
        ensures
            final(self)@ == trusted_window(old(self)@, count_window),
    {
        if self.memory_critical() {
            self.state.recovery_streak = 0;
            self.transition(GovernorMode::Pressure, DecisionReason::CriticalMemory);
            return;
        }
        let pressured = self.pressured();
        if pressured {
            if count_window {
                self.state.pressure_streak = self.state.pressure_streak.saturating_add(1);
            }
            self.state.recovery_streak = 0;
            if self.state.pressure_streak >= self.state.config.pressure_windows {
                self.transition(GovernorMode::Pressure, DecisionReason::SystemPressure);
                return;
            }
        } else {
            self.state.pressure_streak = 0;
        }
        if !self.hold_back() && !pressured {
            self.recover(count_window);
        }
    }

    fn hold_back(&mut self) -> (r: bool)
        ensures
            match held_back(old(self)@) {
                Some(next) => r && final(self)@ == next,
                None => !r && final(self)@ == old(self)@,
            },
    {
        if self.state.workload.user_active || self.state.interactive_remaining > 0 {
            self.state.recovery_streak = 0;
            self.transition(GovernorMode::Active, DecisionReason::UserActive);
            return true;
        }
        if self.state.pressure.energy_saver {
            self.transition(GovernorMode::Battery, DecisionReason::EnergySaver);
            return true;
        }
        if matches!(self.state.pressure.power_source, PowerSource::Battery) {
            self.transition(GovernorMode::Battery, DecisionReason::Battery);
            return true;
        }
        false
    }

    fn recover(&mut self, count_window: bool)
        ensures
            final(self)@ == recovering(old(self)@, count_window),
    {
        self.count_healthy(count_window);
        let (mode, reason) = if self.state.workload.user_idle
            && self.state.workload.backlog_mutations > 0 && matches!(
            self.state.pressure.power_source,
            PowerSource::Ac
        ) {
            (GovernorMode::IdleBoost, DecisionReason::IdleBacklog)
        } else {
            (GovernorMode::Balanced, DecisionReason::Balanced)
        };
        if self.state.mode == mode {
            self.state.reason = reason;
        } else if self.state.recovery_streak >= self.state.config.recovery_windows
            && self.state.cooldown_remaining == 0 {
            self.transition(mode, reason);
            self.state.recovery_streak = 0;
        }
    }

    fn transition(&mut self, mode: GovernorMode, reason: DecisionReason)
        ensures
            final(self)@ == enter(old(self)@, mode, reason),
    {
        if self.state.mode != mode {
            self.state.mode = mode;
            self.state.transition_sequence = self.state.transition_sequence.saturating_add(1);
            self.state.cooldown_remaining = self.state.config.cooldown_windows;
        }
        self.state.reason = reason;
    }
}

fn at_most(value: Option<u16>, bound: u16) -> (r: bool)
    ensures
        r == (value matches Some(v) && v <= bound),
{
    match value {
        Some(v) => v <= bound,
        None => false,
    }
}

fn at_least(value: Option<u16>, bound: u16) -> (r: bool)
    ensures
        r == (value matches Some(v) && v >= bound),
{
    match value {
        Some(v) => v >= bound,
        None => false,
    }
}

fn budget(mode: GovernorMode, energy_saver: bool) -> (r: IndexingBudget)
    ensures
        r == budget_of(mode, energy_saver),
{
    match mode {
        GovernorMode::Active => IndexingBudget {
            maximum_batch_mutations: 0,
            maximum_batches: 0,
            maximum_run_time_millis: 0,
            writer_heap_bytes: 32 * MIB,
            rebuild_page_size: 1_000,
            projection_concurrency: 0,
            maintenance_intensity: MaintenanceIntensity::Paused,
            background_paused: true,
        },
        GovernorMode::Balanced => IndexingBudget {
            maximum_batch_mutations: 5_000,
            maximum_batches: 20,
            maximum_run_time_millis: 5_000,
            writer_heap_bytes: 64 * MIB,
            rebuild_page_size: 5_000,
            projection_concurrency: 1,
            maintenance_intensity: MaintenanceIntensity::Normal,
            background_paused: false,
        },
        GovernorMode::IdleBoost => IndexingBudget {
            maximum_batch_mutations: 10_000,
            maximum_batches: 100,
            maximum_run_time_millis: 30_000,
            writer_heap_bytes: 128 * MIB,
            rebuild_page_size: 10_000,
            projection_concurrency: 1,
            maintenance_intensity: MaintenanceIntensity::Elevated,
            background_paused: false,
        },
        GovernorMode::Pressure => IndexingBudget {
            maximum_batch_mutations: 128,
            maximum_batches: 0,
            maximum_run_time_millis: 0,
            writer_heap_bytes: 32 * MIB,
            rebuild_page_size: 500,
            projection_concurrency: 0,
            maintenance_intensity: MaintenanceIntensity::Paused,
            background_paused: true,
        },
        GovernorMode::Battery => IndexingBudget {
            maximum_batch_mutations: if energy_saver { 0 } else { 256 },
            maximum_batches: if energy_saver { 0 } else { 1 },
            maximum_run_time_millis: if energy_saver { 0 } else { 250 },
            writer_heap_bytes: 32 * MIB,
            rebuild_page_size: 1_000,
            projection_concurrency: if energy_saver { 0 } else { 1 },
            maintenance_intensity: if energy_saver {
                MaintenanceIntensity::Paused
            } else {
                MaintenanceIntensity::Minimal
            },
            background_paused: energy_saver,
        },
    }
}

/// A budget is paused exactly while the user is working, while something is short, and on battery
/// while the user saves energy. A paused budget, and no other, lets nothing run: no batches, no
/// time, no projections, no maintenance. The energy saver matters on battery alone.
pub proof fn paused_budget_runs_nothing(mode: GovernorMode, energy_saver: bool)
    ensures
        ({
            let budget = budget_of(mode, energy_saver);
            &&& budget.background_paused <==> {
                ||| mode == GovernorMode::Active
                ||| mode == GovernorMode::Pressure
                ||| mode == GovernorMode::Battery && energy_saver
            }
            &&& budget.background_paused <==> budget.maximum_batches == 0
            &&& budget.background_paused <==> budget.maximum_run_time_millis == 0
            &&& budget.background_paused <==> budget.projection_concurrency == 0
            &&& budget.background_paused <==> budget.maintenance_intensity
                == MaintenanceIntensity::Paused
            &&& budget.projection_concurrency <= 1
            &&& mode != GovernorMode::Battery ==> budget == budget_of(mode, !energy_saver)
        }),
{
}

/// The writer is serial, and background work never exceeds the boosted bounds.
pub proof fn every_budget_is_bounded(mode: GovernorMode, energy_saver: bool)
    ensures
        budget_of(mode, energy_saver).maximum_batch_mutations <= 10_000,
        budget_of(mode, energy_saver).maximum_batches <= 100,
        budget_of(mode, energy_saver).maximum_run_time_millis <= 30_000,
        32 * MIB <= budget_of(mode, energy_saver).writer_heap_bytes <= 128 * MIB,
        1 <= budget_of(mode, energy_saver).rebuild_page_size,
{
}

/// A boost starts only when the user is away and not working, work waits, the machine is on mains
/// without saving energy, and the measurements are there and show nothing that is short. With the
/// current window the cooldown is over and enough healthy windows were seen.
pub proof fn boost_needs_idle_backlog_and_mains(s: GovernorState, count_window: bool)
    requires
        s.mode != GovernorMode::IdleBoost,
    ensures
        ({
            let next = evaluated(s, count_window);
            next.mode == GovernorMode::IdleBoost ==> {
                &&& next.reason == DecisionReason::IdleBacklog
                &&& next.workload.user_idle
                &&& !next.workload.user_active
                &&& next.workload.backlog_mutations > 0
                &&& next.pressure.power_source == PowerSource::Ac
                &&& !next.pressure.energy_saver
                &&& next.interactive_remaining == 0
                &&& next.resource_available
                &&& !next.resource_recovery_required
                &&& is_healthy(next)
                &&& may_relax(counted(s, count_window))
            }
        }),
{
}

/// Without measurements work pauses. After an outage it stays paused as long as something is
/// short, too few healthy windows were seen, or the cooldown lasts.
pub proof fn missing_measurements_fail_closed(s: GovernorState, count_window: bool)
    requires
        !s.resource_available || (s.resource_recovery_required && (!is_healthy(s) || !may_relax(
            counted(s, count_window),
        ))),
    ensures
        evaluated(s, count_window).mode == GovernorMode::Pressure,
        decision_of(evaluated(s, count_window)).budget.background_paused,
        evaluated(s, count_window).reason == DecisionReason::ResourceTelemetryUnavailable,
{
}

/// A window: one with a sample of its own, or one that passes without.
#[verifier::opaque]
pub open spec fn after_window(s: GovernorState, sample: Option<SystemPressure>) -> GovernorState {
    match sample {
        Some(pressure) => evaluated(
            window_passed(GovernorState { pressure, resource_available: true, ..s }),
            true,
        ),
        None => evaluated(window_passed(s), true),
    }
}

/// The state after these windows, one after the other.
pub open spec fn after_windows(s: GovernorState, windows: Seq<Option<SystemPressure>>) ->
    GovernorState
    decreases windows.len(),
{
    if windows.len() == 0 {
        s
    } else {
        after_window(after_windows(s, windows.drop_last()), windows.last())
    }
}

/// The healthy windows in a row up to now: those in which the measurements were there and showed
/// nothing that is short.
pub open spec fn healthy_run(s: GovernorState, windows: Seq<Option<SystemPressure>>) -> nat
    decreases windows.len(),
{
    let now = after_windows(s, windows);
    if windows.len() == 0 || !now.resource_available || !is_healthy(now) {
        0
    } else {
        healthy_run(s, windows.drop_last()) + 1
    }
}

/// Work goes on at the full or the boosted rate.
pub open spec fn is_relaxed(mode: GovernorMode) -> bool {
    mode == GovernorMode::Balanced || mode == GovernorMode::IdleBoost
}

/// What a trusted window does to the streak of healthy windows.
proof fn lemma_trusted(s: GovernorState, count_window: bool)
    ensures
        ({
            let next = trusted_window(s, count_window);
            &&& next.config == s.config
            &&& next.pressure == s.pressure
            &&& next.resource_available == s.resource_available
            &&& next.resource_recovery_required == s.resource_recovery_required
            &&& next.recovery_streak <= s.recovery_streak + (if count_window {
                1int
            } else {
                0
            })
            &&& !is_healthy(s) ==> next.recovery_streak == 0
            &&& s.mode == GovernorMode::Pressure && is_relaxed(next.mode) ==> is_healthy(s)
                && may_relax(counted(s, count_window))
        }),
{
}

/// What an evaluated window does: the streak of healthy windows grows by one at most and ends with
/// a window that is not healthy, and pressure relaxes only after enough healthy windows.
proof fn lemma_evaluated(s: GovernorState)
    ensures
        ({
            let next = evaluated(s, true);
            &&& next.config == s.config
            &&& next.pressure == s.pressure
            &&& next.resource_available == s.resource_available
            &&& next.recovery_streak <= s.recovery_streak + 1
            &&& s.resource_available && !is_healthy(s) ==> next.recovery_streak == 0
            &&& !s.resource_available ==> next.recovery_streak == s.recovery_streak
            &&& s.mode == GovernorMode::Pressure && is_relaxed(next.mode) ==> s.resource_available
                && is_healthy(s) && may_relax(counted(s, true))
            &&& s.resource_recovery_required && !(s.resource_available && is_healthy(s)
                && may_relax(counted(s, true))) ==> next.mode == GovernorMode::Pressure
                && next.resource_recovery_required
        }),
{
    if s.resource_available {
        if s.resource_recovery_required {
            let again = trusted_again(counted(s, true), true);
            lemma_trusted(again, false);
        } else {
            lemma_trusted(s, true);
        }
    }
}

proof fn lemma_window(s: GovernorState, sample: Option<SystemPressure>)
    ensures
        ({
            let next = after_window(s, sample);
            &&& next.config == s.config
            &&& next.recovery_streak <= s.recovery_streak + 1
            &&& next.resource_available && !is_healthy(next) ==> next.recovery_streak == 0
            &&& !next.resource_available ==> !s.resource_available && next.recovery_streak
                == s.recovery_streak
            &&& s.mode == GovernorMode::Pressure && is_relaxed(next.mode)
                ==> next.resource_available && is_healthy(next) && s.recovery_streak + 1
                >= s.config.recovery_windows
            &&& s.resource_recovery_required && !(next.resource_available && is_healthy(next)
                && s.recovery_streak + 1 >= s.config.recovery_windows) ==> next.mode
                == GovernorMode::Pressure && next.resource_recovery_required
        }),
{
    reveal(after_window);
    let now = match sample {
        Some(pressure) => window_passed(
            GovernorState { pressure, resource_available: true, ..s },
        ),
        None => window_passed(s),
    };
    lemma_evaluated(now);
    assert(is_healthy(after_window(s, sample)) == is_healthy(now));
}

/// The streak of healthy windows never counts more than were seen in a row.
proof fn lemma_streak_is_healthy(s: GovernorState, windows: Seq<Option<SystemPressure>>)
    requires
        s.recovery_streak == 0,
    ensures
        after_windows(s, windows).recovery_streak <= healthy_run(s, windows),
        after_windows(s, windows).config == s.config,
        !after_windows(s, windows).resource_available ==> after_windows(
            s,
            windows,
        ).recovery_streak == 0,
    decreases windows.len(),
{
    if windows.len() > 0 {
        lemma_streak_is_healthy(s, windows.drop_last());
        lemma_window(after_windows(s, windows.drop_last()), windows.last());
    }
}

/// Pressure gives way to a relaxed mode only after enough healthy windows in a row: from any state
/// in which none is counted yet, whatever the windows show, the window in which the work leaves
/// the pressure for the balanced or the boosted mode ends at least as many healthy windows in a
/// row as recovery asks for.
pub proof fn relaxing_needs_healthy_windows(s: GovernorState, windows: Seq<Option<SystemPressure>>)
    requires
        s.recovery_streak == 0,
        windows.len() > 0,
        after_windows(s, windows.drop_last()).mode == GovernorMode::Pressure,
        is_relaxed(after_windows(s, windows).mode),
    ensures
        healthy_run(s, windows) >= s.config.recovery_windows,
{
    lemma_streak_is_healthy(s, windows.drop_last());
    lemma_window(after_windows(s, windows.drop_last()), windows.last());
}

/// Each way into the pressure starts the count of healthy windows anew.
pub proof fn pressure_starts_the_count_anew(s: GovernorState, count_window: bool)
    ensures
        cut_off(s).mode == GovernorMode::Pressure,
        cut_off(s).recovery_streak == 0,
        s.resource_available && s.mode != GovernorMode::Pressure && evaluated(s, count_window).mode
            == GovernorMode::Pressure && !s.resource_recovery_required ==> evaluated(
            s,
            count_window,
        ).recovery_streak == 0,
        s.resource_available && !is_healthy(s) ==> evaluated(s, count_window).recovery_streak == 0,
{
}

/// An outage pauses the work until enough healthy windows in a row were seen: as long as fewer
/// were, whatever the windows show, it stays paused.
pub proof fn outage_outlasts_unhealthy_windows(
    s: GovernorState,
    windows: Seq<Option<SystemPressure>>,
)
    requires
        forall|n: int|
            0 < n <= windows.len() ==> healthy_run(cut_off(s), #[trigger] windows.take(n))
                < s.config.recovery_windows,
    ensures
        after_windows(cut_off(s), windows).mode == GovernorMode::Pressure,
        after_windows(cut_off(s), windows).resource_recovery_required,
        decision_of(after_windows(cut_off(s), windows)).budget.background_paused,
    decreases windows.len(),
{
    if windows.len() > 0 {
        let before = windows.drop_last();
        assert forall|n: int| 0 < n <= before.len() implies healthy_run(
            cut_off(s),
            #[trigger] before.take(n),
        ) < s.config.recovery_windows by {
            assert(before.take(n) =~= windows.take(n));
        }
        assert(windows.take(windows.len() as int) =~= windows);
        outage_outlasts_unhealthy_windows(s, before);
        lemma_streak_is_healthy(cut_off(s), before);
        lemma_window(after_windows(cut_off(s), before), windows.last());
    }
}

/// Critical memory pauses the work in the very window that shows it.
pub proof fn critical_memory_pauses_at_once(s: GovernorState, count_window: bool)
    requires
        memory_is_critical(s),
    ensures
        evaluated(s, count_window).mode == GovernorMode::Pressure,
        decision_of(evaluated(s, count_window)).budget.background_paused,
{
}

/// While the user saves energy, no evaluation lets background work run.
pub proof fn energy_saver_pauses(s: GovernorState, count_window: bool)
    requires
        s.pressure.energy_saver,
    ensures
        decision_of(evaluated(s, count_window)).budget.background_paused,
{
}

/// While the user is working, no evaluation lets background work run.
pub proof fn activity_pauses(s: GovernorState, count_window: bool)
    requires
        is_interactive(s),
    ensures
        decision_of(evaluated(s, count_window)).budget.background_paused,
{
}

/// Transitions are counted: the count never falls, and while it stands still the mode stands
/// still. The thresholds and the reported workload are not touched.
pub proof fn transitions_are_counted(s: GovernorState, count_window: bool)
    ensures
        evaluated(s, count_window).transition_sequence >= s.transition_sequence,
        evaluated(s, count_window).transition_sequence == s.transition_sequence
            && s.transition_sequence < u64::MAX ==> evaluated(s, count_window).mode == s.mode,
        evaluated(s, count_window).config == s.config,
        evaluated(s, count_window).workload == s.workload,
        evaluated(s, count_window).pressure == s.pressure,
{
}

/// One pressured window does not pause work that needs confirmation by more of them.
pub proof fn pressure_needs_confirmation(s: GovernorState)
    requires
        is_trusted(s),
        is_pressured(s),
        !memory_is_critical(s),
        s.mode != GovernorMode::Pressure,
        one_more(s.pressure_streak) < s.config.pressure_windows,
    ensures
        evaluated(s, true).mode != GovernorMode::Pressure,
        evaluated(s, true).pressure_streak == one_more(s.pressure_streak),
{
}

/// The pressured windows in a row up to now. A window with critical memory pauses the work on its
/// own: it neither counts nor ends the row.
pub open spec fn pressured_run(s: GovernorState, windows: Seq<Option<SystemPressure>>) -> nat
    decreases windows.len(),
{
    let now = after_windows(s, windows);
    if windows.len() == 0 {
        0
    } else if memory_is_critical(now) {
        pressured_run(s, windows.drop_last())
    } else if is_pressured(now) {
        pressured_run(s, windows.drop_last()) + 1
    } else {
        0
    }
}

/// What a trusted window does to the streak of pressured windows.
proof fn lemma_trusted_streak(s: GovernorState, count_window: bool)
    ensures
        ({
            let next = trusted_window(s, count_window);
            &&& next.config == s.config
            &&& next.pressure == s.pressure
            &&& next.resource_available == s.resource_available
            &&& next.resource_recovery_required == s.resource_recovery_required
            &&& next.pressure_streak <= s.pressure_streak + 1
            &&& memory_is_critical(s) ==> next.pressure_streak == s.pressure_streak && next.reason
                == DecisionReason::CriticalMemory
            &&& is_healthy(s) ==> next.pressure_streak == 0
            &&& is_healthy(s) && s.mode != GovernorMode::Pressure ==> next.mode
                != GovernorMode::Pressure
            &&& next.mode == GovernorMode::Pressure && s.mode != GovernorMode::Pressure
                && next.reason == DecisionReason::SystemPressure ==> next.pressure_streak
                >= s.config.pressure_windows
        }),
{
}

/// What an evaluated window does to the streak of pressured windows.
proof fn lemma_evaluated_streak(s: GovernorState)
    requires
        s.resource_recovery_required || !s.resource_available ==> s.pressure_streak == 0,
    ensures
        ({
            let next = evaluated(s, true);
            &&& next.config == s.config
            &&& next.pressure == s.pressure
            &&& !is_trusted(next) ==> next.pressure_streak == 0
            &&& next.pressure_streak <= s.pressure_streak + 1
            &&& memory_is_critical(s) ==> next.pressure_streak == s.pressure_streak
            &&& is_healthy(s) ==> next.pressure_streak == 0
            &&& next.mode == GovernorMode::Pressure && s.mode != GovernorMode::Pressure
                && next.reason == DecisionReason::SystemPressure ==> next.pressure_streak
                >= s.config.pressure_windows
        }),
{
    if s.resource_available {
        if s.resource_recovery_required {
            lemma_trusted_streak(trusted_again(counted(s, true), true), false);
        } else {
            lemma_trusted_streak(s, true);
        }
    }
}

/// What a window does to the streak of pressured windows.
proof fn lemma_pressured_window(s: GovernorState, sample: Option<SystemPressure>)
    requires
        !is_trusted(s) ==> s.pressure_streak == 0,
    ensures
        ({
            let next = after_window(s, sample);
            &&& next.config == s.config
            &&& !is_trusted(next) ==> next.pressure_streak == 0
            &&& memory_is_critical(next) ==> next.pressure_streak == s.pressure_streak
            &&& is_healthy(next) ==> next.pressure_streak == 0
            &&& next.pressure_streak <= s.pressure_streak + 1
            &&& s.mode != GovernorMode::Pressure && next.mode == GovernorMode::Pressure
                && next.reason == DecisionReason::SystemPressure ==> next.pressure_streak
                >= s.config.pressure_windows
        }),
{
    reveal(after_window);
    let now = match sample {
        Some(pressure) => window_passed(
            GovernorState { pressure, resource_available: true, ..s },
        ),
        None => window_passed(s),
    };
    lemma_evaluated_streak(now);
}

proof fn lemma_streak_is_pressured(s: GovernorState, windows: Seq<Option<SystemPressure>>)
    requires
        s.pressure_streak == 0,
    ensures
        ({
            let now = after_windows(s, windows);
            &&& now.config == s.config
            &&& now.pressure_streak <= pressured_run(s, windows)
            &&& !is_trusted(now) ==> now.pressure_streak == 0
        }),
    decreases windows.len(),
{
    if windows.len() > 0 {
        lemma_streak_is_pressured(s, windows.drop_last());
        lemma_pressured_window(after_windows(s, windows.drop_last()), windows.last());
    }
}

/// Load pauses the work only when enough windows in a row were pressured: separate peaks do not
/// add up, whatever the windows show.
pub proof fn load_pauses_only_after_a_row_of_pressured_windows(
    s: GovernorState,
    windows: Seq<Option<SystemPressure>>,
)
    requires
        s.pressure_streak == 0,
        windows.len() > 0,
        after_windows(s, windows.drop_last()).mode != GovernorMode::Pressure,
        after_windows(s, windows).mode == GovernorMode::Pressure,
        after_windows(s, windows).reason == DecisionReason::SystemPressure,
    ensures
        pressured_run(s, windows) >= s.config.pressure_windows,
{
    lemma_streak_is_pressured(s, windows);
    lemma_streak_is_pressured(s, windows.drop_last());
    lemma_pressured_window(after_windows(s, windows.drop_last()), windows.last());
}

/// A window that shows no load ends the row of pressured windows, whatever else holds the work
/// back; one that shows it makes the row longer by one.
pub proof fn a_calm_window_ends_the_row(s: GovernorState)
    requires
        is_trusted(s),
        !memory_is_critical(s),
    ensures
        !is_pressured(s) ==> evaluated(s, true).pressure_streak == 0,
        is_pressured(s) && s.pressure_streak < u8::MAX ==> evaluated(s, true).pressure_streak
            == s.pressure_streak + 1,
        evaluated(s, false).pressure_streak == (if is_pressured(s) {
            s.pressure_streak
        } else {
            0
        }),
{
}

/// As many pressured windows in a row as the thresholds ask for pause the work, from every state
/// in which measurements are trusted.
pub proof fn a_row_of_pressured_windows_pauses(s: GovernorState)
    requires
        is_trusted(s),
        is_pressured(s),
        s.pressure_streak < u8::MAX,
        s.pressure_streak + 1 >= s.config.pressure_windows,
    ensures
        evaluated(s, true).mode == GovernorMode::Pressure,
        decision_of(evaluated(s, true)).budget.background_paused,
        !memory_is_critical(s) ==> evaluated(s, true).reason == DecisionReason::SystemPressure,
        memory_is_critical(s) ==> evaluated(s, true).reason == DecisionReason::CriticalMemory,
{
}

/// Each measurement counts on its own: memory is short at or below its threshold, the processor
/// and the disk are short at or above theirs, and what was not measured is not short.
pub proof fn each_measurement_counts_on_its_own(s: GovernorState, value: u16)
    requires
        s.pressure == unknown_pressure(),
    ensures
        is_healthy(s),
        ({
            let memory = GovernorState {
                pressure: SystemPressure {
                    available_memory_basis_points: Some(value),
                    ..s.pressure
                },
                ..s
            };
            let processor = GovernorState {
                pressure: SystemPressure { system_cpu_load_basis_points: Some(value), ..s.pressure },
                ..s
            };
            let disk = GovernorState {
                pressure: SystemPressure { disk_busy_basis_points: Some(value), ..s.pressure },
                ..s
            };
            &&& memory_is_critical(memory) <==> value <= s.config.critical_memory_basis_points
            &&& is_pressured(memory) <==> value <= s.config.low_memory_basis_points
            &&& is_pressured(processor) <==> value >= s.config.high_cpu_basis_points
            &&& is_pressured(disk) <==> value >= s.config.high_disk_basis_points
            &&& !memory_is_critical(processor) && !memory_is_critical(disk)
        }),
{
}

/// A machine is short of something exactly when one of its measurements alone says so.
pub proof fn measurements_add_up(s: GovernorState)
    ensures
        ({
            let nothing = GovernorState { pressure: unknown_pressure(), ..s };
            let memory = GovernorState {
                pressure: SystemPressure {
                    available_memory_basis_points: s.pressure.available_memory_basis_points,
                    ..unknown_pressure()
                },
                ..s
            };
            let processor = GovernorState {
                pressure: SystemPressure {
                    system_cpu_load_basis_points: s.pressure.system_cpu_load_basis_points,
                    ..unknown_pressure()
                },
                ..s
            };
            let disk = GovernorState {
                pressure: SystemPressure {
                    disk_busy_basis_points: s.pressure.disk_busy_basis_points,
                    ..unknown_pressure()
                },
                ..s
            };
            &&& is_pressured(s) <==> is_pressured(memory) || is_pressured(processor)
                || is_pressured(disk)
            &&& memory_is_critical(s) <==> memory_is_critical(memory)
            &&& is_healthy(nothing)
        }),
{
}

/// Where measurements are trusted and nothing is short, the decision follows from what the user
/// does and from the power: a working user comes first, then the energy saver, then the battery.
pub proof fn power_and_activity_decide(s: GovernorState, count_window: bool)
    requires
        is_trusted(s),
        is_healthy(s),
    ensures
        ({
            let next = evaluated(s, count_window);
            let working = s.workload.user_active || s.interactive_remaining > 0;
            let saving = !working && s.pressure.energy_saver;
            let on_battery = !working && !saving && s.pressure.power_source
                == PowerSource::Battery;
            &&& working ==> next.mode == GovernorMode::Active && next.reason
                == DecisionReason::UserActive && next.recovery_streak == 0
            &&& saving ==> next.mode == GovernorMode::Battery && next.reason
                == DecisionReason::EnergySaver
            &&& on_battery ==> next.mode == GovernorMode::Battery && next.reason
                == DecisionReason::Battery
            &&& !working && !saving && !on_battery ==> next.mode == s.mode || is_relaxed(next.mode)
        }),
{
}

/// Healthy windows are not wasted: once enough were seen and the cooldown is over, an idle user
/// with work waiting on mains gets the boost, and any other the balanced mode.
pub proof fn enough_healthy_windows_relax(s: GovernorState)
    requires
        is_trusted(s),
        is_healthy(s),
        !s.workload.user_active,
        s.interactive_remaining == 0,
        !s.pressure.energy_saver,
        s.pressure.power_source != PowerSource::Battery,
        s.recovery_streak < u8::MAX,
    ensures
        ({
            let next = evaluated(s, true);
            let boost = s.workload.user_idle && s.workload.backlog_mutations > 0
                && s.pressure.power_source == PowerSource::Ac;
            let wanted = if boost {
                GovernorMode::IdleBoost
            } else {
                GovernorMode::Balanced
            };
            &&& s.recovery_streak + 1 >= s.config.recovery_windows && s.cooldown_remaining <= 1
                ==> next.mode == wanted
            &&& next.mode != s.mode ==> next.mode == wanted && s.recovery_streak + 1
                >= s.config.recovery_windows && s.cooldown_remaining <= 1 && next.recovery_streak
                == 0 && next.cooldown_remaining == s.config.cooldown_windows
            &&& next.mode == s.mode ==> next.recovery_streak == s.recovery_streak + 1
                && next.cooldown_remaining == (if s.cooldown_remaining == 0 {
                0
            } else {
                s.cooldown_remaining - 1
            })
            &&& next.mode == wanted ==> next.reason == (if boost {
                DecisionReason::IdleBacklog
            } else {
                DecisionReason::Balanced
            })
        }),
{
}

/// The share of memory that is available lies between nothing and everything, is exact at both
/// ends, and grows with what is available; it is known exactly when both numbers are and there is
/// memory at all.
pub proof fn memory_share_is_a_share(total: Option<u64>, available: Option<u64>, more: u64)
    ensures
        memory_basis_points(total, available) is Some <==> total is Some && available is Some
            && total->0 > 0,
        memory_basis_points(total, available) matches Some(share) ==> {
            &&& share <= 10_000
            &&& available->0 >= total->0 ==> share == 10_000
            &&& available->0 <= total->0 ==> share * total->0 <= available->0 * 10_000 < (share + 1)
                * total->0
            &&& available->0 <= more ==> share <= memory_basis_points(total, Some(more))->0
        },
{
    if let (Some(t), Some(a)) = (total, available) {
        if t > 0 {
            let usable: int = if a <= t {
                a as int
            } else {
                t as int
            };
            let larger: int = if more <= t {
                more as int
            } else {
                t as int
            };
            let q = usable * 10_000 / t as int;
            let p = larger * 10_000 / t as int;
            vstd::arithmetic::div_mod::lemma_fundamental_div_mod(usable * 10_000, t as int);
            vstd::arithmetic::div_mod::lemma_fundamental_div_mod(larger * 10_000, t as int);
            let r = (usable * 10_000) % (t as int);
            let r2 = (larger * 10_000) % (t as int);
            assert(0 <= q <= 10_000 && q * t <= usable * 10_000 < (q + 1) * t) by (nonlinear_arith)
                requires
                    t > 0,
                    0 <= usable <= t,
                    usable * 10_000 == t * q + r,
                    0 <= r < t,
            ;
            assert(0 <= p <= 10_000) by (nonlinear_arith)
                requires
                    t > 0,
                    0 <= larger <= t,
                    larger * 10_000 == t * p + r2,
                    0 <= r2 < t,
            ;
            if usable == t {
                assert(q == 10_000) by (nonlinear_arith)
                    requires
                        t > 0,
                        t * 10_000 == t * q + r,
                        0 <= r < t,
                ;
            }
            if a <= more {
                assert(q <= p) by (nonlinear_arith)
                    requires
                        t > 0,
                        usable <= larger,
                        usable * 10_000 == t * q + r,
                        larger * 10_000 == t * p + r2,
                        0 <= r < t,
                        0 <= r2 < t,
                ;
            }
        }
    }
}

/// A sample is told as it was taken.
pub proof fn samples_are_told_as_they_are(resources: SystemResources)
    ensures
        ({
            let told = pressure_of(resources);
            &&& told.system_cpu_load_basis_points == resources.system_cpu_load_basis_points
            &&& told.disk_busy_basis_points == resources.storage_busy_basis_points
            &&& told.power_source == resources.power_source
            &&& told.battery_percent == resources.battery_percent
            &&& told.energy_saver == resources.energy_saver
            &&& told.available_memory_basis_points is Some ==> resources.total_memory_bytes is Some
        }),
{
}

/// The modes are ordered by how much they let run, and each step up runs strictly more: nothing on
/// the way, a little on battery, then the balanced and the boosted amount.
pub proof fn budgets_grow_with_the_mode(energy_saver: bool)
    ensures
        ({
            let active = budget_of(GovernorMode::Active, energy_saver);
            let pressure = budget_of(GovernorMode::Pressure, energy_saver);
            let battery = budget_of(GovernorMode::Battery, false);
            let balanced = budget_of(GovernorMode::Balanced, energy_saver);
            let boost = budget_of(GovernorMode::IdleBoost, energy_saver);
            &&& active.background_paused && pressure.background_paused
            &&& !battery.background_paused && !balanced.background_paused
                && !boost.background_paused
            &&& battery.maximum_batch_mutations < balanced.maximum_batch_mutations
                < boost.maximum_batch_mutations
            &&& 0 < battery.maximum_batches < balanced.maximum_batches < boost.maximum_batches
            &&& 0 < battery.maximum_run_time_millis < balanced.maximum_run_time_millis
                < boost.maximum_run_time_millis
            &&& battery.writer_heap_bytes < balanced.writer_heap_bytes < boost.writer_heap_bytes
            &&& battery.rebuild_page_size < balanced.rebuild_page_size < boost.rebuild_page_size
            &&& battery.maintenance_intensity == MaintenanceIntensity::Minimal
            &&& balanced.maintenance_intensity == MaintenanceIntensity::Normal
            &&& boost.maintenance_intensity == MaintenanceIntensity::Elevated
        }),
{
}

/// A decision shows the state that it was made in.
pub proof fn decisions_show_the_state(s: GovernorState)
    ensures
        decision_of(s).mode == s.mode,
        decision_of(s).reason == s.reason,
        decision_of(s).transition_sequence == s.transition_sequence,
        decision_of(s).budget.background_paused <==> s.mode == GovernorMode::Active || s.mode
            == GovernorMode::Pressure || (s.mode == GovernorMode::Battery
            && s.pressure.energy_saver),
{
}

/// A request of the user pauses the work at once and for as many windows as the thresholds say,
/// as long as measurements are trusted; every window takes one of them away.
pub proof fn requests_hold_the_work_for_some_windows(s: GovernorState)
    ensures
        held(s).interactive_remaining == s.config.interactive_hold_windows,
        held(s) == (GovernorState {
            interactive_remaining: s.config.interactive_hold_windows,
            ..s
        }),
        s.interactive_remaining > 0 ==> window_passed(s).interactive_remaining + 1
            == s.interactive_remaining,
        s.interactive_remaining == 0 ==> window_passed(s) == s,
        decision_of(
            enter(held(s), GovernorMode::Active, DecisionReason::UserActive),
        ).budget.background_paused,
{
}

/// A change of mode is counted and starts the cooldown; staying in a mode does neither.
pub proof fn changes_of_mode_start_a_cooldown(
    s: GovernorState,
    mode: GovernorMode,
    reason: DecisionReason,
)
    ensures
        ({
            let next = enter(s, mode, reason);
            &&& next.mode == mode
            &&& next.reason == reason
            &&& s.mode == mode ==> next.transition_sequence == s.transition_sequence
                && next.cooldown_remaining == s.cooldown_remaining
            &&& s.mode != mode ==> next.cooldown_remaining == s.config.cooldown_windows && (
            s.transition_sequence < u64::MAX ==> next.transition_sequence
                == s.transition_sequence + 1)
            &&& next.recovery_streak == s.recovery_streak
            &&& next.pressure_streak == s.pressure_streak
            &&& next.interactive_remaining == s.interactive_remaining
        }),
{
}

/// An outage forgets what was measured and who was idle, pauses the work and asks for recovery.
pub proof fn an_outage_forgets_the_measurements(s: GovernorState)
    ensures
        ({
            let next = cut_off(s);
            &&& next.mode == GovernorMode::Pressure
            &&& next.reason == DecisionReason::ResourceTelemetryUnavailable
            &&& !next.resource_available
            &&& next.resource_recovery_required
            &&& !next.workload.user_idle
            &&& next.workload.user_active == s.workload.user_active
            &&& next.workload.backlog_mutations == s.workload.backlog_mutations
            &&& next.pressure == unknown_pressure()
            &&& next.pressure_streak == 0 && next.recovery_streak == 0
            &&& next.interactive_remaining == 0
            &&& next.config == s.config
        }),
{
}

/// What the user does pauses background work at once, as long as measurements are trusted, and
/// holds it back for some windows; where they are not, the mode stays. A search that took longer
/// than it may is told apart from one that did not.
pub proof fn users_come_first(s: GovernorState, latency_ns: nat, workload: WorkloadState)
    ensures
        after_request(s).interactive_remaining == s.config.interactive_hold_windows,
        after_search(s, latency_ns).interactive_remaining == s.config.interactive_hold_windows,
        is_trusted(s) ==> decision_of(after_request(s)).budget.background_paused && decision_of(
            after_search(s, latency_ns),
        ).budget.background_paused,
        is_trusted(s) && workload.user_active ==> decision_of(
            after_workload(s, workload),
        ).budget.background_paused && after_workload(s, workload).interactive_remaining
            == s.config.interactive_hold_windows,
        !is_trusted(s) ==> after_request(s).mode == s.mode && after_search(s, latency_ns).mode
            == s.mode && after_workload(s, workload).mode == s.mode,
        !workload.user_active ==> after_workload(s, workload) == (GovernorState { workload, ..s }),
        after_workload(s, workload).workload == workload,
        is_trusted(s) && s.config.search_sla_millis < u64::MAX ==> (after_search(
            s,
            latency_ns,
        ).reason == DecisionReason::SearchSla <==> latency_ns > s.config.search_sla_millis
            * 1_000_000),
{
    milliseconds_are_rounded_up(latency_ns);
}

/// A backlog is noted as it is told and changes nothing else, but that a boost ends with it.
pub proof fn a_boost_ends_with_the_backlog(s: GovernorState, backlog_mutations: u64)
    ensures
        ({
            let next = after_backlog(s, backlog_mutations);
            &&& next.workload.backlog_mutations == backlog_mutations
            &&& next.workload.user_active == s.workload.user_active && next.workload.user_idle
                == s.workload.user_idle
            &&& s.mode == GovernorMode::IdleBoost && backlog_mutations == 0 ==> next.mode
                == GovernorMode::Balanced && next.recovery_streak == 0
            &&& s.mode != GovernorMode::IdleBoost || backlog_mutations > 0 ==> next
                == (GovernorState { workload: next.workload, ..s })
            &&& next.pressure == s.pressure && next.config == s.config
        }),
{
}

/// At the start nothing is known of the system and nothing was counted: work is neither paused nor
/// boosted, and the first pressured window does not make a row unless one is enough.
pub proof fn nothing_is_counted_at_the_start(config: GovernorConfig)
    ensures
        ({
            let s = initial_state(config);
            &&& s.config == config
            &&& is_trusted(s)
            &&& s.mode == GovernorMode::Balanced
            &&& !decision_of(s).budget.background_paused
            &&& s.pressure_streak == 0 && s.recovery_streak == 0 && s.cooldown_remaining == 0
            &&& s.interactive_remaining == 0 && s.transition_sequence == 0
            &&& s.workload.backlog_mutations == 0 && !s.workload.user_active
                && !s.workload.user_idle
        }),
{
}

} // verus!
