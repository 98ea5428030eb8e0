use std::time::Duration;

use localsearch::clock::duration_millis_ceil;
use localsearch::governor::{
    DecisionReason, GovernorConfig, GovernorMode, MaintenanceIntensity, ResourceGovernor,
    SystemPressure, WorkloadState,
};
use localsearch::platform::{PowerSource, SystemResources};

fn pressure(memory: u16, cpu: u16, disk: u16) -> SystemPressure {
    SystemPressure {
        available_memory_basis_points: Some(memory),
        system_cpu_load_basis_points: Some(cpu),
        disk_busy_basis_points: Some(disk),
        power_source: PowerSource::Ac,
        battery_percent: None,
        energy_saver: false,
    }
}

#[test]
fn starts_balanced_with_a_bounded_serial_writer() {
    let governor = ResourceGovernor::default();
    let decision = governor.decision();
    assert_eq!(decision.mode, GovernorMode::Balanced);
    assert_eq!(decision.budget.projection_concurrency, 1);
    assert!(!decision.budget.background_paused);
}

#[test]
fn interactive_search_throttles_then_recovers_without_oscillation() {
    let mut governor = ResourceGovernor::default();
    let announced = governor.begin_interactive_request();
    assert_eq!(announced.mode, GovernorMode::Active);
    assert_eq!(announced.reason, DecisionReason::UserActive);
    assert!(announced.budget.background_paused);
    let active = governor.report_search_latency(Duration::from_millis(4));
    assert_eq!(active.mode, GovernorMode::Active);
    assert_eq!(active.reason, DecisionReason::UserActive);
    assert!(active.budget.background_paused);
    assert_eq!(active.budget.maximum_batches, 0);
    assert_eq!(active.budget.projection_concurrency, 0);
    for _ in 0..6 {
        assert_eq!(governor.advance_window().mode, GovernorMode::Active);
    }
    assert_eq!(governor.advance_window().mode, GovernorMode::Balanced);
    assert_eq!(governor.decision().transition_sequence, 2);
}

#[test]
fn critical_memory_and_energy_saver_pause_immediately() {
    let mut governor = ResourceGovernor::default();
    let critical = governor.report_system_pressure(pressure(400, 500, 500));
    assert_eq!(critical.mode, GovernorMode::Pressure);
    assert!(critical.budget.background_paused);

    let saver = governor.report_system_pressure(SystemPressure {
        energy_saver: true,
        power_source: PowerSource::Battery,
        ..SystemPressure::default()
    });
    assert_eq!(saver.mode, GovernorMode::Battery);
    assert!(saver.budget.background_paused);
}

#[test]
fn battery_projection_is_one_short_bounded_quantum() {
    let mut governor = ResourceGovernor::default();
    let battery_pressure = SystemPressure {
        power_source: PowerSource::Battery,
        battery_percent: Some(24),
        ..SystemPressure::default()
    };
    let battery = governor.report_system_pressure(battery_pressure);
    assert_eq!(battery.mode, GovernorMode::Battery);
    assert_eq!(battery.budget.maximum_batch_mutations, 256);
    assert_eq!(battery.budget.maximum_batches, 1);
    assert_eq!(battery.budget.maximum_run_time_millis, 250);
    assert!(!battery.budget.background_paused);

    governor.begin_interactive_request();
    let active = governor.report_system_pressure(battery_pressure);
    assert_eq!(active.mode, GovernorMode::Active);
    assert!(active.budget.background_paused);

    let high_cpu = SystemPressure {
        system_cpu_load_basis_points: Some(9_500),
        ..battery_pressure
    };
    governor.report_system_pressure(high_cpu);
    let pressured = governor.report_system_pressure(high_cpu);
    assert_eq!(pressured.mode, GovernorMode::Pressure);
    assert!(pressured.budget.background_paused);
}

#[test]
fn unavailable_resource_telemetry_fails_closed_and_recovers_slowly() {
    let mut governor = ResourceGovernor::default();
    governor.report_system_pressure(pressure(5_000, 500, 500));
    governor.report_workload(WorkloadState {
        user_active: false,
        user_idle: true,
        backlog_mutations: 50_000,
    });
    for _ in 0..4 {
        governor.advance_window();
    }
    assert_eq!(governor.decision().mode, GovernorMode::IdleBoost);

    let unavailable = governor.report_resource_unavailable();
    assert_eq!(unavailable.mode, GovernorMode::Pressure);
    assert_eq!(
        unavailable.reason,
        DecisionReason::ResourceTelemetryUnavailable
    );
    assert!(unavailable.budget.background_paused);
    let search_during_outage = governor.report_search_latency(Duration::from_millis(4));
    assert_eq!(search_during_outage.mode, GovernorMode::Pressure);
    assert_eq!(
        search_during_outage.reason,
        DecisionReason::ResourceTelemetryUnavailable
    );

    for _ in 0..4 {
        assert_eq!(
            governor
                .report_system_pressure(pressure(5_000, 500, 500))
                .mode,
            GovernorMode::Pressure
        );
    }
    assert_eq!(
        governor
            .report_system_pressure(pressure(5_000, 500, 500))
            .mode,
        GovernorMode::Balanced
    );
}

#[test]
fn sustained_pressure_requires_confirmation_and_recovery_is_slower() {
    let mut governor = ResourceGovernor::default();
    assert_eq!(
        governor
            .report_system_pressure(pressure(900, 500, 500))
            .mode,
        GovernorMode::Balanced
    );
    assert_eq!(
        governor
            .report_system_pressure(pressure(900, 500, 500))
            .mode,
        GovernorMode::Pressure
    );

    governor.report_system_pressure(pressure(5_000, 500, 500));
    for _ in 0..3 {
        assert_eq!(governor.advance_window().mode, GovernorMode::Pressure);
    }
    assert_eq!(governor.advance_window().mode, GovernorMode::Balanced);
}

#[test]
fn sustained_disk_pressure_throttles_but_unknown_disk_data_does_not() {
    let mut governor = ResourceGovernor::default();
    let mut disk_pressure = pressure(5_000, 500, 9_500);
    assert_eq!(
        governor.report_system_pressure(disk_pressure).mode,
        GovernorMode::Balanced
    );
    assert_eq!(
        governor.report_system_pressure(disk_pressure).mode,
        GovernorMode::Pressure
    );

    disk_pressure.disk_busy_basis_points = None;
    for _ in 0..5 {
        governor.report_system_pressure(disk_pressure);
    }
    assert_eq!(governor.decision().mode, GovernorMode::Balanced);
}

#[test]
fn idle_ac_backlog_receives_boost_only_after_healthy_recovery() {
    let mut governor = ResourceGovernor::default();
    governor.report_system_pressure(pressure(5_000, 500, 500));
    governor.report_workload(WorkloadState {
        user_active: false,
        user_idle: true,
        backlog_mutations: 50_000,
    });
    for _ in 0..3 {
        assert_eq!(governor.advance_window().mode, GovernorMode::Balanced);
    }
    let boosted = governor.advance_window();
    assert_eq!(boosted.mode, GovernorMode::IdleBoost);
    assert_eq!(
        boosted.budget.maintenance_intensity,
        MaintenanceIntensity::Elevated
    );
    assert_eq!(
        governor.report_backlog(0).mode,
        GovernorMode::Balanced,
        "an empty backlog must cancel elevated recovery immediately"
    );
}

#[test]
fn backlog_without_trusted_idle_evidence_never_enables_idle_boost() {
    let mut governor = ResourceGovernor::default();
    governor.report_system_pressure(pressure(5_000, 500, 500));
    governor.report_workload(WorkloadState {
        user_active: false,
        user_idle: false,
        backlog_mutations: 50_000,
    });
    for _ in 0..20 {
        assert_ne!(governor.advance_window().mode, GovernorMode::IdleBoost);
    }
    assert_eq!(governor.decision().mode, GovernorMode::Balanced);
}

#[test]
fn platform_snapshot_conversion_is_portable_and_bounded() {
    let resources = SystemResources {
        logical_processors: 8,
        total_memory_bytes: Some(1_000),
        available_memory_bytes: Some(250),
        system_cpu_load_basis_points: Some(2_000),
        process_cpu_load_basis_points: Some(500),
        power_source: PowerSource::Ac,
        battery_percent: None,
        energy_saver: false,
        storage_busy_basis_points: Some(7_500),
        user_idle_duration_millis: Some(30_000),
        storage: Vec::new(),
    };
    let converted = SystemPressure::from(&resources);
    assert_eq!(converted.available_memory_basis_points, Some(2_500));
    assert_eq!(converted.system_cpu_load_basis_points, Some(2_000));
    assert_eq!(converted.disk_busy_basis_points, Some(7_500));
}

#[test]
fn trusted_idle_duration_boosts_with_hysteresis_and_input_cancels_immediately() {
    let mut governor = ResourceGovernor::default();
    governor.report_system_pressure(pressure(5_000, 500, 500));
    governor.report_backlog(50_000);
    governor.report_user_idle_duration(Some(5 * 60 * 1_000));
    for _ in 0..3 {
        assert_eq!(governor.advance_window().mode, GovernorMode::Balanced);
    }
    assert_eq!(governor.advance_window().mode, GovernorMode::IdleBoost);

    let after_input = governor.report_user_idle_duration(Some(0));
    assert_eq!(after_input.mode, GovernorMode::Balanced);
    assert_eq!(after_input.reason, DecisionReason::Balanced);
}

#[test]
fn unknown_activity_observation_fails_closed_and_preserves_backlog() {
    let mut governor = ResourceGovernor::default();
    governor.report_system_pressure(pressure(5_000, 500, 500));
    governor.report_workload(WorkloadState {
        user_active: false,
        user_idle: true,
        backlog_mutations: 50_000,
    });
    for _ in 0..4 {
        governor.advance_window();
    }
    assert_eq!(governor.decision().mode, GovernorMode::IdleBoost);

    assert_eq!(
        governor.report_user_idle_duration(None).mode,
        GovernorMode::Balanced
    );
    governor.report_backlog(50_001);
    for _ in 0..20 {
        assert_ne!(governor.advance_window().mode, GovernorMode::IdleBoost);
    }
}

#[test]
fn a_slow_search_is_reported_as_such() {
    let mut governor = ResourceGovernor::default();
    let config = GovernorConfig::default();
    let slow = governor.report_search_latency(Duration::from_millis(config.search_sla_millis + 1));
    assert_eq!(slow.mode, GovernorMode::Active);
    assert_eq!(slow.reason, DecisionReason::SearchSla);
    assert!(slow.budget.background_paused);
}

#[test]
fn partial_milliseconds_count_as_whole_ones() {
    assert_eq!(duration_millis_ceil(Duration::from_millis(4)), 4);
    assert_eq!(duration_millis_ceil(Duration::from_micros(4_001)), 5);
    assert_eq!(duration_millis_ceil(Duration::from_nanos(1)), 1);
    assert_eq!(duration_millis_ceil(Duration::ZERO), 0);
}

#[test]
fn budgets_bound_their_run_time() {
    let governor = ResourceGovernor::default();
    let budget = governor.get_indexing_budget();
    assert_eq!(
        budget.maximum_run_time(),
        Duration::from_millis(budget.maximum_run_time_millis)
    );
}

#[test]
fn an_outage_is_over_only_after_healthy_windows_in_a_row() {
    let mut governor = ResourceGovernor::default();
    governor.report_resource_unavailable();
    for _ in 0..20 {
        let decision = governor.report_system_pressure(pressure(5_000, 9_500, 500));
        assert_eq!(decision.mode, GovernorMode::Pressure);
        assert_eq!(
            decision.reason,
            DecisionReason::ResourceTelemetryUnavailable
        );
        assert!(decision.budget.background_paused);
    }
    for _ in 0..4 {
        let decision = governor.report_system_pressure(pressure(5_000, 500, 500));
        assert_eq!(decision.mode, GovernorMode::Pressure);
    }
    assert_eq!(
        governor
            .report_system_pressure(pressure(400, 500, 500))
            .mode,
        GovernorMode::Pressure
    );
    for _ in 0..4 {
        let decision = governor.report_system_pressure(pressure(5_000, 500, 500));
        assert_eq!(decision.mode, GovernorMode::Pressure);
    }
    let recovered = governor.report_system_pressure(pressure(5_000, 500, 500));
    assert_eq!(recovered.mode, GovernorMode::Balanced);
    assert!(!recovered.budget.background_paused);
}

#[test]
fn an_outage_lasts_through_its_cooldown() {
    let mut governor = ResourceGovernor::new(GovernorConfig {
        recovery_windows: 1,
        cooldown_windows: 3,
        ..GovernorConfig::default()
    });
    governor.report_resource_unavailable();
    for _ in 0..2 {
        let decision = governor.report_system_pressure(pressure(5_000, 500, 500));
        assert_eq!(decision.mode, GovernorMode::Pressure);
    }
    assert_eq!(
        governor
            .report_system_pressure(pressure(5_000, 500, 500))
            .mode,
        GovernorMode::Balanced
    );
}

#[test]
fn the_window_that_ends_an_outage_does_not_shorten_the_next_cooldown() {
    let mut governor = ResourceGovernor::new(GovernorConfig {
        recovery_windows: 1,
        cooldown_windows: 1,
        ..GovernorConfig::default()
    });
    governor.report_resource_unavailable();
    governor.report_workload(WorkloadState {
        user_active: false,
        user_idle: true,
        backlog_mutations: 1,
    });
    assert_eq!(
        governor
            .report_system_pressure(pressure(5_000, 500, 500))
            .mode,
        GovernorMode::Balanced
    );
    assert_eq!(governor.advance_window().mode, GovernorMode::IdleBoost);
}

#[test]
fn critical_memory_starts_the_count_of_healthy_windows_anew() {
    let mut governor = ResourceGovernor::default();
    for _ in 0..5 {
        governor.report_system_pressure(pressure(5_000, 500, 500));
    }
    assert_eq!(
        governor
            .report_system_pressure(pressure(400, 500, 500))
            .mode,
        GovernorMode::Pressure
    );
    for _ in 0..4 {
        let decision = governor.report_system_pressure(pressure(5_000, 500, 500));
        assert_eq!(decision.mode, GovernorMode::Pressure);
    }
    assert_eq!(
        governor
            .report_system_pressure(pressure(5_000, 500, 500))
            .mode,
        GovernorMode::Balanced
    );
}
