//! Numbers that stand for enumerated values in the tables.

use vstd::prelude::*;

use crate::catalog::{Availability, FileKind, ReconciliationReason};
use crate::graph::domain::{ObservationScanMode, ObservationScanPhase, VolumeState};

verus! {

/// The number of a kind.
pub open spec fn file_kind_number(kind: FileKind) -> i64 {
    match kind {
        FileKind::File => 0,
        FileKind::Directory => 1,
        FileKind::Symlink => 2,
        FileKind::Special => 3,
        FileKind::Other => 4,
    }
}

/// The number of a kind.
pub fn file_kind_code(kind: FileKind) -> (code: i64)
    ensures
        code == file_kind_number(kind),
{
    match kind {
        FileKind::File => 0,
        FileKind::Directory => 1,
        FileKind::Symlink => 2,
        FileKind::Special => 3,
        FileKind::Other => 4,
    }
}

/// The kind with the number; none for a number that stands for no kind.
pub fn file_kind_from_code(code: i64) -> (r: Option<FileKind>)
    ensures
        match r {
            Some(kind) => code == file_kind_number(kind),
            None => forall|kind: FileKind| code != #[trigger] file_kind_number(kind),
        },
{
    match code {
        0 => Some(FileKind::File),
        1 => Some(FileKind::Directory),
        2 => Some(FileKind::Symlink),
        3 => Some(FileKind::Special),
        4 => Some(FileKind::Other),
        _ => None,
    }
}

/// The number of an availability.
pub open spec fn availability_number(availability: Availability) -> i64 {
    match availability {
        Availability::Online => 0,
        Availability::Offline => 1,
        Availability::Unknown => 2,
    }
}

/// The number of an availability.
pub fn availability_code(availability: Availability) -> (code: i64)
    ensures
        code == availability_number(availability),
{
    match availability {
        Availability::Online => 0,
        Availability::Offline => 1,
        Availability::Unknown => 2,
    }
}

/// The availability with the number; none for a number that stands for none.
pub fn availability_from_code(code: i64) -> (r: Option<Availability>)
    ensures
        match r {
            Some(availability) => code == availability_number(availability),
            None => forall|a: Availability| code != #[trigger] availability_number(a),
        },
{
    match code {
        0 => Some(Availability::Online),
        1 => Some(Availability::Offline),
        2 => Some(Availability::Unknown),
        _ => None,
    }
}

/// The number of a volume state.
pub open spec fn volume_state_number(state: VolumeState) -> i64 {
    match state {
        VolumeState::Online => 0,
        VolumeState::Offline => 1,
        VolumeState::NeedsReconciliation => 2,
    }
}

/// The number of a volume state.
pub fn volume_state_code(state: VolumeState) -> (code: i64)
    ensures
        code == volume_state_number(state),
{
    match state {
        VolumeState::Online => 0,
        VolumeState::Offline => 1,
        VolumeState::NeedsReconciliation => 2,
    }
}

/// The volume state with the number; none for a number that stands for none.
pub fn volume_state_from_code(code: i64) -> (r: Option<VolumeState>)
    ensures
        match r {
            Some(state) => code == volume_state_number(state),
            None => forall|s: VolumeState| code != #[trigger] volume_state_number(s),
        },
{
    match code {
        0 => Some(VolumeState::Online),
        1 => Some(VolumeState::Offline),
        2 => Some(VolumeState::NeedsReconciliation),
        _ => None,
    }
}

/// The number of a scan mode.
pub open spec fn scan_mode_number(mode: ObservationScanMode) -> i64 {
    match mode {
        ObservationScanMode::Initial => 0,
        ObservationScanMode::Reconcile => 1,
    }
}

/// The number of a scan mode.
pub fn observation_scan_mode_code(mode: ObservationScanMode) -> (code: i64)
    ensures
        code == scan_mode_number(mode),
{
    match mode {
        ObservationScanMode::Initial => 0,
        ObservationScanMode::Reconcile => 1,
    }
}

/// The scan mode with the number; none for a number that stands for none.
pub fn observation_scan_mode_from_code(code: i64) -> (r: Option<ObservationScanMode>)
    ensures
        match r {
            Some(mode) => code == scan_mode_number(mode),
            None => forall|m: ObservationScanMode| code != #[trigger] scan_mode_number(m),
        },
{
    match code {
        0 => Some(ObservationScanMode::Initial),
        1 => Some(ObservationScanMode::Reconcile),
        _ => None,
    }
}

/// The number of a scan phase.
pub open spec fn scan_phase_number(phase: ObservationScanPhase) -> i64 {
    match phase {
        ObservationScanPhase::Scanning => 0,
        ObservationScanPhase::SweepingLinks => 1,
        ObservationScanPhase::SweepingObjects => 2,
    }
}

/// The number of a scan phase.
pub fn observation_scan_phase_code(phase: ObservationScanPhase) -> (code: i64)
    ensures
        code == scan_phase_number(phase),
{
    match phase {
        ObservationScanPhase::Scanning => 0,
        ObservationScanPhase::SweepingLinks => 1,
        ObservationScanPhase::SweepingObjects => 2,
    }
}

/// The scan phase with the number; none for a number that stands for none.
pub fn observation_scan_phase_from_code(code: i64) -> (r: Option<ObservationScanPhase>)
    ensures
        match r {
            Some(phase) => code == scan_phase_number(phase),
            None => forall|p: ObservationScanPhase| code != #[trigger] scan_phase_number(p),
        },
{
    match code {
        0 => Some(ObservationScanPhase::Scanning),
        1 => Some(ObservationScanPhase::SweepingLinks),
        2 => Some(ObservationScanPhase::SweepingObjects),
        _ => None,
    }
}

/// The number of a reconciliation reason.
pub open spec fn reason_number(reason: ReconciliationReason) -> i64 {
    match reason {
        ReconciliationReason::SourceHistoryUnavailable => 0,
        ReconciliationReason::EventOverflow => 1,
        ReconciliationReason::InconsistentSnapshot => 2,
        ReconciliationReason::ProviderRequested => 3,
    }
}

/// The number of a reconciliation reason.
pub fn reconciliation_reason_code(reason: ReconciliationReason) -> (code: i64)
    ensures
        code == reason_number(reason),
{
    match reason {
        ReconciliationReason::SourceHistoryUnavailable => 0,
        ReconciliationReason::EventOverflow => 1,
        ReconciliationReason::InconsistentSnapshot => 2,
        ReconciliationReason::ProviderRequested => 3,
    }
}

/// No two values of one kind share a number, so each number is read back as the value that was
/// written.
pub proof fn codes_are_injective()
    ensures
        forall|a: FileKind, b: FileKind| #[trigger]
            file_kind_number(a) == #[trigger] file_kind_number(b) ==> a == b,
        forall|a: Availability, b: Availability| #[trigger]
            availability_number(a) == #[trigger] availability_number(b) ==> a == b,
        forall|a: VolumeState, b: VolumeState| #[trigger]
            volume_state_number(a) == #[trigger] volume_state_number(b) ==> a == b,
        forall|a: ObservationScanMode, b: ObservationScanMode| #[trigger]
            scan_mode_number(a) == #[trigger] scan_mode_number(b) ==> a == b,
        forall|a: ObservationScanPhase, b: ObservationScanPhase| #[trigger]
            scan_phase_number(a) == #[trigger] scan_phase_number(b) ==> a == b,
        forall|a: ReconciliationReason, b: ReconciliationReason| #[trigger]
            reason_number(a) == #[trigger] reason_number(b) ==> a == b,
{
}

} // verus!
