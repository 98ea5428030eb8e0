//! What a filesystem provider offers, and the behaviour that every provider has to show.

pub mod laws;

use vstd::prelude::*;

use crate::catalog::{
    event_models, same_event, EventModel, FilesystemEvent, ProviderCheckpoint, VolumeDescriptor,
};
use crate::ids::FileKey;
use crate::platform::{PlatformError, PlatformErrorKind, PlatformResult};
use crate::text::{same_bytes, same_text, texts};

verus! {

/// Operating system family.
#[derive(Clone, Copy, Debug, PartialEq, Eq, Structural)]
pub enum PlatformFamily {
    /// Windows.
    Windows,
    /// macOS.
    MacOs,
    /// Linux.
    Linux,
}

/// How a volume is first read.
#[derive(Clone, Copy, Debug, PartialEq, Eq, Structural)]
pub enum InitialScanMode {
    /// From the metadata tables of the filesystem.
    FastMetadataEnumeration,
    /// Directory by directory.
    FilesystemCrawl,
}

/// How changes are followed.
#[derive(Clone, Copy, Debug, PartialEq, Eq, Structural)]
pub enum ChangeTrackingMode {
    /// A durable journal of objects.
    PersistentObjectJournal,
    /// A durable stream of paths.
    PersistentPathStream,
    /// Watchers that forget.
    EphemeralWatchers,
    /// Not at all.
    SnapshotOnly,
}

/// What the provider may need from the user.
#[derive(Clone, Copy, Debug, PartialEq, Eq, Structural)]
pub enum PrivilegeModel {
    /// Nothing.
    CurrentUser,
    /// Consent.
    UserConsent,
    /// A privileged broker, if there is one.
    OptionalBroker,
}

/// What a provider can do.
#[derive(Clone, Copy, Debug, PartialEq, Eq, Structural)]
pub struct PlatformCapabilities {
    /// Operating system family.
    pub platform: PlatformFamily,
    /// How a volume is first read.
    pub initial_scan: InitialScanMode,
    /// How changes are followed.
    pub change_tracking: ChangeTrackingMode,
    /// What it may need from the user.
    pub privilege_model: PrivilegeModel,
    /// Whether objects keep their identity.
    pub stable_object_ids: bool,
    /// Whether hard links are seen.
    pub hard_links: bool,
    /// Whether changes survive a restart.
    pub persistent_history: bool,
}

/// The result of a scan.
#[derive(Clone, Debug, PartialEq, Eq)]
pub struct ScanSummary {
    /// Where to read changes from.
    pub checkpoint: ProviderCheckpoint,
    /// Changes reported.
    pub emitted_events: u64,
}

/// The result of reading changes.
#[derive(Clone, Debug, PartialEq, Eq)]
pub struct ChangeBatch {
    /// Where to go on.
    pub checkpoint: ProviderCheckpoint,
    /// Changes reported.
    pub emitted_events: u32,
    /// Whether more are waiting.
    pub has_more: bool,
}

/// A source of filesystem changes. Each operation appends what it reports to `events`.
pub trait FilesystemProvider {
    /// What the provider can do.
    fn capabilities(&self) -> PlatformCapabilities;

    /// The volumes that are there now.
    fn discover_volumes(&self) -> PlatformResult<Vec<VolumeDescriptor>>;

    /// Reports everything on a volume.
    fn initial_scan(
        &self,
        volume: &VolumeDescriptor,
        events: &mut Vec<FilesystemEvent>,
    ) -> PlatformResult<ScanSummary>;

    /// Reports what changed since a checkpoint.
    fn read_changes(
        &self,
        checkpoint: &ProviderCheckpoint,
        maximum_events: u32,
        events: &mut Vec<FilesystemEvent>,
    ) -> PlatformResult<ChangeBatch>;

    /// Reports everything on a volume again.
    fn reconcile(
        &self,
        volume: &VolumeDescriptor,
        events: &mut Vec<FilesystemEvent>,
    ) -> PlatformResult<ScanSummary>;
}

/// A change that a provider under test has to follow.
#[derive(Clone, Copy, Debug, PartialEq, Eq, Structural)]
pub enum ContractMutation {
    /// A file is created.
    Create,
    /// Metadata of the primary object changes.
    Metadata,
    /// The primary object is renamed.
    Rename,
    /// The primary object is moved.
    Move,
    /// A directory is renamed.
    DirectoryRename,
    /// The created file is deleted.
    Delete,
    /// The primary object gets another link.
    HardLinkCreate,
    /// The primary object loses that link.
    HardLinkDelete,
}

/// A provider whose source can be changed on purpose.
pub trait ProviderContractFixture: FilesystemProvider + Sized {
    /// Changes the source.
    fn apply(&mut self, mutation: ContractMutation) -> PlatformResult<()>;

    /// A new provider over the same source.
    fn restart(&self) -> Self;

    /// Throws the change history away.
    fn recreate_history(&mut self);

    /// Takes the volume offline or online.
    fn set_online(&mut self, online: bool);

    /// The object that most changes are about.
    fn primary_object(&self) -> FileKey;

    /// Everything that is there now.
    fn projected_state(&self) -> Vec<FilesystemEvent>;

    /// Encodes a checkpoint as it is stored, and decodes it again.
    fn stored_and_loaded(&self, checkpoint: &ProviderCheckpoint) -> PlatformResult<
        ProviderCheckpoint,
    >;
}

/// What the behavioural contract covered.
#[derive(Clone, Debug, PartialEq, Eq)]
pub struct ProviderContractReport {
    /// Assertions made.
    pub assertions: u32,
    /// Scenarios run.
    pub scenarios: Vec<String>,
}

/// Changes that the contract asks for at a time.
pub const CONTRACT_PAGE: u32 = 64;

/// Why a provider does not meet the contract.
#[derive(Clone, Debug, PartialEq, Eq)]
pub enum ContractFailure {
    /// An operation failed.
    Provider(PlatformError),
    /// An operation did not behave.
    Violated(&'static str),
}

/// The changes that a mutation has to report, given the primary object and the object that was
/// created before.
pub open spec fn expected_events(
    mutation: ContractMutation,
    events: Seq<EventModel>,
    primary: FileKey,
    created: Option<FileKey>,
) -> bool {
    match mutation {
        ContractMutation::Create => {
            &&& events.len() == 2
            &&& events[0] is ObjectObserved
            &&& events[1] is LinkObserved
            &&& events[0]->object.object_key == events[1]->link.object_key
        },
        ContractMutation::Metadata => {
            &&& events.len() == 1
            &&& events[0] is ObjectObserved
            &&& events[0]->object.object_key == primary
        },
        ContractMutation::Rename | ContractMutation::Move | ContractMutation::HardLinkCreate => {
            &&& events.len() == 1
            &&& events[0] is LinkObserved
            &&& events[0]->link.object_key == primary
        },
        ContractMutation::DirectoryRename => {
            &&& events.len() == 1
            &&& events[0] is LinkObserved
        },
        ContractMutation::HardLinkDelete => {
            &&& events.len() == 1
            &&& events[0] is LinkRemoved
            &&& events[0]->LinkRemoved_object_key == primary
        },
        ContractMutation::Delete => {
            &&& events.len() == 2
            &&& events[0] is LinkRemoved
            &&& events[1] is ObjectRemoved
            &&& created == Some(events[0]->LinkRemoved_object_key)
            &&& created == Some(events[1]->ObjectRemoved_object_key)
        },
    }
}

/// The object that was created, once a mutation reported its changes.
pub open spec fn created_after(
    mutation: ContractMutation,
    events: Seq<EventModel>,
    created: Option<FileKey>,
) -> Option<FileKey> {
    if mutation == ContractMutation::Create {
        Some(events[0]->object.object_key)
    } else {
        created
    }
}

/// Whether the changes of a mutation are those it has to report; notes the object that was
/// created.
pub fn check_mutation_events(
    mutation: ContractMutation,
    events: &Vec<FilesystemEvent>,
    primary: FileKey,
    created: &mut Option<FileKey>,
) -> (r: bool)
    ensures
        r == expected_events(mutation, event_models(events@), primary, *old(created)),
        *final(created) == (if r {
            created_after(mutation, event_models(events@), *old(created))
        } else {
            *old(created)
        }),
{
    let ghost models = event_models(events@);
    proof {
        if events@.len() > 0 {
            assert(models[0] == events@[0]@);
        }
        if events@.len() > 1 {
            assert(models[1] == events@[1]@);
        }
    }
    match mutation {
        ContractMutation::Create => {
            if events.len() != 2 {
                return false;
            }
            match (&events[0], &events[1]) {
                (
                    FilesystemEvent::ObjectObserved { object },
                    FilesystemEvent::LinkObserved { link },
                ) => {
                    if object.object_key == link.object_key {
                        *created = Some(object.object_key);
                        true
                    } else {
                        false
                    }
                },
                _ => false,
            }
        },
        ContractMutation::Metadata => {
            if events.len() != 1 {
                return false;
            }
            match &events[0] {
                FilesystemEvent::ObjectObserved { object } => object.object_key == primary,
                _ => false,
            }
        },
        ContractMutation::Rename | ContractMutation::Move | ContractMutation::HardLinkCreate => {
            if events.len() != 1 {
                return false;
            }
            match &events[0] {
                FilesystemEvent::LinkObserved { link } => link.object_key == primary,
                _ => false,
            }
        },
        ContractMutation::DirectoryRename => {
            events.len() == 1 && matches!(&events[0], FilesystemEvent::LinkObserved { .. })
        },
        ContractMutation::HardLinkDelete => {
            if events.len() != 1 {
                return false;
            }
            match &events[0] {
                FilesystemEvent::LinkRemoved { object_key, .. } => *object_key == primary,
                _ => false,
            }
        },
        ContractMutation::Delete => {
            if events.len() != 2 {
                return false;
            }
            match (&events[0], &events[1], *created) {
                (
                    FilesystemEvent::LinkRemoved { object_key: link_object, .. },
                    FilesystemEvent::ObjectRemoved { object_key },
                    Some(expected),
                ) => *link_object == expected && *object_key == expected,
                _ => false,
            }
        },
    }
}

/// The state shows the change.
pub open spec fn reflects(event: EventModel, state: Seq<EventModel>) -> bool {
    match event {
        EventModel::ObjectObserved { .. } | EventModel::LinkObserved { .. } => state.contains(
            event,
        ),
        EventModel::LinkRemoved { file_link_id, .. } => forall|i: int|
            0 <= i < state.len() ==> !(#[trigger] state[i] is LinkObserved
                && state[i]->link.file_link_id == file_link_id),
        EventModel::ObjectRemoved { object_key } => forall|i: int|
            0 <= i < state.len() ==> !(#[trigger] state[i] is ObjectObserved
                && state[i]->object.object_key == object_key),
        EventModel::ReconciliationRequired { .. } => false,
    }
}

fn shows(event: &FilesystemEvent, state: &Vec<FilesystemEvent>) -> (r: bool)
    ensures
        r == reflects(event@, event_models(state@)),
{
    let ghost models = event_models(state@);
    let wanted = match event {
        FilesystemEvent::ObjectObserved { .. } | FilesystemEvent::LinkObserved { .. } => true,
        FilesystemEvent::ReconciliationRequired { .. } => {
            return false;
        },
        _ => false,
    };
    let mut i: usize = 0;
    while i < state.len()
        invariant
            i <= state@.len(),
            models == event_models(state@),
            wanted == (event@ is ObjectObserved || event@ is LinkObserved),
            !(event@ is ReconciliationRequired),
            wanted ==> forall|k: int| 0 <= k < i ==> #[trigger] models[k] != event@,
            event@ is LinkRemoved ==> forall|k: int|
                0 <= k < i ==> !(#[trigger] models[k] is LinkObserved
                    && models[k]->link.file_link_id == event@->file_link_id),
            event@ is ObjectRemoved ==> forall|k: int|
                0 <= k < i ==> !(#[trigger] models[k] is ObjectObserved
                    && models[k]->object.object_key == event@->ObjectRemoved_object_key),
        decreases state@.len() - i,
    {
        assert(models[i as int] == state@[i as int]@);
        if wanted {
            if same_event(event, &state[i]) {
                assert(models[i as int] == event@);
                return true;
            }
        } else {
            match (event, &state[i]) {
                (
                    FilesystemEvent::LinkRemoved { file_link_id, .. },
                    FilesystemEvent::LinkObserved { link },
                ) => {
                    if link.file_link_id == *file_link_id {
                        return false;
                    }
                },
                (
                    FilesystemEvent::ObjectRemoved { object_key },
                    FilesystemEvent::ObjectObserved { object },
                ) => {
                    if object.object_key == *object_key {
                        return false;
                    }
                },
                _ => {},
            }
        }
        i = i + 1;
    }
    !wanted
}

/// Whether the state shows every change.
pub fn check_projection(events: &Vec<FilesystemEvent>, state: &Vec<FilesystemEvent>) -> (r: bool)
    ensures
        r == (forall|i: int|
            0 <= i < events@.len() ==> reflects(
                #[trigger] event_models(events@)[i],
                event_models(state@),
            )),
{
    let mut i: usize = 0;
    while i < events.len()
        invariant
            i <= events@.len(),
            forall|k: int|
                0 <= k < i ==> reflects(
                    #[trigger] event_models(events@)[k],
                    event_models(state@),
                ),
        decreases events@.len() - i,
    {
        assert(event_models(events@)[i as int] == events@[i as int]@);
        if !shows(&events[i], state) {
            return false;
        }
        i = i + 1;
    }
    true
}

/// Whether two lists of changes are the same.
pub fn same_events(a: &Vec<FilesystemEvent>, b: &Vec<FilesystemEvent>) -> (r: bool)
    ensures
        r == (event_models(a@) == event_models(b@)),
{
    if a.len() != b.len() {
        assert(event_models(a@).len() != event_models(b@).len());
        return false;
    }
    let mut i: usize = 0;
    while i < a.len()
        invariant
            i <= a@.len(),
            a@.len() == b@.len(),
            forall|k: int| 0 <= k < i ==> (#[trigger] a@[k])@ == b@[k]@,
        decreases a@.len() - i,
    {
        if !same_event(&a[i], &b[i]) {
            assert(event_models(a@)[i as int] != event_models(b@)[i as int]);
            return false;
        }
        i = i + 1;
    }
    assert(event_models(a@) =~= event_models(b@));
    true
}

/// The scenarios of the contract.
pub open spec fn contract_scenarios() -> Seq<Seq<char>> {
    seq![
        "stable_initial_observations"@,
        "opaque_checkpoint_serde"@,
        "create"@,
        "metadata"@,
        "rename"@,
        "move"@,
        "directory_rename"@,
        "delete"@,
        "hard_link_create_delete"@,
        "restart_resume"@,
        "journal_gap_recreation"@,
        "offline_online"@,
        "reconciliation_convergence"@,
    ]
}

fn contract_report() -> (r: ProviderContractReport)
    ensures
        r.assertions == 33,
        texts(r.scenarios@) == contract_scenarios(),
{
    let scenarios = vec![
        "stable_initial_observations".to_owned(),
        "opaque_checkpoint_serde".to_owned(),
        "create".to_owned(),
        "metadata".to_owned(),
        "rename".to_owned(),
        "move".to_owned(),
        "directory_rename".to_owned(),
        "delete".to_owned(),
        "hard_link_create_delete".to_owned(),
        "restart_resume".to_owned(),
        "journal_gap_recreation".to_owned(),
        "offline_online".to_owned(),
        "reconciliation_convergence".to_owned(),
    ];
    assert(texts(scenarios@) =~= contract_scenarios());
    ProviderContractReport { assertions: 33, scenarios }
}

/// The mutations of the contract, in order.
pub open spec fn mutation_order() -> Seq<ContractMutation> {
    seq![
        ContractMutation::Create,
        ContractMutation::Metadata,
        ContractMutation::Rename,
        ContractMutation::Move,
        ContractMutation::DirectoryRename,
        ContractMutation::HardLinkCreate,
        ContractMutation::HardLinkDelete,
        ContractMutation::Delete,
    ]
}

/// The mutations of the contract, in order.
pub fn contract_mutations() -> (r: Vec<ContractMutation>)
    ensures
        r@ == mutation_order(),
{
    vec![
        ContractMutation::Create,
        ContractMutation::Metadata,
        ContractMutation::Rename,
        ContractMutation::Move,
        ContractMutation::DirectoryRename,
        ContractMutation::HardLinkCreate,
        ContractMutation::HardLinkDelete,
        ContractMutation::Delete,
    ]
}

/// A failure that names what is violated.
pub open spec fn violates(failure: ContractFailure, what: Seq<char>) -> bool {
    failure matches ContractFailure::Violated(text) && text@ == what
}

/// Checks the first scan: it counts its changes, and reports the state.
pub fn check_initial_scan(
    result: PlatformResult<ScanSummary>,
    initial: &Vec<FilesystemEvent>,
    state: &Vec<FilesystemEvent>,
) -> (r: Result<ProviderCheckpoint, ContractFailure>)
    ensures
        match result {
            Err(error) => r == Err::<ProviderCheckpoint, ContractFailure>(
                ContractFailure::Provider(error),
            ),
            Ok(summary) => match r {
                Ok(checkpoint) => {
                    &&& summary.emitted_events == initial@.len()
                    &&& event_models(initial@) == event_models(state@)
                    &&& checkpoint == summary.checkpoint
                },
                Err(failure) => if summary.emitted_events != initial@.len() {
                    violates(failure, "the scan counts its changes"@)
                } else {
                    event_models(initial@) != event_models(state@) && violates(
                        failure,
                        "the scan reports the state"@,
                    )
                },
            },
        },
{
    let summary = match result {
        Ok(summary) => summary,
        Err(error) => return Err(ContractFailure::Provider(error)),
    };
    if summary.emitted_events != initial.len() as u64 {
        return Err(ContractFailure::Violated("the scan counts its changes"));
    }
    if !same_events(initial, state) {
        return Err(ContractFailure::Violated("the scan reports the state"));
    }
    Ok(summary.checkpoint)
}

/// Checks that a checkpoint survives being stored.
pub fn check_stored(result: PlatformResult<ProviderCheckpoint>, checkpoint: &ProviderCheckpoint) ->
    (r: Result<ProviderCheckpoint, ContractFailure>)
    ensures
        match result {
            Err(error) => r == Err::<ProviderCheckpoint, ContractFailure>(
                ContractFailure::Provider(error),
            ),
            Ok(loaded) => match r {
                Ok(first) => first == loaded && loaded@ == checkpoint@,
                Err(failure) => loaded@ != checkpoint@ && violates(
                    failure,
                    "a stored checkpoint is unchanged"@,
                ),
            },
        },
{
    match result {
        Ok(loaded) => {
            if !same_text(loaded.provider_id.as_str(), checkpoint.provider_id.as_str())
                || loaded.format_version != checkpoint.format_version || loaded.volume_id
                != checkpoint.volume_id || !same_bytes(&loaded.opaque, &checkpoint.opaque) {
                return Err(ContractFailure::Violated("a stored checkpoint is unchanged"));
            }
            Ok(loaded)
        },
        Err(error) => Err(ContractFailure::Provider(error)),
    }
}

/// What the primary object is after a mutation.
pub open spec fn keeps_identity(mutation: ContractMutation, before: FileKey, after: FileKey) -> bool {
    mutation == ContractMutation::Delete || mutation == ContractMutation::Create || before == after
}

/// What a batch of changes violates, if anything.
pub open spec fn batch_violation(
    mutation: ContractMutation,
    batch: ChangeBatch,
    observed: Seq<EventModel>,
    state: Seq<EventModel>,
    primary: (FileKey, FileKey),
    created: Option<FileKey>,
) -> Option<Seq<char>> {
    if batch.emitted_events != observed.len() {
        Some("the batch counts its changes"@)
    } else if !expected_events(mutation, observed, primary.0, created) {
        Some("the mutation reports its changes"@)
    } else if !(forall|i: int| 0 <= i < observed.len() ==> reflects(#[trigger] observed[i], state)) {
        Some("the state shows every change"@)
    } else if !keeps_identity(mutation, primary.0, primary.1) {
        Some("the object keeps its identity"@)
    } else {
        None
    }
}

/// Checks the changes that a mutation led to: the batch counts them, they are those of the
/// mutation, the state shows them, and the primary object keeps its identity.
pub fn check_batch(
    mutation: ContractMutation,
    result: PlatformResult<ChangeBatch>,
    observed: &Vec<FilesystemEvent>,
    state: &Vec<FilesystemEvent>,
    primary: (FileKey, FileKey),
    created: &mut Option<FileKey>,
) -> (r: Result<ProviderCheckpoint, ContractFailure>)
    ensures
        match result {
            Err(error) => r == Err::<ProviderCheckpoint, ContractFailure>(
                ContractFailure::Provider(error),
            ) && *final(created) == *old(created),
            Ok(batch) => {
                let violation = batch_violation(
                    mutation,
                    batch,
                    event_models(observed@),
                    event_models(state@),
                    primary,
                    *old(created),
                );
                match r {
                    Ok(checkpoint) => {
                        &&& violation is None
                        &&& checkpoint == batch.checkpoint
                        &&& *final(created) == created_after(
                            mutation,
                            event_models(observed@),
                            *old(created),
                        )
                    },
                    Err(failure) => violation matches Some(what) && violates(failure, what),
                }
            },
        },
{
    let ghost models = event_models(observed@);
    let batch = match result {
        Ok(batch) => batch,
        Err(error) => return Err(ContractFailure::Provider(error)),
    };
    if batch.emitted_events as u64 != observed.len() as u64 {
        return Err(ContractFailure::Violated("the batch counts its changes"));
    }
    if !check_mutation_events(mutation, observed, primary.0, created) {
        return Err(ContractFailure::Violated("the mutation reports its changes"));
    }
    if !check_projection(observed, state) {
        return Err(ContractFailure::Violated("the state shows every change"));
    }
    assert(forall|i: int|
        0 <= i < models.len() ==> reflects(#[trigger] models[i], event_models(state@)));
    if mutation != ContractMutation::Delete && mutation != ContractMutation::Create && primary.0
        != primary.1 {
        return Err(ContractFailure::Violated("the object keeps its identity"));
    }
    Ok(batch.checkpoint)
}

/// Checks that a new provider resumes without changes.
pub fn check_resumed(result: PlatformResult<ChangeBatch>) -> (r: Result<(), ContractFailure>)
    ensures
        match result {
            Err(error) => r == Err::<(), ContractFailure>(ContractFailure::Provider(error)),
            Ok(batch) => match r {
                Ok(()) => batch.emitted_events == 0,
                Err(failure) => batch.emitted_events != 0 && violates(
                    failure,
                    "a new provider resumes"@,
                ),
            },
        },
{
    match result {
        Ok(batch) => {
            if batch.emitted_events != 0 {
                return Err(ContractFailure::Violated("a new provider resumes"));
            }
            Ok(())
        },
        Err(error) => Err(ContractFailure::Provider(error)),
    }
}

/// Checks that lost history is explicit.
pub fn check_gap(result: PlatformResult<ChangeBatch>) -> (r: Result<(), ContractFailure>)
    ensures
        ({
            let explicit = result matches Err(error) && error.kind
                == PlatformErrorKind::SourceHistoryGap;
            match r {
                Ok(()) => explicit,
                Err(failure) => !explicit && violates(failure, "lost history is explicit"@),
            }
        }),
{
    match result {
        Ok(_) => Err(ContractFailure::Violated("lost history is explicit")),
        Err(error) => {
            if error.kind != PlatformErrorKind::SourceHistoryGap {
                return Err(ContractFailure::Violated("lost history is explicit"));
            }
            Ok(())
        },
    }
}

/// Checks that an offline volume is explicit.
pub fn check_offline_scan(result: PlatformResult<ScanSummary>) -> (r: Result<(), ContractFailure>)
    ensures
        ({
            let explicit = result matches Err(error) && error.kind
                == PlatformErrorKind::Unavailable;
            match r {
                Ok(()) => explicit,
                Err(failure) => !explicit && violates(failure, "an offline volume is explicit"@),
            }
        }),
{
    match result {
        Ok(_) => Err(ContractFailure::Violated("an offline volume is explicit")),
        Err(error) => {
            if error.kind != PlatformErrorKind::Unavailable {
                return Err(ContractFailure::Violated("an offline volume is explicit"));
            }
            Ok(())
        },
    }
}

/// Checks that reconciliation reports the state.
pub fn check_reconciled(
    result: PlatformResult<ScanSummary>,
    reconciled: &Vec<FilesystemEvent>,
    state: &Vec<FilesystemEvent>,
) -> (r: Result<(), ContractFailure>)
    ensures
        match result {
            Err(error) => r == Err::<(), ContractFailure>(ContractFailure::Provider(error)),
            Ok(_) => match r {
                Ok(()) => event_models(reconciled@) == event_models(state@),
                Err(failure) => event_models(reconciled@) != event_models(state@) && violates(
                    failure,
                    "reconciliation converges"@,
                ),
            },
        },
{
    match result {
        Ok(_) => {},
        Err(error) => return Err(ContractFailure::Provider(error)),
    }
    if !same_events(reconciled, state) {
        return Err(ContractFailure::Violated("reconciliation converges"));
    }
    Ok(())
}

/// The contract is refused so when this is what was discovered.
pub open spec fn refuses_discovery(
    result: PlatformResult<Vec<VolumeDescriptor>>,
    failure: ContractFailure,
) -> bool {
    match result {
        Err(error) => failure == ContractFailure::Provider(error),
        Ok(volumes) => volumes@.len() == 0 && violates(failure, "a volume is discovered"@),
    }
}

/// Checks that a volume was discovered, and returns the first one.
pub fn check_discovered(result: PlatformResult<Vec<VolumeDescriptor>>) -> (r: Result<
    VolumeDescriptor,
    ContractFailure,
>)
    ensures
        match r {
            Ok(volume) => result matches Ok(volumes) && volumes@.len() > 0 && volumes@[0] == volume,
            Err(failure) => refuses_discovery(result, failure),
        },
{
    let mut volumes = match result {
        Ok(volumes) => volumes,
        Err(error) => return Err(ContractFailure::Provider(error)),
    };
    if volumes.len() == 0 {
        return Err(ContractFailure::Violated("a volume is discovered"));
    }
    Ok(volumes.remove(0))
}

/// The contract is refused so when the first scan gave this.
pub open spec fn refuses_scan(
    result: PlatformResult<ScanSummary>,
    initial: Seq<EventModel>,
    state: Seq<EventModel>,
    failure: ContractFailure,
) -> bool {
    match result {
        Err(error) => failure == ContractFailure::Provider(error),
        Ok(summary) => if summary.emitted_events != initial.len() {
            violates(failure, "the scan counts its changes"@)
        } else {
            initial != state && violates(failure, "the scan reports the state"@)
        },
    }
}

/// The contract is refused so when this came back of a stored checkpoint.
pub open spec fn refuses_stored(
    result: PlatformResult<ProviderCheckpoint>,
    checkpoint: ProviderCheckpoint,
    failure: ContractFailure,
) -> bool {
    match result {
        Err(error) => failure == ContractFailure::Provider(error),
        Ok(loaded) => loaded@ != checkpoint@ && violates(
            failure,
            "a stored checkpoint is unchanged"@,
        ),
    }
}

/// The contract is refused so when a new provider gave this.
pub open spec fn refuses_resumed(
    result: PlatformResult<ChangeBatch>,
    failure: ContractFailure,
) -> bool {
    match result {
        Err(error) => failure == ContractFailure::Provider(error),
        Ok(batch) => batch.emitted_events != 0 && violates(failure, "a new provider resumes"@),
    }
}

/// The contract is refused so when this was given after the history was lost.
pub open spec fn refuses_gap(
    result: PlatformResult<ChangeBatch>,
    failure: ContractFailure,
) -> bool {
    &&& !(result matches Err(error) && error.kind == PlatformErrorKind::SourceHistoryGap)
    &&& violates(failure, "lost history is explicit"@)
}

/// The contract is refused so when this was given of an offline volume.
pub open spec fn refuses_offline(
    result: PlatformResult<ScanSummary>,
    failure: ContractFailure,
) -> bool {
    &&& !(result matches Err(error) && error.kind == PlatformErrorKind::Unavailable)
    &&& violates(failure, "an offline volume is explicit"@)
}

/// The contract is refused so when reconciliation gave this.
pub open spec fn refuses_reconciled(
    result: PlatformResult<ScanSummary>,
    reconciled: Seq<EventModel>,
    state: Seq<EventModel>,
    failure: ContractFailure,
) -> bool {
    match result {
        Err(error) => failure == ContractFailure::Provider(error),
        Ok(_) => reconciled != state && violates(failure, "reconciliation converges"@),
    }
}

/// The provider may answer a scan of the volume, into this empty list, with this.
pub open spec fn may_scan<P: FilesystemProvider>(
    provider: P,
    volume: VolumeDescriptor,
    events: &mut Vec<FilesystemEvent>,
    result: PlatformResult<ScanSummary>,
) -> bool {
    events@.len() == 0 && call_ensures(P::initial_scan, (&provider, &volume, events), result)
}

/// The provider may answer the question for changes since the checkpoint, into this empty list,
/// with this.
pub open spec fn may_read<P: FilesystemProvider>(
    provider: P,
    checkpoint: ProviderCheckpoint,
    events: &mut Vec<FilesystemEvent>,
    result: PlatformResult<ChangeBatch>,
) -> bool {
    events@.len() == 0 && call_ensures(
        P::read_changes,
        (&provider, &checkpoint, CONTRACT_PAGE, events),
        result,
    )
}

/// The provider may answer a reconciliation of the volume, into this empty list, with this.
pub open spec fn may_reconcile<P: FilesystemProvider>(
    provider: P,
    volume: VolumeDescriptor,
    events: &mut Vec<FilesystemEvent>,
    result: PlatformResult<ScanSummary>,
) -> bool {
    events@.len() == 0 && call_ensures(P::reconcile, (&provider, &volume, events), result)
}

/// This may be everything that is there.
pub open spec fn may_show<P: ProviderContractFixture>(
    provider: P,
    state: Seq<EventModel>,
) -> bool {
    exists|shown: Vec<FilesystemEvent>| #[trigger]
        call_ensures(P::projected_state, (&provider,), shown) && event_models(shown@) == state
}

/// The fixture may change its source so.
pub open spec fn may_apply<P: ProviderContractFixture>(
    fixture: &mut P,
    mutation: ContractMutation,
) -> bool {
    exists|result: PlatformResult<()>| #[trigger]
        call_ensures(P::apply, (fixture, mutation), result) && result is Ok
}

/// The fixture may throw its history away.
pub open spec fn may_lose_history<P: ProviderContractFixture>(fixture: &mut P) -> bool {
    call_ensures(P::recreate_history, (fixture,), ())
}

/// The fixture may take its volume offline or online.
pub open spec fn may_switch<P: ProviderContractFixture>(fixture: &mut P, online: bool) -> bool {
    call_ensures(P::set_online, (fixture, online), ())
}

/// A state of the contract: the fixture, the checkpoint and the object that was created.
pub struct ContractState<P> {
    pub fixture: P,
    pub cursor: ProviderCheckpoint,
    pub created: Option<FileKey>,
}

/// The provider followed a mutation: it was asked for the changes since the checkpoint, and its
/// batch and the changes that it reported violate nothing.
pub open spec fn is_followed<P: ProviderContractFixture>(
    mutation: ContractMutation,
    identity: FileKey,
    before: ContractState<P>,
    after: ContractState<P>,
    events: &mut Vec<FilesystemEvent>,
    observed: Seq<EventModel>,
) -> bool {
    exists|batch: ChangeBatch, state: Seq<EventModel>, primary: FileKey| #[trigger]
        may_read(after.fixture, before.cursor, events, Ok(batch)) && #[trigger] may_show(
            after.fixture,
            state,
        ) && #[trigger] call_ensures(P::primary_object, (&after.fixture,), primary)
            && batch_violation(
            mutation,
            batch,
            observed,
            state,
            (identity, primary),
            before.created,
        ) is None && after.cursor == batch.checkpoint && after.created == created_after(
            mutation,
            observed,
            before.created,
        )
}

/// The states begin with the first checkpoint and no object created, and lead through the
/// mutations, or the first of them.
pub open spec fn is_trail<P: ProviderContractFixture>(
    fixture: P,
    first: ProviderCheckpoint,
    identity: FileKey,
    trail: Seq<ContractState<P>>,
) -> bool {
    &&& call_ensures(P::primary_object, (&fixture,), identity)
    &&& 1 <= trail.len() <= mutation_order().len() + 1
    &&& trail[0] == (ContractState { fixture, cursor: first, created: None })
}

/// The states lead through all mutations.
pub open spec fn is_complete<P>(trail: Seq<ContractState<P>>) -> bool {
    trail.len() == mutation_order().len() + 1
}

/// The mutation after those that the states lead through.
pub open spec fn next_mutation<P>(trail: Seq<ContractState<P>>) -> ContractMutation {
    mutation_order()[trail.len() - 1]
}

/// The states are next to each other.
pub open spec fn is_step<P>(trail: Seq<ContractState<P>>, i: int, j: int) -> bool {
    0 <= i && j == i + 1 && j < trail.len()
}

/// A new provider resumed from the checkpoint without changes.
pub open spec fn resumes<P: ProviderContractFixture>(
    fixture: P,
    cursor: ProviderCheckpoint,
) -> bool {
    exists|provider: P, events: &mut Vec<FilesystemEvent>, batch: ChangeBatch|
        call_ensures(P::restart, (&fixture,), provider) && #[trigger] may_read(
            provider,
            cursor,
            events,
            Ok(batch),
        ) && batch.emitted_events == 0
}

/// Lost history was explicit.
pub open spec fn tells_gap<P: ProviderContractFixture>(
    fixture: P,
    cursor: ProviderCheckpoint,
) -> bool {
    exists|events: &mut Vec<FilesystemEvent>, error: PlatformError| #[trigger]
        may_read(fixture, cursor, events, Err(error)) && error.kind
            == PlatformErrorKind::SourceHistoryGap
}

/// An offline volume was explicit.
pub open spec fn tells_offline<P: ProviderContractFixture>(
    fixture: P,
    volume: VolumeDescriptor,
) -> bool {
    exists|events: &mut Vec<FilesystemEvent>, error: PlatformError| #[trigger]
        may_scan(fixture, volume, events, Err(error)) && error.kind
            == PlatformErrorKind::Unavailable
}

/// The volume is the first one that the provider discovered.
pub open spec fn is_first_volume<P: ProviderContractFixture>(
    fixture: P,
    volume: VolumeDescriptor,
) -> bool {
    exists|volumes: Vec<VolumeDescriptor>| #[trigger]
        call_ensures(
            P::discover_volumes,
            (&fixture,),
            Ok::<Vec<VolumeDescriptor>, PlatformError>(volumes),
        ) && volumes@.len() > 0 && volumes@[0] == volume
}

/// The checkpoint of the first scan survived being stored.
pub open spec fn is_stored<P: ProviderContractFixture>(
    fixture: P,
    checkpoint: ProviderCheckpoint,
    first: ProviderCheckpoint,
) -> bool {
    &&& call_ensures(
        P::stored_and_loaded,
        (&fixture, &checkpoint),
        Ok::<ProviderCheckpoint, PlatformError>(first),
    )
    &&& first@ == checkpoint@
}

/// What the provider discovered is refused so.
pub open spec fn is_discovery_refused<P: ProviderContractFixture>(
    fixture: P,
    failure: ContractFailure,
) -> bool {
    exists|result: PlatformResult<Vec<VolumeDescriptor>>| #[trigger]
        call_ensures(P::discover_volumes, (&fixture,), result) && refuses_discovery(result, failure)
}

/// What came back of the stored checkpoint is refused so.
pub open spec fn is_storing_refused<P: ProviderContractFixture>(
    fixture: P,
    checkpoint: ProviderCheckpoint,
    failure: ContractFailure,
) -> bool {
    exists|result: PlatformResult<ProviderCheckpoint>| #[trigger]
        call_ensures(P::stored_and_loaded, (&fixture, &checkpoint), result) && refuses_stored(
            result,
            checkpoint,
            failure,
        )
}

/// The source could not be changed, and the contract is refused so.
pub open spec fn is_change_refused<P: ProviderContractFixture>(
    fixture: P,
    mutation: ContractMutation,
    failure: ContractFailure,
) -> bool {
    exists|source: &mut P, result: PlatformResult<()>| #[trigger]
        call_ensures(P::apply, (source, mutation), result) && *source == fixture && (
        result matches Err(error) && failure == ContractFailure::Provider(error))
}

/// The changes that were read after a mutation are refused so.
pub open spec fn is_batch_refused<P: ProviderContractFixture>(
    mutation: ContractMutation,
    identity: FileKey,
    before: ContractState<P>,
    changed: P,
    events: &mut Vec<FilesystemEvent>,
    observed: Seq<EventModel>,
    failure: ContractFailure,
) -> bool {
    exists|result: PlatformResult<ChangeBatch>, state: Seq<EventModel>, primary: FileKey| #[trigger]
        may_read(changed, before.cursor, events, result) && #[trigger] may_show(changed, state)
            && #[trigger] call_ensures(P::primary_object, (&changed,), primary) && match result {
            Err(error) => failure == ContractFailure::Provider(error),
            Ok(batch) => batch_violation(
                mutation,
                batch,
                observed,
                state,
                (identity, primary),
                before.created,
            ) matches Some(what) && violates(failure, what),
        }
}

/// What a new provider gave is refused so.
pub open spec fn is_resume_refused<P: ProviderContractFixture>(
    fixture: P,
    cursor: ProviderCheckpoint,
    failure: ContractFailure,
) -> bool {
    exists|provider: P, events: &mut Vec<FilesystemEvent>, result: PlatformResult<ChangeBatch>|
        call_ensures(P::restart, (&fixture,), provider) && #[trigger] may_read(
            provider,
            cursor,
            events,
            result,
        ) && refuses_resumed(result, failure)
}

/// What was given after the history was lost is refused so.
pub open spec fn is_gap_refused<P: ProviderContractFixture>(
    fixture: P,
    cursor: ProviderCheckpoint,
    failure: ContractFailure,
) -> bool {
    exists|events: &mut Vec<FilesystemEvent>, result: PlatformResult<ChangeBatch>| #[trigger]
        may_read(fixture, cursor, events, result) && refuses_gap(result, failure)
}

/// What was given of an offline volume is refused so.
pub open spec fn is_offline_refused<P: ProviderContractFixture>(
    fixture: P,
    volume: VolumeDescriptor,
    failure: ContractFailure,
) -> bool {
    exists|events: &mut Vec<FilesystemEvent>, result: PlatformResult<ScanSummary>| #[trigger]
        may_scan(fixture, volume, events, result) && refuses_offline(result, failure)
}

/// Applies one mutation, reads the changes since the checkpoint and checks them.
fn run_mutation<P: ProviderContractFixture>(
    fixture: &mut P,
    mutation: ContractMutation,
    identity: FileKey,
    cursor: &ProviderCheckpoint,
    created: &mut Option<FileKey>,
) -> (r: Result<ProviderCheckpoint, ContractFailure>)
    ensures
        match r {
            Ok(next) => {
                let before = ContractState {
                    fixture: *old(fixture),
                    cursor: *cursor,
                    created: *old(created),
                };
                let after = ContractState {
                    fixture: *final(fixture),
                    cursor: next,
                    created: *final(created),
                };
                &&& exists|source: &mut P| #[trigger]
                    may_apply(source, mutation) && *source == before.fixture && *final(source)
                        == after.fixture
                &&& exists|events: &mut Vec<FilesystemEvent>| #[trigger]
                    is_followed(
                        mutation,
                        identity,
                        before,
                        after,
                        events,
                        event_models(final(events)@),
                    )
            },
            Err(failure) => {
                let before = ContractState {
                    fixture: *old(fixture),
                    cursor: *cursor,
                    created: *old(created),
                };
                ||| is_change_refused(*old(fixture), mutation, failure)
                ||| exists|source: &mut P, events: &mut Vec<FilesystemEvent>| #[trigger]
                    may_apply(source, mutation) && *source == *old(fixture)
                        && #[trigger] is_batch_refused(
                        mutation,
                        identity,
                        before,
                        *final(source),
                        events,
                        event_models(final(events)@),
                        failure,
                    )
            },
        },
{
    let ghost before = ContractState { fixture: *fixture, cursor: *cursor, created: *created };
    let applied = fixture.apply(mutation);
    let ghost changed = *fixture;
    assert(applied is Ok ==> exists|source: &mut P| #[trigger]
        may_apply(source, mutation) && *source == before.fixture && *final(source) == changed) by {
        let source = choose|source: &mut P|
            *source == before.fixture && *final(source) == changed && #[trigger] call_ensures(
                P::apply,
                (source, mutation),
                applied,
            );
        assert(applied is Ok ==> may_apply(source, mutation));
    }
    match applied {
        Ok(()) => {},
        Err(error) => {
            let failure = ContractFailure::Provider(error);
            assert(is_change_refused(before.fixture, mutation, failure)) by {
                let source = choose|source: &mut P|
                    *source == before.fixture && #[trigger] call_ensures(
                        P::apply,
                        (source, mutation),
                        applied,
                    );
                assert(call_ensures(P::apply, (source, mutation), applied));
            }
            return Err(failure);
        },
    }
    let mut observed: Vec<FilesystemEvent> = Vec::new();
    let result = fixture.read_changes(cursor, CONTRACT_PAGE, &mut observed);
    let ghost batch = result->Ok_0;
    assert(exists|events: &mut Vec<FilesystemEvent>| #[trigger]
        may_read(changed, *cursor, events, result) && final(events)@ == observed@) by {
        let events = choose|events: &mut Vec<FilesystemEvent>|
            events@.len() == 0 && final(events)@ == observed@ && #[trigger] call_ensures(
                P::read_changes,
                (fixture, cursor, CONTRACT_PAGE, events),
                result,
            );
        assert(may_read(changed, *cursor, events, result));
    }
    let state = fixture.projected_state();
    let primary = fixture.primary_object();
    let r = check_batch(mutation, result, &observed, &state, (identity, primary), created);
    proof {
        assert(call_ensures(P::projected_state, (fixture,), state));
        assert(may_show(changed, event_models(state@)));
        assert(call_ensures(P::primary_object, (fixture,), primary));
        let events = choose|events: &mut Vec<FilesystemEvent>| #[trigger]
            may_read(changed, *cursor, events, result) && final(events)@ == observed@;
        assert(event_models(final(events)@) == event_models(observed@));
        if r is Ok {
            let next = r->Ok_0;
            let after = ContractState { fixture: changed, cursor: next, created: *created };
            assert(may_read(after.fixture, before.cursor, events, Ok(batch)));
            assert(may_show(after.fixture, event_models(state@)));
            assert(call_ensures(P::primary_object, (&after.fixture,), primary));
            assert(is_followed(
                mutation,
                identity,
                before,
                after,
                events,
                event_models(final(events)@),
            ));
        } else {
            let failure = r->Err_0;
            let source = choose|source: &mut P| #[trigger]
                may_apply(source, mutation) && *source == before.fixture && *final(source)
                    == changed;
            assert(may_apply(source, mutation));
            assert(may_read(*final(source), before.cursor, events, result));
            assert(may_show(*final(source), event_models(state@)));
            assert(call_ensures(P::primary_object, (&*final(source),), primary));
            assert(is_batch_refused(
                mutation,
                identity,
                before,
                *final(source),
                events,
                event_models(final(events)@),
                failure,
            ));
        }
    }
    r
}

/// Runs the mutations of the contract from a checkpoint, and returns the last one.
fn run_mutations<P: ProviderContractFixture>(
    fixture: &mut P,
    checkpoint: ProviderCheckpoint,
) -> (r: (Result<ProviderCheckpoint, ContractFailure>, Ghost<(FileKey, Seq<ContractState<P>>)>))
    ensures
        is_trail(*old(fixture), checkpoint, r.1@.0, r.1@.1),
        ({
            let (identity, trail) = r.1@;
            forall|i: int, j: int| #[trigger]
                is_step(trail, i, j) ==> (exists|source: &mut P| #[trigger]
                    may_apply(source, mutation_order()[i]) && *source == trail[i].fixture
                        && *final(source) == trail[j].fixture) && (exists|
                    events: &mut Vec<FilesystemEvent>,
                | #[trigger]
                    is_followed(
                        mutation_order()[i],
                        identity,
                        trail[i],
                        trail[j],
                        events,
                        event_models(final(events)@),
                    ))
        }),
        r.0 matches Ok(cursor) ==> {
            &&& is_complete(r.1@.1)
            &&& r.1@.1.last().fixture == *final(fixture)
            &&& r.1@.1.last().cursor == cursor
        },
        r.0 is Err ==> !is_complete(r.1@.1),
        r.0 matches Err(failure) ==> {
            ||| is_change_refused(r.1@.1.last().fixture, next_mutation(r.1@.1), failure)
            ||| exists|source: &mut P, events: &mut Vec<FilesystemEvent>| #[trigger]
                may_apply(source, next_mutation(r.1@.1)) && *source == r.1@.1.last().fixture
                    && #[trigger] is_batch_refused(
                    next_mutation(r.1@.1),
                    r.1@.0,
                    r.1@.1.last(),
                    *final(source),
                    events,
                    event_models(final(events)@),
                    failure,
                )
        },
{
    let identity = fixture.primary_object();
    let mutations = contract_mutations();
    let mut cursor = checkpoint;
    let mut created: Option<FileKey> = None;
    let mut i: usize = 0;
    let ghost mut trail: Seq<ContractState<P>> = seq![
        ContractState { fixture: *fixture, cursor: checkpoint, created: None },
    ];
    while i < mutations.len()
        invariant
            i <= mutations@.len(),
            mutations@ == mutation_order(),
            call_ensures(P::primary_object, (old(fixture),), identity),
            trail.len() == i + 1,
            trail[0] == (ContractState {
                fixture: *old(fixture),
                cursor: checkpoint,
                created: None,
            }),
            trail.last() == (ContractState { fixture: *fixture, cursor, created }),
            forall|k: int, j: int| #[trigger]
                is_step(trail, k, j) ==> (exists|source: &mut P| #[trigger]
                    may_apply(source, mutation_order()[k]) && *source == trail[k].fixture
                        && *final(source) == trail[j].fixture) && (exists|
                    events: &mut Vec<FilesystemEvent>,
                | #[trigger]
                    is_followed(
                        mutation_order()[k],
                        identity,
                        trail[k],
                        trail[j],
                        events,
                        event_models(final(events)@),
                    )),
        decreases mutations@.len() - i,
    {
        let ghost earlier = trail;
        let ghost now = ContractState { fixture: *fixture, cursor, created };
        match run_mutation(fixture, mutations[i], identity, &cursor, &mut created) {
            Ok(next) => {
                cursor = next;
                proof {
                    let now = ContractState { fixture: *fixture, cursor, created };
                    trail = trail.push(now);
                    assert(earlier[i as int] == trail[i as int]);
                    assert forall|k: int, j: int| #[trigger] is_step(trail, k, j) implies (exists|
                        source: &mut P,
                    | #[trigger]
                        may_apply(source, mutation_order()[k]) && *source == trail[k].fixture
                            && *final(source) == trail[j].fixture) && (exists|
                        events: &mut Vec<FilesystemEvent>,
                    | #[trigger]
                        is_followed(
                            mutation_order()[k],
                            identity,
                            trail[k],
                            trail[j],
                            events,
                            event_models(final(events)@),
                        )) by {
                        if j < earlier.len() {
                            assert(is_step(earlier, k, j));
                            assert(earlier[k] == trail[k] && earlier[j] == trail[j]);
                        } else {
                            assert(trail[j] == now && k == i);
                        }
                    }
                }
            },
            Err(failure) => {
                assert(next_mutation(trail) == mutations@[i as int]);
                let ghost found = (identity, trail);
                let r: (
                    Result<ProviderCheckpoint, ContractFailure>,
                    Ghost<(FileKey, Seq<ContractState<P>>)>,
                ) = (Err(failure), Ghost(found));
                proof {
                    assert(trail.last() == now);
                    if !is_change_refused(now.fixture, next_mutation(trail), failure) {
                        let (source, events) = choose|
                            source: &mut P,
                            events: &mut Vec<FilesystemEvent>,
                        | #[trigger]
                            may_apply(source, next_mutation(trail)) && *source == now.fixture
                                && #[trigger] is_batch_refused(
                                next_mutation(trail),
                                identity,
                                now,
                                *final(source),
                                events,
                                event_models(final(events)@),
                                failure,
                            );
                        assert(may_apply(source, next_mutation(r.1@.1)));
                        assert(*source == r.1@.1.last().fixture);
                        assert(is_batch_refused(
                            next_mutation(r.1@.1),
                            r.1@.0,
                            r.1@.1.last(),
                            *final(source),
                            events,
                            event_models(final(events)@),
                            r.0->Err_0,
                        ));
                    }
                }
                return r;
            },
        }
        i = i + 1;
    }
    (Ok(cursor), Ghost((identity, trail)))
}

/// Checks what remains once the mutations were followed: a new provider resumes without changes,
/// lost history and an offline volume are explicit, and reconciliation converges.
fn run_lifecycle<P: ProviderContractFixture>(
    fixture: &mut P,
    volume: &VolumeDescriptor,
    cursor: &ProviderCheckpoint,
) -> (r: Result<(), ContractFailure>)
    ensures
        match r {
            Ok(()) => resumes(*old(fixture), *cursor) && exists|
                lost: &mut P,
                offline: &mut P,
                online: &mut P,
            | #[trigger]
                may_lose_history(lost) && #[trigger] may_switch(offline, false)
                    && #[trigger] may_switch(online, true) && *lost == *old(fixture) && *offline
                    == *final(lost) && *online == *final(offline) && tells_gap(
                    *final(lost),
                    *cursor,
                ) && tells_offline(*final(offline), *volume) && exists|
                    events: &mut Vec<FilesystemEvent>,
                    summary: ScanSummary,
                | #[trigger]
                    may_reconcile(*final(online), *volume, events, Ok(summary)) && may_show(
                        *final(online),
                        event_models(final(events)@),
                    ),
            Err(failure) => {
                ||| is_resume_refused(*old(fixture), *cursor, failure)
                ||| resumes(*old(fixture), *cursor) && exists|lost: &mut P| #[trigger]
                    may_lose_history(lost) && *lost == *old(fixture) && is_gap_refused(
                        *final(lost),
                        *cursor,
                        failure,
                    )
                ||| resumes(*old(fixture), *cursor) && exists|lost: &mut P, offline: &mut P|
                    #[trigger] may_lose_history(lost) && #[trigger] may_switch(offline, false)
                        && *lost == *old(fixture) && *offline == *final(lost) && tells_gap(
                        *final(lost),
                        *cursor,
                    ) && is_offline_refused(*final(offline), *volume, failure)
                ||| resumes(*old(fixture), *cursor) && exists|
                    lost: &mut P,
                    offline: &mut P,
                    online: &mut P,
                | #[trigger]
                    may_lose_history(lost) && #[trigger] may_switch(offline, false)
                        && #[trigger] may_switch(online, true) && *lost == *old(fixture)
                        && *offline == *final(lost) && *online == *final(offline) && tells_gap(
                        *final(lost),
                        *cursor,
                    ) && tells_offline(*final(offline), *volume) && exists|
                        events: &mut Vec<FilesystemEvent>,
                        result: PlatformResult<ScanSummary>,
                        state: Seq<EventModel>,
                    | #[trigger]
                        may_reconcile(*final(online), *volume, events, result)
                            && #[trigger] may_show(*final(online), state) && refuses_reconciled(
                            result,
                            event_models(final(events)@),
                            state,
                            failure,
                        )
            },
        },
{
    let restarted = fixture.restart();
    let mut unseen: Vec<FilesystemEvent> = Vec::new();
    let resumed = restarted.read_changes(cursor, CONTRACT_PAGE, &mut unseen);
    match check_resumed(resumed) {
        Ok(()) => {},
        Err(failure) => {
            assert(is_resume_refused(*fixture, *cursor, failure)) by {
                let events = choose|events: &mut Vec<FilesystemEvent>|
                    events@.len() == 0 && #[trigger] call_ensures(
                        P::read_changes,
                        (&restarted, cursor, CONTRACT_PAGE, events),
                        resumed,
                    );
                assert(may_read(restarted, *cursor, events, resumed));
            }
            return Err(failure);
        },
    }
    assert(resumes(*fixture, *cursor)) by {
        let events = choose|events: &mut Vec<FilesystemEvent>|
            events@.len() == 0 && #[trigger] call_ensures(
                P::read_changes,
                (&restarted, cursor, CONTRACT_PAGE, events),
                resumed,
            );
        assert(may_read(restarted, *cursor, events, Ok(resumed->Ok_0)));
    }
    let ghost before = *fixture;
    fixture.recreate_history();
    let ghost after_loss = *fixture;
    assert(exists|lost: &mut P| #[trigger]
        may_lose_history(lost) && *lost == before && *final(lost) == after_loss) by {
        let lost = choose|lost: &mut P|
            *lost == before && *final(lost) == after_loss && #[trigger] call_ensures(
                P::recreate_history,
                (lost,),
                (),
            );
        assert(may_lose_history(lost));
    }
    let mut missing: Vec<FilesystemEvent> = Vec::new();
    let gap = fixture.read_changes(cursor, CONTRACT_PAGE, &mut missing);
    match check_gap(gap) {
        Ok(()) => {},
        Err(failure) => {
            assert(is_gap_refused(after_loss, *cursor, failure)) by {
                let events = choose|events: &mut Vec<FilesystemEvent>|
                    events@.len() == 0 && #[trigger] call_ensures(
                        P::read_changes,
                        (fixture, cursor, CONTRACT_PAGE, events),
                        gap,
                    );
                assert(may_read(after_loss, *cursor, events, gap));
            }
            return Err(failure);
        },
    }
    assert(tells_gap(after_loss, *cursor)) by {
        let events = choose|events: &mut Vec<FilesystemEvent>|
            events@.len() == 0 && #[trigger] call_ensures(
                P::read_changes,
                (fixture, cursor, CONTRACT_PAGE, events),
                gap,
            );
        assert(may_read(after_loss, *cursor, events, Err(gap->Err_0)));
    }
    fixture.set_online(false);
    let ghost away = *fixture;
    assert(exists|offline: &mut P| #[trigger]
        may_switch(offline, false) && *offline == after_loss && *final(offline) == away) by {
        let offline = choose|offline: &mut P|
            *offline == after_loss && *final(offline) == away && #[trigger] call_ensures(
                P::set_online,
                (offline, false),
                (),
            );
        assert(may_switch(offline, false));
    }
    let mut hidden: Vec<FilesystemEvent> = Vec::new();
    let refused = fixture.initial_scan(volume, &mut hidden);
    match check_offline_scan(refused) {
        Ok(()) => {},
        Err(failure) => {
            proof {
                let events = choose|events: &mut Vec<FilesystemEvent>|
                    events@.len() == 0 && #[trigger] call_ensures(
                        P::initial_scan,
                        (fixture, volume, events),
                        refused,
                    );
                assert(may_scan(away, *volume, events, refused));
                assert(is_offline_refused(away, *volume, failure));
                let lost = choose|lost: &mut P| #[trigger]
                    may_lose_history(lost) && *lost == before && *final(lost) == after_loss;
                let offline = choose|offline: &mut P| #[trigger]
                    may_switch(offline, false) && *offline == after_loss && *final(offline) == away;
                assert(may_lose_history(lost) && may_switch(offline, false));
            }
            return Err(failure);
        },
    }
    assert(tells_offline(away, *volume)) by {
        let events = choose|events: &mut Vec<FilesystemEvent>|
            events@.len() == 0 && #[trigger] call_ensures(
                P::initial_scan,
                (fixture, volume, events),
                refused,
            );
        assert(may_scan(away, *volume, events, Err(refused->Err_0)));
    }
    fixture.set_online(true);
    let ghost back = *fixture;
    assert(exists|online: &mut P| #[trigger]
        may_switch(online, true) && *online == away && *final(online) == back) by {
        let online = choose|online: &mut P|
            *online == away && *final(online) == back && #[trigger] call_ensures(
                P::set_online,
                (online, true),
                (),
            );
        assert(may_switch(online, true));
    }
    let mut reconciled: Vec<FilesystemEvent> = Vec::new();
    let result = fixture.reconcile(volume, &mut reconciled);
    let ghost summary = result->Ok_0;
    assert(exists|events: &mut Vec<FilesystemEvent>| #[trigger]
        may_reconcile(back, *volume, events, result) && final(events)@ == reconciled@) by {
        let events = choose|events: &mut Vec<FilesystemEvent>|
            events@.len() == 0 && final(events)@ == reconciled@ && #[trigger] call_ensures(
                P::reconcile,
                (fixture, volume, events),
                result,
            );
        assert(may_reconcile(back, *volume, events, result));
    }
    let state = fixture.projected_state();
    let r = check_reconciled(result, &reconciled, &state);
    proof {
        assert(call_ensures(P::projected_state, (fixture,), state));
        assert(may_show(back, event_models(state@)));
        let lost = choose|lost: &mut P| #[trigger]
            may_lose_history(lost) && *lost == before && *final(lost) == after_loss;
        let offline = choose|offline: &mut P| #[trigger]
            may_switch(offline, false) && *offline == after_loss && *final(offline) == away;
        let online = choose|online: &mut P| #[trigger]
            may_switch(online, true) && *online == away && *final(online) == back;
        let events = choose|events: &mut Vec<FilesystemEvent>| #[trigger]
            may_reconcile(back, *volume, events, result) && final(events)@ == reconciled@;
        assert(may_lose_history(lost) && may_switch(offline, false));
        assert(may_switch(online, true));
        assert(may_reconcile(*final(online), *volume, events, result));
        assert(may_show(*final(online), event_models(state@)));
        if r is Ok {
            assert(may_reconcile(*final(online), *volume, events, Ok(summary)));
        } else {
            assert(refuses_reconciled(
                result,
                event_models(final(events)@),
                event_models(state@),
                r->Err_0,
            ));
        }
    }
    r
}

/// Runs the contract on a provider. What the provider does decides the outcome; a provider that
/// meets the contract gets the full report. Another one is refused with the first failure: an
/// error that it gave itself, or the name of what the answer to one of the calls violates, after
/// all calls before it were answered as they should be.
///
/// The report says that the first scan of the first volume showed the state, that its checkpoint
/// survived being stored, that each mutation was applied in turn and followed by the changes it
/// leads to, that then a new provider resumed, that lost history and an offline volume were
/// explicit, and that reconciliation showed the state again.
pub fn run_provider_contract<P: ProviderContractFixture>(fixture: P) -> (r: Result<
    ProviderContractReport,
    ContractFailure,
>)
    ensures
        match r {
            Ok(report) => report.assertions == 33 && texts(report.scenarios@)
                == contract_scenarios() && exists|
                volume: VolumeDescriptor,
                scanned: ProviderCheckpoint,
                first: ProviderCheckpoint,
                identity: FileKey,
                trail: Seq<ContractState<P>>,
            | #[trigger]
                is_first_volume(fixture, volume) && #[trigger] is_stored(fixture, scanned, first)
                    && #[trigger] is_trail(fixture, first, identity, trail) && is_complete(trail)
                    && (exists|events: &mut Vec<FilesystemEvent>, summary: ScanSummary| #[trigger]
                    may_scan(fixture, volume, events, Ok(summary)) && may_show(
                        fixture,
                        event_models(final(events)@),
                    ) && summary.emitted_events == final(events)@.len() && summary.checkpoint
                        == scanned) && (forall|i: int, j: int| #[trigger]
                    is_step(trail, i, j) ==> (exists|source: &mut P| #[trigger]
                        may_apply(source, mutation_order()[i]) && *source == trail[i].fixture
                            && *final(source) == trail[j].fixture) && (exists|
                        events: &mut Vec<FilesystemEvent>,
                    | #[trigger]
                        is_followed(
                            mutation_order()[i],
                            identity,
                            trail[i],
                            trail[j],
                            events,
                            event_models(final(events)@),
                        ))) && resumes(trail.last().fixture, trail.last().cursor) && (exists|
                    lost: &mut P,
                    offline: &mut P,
                    online: &mut P,
                | #[trigger]
                    may_lose_history(lost) && #[trigger] may_switch(offline, false)
                        && #[trigger] may_switch(online, true) && *lost == trail.last().fixture
                        && *offline == *final(lost) && *online == *final(offline) && tells_gap(
                        *final(lost),
                        trail.last().cursor,
                    ) && tells_offline(*final(offline), volume) && exists|
                        events: &mut Vec<FilesystemEvent>,
                        summary: ScanSummary,
                    | #[trigger]
                        may_reconcile(*final(online), volume, events, Ok(summary)) && may_show(
                            *final(online),
                            event_models(final(events)@),
                        )),
            Err(failure) => {
                ||| is_discovery_refused(fixture, failure)
                ||| exists|
                    volume: VolumeDescriptor,
                    events: &mut Vec<FilesystemEvent>,
                    result: PlatformResult<ScanSummary>,
                    state: Seq<EventModel>,
                | #[trigger]
                    may_scan(fixture, volume, events, result) && #[trigger] may_show(fixture, state)
                        && is_first_volume(fixture, volume) && refuses_scan(
                        result,
                        event_models(final(events)@),
                        state,
                        failure,
                    )
                ||| exists|volume: VolumeDescriptor, scanned: ProviderCheckpoint| #[trigger]
                    is_first_volume(fixture, volume) && #[trigger] is_storing_refused(
                        fixture,
                        scanned,
                        failure,
                    ) && (exists|events: &mut Vec<FilesystemEvent>, summary: ScanSummary| #[trigger]
                        may_scan(fixture, volume, events, Ok(summary)) && may_show(
                            fixture,
                            event_models(final(events)@),
                        ) && summary.emitted_events == final(events)@.len() && summary.checkpoint
                            == scanned)
                ||| exists|
                    volume: VolumeDescriptor,
                    scanned: ProviderCheckpoint,
                    first: ProviderCheckpoint,
                    identity: FileKey,
                    trail: Seq<ContractState<P>>,
                | #[trigger]
                    is_first_volume(fixture, volume) && #[trigger] is_stored(
                        fixture,
                        scanned,
                        first,
                    ) && #[trigger] is_trail(fixture, first, identity, trail) && (exists|
                        events: &mut Vec<FilesystemEvent>,
                        summary: ScanSummary,
                    | #[trigger]
                        may_scan(fixture, volume, events, Ok(summary)) && may_show(
                            fixture,
                            event_models(final(events)@),
                        ) && summary.emitted_events == final(events)@.len() && summary.checkpoint
                            == scanned) && (forall|i: int, j: int| #[trigger]
                        is_step(trail, i, j) ==> (exists|source: &mut P| #[trigger]
                            may_apply(source, mutation_order()[i]) && *source == trail[i].fixture
                                && *final(source) == trail[j].fixture) && (exists|
                            events: &mut Vec<FilesystemEvent>,
                        | #[trigger]
                            is_followed(
                                mutation_order()[i],
                                identity,
                                trail[i],
                                trail[j],
                                events,
                                event_models(final(events)@),
                            ))) && if !is_complete(trail) {
                        let mutation = next_mutation(trail);
                        ||| is_change_refused(trail.last().fixture, mutation, failure)
                        ||| exists|source: &mut P, events: &mut Vec<FilesystemEvent>| #[trigger]
                            may_apply(source, mutation) && *source == trail.last().fixture
                                && #[trigger] is_batch_refused(
                                mutation,
                                identity,
                                trail.last(),
                                *final(source),
                                events,
                                event_models(final(events)@),
                                failure,
                            )
                    } else {
                        let last = trail.last();
                        ||| is_resume_refused(last.fixture, last.cursor, failure)
                        ||| resumes(last.fixture, last.cursor) && exists|lost: &mut P| #[trigger]
                            may_lose_history(lost) && *lost == last.fixture && is_gap_refused(
                                *final(lost),
                                last.cursor,
                                failure,
                            )
                        ||| resumes(last.fixture, last.cursor) && exists|
                            lost: &mut P,
                            offline: &mut P,
                        | #[trigger]
                            may_lose_history(lost) && #[trigger] may_switch(offline, false)
                                && *lost == last.fixture && *offline == *final(lost) && tells_gap(
                                *final(lost),
                                last.cursor,
                            ) && is_offline_refused(*final(offline), volume, failure)
                        ||| resumes(last.fixture, last.cursor) && exists|
                            lost: &mut P,
                            offline: &mut P,
                            online: &mut P,
                        | #[trigger]
                            may_lose_history(lost) && #[trigger] may_switch(offline, false)
                                && #[trigger] may_switch(online, true) && *lost == last.fixture
                                && *offline == *final(lost) && *online == *final(offline)
                                && tells_gap(*final(lost), last.cursor) && tells_offline(
                                *final(offline),
                                volume,
                            ) && exists|
                                events: &mut Vec<FilesystemEvent>,
                                result: PlatformResult<ScanSummary>,
                                state: Seq<EventModel>,
                            | #[trigger]
                                may_reconcile(*final(online), volume, events, result)
                                    && #[trigger] may_show(*final(online), state)
                                    && refuses_reconciled(
                                    result,
                                    event_models(final(events)@),
                                    state,
                                    failure,
                                )
                    }
            },
        },
{
    let ghost initially = fixture;
    let mut fixture = fixture;
    let discovered = fixture.discover_volumes();
    let volume = match check_discovered(discovered) {
        Ok(volume) => volume,
        Err(failure) => {
            assert(is_discovery_refused(initially, failure));
            return Err(failure);
        },
    };
    assert(is_first_volume(initially, volume)) by {
        assert(call_ensures(P::discover_volumes, (&initially,), Ok(discovered->Ok_0)));
    }
    let mut initial: Vec<FilesystemEvent> = Vec::new();
    let result = fixture.initial_scan(&volume, &mut initial);
    let ghost summary = result->Ok_0;
    assert(exists|events: &mut Vec<FilesystemEvent>| #[trigger]
        may_scan(initially, volume, events, result) && final(events)@ == initial@) by {
        let events = choose|events: &mut Vec<FilesystemEvent>|
            events@.len() == 0 && final(events)@ == initial@ && #[trigger] call_ensures(
                P::initial_scan,
                (&fixture, &volume, events),
                result,
            );
        assert(may_scan(initially, volume, events, result));
    }
    let state = fixture.projected_state();
    assert(call_ensures(P::projected_state, (&initially,), state));
    assert(may_show(initially, event_models(state@)));
    let checkpoint = match check_initial_scan(result, &initial, &state) {
        Ok(checkpoint) => checkpoint,
        Err(failure) => {
            proof {
                let events = choose|events: &mut Vec<FilesystemEvent>| #[trigger]
                    may_scan(initially, volume, events, result) && final(events)@ == initial@;
                assert(may_scan(initially, volume, events, result));
                assert(event_models(initial@).len() == initial@.len());
                assert(refuses_scan(
                    result,
                    event_models(final(events)@),
                    event_models(state@),
                    failure,
                ));
            }
            return Err(failure);
        },
    };
    proof {
        let events = choose|events: &mut Vec<FilesystemEvent>| #[trigger]
            may_scan(initially, volume, events, result) && final(events)@ == initial@;
        assert(may_scan(initially, volume, events, Ok(summary)));
        assert(may_show(initially, event_models(final(events)@)));
    }
    let stored = fixture.stored_and_loaded(&checkpoint);
    let first = match check_stored(stored, &checkpoint) {
        Ok(first) => first,
        Err(failure) => {
            assert(call_ensures(P::stored_and_loaded, (&initially, &checkpoint), stored));
            assert(is_storing_refused(initially, summary.checkpoint, failure));
            return Err(failure);
        },
    };
    assert(is_stored(initially, summary.checkpoint, first));
    let (followed, Ghost(found)) = run_mutations(&mut fixture, first);
    let cursor = match followed {
        Ok(cursor) => cursor,
        Err(failure) => return Err(failure),
    };
    match run_lifecycle(&mut fixture, &volume, &cursor) {
        Ok(()) => Ok(contract_report()),
        Err(failure) => Err(failure),
    }
}

} // verus!
