use localsearch::catalog::{
    Availability, FileKind, FileLinkSnapshot, FileMetadata, FileObjectSnapshot, FilesystemEvent,
    ProviderCheckpoint, VolumeDescriptor,
};
use localsearch::ids::{FileId128, FileKey, FileLinkId, VolumeId};
use localsearch::platform::{
    PlatformError, PlatformErrorKind, PlatformResult, PowerSource, ResourceProvider, StorageClass,
    StorageResources, SystemResources,
};
use localsearch::provider::{
    run_provider_contract, ChangeBatch, ChangeTrackingMode, ContractFailure, ContractMutation,
    FilesystemProvider, InitialScanMode, PlatformCapabilities, PlatformFamily, PrivilegeModel,
    ProviderContractFixture, ScanSummary,
};

#[derive(Clone, Copy)]
struct FixtureFilesystemProvider {
    capabilities: PlatformCapabilities,
}

impl FixtureFilesystemProvider {
    fn volume() -> VolumeDescriptor {
        VolumeDescriptor {
            volume_id: VolumeId::from_u128(1),
            display_name: Some("fixture".to_owned()),
            mount_points: vec!["/fixture".to_owned()],
            filesystem: Some("fixturefs".to_owned()),
            removable: false,
            local: true,
        }
    }

    fn checkpoint(volume_id: VolumeId) -> ProviderCheckpoint {
        ProviderCheckpoint {
            provider_id: "fixture-provider".to_owned(),
            format_version: 1,
            volume_id,
            opaque: vec![0x01, 0x02, 0x03],
        }
    }

    fn canonical_events(volume_id: VolumeId) -> [FilesystemEvent; 2] {
        let object_key = FileKey::new(volume_id, FileId128::from_u128(2));
        [
            FilesystemEvent::ObjectObserved {
                object: FileObjectSnapshot {
                    object_key,
                    metadata: FileMetadata {
                        kind: FileKind::File,
                        size: 42,
                        created_at_unix_ms: None,
                        modified_at_unix_ms: Some(1_786_662_000_000),
                        hidden: false,
                        availability: Availability::Online,
                    },
                },
            },
            FilesystemEvent::LinkObserved {
                link: FileLinkSnapshot {
                    file_link_id: FileLinkId::from_u128(3),
                    object_key,
                    parent_key: None,
                    name: "portable.txt".to_owned(),
                },
            },
        ]
    }
}

impl FilesystemProvider for FixtureFilesystemProvider {
    fn capabilities(&self) -> PlatformCapabilities {
        self.capabilities
    }

    fn discover_volumes(&self) -> PlatformResult<Vec<VolumeDescriptor>> {
        Ok(vec![Self::volume()])
    }

    fn initial_scan(
        &self,
        volume: &VolumeDescriptor,
        events: &mut Vec<FilesystemEvent>,
    ) -> PlatformResult<ScanSummary> {
        for event in Self::canonical_events(volume.volume_id) {
            events.push(event);
        }
        Ok(ScanSummary {
            checkpoint: Self::checkpoint(volume.volume_id),
            emitted_events: 2,
        })
    }

    fn read_changes(
        &self,
        checkpoint: &ProviderCheckpoint,
        _maximum_events: u32,
        _events: &mut Vec<FilesystemEvent>,
    ) -> PlatformResult<ChangeBatch> {
        Ok(ChangeBatch {
            checkpoint: checkpoint.clone(),
            emitted_events: 0,
            has_more: false,
        })
    }

    fn reconcile(
        &self,
        volume: &VolumeDescriptor,
        events: &mut Vec<FilesystemEvent>,
    ) -> PlatformResult<ScanSummary> {
        self.initial_scan(volume, events)
    }
}

struct FixtureResourceProvider;

impl ResourceProvider for FixtureResourceProvider {
    fn snapshot(&self) -> PlatformResult<SystemResources> {
        Ok(SystemResources {
            logical_processors: 8,
            total_memory_bytes: Some(16 * 1024 * 1024 * 1024),
            available_memory_bytes: Some(8 * 1024 * 1024 * 1024),
            system_cpu_load_basis_points: Some(1_500),
            process_cpu_load_basis_points: Some(250),
            power_source: PowerSource::Ac,
            battery_percent: None,
            energy_saver: false,
            storage_busy_basis_points: Some(1_250),
            user_idle_duration_millis: Some(30_000),
            storage: vec![StorageResources {
                volume_id: VolumeId::from_u128(1),
                class: StorageClass::Nvme,
                capacity_bytes: Some(1_000_000_000_000),
                available_bytes: Some(500_000_000_000),
            }],
        })
    }
}

fn provider(platform: PlatformFamily) -> FixtureFilesystemProvider {
    let (initial_scan, change_tracking, privilege_model, stable_object_ids, persistent_history) =
        match platform {
            PlatformFamily::Windows => (
                InitialScanMode::FastMetadataEnumeration,
                ChangeTrackingMode::PersistentObjectJournal,
                PrivilegeModel::OptionalBroker,
                true,
                true,
            ),
            PlatformFamily::MacOs => (
                InitialScanMode::FilesystemCrawl,
                ChangeTrackingMode::PersistentPathStream,
                PrivilegeModel::UserConsent,
                false,
                true,
            ),
            PlatformFamily::Linux => (
                InitialScanMode::FilesystemCrawl,
                ChangeTrackingMode::EphemeralWatchers,
                PrivilegeModel::CurrentUser,
                false,
                false,
            ),
        };

    FixtureFilesystemProvider {
        capabilities: PlatformCapabilities {
            platform,
            initial_scan,
            change_tracking,
            privilege_model,
            stable_object_ids,
            hard_links: true,
            persistent_history,
        },
    }
}

#[test]
fn platform_capabilities_vary_but_canonical_events_do_not() -> PlatformResult<()> {
    let mut expected = None;

    for family in [
        PlatformFamily::Windows,
        PlatformFamily::MacOs,
        PlatformFamily::Linux,
    ] {
        let provider = provider(family);
        let volume = provider.discover_volumes()?.remove(0);
        let mut events = Vec::new();
        let summary = provider.initial_scan(&volume, &mut events)?;

        assert_eq!(provider.capabilities().platform, family);
        assert_eq!(summary.emitted_events, 2);
        if let Some(expected) = &expected {
            assert_eq!(&events, expected);
        } else {
            expected = Some(events);
        }
    }

    Ok(())
}

#[test]
fn resource_provider_returns_portable_policy_inputs() -> PlatformResult<()> {
    let snapshot = FixtureResourceProvider.snapshot()?;

    assert_eq!(snapshot.logical_processors, 8);
    assert_eq!(snapshot.system_cpu_load_basis_points, Some(1_500));
    assert_eq!(snapshot.storage_busy_basis_points, Some(1_250));
    assert_eq!(snapshot.user_idle_duration_millis, Some(30_000));
    assert_eq!(snapshot.storage[0].class, StorageClass::Nvme);

    Ok(())
}

#[derive(Clone)]
struct DeterministicWindowsFixture {
    volume: VolumeDescriptor,
    generation: u64,
    online: bool,
    object: FileKey,
    primary_link: FileLinkSnapshot,
    projections: Vec<FilesystemEvent>,
    history: Vec<FilesystemEvent>,
}

impl DeterministicWindowsFixture {
    fn new() -> Self {
        let volume_id = VolumeId::from_u128(1);
        let object = FileKey::new(volume_id, FileId128::from_u128(10));
        let primary_link = FileLinkSnapshot {
            file_link_id: FileLinkId::from_u128(11),
            object_key: object,
            parent_key: None,
            name: "alpha.txt".to_owned(),
        };
        let projections = vec![
            object_event(object, 10),
            FilesystemEvent::LinkObserved {
                link: primary_link.clone(),
            },
        ];
        Self {
            volume: VolumeDescriptor {
                volume_id,
                display_name: Some("contract-ntfs".to_owned()),
                mount_points: vec!["X:\\".to_owned()],
                filesystem: Some("NTFS".to_owned()),
                removable: false,
                local: true,
            },
            generation: 1,
            online: true,
            object,
            primary_link,
            projections,
            history: Vec::new(),
        }
    }
    fn checkpoint(&self, cursor: usize) -> PlatformResult<ProviderCheckpoint> {
        Ok(ProviderCheckpoint {
            provider_id: "fixture.windows-fs".to_owned(),
            format_version: 1,
            volume_id: self.volume.volume_id,
            opaque: serde_json::to_vec(&(self.generation, cursor)).map_err(|error| {
                PlatformError::new(
                    PlatformErrorKind::Internal,
                    "fixture_checkpoint",
                    &error.to_string(),
                )
            })?,
        })
    }
    fn parse(&self, checkpoint: &ProviderCheckpoint) -> PlatformResult<(u64, usize)> {
        if checkpoint.provider_id != "fixture.windows-fs"
            || checkpoint.volume_id != self.volume.volume_id
        {
            return Err(PlatformError::new(
                PlatformErrorKind::InvalidCheckpoint,
                "fixture_checkpoint",
                "identity mismatch",
            ));
        }
        serde_json::from_slice(&checkpoint.opaque).map_err(|error| {
            PlatformError::new(
                PlatformErrorKind::InvalidCheckpoint,
                "fixture_checkpoint",
                &error.to_string(),
            )
        })
    }
    fn push(&mut self, event: FilesystemEvent) {
        self.history.push(event);
    }
    fn replace_object(&mut self, event: FilesystemEvent) {
        self.projections.retain(|item| !matches!(item, FilesystemEvent::ObjectObserved { object } if object.object_key == self.object));
        self.projections.insert(0, event.clone());
        self.push(event);
    }
    fn replace_primary_link(&mut self) {
        self.projections.retain(|item| !matches!(item, FilesystemEvent::LinkObserved { link } if link.file_link_id == self.primary_link.file_link_id));
        let event = FilesystemEvent::LinkObserved {
            link: self.primary_link.clone(),
        };
        self.projections.push(event.clone());
        self.push(event);
    }
}

impl FilesystemProvider for DeterministicWindowsFixture {
    fn capabilities(&self) -> PlatformCapabilities {
        PlatformCapabilities {
            platform: PlatformFamily::Windows,
            initial_scan: InitialScanMode::FastMetadataEnumeration,
            change_tracking: ChangeTrackingMode::PersistentObjectJournal,
            privilege_model: PrivilegeModel::OptionalBroker,
            stable_object_ids: true,
            hard_links: true,
            persistent_history: true,
        }
    }
    fn discover_volumes(&self) -> PlatformResult<Vec<VolumeDescriptor>> {
        Ok(vec![self.volume.clone()])
    }
    fn initial_scan(
        &self,
        _volume: &VolumeDescriptor,
        events: &mut Vec<FilesystemEvent>,
    ) -> PlatformResult<ScanSummary> {
        if !self.online {
            return Err(PlatformError::new(
                PlatformErrorKind::Unavailable,
                "fixture_scan",
                "offline",
            ));
        }
        for event in self.projections.clone() {
            events.push(event);
        }
        Ok(ScanSummary {
            checkpoint: self.checkpoint(self.history.len())?,
            emitted_events: self.projections.len() as u64,
        })
    }
    fn read_changes(
        &self,
        checkpoint: &ProviderCheckpoint,
        maximum_events: u32,
        events: &mut Vec<FilesystemEvent>,
    ) -> PlatformResult<ChangeBatch> {
        let (generation, cursor) = self.parse(checkpoint)?;
        if generation != self.generation {
            return Err(PlatformError::new(
                PlatformErrorKind::SourceHistoryGap,
                "fixture_changes",
                "journal recreated",
            ));
        }
        let limit = usize::try_from(maximum_events).unwrap_or(usize::MAX);
        let end = cursor.saturating_add(limit).min(self.history.len());
        for event in &self.history[cursor..end] {
            events.push(event.clone());
        }
        Ok(ChangeBatch {
            checkpoint: self.checkpoint(end)?,
            emitted_events: u32::try_from(end - cursor).map_err(|_| {
                PlatformError::new(
                    PlatformErrorKind::Internal,
                    "fixture_changes",
                    "bounded event count overflow",
                )
            })?,
            has_more: end < self.history.len(),
        })
    }
    fn reconcile(
        &self,
        volume: &VolumeDescriptor,
        events: &mut Vec<FilesystemEvent>,
    ) -> PlatformResult<ScanSummary> {
        self.initial_scan(volume, events)
    }
}

impl ProviderContractFixture for DeterministicWindowsFixture {
    fn apply(&mut self, mutation: ContractMutation) -> PlatformResult<()> {
        match mutation {
            ContractMutation::Create => {
                let key = FileKey::new(self.volume.volume_id, FileId128::from_u128(20));
                let object = object_event(key, 1);
                let link = FilesystemEvent::LinkObserved {
                    link: FileLinkSnapshot {
                        file_link_id: FileLinkId::from_u128(21),
                        object_key: key,
                        parent_key: None,
                        name: "created.txt".to_owned(),
                    },
                };
                self.projections.extend([object.clone(), link.clone()]);
                self.push(object);
                self.push(link);
            }
            ContractMutation::Metadata => self.replace_object(object_event(self.object, 99)),
            ContractMutation::Rename => {
                "renamed.txt".clone_into(&mut self.primary_link.name);
                self.replace_primary_link();
            }
            ContractMutation::Move => {
                self.primary_link.parent_key = Some(FileKey::new(
                    self.volume.volume_id,
                    FileId128::from_u128(30),
                ));
                self.replace_primary_link();
            }
            ContractMutation::DirectoryRename => {
                let directory = FileKey::new(self.volume.volume_id, FileId128::from_u128(30));
                let event = FilesystemEvent::LinkObserved {
                    link: FileLinkSnapshot {
                        file_link_id: FileLinkId::from_u128(31),
                        object_key: directory,
                        parent_key: None,
                        name: "renamed-dir".to_owned(),
                    },
                };
                self.projections.retain(|item| !matches!(item, FilesystemEvent::LinkObserved { link } if link.file_link_id == FileLinkId::from_u128(31)));
                self.projections.push(event.clone());
                self.push(event);
            }
            ContractMutation::HardLinkCreate => {
                let event = FilesystemEvent::LinkObserved {
                    link: FileLinkSnapshot {
                        file_link_id: FileLinkId::from_u128(12),
                        object_key: self.object,
                        parent_key: None,
                        name: "hard.txt".to_owned(),
                    },
                };
                self.projections.push(event.clone());
                self.push(event);
            }
            ContractMutation::HardLinkDelete => {
                let id = FileLinkId::from_u128(12);
                self.projections.retain(|item| !matches!(item, FilesystemEvent::LinkObserved { link } if link.file_link_id == id));
                self.push(FilesystemEvent::LinkRemoved {
                    file_link_id: id,
                    object_key: self.object,
                });
            }
            ContractMutation::Delete => {
                let key = FileKey::new(self.volume.volume_id, FileId128::from_u128(20));
                let id = FileLinkId::from_u128(21);
                self.projections.retain(|item| !matches!(item, FilesystemEvent::ObjectObserved { object } if object.object_key == key) && !matches!(item, FilesystemEvent::LinkObserved { link } if link.file_link_id == id));
                self.push(FilesystemEvent::LinkRemoved {
                    file_link_id: id,
                    object_key: key,
                });
                self.push(FilesystemEvent::ObjectRemoved { object_key: key });
            }
        }
        Ok(())
    }
    fn restart(&self) -> Self {
        self.clone()
    }
    fn recreate_history(&mut self) {
        self.generation += 1;
        self.history.clear();
    }
    fn set_online(&mut self, online: bool) {
        self.online = online;
    }
    fn primary_object(&self) -> FileKey {
        self.object
    }
    fn projected_state(&self) -> Vec<FilesystemEvent> {
        self.projections.clone()
    }
    fn stored_and_loaded(
        &self,
        checkpoint: &ProviderCheckpoint,
    ) -> PlatformResult<ProviderCheckpoint> {
        let encoded = serde_json::to_vec(&(
            &checkpoint.provider_id,
            checkpoint.format_version,
            checkpoint.volume_id.value.to_string(),
            &checkpoint.opaque,
        ))
        .map_err(|_| {
            PlatformError::new(
                PlatformErrorKind::Internal,
                "serialize_checkpoint",
                "not encoded",
            )
        })?;
        let (provider_id, format_version, volume, opaque): (String, u32, String, Vec<u8>) =
            serde_json::from_slice(&encoded).map_err(|_| {
                PlatformError::new(
                    PlatformErrorKind::Internal,
                    "deserialize_checkpoint",
                    "not decoded",
                )
            })?;
        Ok(ProviderCheckpoint {
            provider_id,
            format_version,
            volume_id: VolumeId::from_u128(volume.parse().expect("a number")),
            opaque,
        })
    }
}

fn object_event(key: FileKey, size: u64) -> FilesystemEvent {
    FilesystemEvent::ObjectObserved {
        object: FileObjectSnapshot {
            object_key: key,
            metadata: FileMetadata {
                kind: FileKind::File,
                size,
                created_at_unix_ms: None,
                modified_at_unix_ms: Some(1),
                hidden: false,
                availability: Availability::Online,
            },
        },
    }
}

#[test]
fn windows_semantics_pass_shared_provider_contract() -> Result<(), ContractFailure> {
    let report = run_provider_contract(DeterministicWindowsFixture::new())?;
    assert_eq!(report.scenarios.len(), 13);
    Ok(())
}

#[derive(Clone, Copy, PartialEq, Eq)]
enum Fault {
    LosesChanges,
    ScansTooLittle,
    ReconcilesTooLittle,
    ChangesStoredCheckpoints,
    HasNoVolume,
    CannotDiscover,
    CannotChange,
    ForgetsWhereItWas,
    HidesLostHistory,
    ScansOffline,
}

struct Faulty(DeterministicWindowsFixture, Fault);

impl FilesystemProvider for Faulty {
    fn capabilities(&self) -> PlatformCapabilities {
        self.0.capabilities()
    }
    fn discover_volumes(&self) -> PlatformResult<Vec<VolumeDescriptor>> {
        match self.1 {
            Fault::HasNoVolume => Ok(Vec::new()),
            Fault::CannotDiscover => Err(broken()),
            _ => self.0.discover_volumes(),
        }
    }
    fn initial_scan(
        &self,
        volume: &VolumeDescriptor,
        events: &mut Vec<FilesystemEvent>,
    ) -> PlatformResult<ScanSummary> {
        if self.1 == Fault::ScansOffline && !self.0.online {
            return Err(broken());
        }
        let mut summary = self.0.initial_scan(volume, events)?;
        if self.1 == Fault::ScansTooLittle {
            events.pop();
            summary.emitted_events -= 1;
        }
        Ok(summary)
    }
    fn read_changes(
        &self,
        checkpoint: &ProviderCheckpoint,
        maximum_events: u32,
        events: &mut Vec<FilesystemEvent>,
    ) -> PlatformResult<ChangeBatch> {
        if self.1 == Fault::LosesChanges {
            let mut ignored = events.clone();
            let mut batch = self.0.read_changes(checkpoint, maximum_events, &mut ignored)?;
            batch.emitted_events = 0;
            return Ok(batch);
        }
        if self.1 == Fault::HidesLostHistory && self.0.generation > 1 && self.0.history.is_empty() {
            return Err(broken());
        }
        self.0.read_changes(checkpoint, maximum_events, events)
    }
    fn reconcile(
        &self,
        volume: &VolumeDescriptor,
        events: &mut Vec<FilesystemEvent>,
    ) -> PlatformResult<ScanSummary> {
        let summary = self.0.reconcile(volume, events)?;
        if self.1 == Fault::ReconcilesTooLittle {
            events.pop();
        }
        Ok(summary)
    }
}

impl ProviderContractFixture for Faulty {
    fn apply(&mut self, mutation: ContractMutation) -> PlatformResult<()> {
        if self.1 == Fault::CannotChange && mutation == ContractMutation::Move {
            return Err(broken());
        }
        self.0.apply(mutation)
    }
    fn restart(&self) -> Self {
        let mut restarted = Faulty(self.0.restart(), self.1);
        if self.1 == Fault::ForgetsWhereItWas {
            restarted.0.push(object_event(restarted.0.object, 5));
        }
        restarted
    }
    fn recreate_history(&mut self) {
        self.0.recreate_history();
    }
    fn set_online(&mut self, online: bool) {
        self.0.set_online(online);
    }
    fn primary_object(&self) -> FileKey {
        self.0.primary_object()
    }
    fn projected_state(&self) -> Vec<FilesystemEvent> {
        self.0.projected_state()
    }
    fn stored_and_loaded(
        &self,
        checkpoint: &ProviderCheckpoint,
    ) -> PlatformResult<ProviderCheckpoint> {
        let mut loaded = self.0.stored_and_loaded(checkpoint)?;
        if self.1 == Fault::ChangesStoredCheckpoints {
            loaded.opaque.push(0);
        }
        Ok(loaded)
    }
}

fn broken() -> PlatformError {
    PlatformError::new(PlatformErrorKind::Internal, "fixture", "broken")
}

fn violation(fault: Fault) -> Option<&'static str> {
    match run_provider_contract(Faulty(DeterministicWindowsFixture::new(), fault)) {
        Err(ContractFailure::Violated(what)) => Some(what),
        _ => None,
    }
}

#[test]
fn a_provider_that_loses_changes_does_not_meet_the_contract() {
    assert_eq!(
        violation(Fault::LosesChanges),
        Some("the mutation reports its changes")
    );
}

#[test]
fn a_scan_that_does_not_show_the_state_does_not_meet_the_contract() {
    assert_eq!(
        violation(Fault::ScansTooLittle),
        Some("the scan reports the state")
    );
}

#[test]
fn reconciliation_that_does_not_converge_does_not_meet_the_contract() {
    assert_eq!(
        violation(Fault::ReconcilesTooLittle),
        Some("reconciliation converges")
    );
}

#[test]
fn a_checkpoint_that_changes_when_it_is_stored_does_not_meet_the_contract() {
    assert_eq!(
        violation(Fault::ChangesStoredCheckpoints),
        Some("a stored checkpoint is unchanged")
    );
}

#[test]
fn a_provider_without_volumes_does_not_meet_the_contract() {
    assert_eq!(violation(Fault::HasNoVolume), Some("a volume is discovered"));
}

#[test]
fn errors_of_a_provider_are_handed_on() {
    for fault in [Fault::CannotDiscover, Fault::CannotChange] {
        assert_eq!(
            run_provider_contract(Faulty(DeterministicWindowsFixture::new(), fault)),
            Err(ContractFailure::Provider(broken()))
        );
    }
}

#[test]
fn the_end_of_a_provider_is_part_of_the_contract() {
    assert_eq!(
        violation(Fault::ForgetsWhereItWas),
        Some("a new provider resumes")
    );
    assert_eq!(
        violation(Fault::HidesLostHistory),
        Some("lost history is explicit")
    );
    assert_eq!(
        violation(Fault::ScansOffline),
        Some("an offline volume is explicit")
    );
}
