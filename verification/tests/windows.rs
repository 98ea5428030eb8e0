use localsearch::catalog::{
    FileKind, FileLinkSnapshot, FilesystemEvent, ProviderCheckpoint, ReconciliationReason,
    VolumeDescriptor,
};
use localsearch::ids::{FileLinkId, VolumeId};
use localsearch::platform::{PlatformError, PlatformErrorKind, PlatformResult, PowerSource};
use localsearch::provider::ChangeTrackingMode;
use localsearch::windows::changes::{
    canonical_step, complete_change, failed_lookup, position_after, ChangeReader, ChangeReasons,
    JournalRecord, ObjectLookup, RecordStep,
};
use localsearch::windows::checkpoint::{
    check_format, forget_known_link, known_link_id, remember_known_link, remember_rename,
    restore_order, take_rename, validate, wrap, KnownLinkIdentity, PendingRename,
    WindowsCheckpoint, PROVIDER_ID,
};
use localsearch::windows::identity::{
    big_endian_bytes, checkpoint_identity, display_root_path, file_key, filetime_ms, link_hash,
    root_link_id, scoped_volume_id, stable_hash_bytes, units_before_zero, utf16_z,
    volume_id_from_guid,
};
use localsearch::windows::journal::{
    check_page_length, check_path_length, check_state_length, checked_len, native_error_kind,
    resolve_error_kind, retained_start, trim_slashes, volume_device_path, JournalState,
};
use localsearch::windows::resources::{
    decode_power_status, elapsed_input_millis, system_resources, DiskBusyState, DiskSample,
    NativeSample,
};
use localsearch::windows::scan::{
    deepest_mount, describe_volume, directory_failed, drive_roots, io_error, journal_checkpoint,
    lookup_failed, object_snapshot, require_journal, require_ntfs, root_events, root_object,
    snapshot_checkpoint, windows_capabilities, Crawl, CrawlStep, EntryRead, NativeMetadata,
    PreparedScopedScan, ReadFailure, ScopedScanOptions, TrackingMode,
};

fn volume() -> VolumeId {
    VolumeId::from_u128(9)
}

fn saved() -> WindowsCheckpoint {
    WindowsCheckpoint {
        journal_identity: 7,
        next_position: 100,
        lowest_valid_position: 80,
        snapshot_generation: 2,
        pending_events: Vec::new(),
        pending_renames: Vec::new(),
        known_links: Vec::new(),
    }
}

fn units(text: &str) -> Vec<u16> {
    text.encode_utf16().chain(Some(0)).collect()
}

#[test]
fn legacy_v2_checkpoint_migrates_with_empty_rename_correlation() -> PlatformResult<()> {
    let checkpoint = ProviderCheckpoint {
        provider_id: PROVIDER_ID.to_owned(),
        format_version: 2,
        volume_id: VolumeId::from_u128(9),
        opaque: br#"{"journal_identity":7,"next_position":100,"lowest_valid_position":80,"snapshot_generation":2,"pending_events":[]}"#
            .to_vec(),
    };
    check_format(&checkpoint)?;
    let value: serde_json::Value =
        serde_json::from_slice(&checkpoint.opaque).expect("legacy checkpoint JSON");
    let decoded = restore_order(WindowsCheckpoint {
        journal_identity: value["journal_identity"].as_u64().expect("identity"),
        next_position: value["next_position"].as_i64().expect("position"),
        lowest_valid_position: value["lowest_valid_position"].as_i64().expect("lowest"),
        snapshot_generation: value["snapshot_generation"].as_u64().expect("generation"),
        pending_events: Vec::new(),
        pending_renames: Vec::new(),
        known_links: Vec::new(),
    });
    assert!(decoded.pending_renames.is_empty());
    assert!(decoded.known_links.is_empty());
    assert_eq!(decoded, saved());
    Ok(())
}

#[test]
fn checkpoints_of_others_are_refused() {
    let mut checkpoint = wrap(volume(), vec![1, 2]);
    assert_eq!(checkpoint.format_version, 3);
    assert_eq!(checkpoint.opaque, vec![1, 2]);
    assert!(check_format(&checkpoint).is_ok());
    checkpoint.format_version = 4;
    assert_eq!(
        check_format(&checkpoint).expect_err("format").kind,
        PlatformErrorKind::InvalidCheckpoint
    );
    checkpoint.format_version = 3;
    checkpoint.provider_id = "other".to_owned();
    assert_eq!(
        check_format(&checkpoint).expect_err("provider").kind,
        PlatformErrorKind::InvalidCheckpoint
    );
}

#[test]
fn detects_recreated_or_truncated_history() -> PlatformResult<()> {
    let value = saved();
    validate(&value, 7, 80)?;
    assert_eq!(
        validate(&value, 8, 80)
            .expect_err("new journal must gap")
            .kind,
        PlatformErrorKind::SourceHistoryGap
    );
    assert_eq!(
        validate(&value, 7, 101)
            .expect_err("expired cursor must gap")
            .kind,
        PlatformErrorKind::SourceHistoryGap
    );
    Ok(())
}

#[test]
fn vanished_usn_parent_is_transient_but_unrelated_native_errors_remain_fatal() {
    assert_eq!(resolve_error_kind(Some(87)), PlatformErrorKind::Unavailable);
    assert_eq!(resolve_error_kind(Some(6)), PlatformErrorKind::Io);
}

#[test]
fn native_errors_have_categories() {
    assert_eq!(native_error_kind(Some(5)), PlatformErrorKind::PermissionDenied);
    assert_eq!(native_error_kind(Some(1179)), PlatformErrorKind::Unsupported);
    assert_eq!(native_error_kind(Some(1181)), PlatformErrorKind::SourceHistoryGap);
    assert_eq!(native_error_kind(None), PlatformErrorKind::Io);
}

#[test]
fn capabilities_do_not_claim_an_unimplemented_journal() {
    let capabilities = windows_capabilities(TrackingMode::Snapshot);
    assert_eq!(capabilities.change_tracking, ChangeTrackingMode::SnapshotOnly);
    assert!(!capabilities.persistent_history);
    assert_eq!(
        require_journal(TrackingMode::Snapshot)
            .expect_err("no journal")
            .kind,
        PlatformErrorKind::Unsupported
    );
}

#[test]
fn explicit_journal_mode_advertises_persistent_object_history() {
    let capabilities = windows_capabilities(TrackingMode::UsnJournal);
    assert_eq!(
        capabilities.change_tracking,
        ChangeTrackingMode::PersistentObjectJournal
    );
    assert!(capabilities.persistent_history);
    assert!(require_journal(TrackingMode::UsnJournal).is_ok());
}

#[test]
fn volume_identity_depends_on_volume_guid_not_mount_path() {
    let guid = r"\\?\Volume{01234567-89ab-cdef-0123-456789abcdef}\";
    let mounted_as_c = volume_id_from_guid(guid);
    let mounted_as_x = volume_id_from_guid(guid);
    assert_eq!(mounted_as_c, mounted_as_x);
    assert_ne!(
        mounted_as_c,
        volume_id_from_guid(r"\\?\Volume{ffffffff-89ab-cdef-0123-456789abcdef}\")
    );
}

#[test]
fn rename_identity_survives_rename_move_and_later_delete_lookup() {
    let mut checkpoint = WindowsCheckpoint {
        journal_identity: 1,
        next_position: 0,
        lowest_valid_position: 0,
        snapshot_generation: 1,
        pending_events: Vec::new(),
        pending_renames: Vec::new(),
        known_links: Vec::new(),
    };
    let stable = FileLinkId::from_u128(44);
    remember_rename(&mut checkpoint, 7, stable);
    let renamed = take_rename(&mut checkpoint, 7).expect("rename pair must correlate");
    assert_eq!(renamed, stable);
    remember_known_link(&mut checkpoint, 10, "renamed.md", renamed);
    assert_eq!(known_link_id(&checkpoint, 10, "renamed.md"), Some(stable));

    remember_rename(&mut checkpoint, 7, stable);
    let moved = take_rename(&mut checkpoint, 7).expect("move pair must correlate");
    remember_known_link(&mut checkpoint, 11, "renamed.md", moved);
    assert_eq!(known_link_id(&checkpoint, 11, "renamed.md"), Some(stable));
}

#[test]
fn remembered_lists_stay_in_order() {
    let mut checkpoint = saved();
    for reference in [9, 3, 5, 3] {
        remember_rename(&mut checkpoint, reference, FileLinkId::from_u128(u128::from(reference)));
    }
    assert_eq!(
        checkpoint
            .pending_renames
            .iter()
            .map(|rename| rename.file_reference)
            .collect::<Vec<_>>(),
        vec![3, 5, 9]
    );
    assert_eq!(take_rename(&mut checkpoint, 4), None);
    assert_eq!(take_rename(&mut checkpoint, 5), Some(FileLinkId::from_u128(5)));
    assert_eq!(take_rename(&mut checkpoint, 5), None);
    for (parent, name) in [(2, "b"), (1, "z"), (2, "a")] {
        remember_known_link(&mut checkpoint, parent, name, FileLinkId::from_u128(1));
    }
    let places: Vec<(u64, String)> = checkpoint
        .known_links
        .iter()
        .map(|link| (link.parent_reference, link.name.clone()))
        .collect();
    assert_eq!(
        places,
        vec![(1, "z".to_owned()), (2, "a".to_owned()), (2, "b".to_owned())]
    );
    forget_known_link(&mut checkpoint, 2, "a");
    assert_eq!(known_link_id(&checkpoint, 2, "a"), None);
    assert_eq!(known_link_id(&checkpoint, 2, "b"), Some(FileLinkId::from_u128(1)));
}

#[test]
fn lists_that_were_read_are_put_in_order() {
    let mut checkpoint = saved();
    checkpoint.pending_renames = vec![
        PendingRename { file_reference: 4, file_link_id: FileLinkId::from_u128(4) },
        PendingRename { file_reference: 2, file_link_id: FileLinkId::from_u128(2) },
    ];
    checkpoint.known_links = vec![
        KnownLinkIdentity {
            parent_reference: 1,
            name: "b".to_owned(),
            file_link_id: FileLinkId::from_u128(1),
        },
        KnownLinkIdentity {
            parent_reference: 1,
            name: "a".to_owned(),
            file_link_id: FileLinkId::from_u128(2),
        },
    ];
    let ordered = restore_order(checkpoint);
    assert_eq!(ordered.pending_renames[0].file_reference, 2);
    assert_eq!(ordered.known_links[0].name, "a");
}

fn no_reasons() -> ChangeReasons {
    ChangeReasons {
        rename_old_name: false,
        rename_new_name: false,
        file_delete: false,
        hard_link_change: false,
        file_create: false,
        basic_info_change: false,
        data_change: false,
    }
}

fn journal_record(position: i64, name: &str, reasons: ChangeReasons) -> JournalRecord {
    JournalRecord {
        position,
        file_reference: 20,
        parent_reference: 5,
        name: name.to_owned(),
        reasons,
        had_invalid_utf16: false,
    }
}

fn native(is_directory: bool, attributes: u32) -> NativeMetadata {
    NativeMetadata {
        is_directory,
        is_symlink: false,
        is_file: !is_directory,
        size: 42,
        creation_time: 0,
        last_write_time: 116_444_736_000_000_000 + 25_000,
        attributes,
    }
}

#[test]
fn a_renamed_file_keeps_its_link() {
    let mut checkpoint = saved();
    let old_name = journal_record(
        100,
        "before.md",
        ChangeReasons { rename_old_name: true, ..no_reasons() },
    );
    let new_name = journal_record(
        101,
        "after.md",
        ChangeReasons { rename_new_name: true, ..no_reasons() },
    );
    let before = FileLinkId::from_u128(link_hash(Some(file_key(volume(), 5)), "before.md"));
    assert_eq!(
        canonical_step(&mut checkpoint, volume(), &old_name),
        RecordStep::Ready(Vec::new())
    );
    let step = canonical_step(&mut checkpoint, volume(), &new_name);
    let pending = match step {
        RecordStep::NeedsLookup(pending) => pending,
        RecordStep::Ready(_) => panic!("the new name needs a look at the file"),
    };
    assert_eq!(pending.link.file_link_id, before);
    let object = object_snapshot(file_key(volume(), 20), native(false, 0));
    let events = complete_change(pending, ObjectLookup::Observed(object));
    assert_eq!(
        events,
        vec![FilesystemEvent::LinkObserved {
            link: FileLinkSnapshot {
                file_link_id: before,
                object_key: file_key(volume(), 20),
                parent_key: Some(file_key(volume(), 5)),
                name: "after.md".to_owned(),
            },
        }]
    );
    assert_eq!(known_link_id(&checkpoint, 5, "after.md"), Some(before));
}

#[test]
fn deletions_and_unreadable_names_need_no_look() {
    let mut checkpoint = saved();
    let deleted = journal_record(
        100,
        "gone.md",
        ChangeReasons { file_delete: true, ..no_reasons() },
    );
    let link = FileLinkId::from_u128(link_hash(Some(file_key(volume(), 5)), "gone.md"));
    assert_eq!(
        canonical_step(&mut checkpoint, volume(), &deleted),
        RecordStep::Ready(vec![
            FilesystemEvent::LinkRemoved {
                file_link_id: link,
                object_key: file_key(volume(), 20),
            },
            FilesystemEvent::ObjectRemoved { object_key: file_key(volume(), 20) },
        ])
    );
    let mut broken = deleted;
    broken.had_invalid_utf16 = true;
    assert_eq!(
        canonical_step(&mut checkpoint, volume(), &broken),
        RecordStep::Ready(vec![FilesystemEvent::ReconciliationRequired {
            volume_id: volume(),
            reason: ReconciliationReason::ProviderRequested,
        }])
    );
}

fn journal(next_position: i64) -> JournalState {
    JournalState {
        identity: 7,
        first_position: 80,
        next_position,
        lowest_valid_position: 70,
    }
}

#[test]
fn reading_pauses_at_the_maximum_and_keeps_the_rest() {
    let (mut reader, events) =
        ChangeReader::begin(saved(), volume(), journal(200), 1).expect("reader");
    assert!(events.is_empty());
    assert_eq!(reader.pause(), None);
    assert_eq!(reader.position(), (100, 7));
    assert!(reader.check_page(99).is_err());
    assert!(reader.check_page(150).is_ok());
    let records = vec![
        journal_record(100, "gone.md", ChangeReasons { file_delete: true, ..no_reasons() }),
        journal_record(120, "other.md", no_reasons()),
    ];
    let step = reader.take_record(&records[0]);
    let events = match step {
        RecordStep::Ready(events) => events,
        RecordStep::NeedsLookup(_) => panic!("a deletion needs no look"),
    };
    let (reported, paused) = reader.report(events, position_after(&records, 0, 150));
    assert_eq!(reported.len(), 1);
    assert_eq!(paused, Some(true));
    let (checkpoint, emitted) = reader.into_checkpoint();
    assert_eq!(emitted, 1);
    assert_eq!(checkpoint.next_position, 120);
    assert_eq!(checkpoint.pending_events.len(), 1);

    let (reader, events) =
        ChangeReader::begin(checkpoint, volume(), journal(200), 8).expect("reader");
    assert_eq!(events.len(), 1);
    assert_eq!(reader.pause(), None);
    assert_eq!(position_after(&records, 1, 150), 150);
}

#[test]
fn a_page_ends_only_while_the_history_lasts() {
    let (mut reader, _) =
        ChangeReader::begin(saved(), volume(), journal(200), 8).expect("reader");
    let recreated = JournalState { identity: 8, ..journal(200) };
    assert!(reader.finish(recreated).is_err());
    assert_eq!(reader.finish(journal(200)).expect("journal"), true);
    assert_eq!(reader.finish(journal(100)).expect("journal"), false);
    assert!(matches!(
        ChangeReader::begin(saved(), volume(), recreated, 8),
        Err(error) if error.kind == PlatformErrorKind::SourceHistoryGap
    ));
    assert_eq!(retained_start(journal(200)), 80);
}

#[test]
fn lookups_that_fail_are_told_apart() {
    let denied = PlatformError::new(PlatformErrorKind::PermissionDenied, "look", "denied");
    assert_eq!(failed_lookup(denied), Ok(ObjectLookup::Unavailable));
    let broken = PlatformError::new(PlatformErrorKind::Io, "look", "broken");
    assert!(failed_lookup(broken).is_err());
    assert_eq!(lookup_failed(ReadFailure::NotFound, ""), Ok(ObjectLookup::Missing));
    assert!(lookup_failed(ReadFailure::Other, "broken").is_err());
    assert_eq!(
        io_error("read", ReadFailure::NotFound, "gone").kind,
        PlatformErrorKind::Unavailable
    );
    assert!(directory_failed(ReadFailure::PermissionDenied, true, "").is_ok());
    assert!(directory_failed(ReadFailure::PermissionDenied, false, "").is_err());
    assert!(root_object(ObjectLookup::Missing, "scan_root", "gone").is_err());
}

fn entry(name: &str, reference: u64, metadata: NativeMetadata) -> EntryRead {
    EntryRead::Read { name: name.to_owned(), reference, metadata }
}

fn scan(options: ScopedScanOptions) -> (Vec<String>, u64) {
    let root = file_key(volume(), 5);
    let mut crawl = Crawl::begin(volume(), options);
    crawl.enter(
        root,
        vec![
            entry("visible.ts", 10, native(false, 0)),
            entry("NoDe_MoDuLeS", 11, native(true, 0)),
            entry("elsewhere", 12, native(true, 0x400)),
            EntryRead::EntryFailed {
                failure: ReadFailure::PermissionDenied,
                detail: "denied".to_owned(),
            },
        ],
    );
    let mut names = Vec::new();
    loop {
        match crawl.next().expect("scan") {
            CrawlStep::Continue => {}
            CrawlStep::Complete => break,
            CrawlStep::Report { events, enter } => {
                for event in events {
                    if let FilesystemEvent::LinkObserved { link } = event {
                        names.push(link.name);
                    }
                }
                if let Some(key) = enter {
                    crawl.enter(key, vec![entry("hidden.ts", 20, native(false, 0))]);
                }
            }
        }
    }
    (names, crawl.emitted_events())
}

#[test]
fn an_excluded_directory_is_seen_but_not_entered() {
    let (names, emitted) = scan(ScopedScanOptions::excluding(vec!["node_modules".to_owned()]));
    assert_eq!(names, vec!["visible.ts", "NoDe_MoDuLeS", "elsewhere"]);
    assert_eq!(emitted, 8);
    let (names, emitted) = scan(ScopedScanOptions::default());
    assert_eq!(names, vec!["visible.ts", "NoDe_MoDuLeS", "hidden.ts", "elsewhere"]);
    assert_eq!(emitted, 10);
}

#[test]
fn a_failure_that_cannot_be_passed_over_ends_the_scan() {
    let mut crawl = Crawl::begin(volume(), ScopedScanOptions::default());
    crawl.enter(
        file_key(volume(), 5),
        vec![EntryRead::MetadataFailed {
            failure: ReadFailure::Other,
            detail: "broken".to_owned(),
        }],
    );
    assert_eq!(crawl.next().expect_err("failure").kind, PlatformErrorKind::Io);
}

fn ntfs() -> VolumeDescriptor {
    VolumeDescriptor {
        volume_id: volume(),
        display_name: None,
        mount_points: vec!["L:\\".to_owned()],
        filesystem: Some("ntfs".to_owned()),
        removable: false,
        local: true,
    }
}

#[test]
fn a_selected_root_is_a_source_of_its_own() {
    let prepared = PreparedScopedScan::prepare(&ntfs(), r"\\?\L:\Work".to_owned(), 77);
    let again = PreparedScopedScan::prepare(&ntfs(), r"\\?\L:\work".to_owned(), 77);
    assert_eq!(prepared.volume().volume_id, again.volume().volume_id);
    assert_eq!(
        prepared.volume().volume_id,
        scoped_volume_id(volume(), r"\\?\L:\Work")
    );
    assert_ne!(prepared.volume().volume_id, volume());
    assert_eq!(prepared.volume().display_name, Some(r"L:\Work".to_owned()));
    assert_eq!(prepared.canonical(), r"\\?\L:\Work");
    assert_eq!(prepared.root_key(), file_key(prepared.volume().volume_id, 77));
    let object = object_snapshot(prepared.root_key(), native(true, 0));
    let events = prepared
        .report_root(ObjectLookup::Observed(object))
        .expect("root");
    assert_eq!(
        events,
        root_events(prepared.volume().volume_id, object, r"L:\Work".to_owned())
    );
    assert!(prepared.report_root(ObjectLookup::Missing).is_err());
    let summary = prepared.summarize(2);
    assert_eq!(summary.scan.emitted_events, 2);
    assert_eq!(summary.scan.checkpoint.provider_id, "windows-scoped-folder");
    assert_eq!(summary.scan.checkpoint.opaque.len(), 16);
}

#[test]
fn mounts_and_drives_are_found() {
    assert_eq!(deepest_mount(&vec![Some(3), None, Some(7)]).expect("mount"), 2);
    assert_eq!(
        deepest_mount(&vec![None]).expect_err("none").kind,
        PlatformErrorKind::Unavailable
    );
    assert_eq!(drive_roots(0b1001), vec!["A:\\", "D:\\"]);
    assert!(require_ntfs(&ntfs()).is_ok());
    let mut other = ntfs();
    other.filesystem = Some("FAT32".to_owned());
    assert!(require_ntfs(&other).is_err());
    let described = describe_volume("L:\\", &units("Data"), &units("NTFS"), &units("guid"));
    assert_eq!(described.display_name, Some("Data".to_owned()));
    assert_eq!(described.filesystem, Some("NTFS".to_owned()));
    assert_eq!(described.volume_id, volume_id_from_guid("guid"));
    assert_eq!(describe_volume("L:\\", &units(""), &units(""), &units("")).display_name, None);
}

#[test]
fn objects_carry_what_windows_says_of_them() {
    let snapshot = object_snapshot(file_key(volume(), 1), native(false, 0x2));
    assert_eq!(snapshot.metadata.kind, FileKind::File);
    assert!(snapshot.metadata.hidden);
    assert_eq!(snapshot.metadata.created_at_unix_ms, None);
    assert_eq!(snapshot.metadata.modified_at_unix_ms, Some(2));
    assert_eq!(filetime_ms(116_444_736_000_000_000), Some(0));
    assert_eq!(filetime_ms(0), None);
}

#[test]
fn identities_are_stable_hashes() {
    assert_eq!(
        stable_hash_bytes(b""),
        0x6c62_272e_07bb_0142_62b8_2175_6295_c58d
    );
    assert_eq!(
        stable_hash_bytes(b"a"),
        0xd228_cb69_6f1a_8caf_7891_2b70_4e4a_8964
    );
    assert_eq!(big_endian_bytes(0x0102), [0, 0, 0, 0, 0, 0, 0, 0, 0, 0, 0, 0, 0, 0, 1, 2]);
    assert_ne!(root_link_id(VolumeId::from_u128(1)), root_link_id(VolumeId::from_u128(2)));
    assert_ne!(
        link_hash(Some(file_key(volume(), 1)), "a"),
        link_hash(Some(file_key(volume(), 1)), "b")
    );
    assert_eq!(checkpoint_identity(VolumeId::from_u128(0x1_0000_0000_0000_0005)), 5);
    assert_eq!(display_root_path(r"\\?\L:\Work"), r"L:\Work");
    assert_eq!(display_root_path(r"L:\Work"), r"L:\Work");
}

#[test]
fn buffers_end_at_the_first_zero() {
    assert_eq!(units_before_zero(&vec![65, 66, 0, 67]), vec![65, 66]);
    assert_eq!(utf16_z(&units("Данные")), "Данные");
    assert_eq!(utf16_z(&units("a\u{1f4c1}b")), "a\u{1f4c1}b");
    assert_eq!(utf16_z(&vec![0x61, 0xd83d, 0x62]), "a\u{fffd}b");
    assert_eq!(utf16_z(&vec![0xdcc1, 0xd83d, 0xd83d, 0xdcc1]), "\u{fffd}\u{fffd}\u{1f4c1}");
    assert_eq!(utf16_z(&vec![0x61, 0xd83d]), "a\u{fffd}");
    assert_eq!(trim_slashes("a\\\\"), "a");
    assert_eq!(
        volume_device_path(&units("L:\\"), "L:\\").expect("path"),
        r"\\.\L:"
    );
    let mounted = r"\\?\Volume{1}\";
    assert_eq!(
        volume_device_path(&units(mounted), mounted).expect("path"),
        r"\\?\Volume{1}"
    );
    assert!(volume_device_path(&vec![0xd800, 0x3a], "").is_err());
    assert!(volume_device_path(&units("/mnt"), "/mnt").is_err());
}

#[test]
fn native_lengths_are_checked() {
    assert!(check_state_length(8, 8).is_ok());
    assert!(check_state_length(7, 8).is_err());
    assert!(check_page_length(8, 64).is_ok());
    assert!(check_page_length(7, 64).is_err());
    assert!(check_page_length(65, 64).is_err());
    assert!(check_path_length(64, 64).is_err());
    assert!(check_path_length(10, 64).is_ok());
    assert_eq!(checked_len(12).expect("length"), 12);
}

#[test]
fn scans_have_checkpoints() {
    let checkpoint = snapshot_checkpoint(volume());
    assert_eq!(checkpoint.journal_identity, 9);
    assert_eq!(checkpoint.next_position, 0);
    let checkpoint = journal_checkpoint(journal(100), journal(120)).expect("checkpoint");
    assert_eq!(checkpoint.next_position, 100);
    assert_eq!(checkpoint.lowest_valid_position, 80);
    let recreated = JournalState { identity: 8, ..journal(100) };
    assert!(journal_checkpoint(journal(100), recreated).is_err());
}

#[test]
fn native_power_values_are_normalized_without_leaking_flags() {
    assert_eq!(
        decode_power_status(0, 37, 1),
        (PowerSource::Battery, Some(37), true)
    );
    assert_eq!(
        decode_power_status(1, 255, 0),
        (PowerSource::Ac, None, false)
    );
    assert_eq!(
        decode_power_status(255, 101, 0),
        (PowerSource::Unknown, None, false)
    );
}

#[test]
fn input_idle_duration_uses_the_native_wrapping_uptime_clock() {
    assert_eq!(elapsed_input_millis(50_000, 49_250), 750);
    assert_eq!(elapsed_input_millis(250, u32::MAX - 249), 500);
}

#[test]
fn the_disk_counter_is_looked_at_once_a_second() {
    let mut state = DiskBusyState::default();
    assert!(state.needs_initialization());
    assert_eq!(state.sample(2_000_000_000), DiskSample::Keep(None));
    state.initialized(true);
    assert!(!state.needs_initialization());
    assert_eq!(state.sample(2_000_000_000), DiskSample::Collect);
    assert_eq!(state.collected(true, Some(400)), Some(400));
    assert_eq!(state.sample(999_999_999), DiskSample::Keep(Some(400)));
    assert_eq!(state.collected(false, Some(700)), None);
    assert_eq!(state.last_value, Some(400));
}

#[test]
fn native_samples_become_portable() {
    let resources = system_resources(NativeSample {
        processors: 8,
        total_memory_bytes: 1_000,
        available_memory_bytes: 250,
        cpu_basis_points: 2_000,
        power: (PowerSource::Battery, Some(37), true),
        storage_busy_basis_points: Some(7_500),
        user_idle_duration_millis: None,
    });
    assert_eq!(resources.logical_processors, 8);
    assert_eq!(resources.available_memory_bytes, Some(250));
    assert_eq!(resources.process_cpu_load_basis_points, None);
    assert_eq!(resources.battery_percent, Some(37));
    assert!(resources.energy_saver);
    assert!(resources.storage.is_empty());
}
