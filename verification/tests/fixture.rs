use localsearch::catalog::{
    Availability, FileKind, FileLinkSnapshot, FileMetadata, FileObjectSnapshot, FilesystemEvent,
    ProviderCheckpoint, VolumeDescriptor,
};
use localsearch::fixture::session::{
    check_cleanup, check_mutation, check_offline, check_online, current_document, detach,
    waiting_mutations, Churn, Pump, SessionError,
};
use localsearch::fixture::{
    after_projection, bounded_number, check_fixture_volume, churn_name, churn_options,
    comparable_text, discover_fixture_volume, fixture_document, has_converged, optional,
    parse_operation, parse_options, path_is_within, projection_backlog, projection_snapshot,
    renamed_churn_name, required, usage, validate_cleanup_target, validate_state,
    validate_volume_root, ChurnMetrics, FixtureError, FixtureOperation, PumpOutcome, PumpProgress,
    PumpStep,
};
use localsearch::graph::store::FilesystemGraph;
use localsearch::ids::{FileId128, FileKey, FileLinkId, MutationSeq, VolumeId};

#[test]
fn churn_metrics_are_monotonic_and_keep_the_worst_observation() {
    let mut metrics = ChurnMetrics::default();
    metrics.record(PumpOutcome {
        emitted_events: 7,
        backlog_before_projection: 11,
        applied_mutations: 9,
        projection_micros: 400,
        projection_run: true,
    });
    metrics.record(PumpOutcome {
        emitted_events: 5,
        backlog_before_projection: 3,
        applied_mutations: 4,
        projection_micros: 900,
        projection_run: true,
    });
    assert_eq!(metrics.provider_events, 12);
    assert_eq!(metrics.projection_mutations, 13);
    assert_eq!(metrics.projection_runs, 2);
    assert_eq!(metrics.maximum_backlog_mutations, 11);
    assert_eq!(metrics.maximum_projection_micros, 900);
}

#[test]
fn churn_bounds_reject_unbounded_operator_input() {
    assert_eq!(
        bounded_number("60", 60, 1_800, "duration").expect("minimum is valid"),
        60
    );
    assert!(bounded_number("59", 60, 1_800, "duration").is_err());
    assert!(bounded_number("1801", 60, 1_800, "duration").is_err());
    assert_eq!(
        bounded_number("250", 50, 5_000, "cycle interval")
            .expect("default cycle interval is valid"),
        250
    );
    assert!(bounded_number("49", 50, 5_000, "cycle interval").is_err());
    assert!(bounded_number("5001", 50, 5_000, "cycle interval").is_err());
}

#[test]
fn fixture_scope_does_not_match_sibling_prefix_or_prior_run() {
    let root = r"L:\localsearch-ux-fixture-current";
    assert!(path_is_within(
        root,
        r"L:\localsearch-ux-fixture-current\long-names\architecture.md"
    ));
    assert!(!path_is_within(
        root,
        r"L:\localsearch-ux-fixture-current-old\long-names\architecture.md"
    ));
    assert!(!path_is_within(
        root,
        r"L:\localsearch-ux-fixture-prior\long-names\architecture.md"
    ));
}

fn message(text: &str) -> FixtureError {
    FixtureError::Message(text.to_owned())
}

fn texts(values: &[&str]) -> Vec<String> {
    values.iter().map(|value| (*value).to_owned()).collect()
}

#[test]
fn numbers_out_of_bounds_say_which_bounds() {
    assert_eq!(
        bounded_number("59", 60, 1_800, "duration"),
        Err(message("duration must be between 60 and 1800"))
    );
    assert_eq!(
        bounded_number("x", 60, 1_800, "duration"),
        Err(FixtureError::NotANumber)
    );
    assert_eq!(
        bounded_number("18446744073709551616", 0, u64::MAX, "n"),
        Err(FixtureError::NotANumber)
    );
}

#[test]
fn options_are_names_and_values() {
    let options = parse_options(texts(&["--state", "a", "--state", "b"])).expect("options");
    assert_eq!(optional(&options, "--state"), Some("a".to_owned()));
    assert_eq!(optional(&options, "--other"), None);
    assert_eq!(required(&options, "--state"), Ok("a".to_owned()));
    assert_eq!(required(&options, "--other"), Err(message("--other is required")));
    assert_eq!(
        parse_options(texts(&["--state"])),
        Err(message("missing value for --state"))
    );
    assert_eq!(parse_operation("churn"), Ok(FixtureOperation::Churn));
    assert_eq!(parse_operation("other"), Err(message(usage())));
}

#[test]
fn churns_are_bounded() {
    let mut arguments = texts(&["--duration-seconds", "60", "--batch-files", "2"]);
    let options = parse_options(arguments.clone()).expect("options");
    let churn = churn_options(&options).expect("churn");
    assert_eq!(churn.duration_seconds, 60);
    assert_eq!(churn.batch_files, 2);
    assert_eq!(churn.cycle_interval_millis, 250);
    assert!(!churn.agent_owns_projection);
    arguments.extend(texts(&["--projection-owner", "agent"]));
    let options = parse_options(arguments.clone()).expect("options");
    assert!(churn_options(&options).expect("churn").agent_owns_projection);
    arguments[5] = "other".to_owned();
    let options = parse_options(arguments).expect("options");
    assert_eq!(
        churn_options(&options),
        Err(message("unsupported projection owner: other"))
    );
    assert_eq!(
        churn_options(&Vec::new()),
        Err(message("--duration-seconds is required"))
    );
}

#[test]
fn churns_number_their_files() {
    let options = parse_options(texts(&["--duration-seconds", "60", "--batch-files", "2"]))
        .expect("options");
    let mut churn = Churn::begin(churn_options(&options).expect("churn"));
    assert_eq!(
        churn.next_files(),
        texts(&["architecture-churn-000000000001.md", "architecture-churn-000000000002.md"])
    );
    assert_eq!(churn.next_files()[0], churn_name(3));
    assert_eq!(renamed_churn_name("a.md"), "renamed-a.md");
    churn.files_changed();
    assert_eq!(churn.filesystem_operations, 4);
    assert!(churn.goes_on(59_999_999_999));
    assert!(!churn.goes_on(60_000_000_000));
    assert_eq!(churn.rest_of_cycle_ns(50_000_000), Some(200_000_000));
    assert_eq!(churn.rest_of_cycle_ns(250_000_001), None);
    churn.record(PumpOutcome {
        emitted_events: 1,
        backlog_before_projection: 2,
        applied_mutations: 3,
        projection_micros: 4,
        projection_run: false,
    });
    assert_eq!(churn.metrics.provider_events, 1);
    assert_eq!(churn.metrics.projection_runs, 0);
}

#[test]
fn reading_changes_ends() {
    let mut progress = PumpProgress::begin(3);
    assert_eq!(progress.record(1, true, 0), PumpStep::Continue);
    assert_eq!(progress.record(1, false, 0), PumpStep::Wait);
    assert_eq!(progress.record(1, false, 0), PumpStep::Drained);
    let mut late = PumpProgress::begin(3);
    assert_eq!(late.record(0, false, 5_000_000_000), PumpStep::Drained);
    let mut endless = PumpProgress::begin(3);
    for _ in 0..127 {
        assert_eq!(endless.record(0, true, 0), PumpStep::Continue);
    }
    assert_eq!(endless.record(0, true, 0), PumpStep::Exhausted);
}

#[test]
fn only_fixture_directories_are_removed() {
    assert_eq!(validate_volume_root("l:/"), Ok("l:\\".to_owned()));
    for path in ["C:\\", "c:\\", "L:", "L:\\x", "1:\\"] {
        assert_eq!(
            validate_volume_root(path),
            Err(message("fixture requires a non-C drive root such as L:\\"))
        );
    }
    let name = Some("localsearch-ux-fixture-1");
    assert!(validate_cleanup_target("L:\\", Some("L:\\"), name).is_ok());
    assert!(validate_cleanup_target("L:\\", Some("L:/"), name).is_ok());
    assert!(validate_cleanup_target("L:\\", Some("M:\\"), name).is_err());
    assert!(validate_cleanup_target("L:\\", Some("L:\\"), Some("windows")).is_err());
    assert!(validate_cleanup_target("L:\\", None, None).is_err());
    assert!(validate_state(1, "L:\\", Some("L:\\"), name).is_ok());
    assert_eq!(
        validate_state(2, "L:\\", Some("L:\\"), name),
        Err(message("unsupported fixture state version"))
    );
    assert_eq!(comparable_text("a\\b//"), "a/b");
    assert!(path_is_within("L:\\a", "L:/a/"));
}

#[test]
fn backlogs_count_what_waits() {
    assert_eq!(projection_backlog(7, Some(3)), 4);
    assert_eq!(projection_backlog(7, None), 7);
    assert_eq!(projection_backlog(3, Some(7)), 0);
    let snapshot = projection_snapshot(10, Some(8), Some(3));
    assert_eq!(snapshot.catalog_backlog, 2);
    assert_eq!(snapshot.content_backlog, Some(7));
    assert_eq!(snapshot.maximum_backlog, 7);
    assert_eq!(projection_snapshot(10, None, None).maximum_backlog, 10);
}

fn volume_id() -> VolumeId {
    VolumeId::from_u128(7)
}

fn key(value: u128) -> FileKey {
    FileKey::new(volume_id(), FileId128::from_u128(value))
}

fn object(value: u128, kind: FileKind) -> FilesystemEvent {
    FilesystemEvent::ObjectObserved {
        object: FileObjectSnapshot {
            object_key: key(value),
            metadata: FileMetadata {
                kind,
                size: 10,
                created_at_unix_ms: None,
                modified_at_unix_ms: None,
                hidden: false,
                availability: Availability::Online,
            },
        },
    }
}

fn link(value: u128, target: u128, parent: Option<u128>, name: &str) -> FilesystemEvent {
    FilesystemEvent::LinkObserved {
        link: FileLinkSnapshot {
            file_link_id: FileLinkId::from_u128(value),
            object_key: key(target),
            parent_key: parent.map(key),
            name: name.to_owned(),
        },
    }
}

fn checkpoint(byte: u8) -> ProviderCheckpoint {
    ProviderCheckpoint {
        provider_id: "fixture".to_owned(),
        format_version: 1,
        volume_id: volume_id(),
        opaque: vec![byte],
    }
}

fn descriptor() -> VolumeDescriptor {
    VolumeDescriptor {
        volume_id: volume_id(),
        display_name: Some("LS_TEST".to_owned()),
        mount_points: vec!["L:\\".to_owned()],
        filesystem: Some("ntfs".to_owned()),
        removable: false,
        local: true,
    }
}

fn graph() -> FilesystemGraph {
    let mut graph = FilesystemGraph::open_in_memory().expect("graph");
    graph
        .ingest_snapshot(
            descriptor(),
            checkpoint(1),
            vec![
                object(1, FileKind::Directory),
                link(101, 1, None, "L:"),
                object(2, FileKind::Directory),
                link(102, 2, Some(1), "fixture"),
                object(3, FileKind::File),
                link(103, 3, Some(2), "note.md"),
            ],
        )
        .expect("snapshot");
    graph
}

#[test]
fn documents_of_the_fixture_are_found_by_name() {
    let graph = graph();
    let documents = graph.desired_catalog_documents().expect("documents");
    let found = fixture_document(&documents, "L:\\fixture", "note.md").expect("document");
    assert_eq!(found.path, "L:/fixture/note.md");
    assert_eq!(found.object_key, key(3));
    assert_eq!(
        fixture_document(&documents, "L:\\other", "note.md"),
        Err(message("expected exactly one fixture document named note.md"))
    );
    assert_eq!(
        current_document(&graph, &found, "L:\\fixture\\note.md").expect("current"),
        found
    );
    assert_eq!(
        current_document(&graph, &found, "L:\\fixture\\other.md"),
        Err(message("rename or move did not preserve identity and current path"))
    );
}

#[test]
fn mutations_are_seen_in_the_graph() {
    let mut graph = graph();
    let documents = graph.desired_catalog_documents().expect("documents");
    let note = fixture_document(&documents, "L:\\fixture", "note.md").expect("document");
    let (mut pump, start) = Pump::begin(&graph, volume_id(), 1).expect("pump");
    assert_eq!(start, checkpoint(1));
    let step = pump
        .take_changes(
            &mut graph,
            checkpoint(2),
            vec![link(103, 3, Some(2), "renamed.md")],
            1,
            false,
            0,
        )
        .expect("changes");
    assert_eq!(step, PumpStep::Drained);
    let renamed = check_mutation(
        FixtureOperation::Rename,
        &graph,
        &note,
        "L:\\fixture\\renamed.md",
    )
    .expect("renamed");
    assert_eq!(renamed.expect("document").name, "renamed.md");
    assert!(check_mutation(FixtureOperation::Delete, &graph, &note, "").is_err());
    assert!(check_mutation(FixtureOperation::Pump, &graph, &note, "").is_err());
    let removed = vec![FilesystemEvent::LinkRemoved {
        file_link_id: FileLinkId::from_u128(103),
        object_key: key(3),
    }];
    pump.take_changes(&mut graph, checkpoint(3), removed, 1, false, 0)
        .expect("changes");
    assert_eq!(
        check_mutation(FixtureOperation::Delete, &graph, &note, ""),
        Ok(None)
    );
    assert_eq!(
        current_document(&graph, &note, ""),
        Err(message("stable document identity disappeared after rename or move"))
    );
    let outcome = pump.without_projection(5);
    assert_eq!(outcome.emitted_events, 2);
    assert!(!outcome.projection_run);
    let outcome = pump.with_projection(5, 4, false, 900).expect("outcome");
    assert_eq!(outcome.applied_mutations, 4);
    assert_eq!(outcome.projection_micros, 900);
    assert_eq!(
        pump.with_projection(5, 4, true, 900),
        Err(message("fixture projection left a durable backlog"))
    );
}

#[test]
fn a_volume_goes_and_comes_back() {
    let mut graph = graph();
    let documents = graph.desired_catalog_documents().expect("documents");
    let note = fixture_document(&documents, "L:\\fixture", "note.md").expect("document");
    assert!(check_online(&graph, note.document_id).is_ok());
    assert!(check_offline(&graph, note.document_id).is_err());
    detach(&mut graph, volume_id()).expect("detached");
    assert!(check_offline(&graph, note.document_id).is_ok());
    assert_eq!(
        check_online(&graph, note.document_id),
        Err(message("reattached volume did not project online catalog availability"))
    );
    assert!(matches!(
        detach(&mut graph, VolumeId::from_u128(8)),
        Err(SessionError::Fixture(_))
    ));
    assert!(Pump::begin(&graph, VolumeId::from_u128(8), 1).is_err());
}

#[test]
fn cleanup_leaves_nothing() {
    let mut graph = graph();
    assert_eq!(waiting_mutations(&graph, "catalog"), 3);
    graph
        .acknowledge_projection("catalog", MutationSeq(2), 1)
        .expect("acknowledged");
    assert_eq!(waiting_mutations(&graph, "catalog"), 1);
    assert!(check_cleanup(&graph, "L:\\fixture", false).is_err());
    assert!(check_cleanup(&graph, "L:\\other", false).is_ok());
    assert!(check_cleanup(&graph, "L:\\other", true).is_err());
}

#[test]
fn only_fixture_volumes_are_used() {
    assert!(check_fixture_volume(&descriptor()).is_ok());
    let mut other = descriptor();
    other.display_name = Some("DATA".to_owned());
    assert!(check_fixture_volume(&other).is_err());
    other.mount_points = vec!["M:\\".to_owned()];
    let volumes = vec![other, descriptor()];
    assert_eq!(discover_fixture_volume(&volumes, "l:\\"), Ok(1));
    assert_eq!(
        discover_fixture_volume(&volumes, "M:\\"),
        Err(message("fixture refuses a volume that is not local NTFS labelled LS_TEST"))
    );
    assert_eq!(
        discover_fixture_volume(&volumes, "N:\\"),
        Err(message("fixture volume was not discovered"))
    );
}

#[test]
fn a_projection_is_tried_again_while_the_catalog_is_held() {
    assert!(after_projection(0, true));
    assert!(after_projection(48, true));
    assert!(!after_projection(49, true));
    assert!(!after_projection(u64::MAX, true));
    assert!(!after_projection(0, false));
}

#[test]
fn an_index_with_duplicates_has_not_converged() {
    assert!(has_converged(true, 0));
    assert!(!has_converged(true, 1));
    assert!(!has_converged(false, 0));
}
