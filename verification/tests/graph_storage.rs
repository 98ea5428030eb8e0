use localsearch::catalog::{
    Availability, FileKind, FileLinkSnapshot, FileMetadata, FileObjectSnapshot, FilesystemEvent,
    ProviderCheckpoint, VolumeDescriptor,
};
use localsearch::decimal::{parse_unsigned, write_decimal, write_padded};
use localsearch::graph::benchmark::{
    batch_end, benchmark_volume, change_batch, check_counts, check_depth, check_refresh,
    checkpoint, dataset_batch, directory_batch, directory_rename_batch, measurements,
    parse_arguments, percentile_ms, rename_batch, report_stem, root_events, run_id, target_link,
    volume_descriptor, BenchmarkError, GeneratedRecord, Timings,
};
use localsearch::graph::error::GraphError;
use localsearch::graph::rows::DocumentPayload;
use localsearch::graph::store::FilesystemGraph;
use localsearch::ids::{FileId128, FileKey, FileLinkId, MutationSeq, VolumeId};
use localsearch::search::measure::{Quantity, Ratio};

fn metadata(kind: FileKind, size: u64, modified_at_unix_ms: Option<i64>) -> FileMetadata {
    FileMetadata {
        kind,
        size,
        created_at_unix_ms: None,
        modified_at_unix_ms,
        hidden: false,
        availability: Availability::Online,
    }
}

fn small_graph() -> FilesystemGraph {
    let volume_id = VolumeId::from_u128(1);
    let root = FileKey::new(volume_id, FileId128::from_u128(1));
    let file = FileKey::new(volume_id, FileId128::from_u128(2));
    let mut graph = FilesystemGraph::open_in_memory().expect("graph");
    graph
        .ingest_snapshot(
            VolumeDescriptor {
                volume_id,
                display_name: Some("compact".to_owned()),
                mount_points: vec!["root".to_owned()],
                filesystem: Some("test".to_owned()),
                removable: false,
                local: true,
            },
            ProviderCheckpoint {
                provider_id: "compact-test".to_owned(),
                format_version: 1,
                volume_id,
                opaque: vec![1],
            },
            vec![
                FilesystemEvent::ObjectObserved {
                    object: FileObjectSnapshot {
                        object_key: root,
                        metadata: metadata(FileKind::Directory, 0, None),
                    },
                },
                FilesystemEvent::LinkObserved {
                    link: FileLinkSnapshot {
                        file_link_id: FileLinkId::from_u128(1),
                        object_key: root,
                        parent_key: None,
                        name: "root".to_owned(),
                    },
                },
                FilesystemEvent::ObjectObserved {
                    object: FileObjectSnapshot {
                        object_key: file,
                        metadata: metadata(FileKind::File, 42, Some(7)),
                    },
                },
                FilesystemEvent::LinkObserved {
                    link: FileLinkSnapshot {
                        file_link_id: FileLinkId::from_u128(2),
                        object_key: file,
                        parent_key: Some(root),
                        name: "note.txt".to_owned(),
                    },
                },
            ],
        )
        .expect("snapshot");
    graph
}

#[test]
fn legacy_desired_payload_compaction_is_bounded_and_lossless() {
    let graph = small_graph();
    let before = graph
        .desired_catalog_documents()
        .expect("desired documents");
    let mut rows = graph.rows();
    for document in &before {
        for (id, row) in &mut rows.documents {
            if *id == document.identity.document_id {
                row.payload = DocumentPayload::Legacy { document: document.clone() };
            }
        }
    }
    let mut graph = FilesystemGraph::restore(&rows).expect("restore legacy row");

    let first = graph
        .compact_legacy_desired_payloads_bounded(1)
        .expect("first compact page");
    assert_eq!(first.rewritten_rows, 1);
    assert!(first.backlog_remaining);
    let second = graph
        .compact_legacy_desired_payloads_bounded(1)
        .expect("second compact page");
    assert_eq!(second.rewritten_rows, 1);
    assert!(!second.backlog_remaining);
    assert_eq!(
        graph
            .desired_catalog_documents()
            .expect("compacted desired"),
        before
    );
    let legacy = graph
        .rows()
        .documents
        .iter()
        .filter(|(_, row)| matches!(row.payload, DocumentPayload::Legacy { .. }))
        .count();
    assert_eq!(legacy, 0, "redundant bytes");
}

#[test]
fn a_stored_graph_is_restored_with_its_queues() {
    let mut graph = small_graph();
    graph
        .acknowledge_projection("catalog", MutationSeq(1), 3)
        .expect("acknowledged");
    let restored = FilesystemGraph::restore(&graph.rows()).expect("restored");
    assert_eq!(restored.stats().expect("stats"), graph.stats().expect("stats"));
    assert_eq!(
        restored.desired_catalog_documents().expect("documents"),
        graph.desired_catalog_documents().expect("documents")
    );
    assert_eq!(
        restored.latest_outbox_sequence().expect("sequence"),
        MutationSeq(2)
    );
    let progress = restored
        .projector_checkpoint("catalog")
        .expect("checkpoint")
        .expect("present");
    assert_eq!(progress.last_sequence, 1);
    assert_eq!(progress.index_generation, 3);
    assert_eq!(
        restored.read_outbox(None, 10).expect("outbox"),
        graph.read_outbox(None, 10).expect("outbox")
    );
}

#[test]
fn rows_that_do_not_agree_are_refused() {
    let graph = small_graph();
    let refused = |rows| {
        matches!(
            FilesystemGraph::restore(rows),
            Err(GraphError::Invariant(_))
        )
    };
    let mut rows = graph.rows();
    rows.objects.clear();
    assert!(refused(&rows));
    let mut rows = graph.rows();
    rows.volumes.clear();
    assert!(refused(&rows));
    let mut rows = graph.rows();
    rows.outbox.pop();
    assert!(refused(&rows));
    let mut rows = graph.rows();
    rows.outbox.remove(0);
    assert!(!refused(&rows));
    let mut rows = graph.rows();
    rows.issued = 1;
    assert!(refused(&rows));
    let mut rows = graph.rows();
    rows.last_job = -1;
    assert!(refused(&rows));
    let mut rows = graph.rows();
    rows.links[1].1.parent_key = None;
    rows.links[1].1.name = "root".to_owned();
    assert!(refused(&rows));
    assert!(!refused(&graph.rows()));
}

fn texts(values: &[&str]) -> Vec<String> {
    values.iter().map(|value| (*value).to_owned()).collect()
}

#[test]
fn benchmark_command_lines_have_defaults() {
    let arguments = parse_arguments(&Vec::new()).expect("defaults");
    assert_eq!(arguments.records, 1_000_000);
    assert_eq!(arguments.seed, 20_260_814);
    assert_eq!(arguments.database, ".lab/start-005-graph.sqlite3");
    assert_eq!(arguments.output_directory, "reports/benchmarks/start-005");
    let arguments = parse_arguments(&texts(&[
        "--records", "5", "--seed", "6", "--database", "d", "--output", "o",
    ]))
    .expect("arguments");
    assert_eq!(arguments.records, 5);
    assert_eq!(arguments.seed, 6);
    assert_eq!(arguments.database, "d");
    assert_eq!(arguments.output_directory, "o");
    let message = |text: &str| Err(BenchmarkError::Message(text.to_owned()));
    assert_eq!(
        parse_arguments(&texts(&["--records"])),
        message("every benchmark option requires a value")
    );
    assert_eq!(
        parse_arguments(&texts(&["--other", "1"])),
        message("unknown benchmark option: --other")
    );
    assert_eq!(
        parse_arguments(&texts(&["--records", "0"])),
        message("--records must be greater than zero")
    );
    assert_eq!(
        parse_arguments(&texts(&["--records", "x"])),
        Err(BenchmarkError::NotANumber)
    );
}

fn generated(n: u64) -> GeneratedRecord {
    GeneratedRecord {
        name: format!("file-{n}.txt"),
        size: n,
        modified_at_unix_ms: 9,
    }
}

#[test]
fn the_benchmark_runs_on_a_graph() {
    let volume = benchmark_volume();
    let records = 3;
    let mut graph = FilesystemGraph::open_in_memory().expect("graph");
    graph
        .ingest_snapshot(volume_descriptor(volume), checkpoint(volume, 0), root_events(volume))
        .expect("root");
    let mut start = 0;
    while start < records {
        let end = batch_end(start, records);
        let batch = dataset_batch(volume, start, (start..end).map(generated).collect());
        graph.apply_batch(&batch).expect("records");
        start = end;
    }
    check_counts(&graph.stats().expect("stats"), records).expect("counts");
    assert!(check_counts(&graph.stats().expect("stats"), 4).is_err());
    let resolved = graph.resolve_path(target_link(records), 32).expect("path");
    assert_eq!(resolved.display(), "catalog/00000002-file-2.txt");
    check_depth(resolved.components.len()).expect("depth");
    assert!(check_depth(3).is_err());
    graph
        .apply_batch(&change_batch(volume, records, &generated(2), 1))
        .expect("change");
    graph.apply_batch(&rename_batch(volume, records, 7)).expect("rename");
    let resolved = graph.resolve_path(target_link(records), 32).expect("path");
    assert_eq!(resolved.display(), "catalog/renamed-007.txt");
    graph.apply_batch(&directory_batch(volume, records)).expect("directory");
    let summary = graph
        .apply_batch(&directory_rename_batch(volume, records, 7))
        .expect("directory rename");
    let jobs = graph.pending_refresh_jobs(1).expect("jobs");
    let completed = graph.complete_refresh_job(jobs[0].job_id).expect("completed");
    check_refresh(&summary, true, completed).expect("refresh");
    assert!(check_refresh(&summary, false, false).is_err());
    assert!(check_refresh(&summary, true, false).is_err());
    assert_eq!(
        graph.checkpoint(volume).expect("checkpoint"),
        Some(checkpoint(volume, 3 + 10_001 + 7))
    );
    assert_eq!(checkpoint(volume, 0x0102).opaque, vec![0, 0, 0, 0, 0, 0, 1, 2]);
}

#[test]
fn batches_cover_every_record() {
    assert_eq!(batch_end(0, 12_000), 5_000);
    assert_eq!(batch_end(5_000, 12_000), 10_000);
    assert_eq!(batch_end(10_000, 12_000), 12_000);
    assert_eq!(batch_end(u64::MAX - 1, u64::MAX), u64::MAX);
}

#[test]
fn benchmark_reports_name_their_values() {
    let samples = |values: &[u64]| -> Vec<Ratio> {
        values.iter().map(|value| Ratio::of_nanoseconds(*value)).collect()
    };
    assert_eq!(
        percentile_ms(&samples(&[3, 1, 2]), 50),
        Ratio::of_nanoseconds(2)
    );
    let timings = Timings {
        ingest_ns: 2_000_000_000,
        database_bytes: 4_096,
        single_apply: samples(&[5, 1]),
        rename_apply: samples(&[6]),
        directory_rename: samples(&[7]),
        warm_resolve: samples(&[8]),
        cold_resolve: samples(&[9]),
    };
    let values = measurements(&timings, 4);
    assert_eq!(values.len(), 13);
    assert_eq!(values[0].unit, "seconds");
    assert_eq!(
        values[1].value,
        Quantity::Throughput { documents: 4, wall_ns: 2_000_000_000 }
    );
    assert_eq!(
        values[3].value,
        Quantity::Number(Ratio { numerator: 4_096, denominator: 4 })
    );
    assert_eq!(values[4].name, "single_event_apply_p50");
    assert_eq!(values[4].value, Quantity::Number(Ratio::of_nanoseconds(1)));
    assert_eq!(values[12].name, "path_resolve_cold_p99");
    assert_eq!(run_id(5, 7), "start-005-5-7");
    assert_eq!(report_stem(5), "start-005-5-records");
}

#[test]
fn decimals_are_written_and_read() {
    assert_eq!(write_decimal(0), "0");
    assert_eq!(write_decimal(u64::MAX), "18446744073709551615");
    assert_eq!(write_padded(42, 5), "00042");
    assert_eq!(write_padded(123_456, 3), "123456");
    assert_eq!(parse_unsigned("+7", 10), Some(7));
    assert_eq!(parse_unsigned("0042", 100), Some(42));
    assert_eq!(parse_unsigned("11", 10), None);
    assert_eq!(parse_unsigned("", 10), None);
    assert_eq!(parse_unsigned("-1", 10), None);
    assert_eq!(parse_unsigned("1 ", 10), None);
}
