use localsearch::search::error::{valid_identifier, ExperimentError};
use localsearch::search::measure::{sort_ascending, Quantity, Ratio};
use localsearch::search::normalize::{normalize_search_text, tokenize};
use localsearch::search::outcome::{
    augmented_documents, rank_candidates, BuildMetrics, BuildProgress, CandidateMetrics,
    SearchOutcome,
};
use localsearch::search::policy::{CandidatePolicy, PolicyError, QueryMode};
use localsearch::search::ranking::{
    classify_match, contains_text, rank_verified, starts_with_text, CatalogRecord, MatchClass,
};
use localsearch::search::recall::{
    ground_truth, percentile, recall_notes, recall_stem, summarize, validate_options, CaseResult,
    RecallBenchmarkOptions,
};
use localsearch::search::report::{
    artifact_path, artifact_sha256, benchmark_notes, benchmark_stem, budget_label, csv_cell,
    csv_query, length_label, parse_arguments, parse_strategy, percentile_value, short_probes,
    strategies_to_run, validate_benchmark, workload, DatasetDescriptor, WARMUP_SEARCHES,
};
use localsearch::search::retrieval::{
    gram_query, grams, hex_text, index_text, lexical_query, prefixes, verify_candidates,
    DocumentAddress, IndexField, IndexQuery, Retrieval, Strategy,
};
use localsearch::search::workload::controlled_recall_workload;

use tantivy::collector::TopDocs;
use tantivy::query::{BooleanQuery, Occur, PhraseQuery, Query, TermQuery};
use tantivy::schema::{
    Field, IndexRecordOption, NumericOptions, Schema, TantivyDocument, Value, STORED, STRING, TEXT,
};
use tantivy::{DocAddress, Index, IndexReader, Term};

fn record(ordinal: u64, name: &str, path: &str) -> CatalogRecord {
    CatalogRecord {
        ordinal,
        name: name.to_owned(),
        path: path.to_owned(),
        extension: "txt".to_owned(),
        size: 1,
        modified_at_unix_ms: 0,
    }
}

/// An index in memory.
struct MemoryIndex {
    reader: IndexReader,
    ordinal: Field,
    fields: [Field; 4],
    strategy: Strategy,
    records: Vec<CatalogRecord>,
}

impl MemoryIndex {
    fn build(records: Vec<CatalogRecord>, strategy: Strategy) -> MemoryIndex {
        let mut builder = Schema::builder();
        let ordinal =
            builder.add_u64_field("ordinal", NumericOptions::default().set_stored().set_indexed());
        let name = builder.add_text_field("name", STORED);
        let exact = builder.add_text_field("exact", STRING);
        let token = builder.add_text_field("token", TEXT);
        let prefix = builder.add_text_field("prefix", TEXT);
        let gram = builder.add_text_field("gram", TEXT);
        let index = Index::create_in_ram(builder.build());
        let mut writer = index
            .writer_with_num_threads::<TantivyDocument>(1, 20_000_000)
            .expect("writer");
        for record in &records {
            let text = index_text(&record.name, strategy);
            let mut document = TantivyDocument::new();
            document.add_u64(ordinal, record.ordinal);
            document.add_text(name, &record.name);
            document.add_text(exact, &text.exact);
            document.add_text(token, &text.token);
            document.add_text(prefix, &text.prefix);
            document.add_text(gram, &text.gram);
            writer.add_document(document).expect("document");
        }
        writer.commit().expect("commit");
        let reader = index.reader().expect("reader");
        MemoryIndex {
            reader,
            ordinal,
            fields: [exact, token, prefix, gram],
            strategy,
            records,
        }
    }

    fn field(&self, field: IndexField) -> Field {
        match field {
            IndexField::Exact => self.fields[0],
            IndexField::Token => self.fields[1],
            IndexField::Prefix => self.fields[2],
            IndexField::Gram => self.fields[3],
        }
    }

    fn query(&self, query: &IndexQuery) -> Box<dyn Query> {
        match query {
            IndexQuery::AnyField { fields, text } => {
                let mut parts: Vec<(Occur, Box<dyn Query>)> = Vec::new();
                for field in fields {
                    parts.push((
                        Occur::Should,
                        Box::new(TermQuery::new(
                            Term::from_field_text(self.field(*field), text),
                            IndexRecordOption::Basic,
                        )),
                    ));
                }
                Box::new(BooleanQuery::new(parts))
            }
            IndexQuery::Term { field, text } => Box::new(TermQuery::new(
                Term::from_field_text(self.field(*field), text),
                IndexRecordOption::Basic,
            )),
            IndexQuery::Phrase { field, texts } => Box::new(PhraseQuery::new(
                texts
                    .iter()
                    .map(|text| Term::from_field_text(self.field(*field), text))
                    .collect(),
            )),
        }
    }

    fn search(&self, query: &str, mode: QueryMode, candidate_limit: usize) -> SearchOutcome {
        let plan = CandidatePolicy { candidate_limit }
            .plan(query, mode)
            .expect("plan");
        let searcher = self.reader.searcher();
        let mut retrieval = Retrieval::begin(self.strategy, &plan);
        while let Some((request, limit)) = retrieval.next_request() {
            let found = searcher
                .search(
                    self.query(&request).as_ref(),
                    &TopDocs::with_limit(limit).order_by_score(),
                )
                .expect("search");
            retrieval.record(
                found
                    .into_iter()
                    .map(|(_, address)| DocumentAddress {
                        segment: address.segment_ord,
                        document: address.doc_id,
                    })
                    .collect(),
            );
        }
        let mut candidates = Vec::new();
        for address in retrieval.finish() {
            let document: TantivyDocument = searcher
                .doc(DocAddress::new(address.segment, address.document))
                .expect("document");
            let ordinal = document
                .get_first(self.ordinal)
                .and_then(|value| value.as_u64())
                .expect("ordinal");
            let found = self.records.iter().find(|record| record.ordinal == ordinal);
            candidates.push(found.expect("record").clone());
        }
        let ranked = rank_candidates(&plan, candidates);
        SearchOutcome {
            hits: ranked.hits,
            metrics: CandidateMetrics {
                retrieval_ns: 1,
                verification_ns: 1,
                ranker_ns: 1,
                end_to_end_ns: 3,
                candidate_count: ranked.candidate_count,
                verified_count: ranked.verified_count,
            },
        }
    }
}

#[test]
fn normalization_is_unicode_aware_and_separator_stable() {
    assert_eq!(normalize_search_text("CAFÉ\\\\ПУТЬ/File"), "café/путь/file");
    assert_eq!(normalize_search_text("Cafe\u{301}"), "café");
}

#[test]
fn normalization_folds_compatible_forms_and_repeated_separators() {
    assert_eq!(normalize_search_text("\u{fb01}le"), "file");
    assert_eq!(normalize_search_text("a//b\\/c"), "a/b/c");
    assert_eq!(normalize_search_text(""), "");
}

#[test]
fn tokens_are_runs_of_letters_and_digits() {
    assert_eq!(tokenize("alpha-beta_2.txt"), vec!["alpha", "beta", "2", "txt"]);
    assert_eq!(tokenize("путь/файл"), vec!["путь", "файл"]);
    assert!(tokenize("-_-").is_empty());
}

#[test]
fn rejects_expensive_short_substring_with_typed_error() {
    let error = CandidatePolicy::default()
        .plan("ab", QueryMode::SubstringOnly)
        .expect_err("two-character substring must be rejected");
    assert_eq!(error, PolicyError::ExpensiveShortSubstring { length: 2 });
}

#[test]
fn permits_short_product_query_without_ngram_expansion() -> Result<(), PolicyError> {
    let plan = CandidatePolicy::default().plan("a", QueryMode::ProductSearch)?;
    assert!(!plan.allow_ngram);
    Ok(())
}

#[test]
fn expensive_short_shape_is_a_typed_policy_error() {
    let error = CandidatePolicy::default()
        .plan("xy", QueryMode::SubstringOnly)
        .expect_err("forced short substring must fail");
    assert_eq!(error, PolicyError::ExpensiveShortSubstring { length: 2 });
}

#[test]
fn every_refusal_of_a_query_is_typed() {
    assert_eq!(
        CandidatePolicy::default().plan("", QueryMode::ProductSearch),
        Err(PolicyError::EmptyQuery)
    );
    assert_eq!(
        CandidatePolicy { candidate_limit: 0 }.plan("alpha", QueryMode::ProductSearch),
        Err(PolicyError::CandidateLimit { requested: 0, maximum: 500 })
    );
    assert_eq!(
        CandidatePolicy { candidate_limit: 501 }.plan("alpha", QueryMode::ProductSearch),
        Err(PolicyError::CandidateLimit { requested: 501, maximum: 500 })
    );
    let plan = CandidatePolicy { candidate_limit: 500 }
        .plan("ALPHA", QueryMode::SubstringOnly)
        .expect("plan");
    assert_eq!(plan.normalized_query, "alpha");
    assert!(plan.allow_ngram);
    assert_eq!(plan.candidate_limit, 500);
}

#[test]
fn primary_class_dominates_and_ties_are_stable() {
    let candidates = vec![
        record(9, "xalphaq.txt", "/alpha/xalphaq.txt"),
        record(8, "x alpha report.txt", "/z/x alpha report.txt"),
        record(7, "alphabet.txt", "/z/alphabet.txt"),
        record(6, "alpha", "/z/alpha"),
        record(5, "other.txt", "/alpha/other.txt"),
        record(4, "xalphaq.txt", "/alpha/xalphaq.txt"),
    ];
    let ranked = rank_verified(candidates, "alpha");
    let classes: Vec<_> = ranked.iter().map(|hit| hit.match_class).collect();
    assert_eq!(
        classes,
        vec![
            MatchClass::ExactName,
            MatchClass::PrefixName,
            MatchClass::TokenName,
            MatchClass::SubstringName,
            MatchClass::SubstringName,
            MatchClass::Path,
        ]
    );
    assert_eq!(ranked[3].ordinal, 4);
    assert_eq!(ranked[4].ordinal, 9);
}

#[test]
fn exact_verification_rejects_ngram_false_positive() {
    // "abcXXbcd" contains both trigrams of "abcd" but not the substring.
    let ranked = rank_verified(vec![record(1, "abcXXbcd.txt", "/z/abcXXbcd.txt")], "abcd");
    assert!(ranked.is_empty());
}

#[test]
fn primary_order_and_ties_are_deterministic() {
    let candidates = vec![
        record(5, "z-alpha-q.txt", "/z/z-alpha-q.txt"),
        record(4, "zalphaq.txt", "/z/zalphaq.txt"),
        record(3, "x alpha q.txt", "/z/x alpha q.txt"),
        record(2, "alphabet.txt", "/z/alphabet.txt"),
        record(1, "alpha", "/z/alpha"),
        record(9, "other.txt", "/alpha/other.txt"),
    ];
    let first = rank_verified(candidates.clone(), "alpha");
    let second = rank_verified(candidates, "alpha");
    assert_eq!(first, second);
    assert_eq!(
        first.iter().map(|hit| hit.match_class).collect::<Vec<_>>(),
        vec![
            MatchClass::ExactName,
            MatchClass::PrefixName,
            MatchClass::TokenName,
            MatchClass::TokenName,
            MatchClass::SubstringName,
            MatchClass::Path,
        ]
    );
}

#[test]
fn verification_rejects_candidate_with_matching_grams_but_no_substring() {
    let query = normalize_search_text("abcd");
    let false_candidate = record(1, "abc-then-bcd.txt", "/z/abc-then-bcd.txt");
    assert!(rank_verified(vec![false_candidate], &query).is_empty());
}

#[test]
fn classes_follow_the_best_match() {
    assert_eq!(classify_match("alpha", "/z/alpha", "alpha"), Some(MatchClass::ExactName));
    assert_eq!(classify_match("alphabet", "/z", "alpha"), Some(MatchClass::PrefixName));
    assert_eq!(classify_match("x-alpha", "/z", "alpha"), Some(MatchClass::TokenName));
    assert_eq!(classify_match("xalpha", "/z", "alpha"), Some(MatchClass::SubstringName));
    assert_eq!(classify_match("x", "/alpha/x", "alpha"), Some(MatchClass::Path));
    assert_eq!(classify_match("x", "/z/x", "alpha"), None);
    assert!(contains_text("abcabd", "abd"));
    assert!(!contains_text("abcab", "abd"));
    assert!(starts_with_text("abc", "ab"));
    assert!(!starts_with_text("ab", "abc"));
}

#[test]
fn only_candidates_that_contain_the_query_are_kept() {
    let all = vec![
        record(1, "Alpha.txt", "/z/Alpha.txt"),
        record(2, "beta.txt", "/ALPHA/beta.txt"),
        record(3, "gamma.txt", "/z/gamma.txt"),
    ];
    let kept = verify_candidates(all, "alpha");
    assert_eq!(kept.iter().map(|item| item.ordinal).collect::<Vec<_>>(), vec![1, 2]);
}

#[test]
fn index_texts_hold_tokens_prefixes_and_grams() {
    assert_eq!(prefixes("abcd", 3), vec!["a", "ab", "abc"]);
    assert_eq!(grams("abcd", 3), vec!["616263", "626364"]);
    assert!(grams("ab", 3).is_empty());
    assert_eq!(grams("é2", 2), vec!["c3a932"]);
    assert_eq!(hex_text(&[0, 15, 16, 255]), "000f10ff");
    let text = index_text("Ab-Cd", Strategy::Trigram);
    assert_eq!(text.exact, "ab-cd");
    assert_eq!(text.token, "ab cd");
    assert_eq!(text.prefix, "a ab ab- ab-c ab-cd");
    assert_eq!(text.gram, "61622d 622d63 2d6364");
    assert_eq!(index_text("abcde", Strategy::BoundedFourgram).gram, "61626364 62636465");
}

#[test]
fn queries_name_the_fields_they_ask() {
    assert_eq!(
        lexical_query("alpha"),
        IndexQuery::AnyField {
            fields: vec![IndexField::Exact, IndexField::Token, IndexField::Prefix],
            text: "alpha".to_owned(),
        }
    );
    assert_eq!(
        gram_query("abc", 3),
        IndexQuery::Term { field: IndexField::Gram, text: "616263".to_owned() }
    );
    assert_eq!(
        gram_query("abcd", 3),
        IndexQuery::Phrase {
            field: IndexField::Gram,
            texts: vec!["616263".to_owned(), "626364".to_owned()],
        }
    );
}

fn address(document: u32) -> DocumentAddress {
    DocumentAddress { segment: 0, document }
}

#[test]
fn retrieval_is_bounded_and_names_no_candidate_twice() {
    let plan = CandidatePolicy { candidate_limit: 3 }
        .plan("alpha", QueryMode::ProductSearch)
        .expect("plan");
    let mut retrieval = Retrieval::begin(Strategy::TokenPrefixLimitedTrigram, &plan);
    let (first, limit) = retrieval.next_request().expect("lexical request");
    assert_eq!(first, lexical_query("alpha"));
    assert_eq!(limit, 3);
    retrieval.record(vec![address(1), address(2)]);
    let (second, limit) = retrieval.next_request().expect("gram request");
    assert_eq!(second, gram_query("alpha", 3));
    assert_eq!(limit, 1);
    retrieval.record(vec![address(2), address(5), address(6)]);
    assert!(retrieval.next_request().is_none());
    assert_eq!(retrieval.finish(), vec![address(1), address(2), address(5)]);
}

#[test]
fn short_queries_ask_for_words_and_prefixes_only() {
    for strategy in Strategy::all() {
        let plan = CandidatePolicy::default()
            .plan("ab", QueryMode::ProductSearch)
            .expect("plan");
        let mut retrieval = Retrieval::begin(strategy, &plan);
        assert_eq!(retrieval.next_request().expect("request").0, lexical_query("ab"));
        retrieval.record(Vec::new());
        assert!(retrieval.next_request().is_none());
    }
    let plan = CandidatePolicy::default()
        .plan("abc", QueryMode::SubstringOnly)
        .expect("plan");
    let retrieval = Retrieval::begin(Strategy::BoundedFourgram, &plan);
    assert_eq!(retrieval.next_request().expect("request").0, lexical_query("abc"));
}

#[test]
fn positional_grams_reject_reordered_false_candidate() {
    let records = vec![
        record(1, "abc-then-bcd.txt", "/z/abc-then-bcd.txt"),
        record(2, "unrelated.txt", "/z/unrelated.txt"),
    ];
    let index = MemoryIndex::build(records, Strategy::Trigram);
    let outcome = index.search("abcd", QueryMode::SubstringOnly, 20);
    assert_eq!(outcome.metrics.candidate_count, 0);
    assert_eq!(outcome.metrics.verified_count, 0);
    assert!(outcome.hits.is_empty());
}

#[test]
fn every_strategy_keeps_to_the_candidate_limit() {
    let records: Vec<CatalogRecord> = (0..200)
        .map(|n| {
            let name = format!("report-{n}.txt");
            record(n, &name, &format!("/z/{name}"))
        })
        .collect();
    for strategy in Strategy::all() {
        let index = MemoryIndex::build(records.clone(), strategy);
        let outcome = index.search("report", QueryMode::ProductSearch, 17);
        assert_eq!(outcome.metrics.candidate_count, 17);
        assert_eq!(outcome.hits.len(), 17);
    }
}

#[test]
fn a_true_hit_survives_the_pressure_of_false_candidates() {
    let (records, cases) = controlled_recall_workload(100, 25);
    let pressure = cases
        .iter()
        .find(|case| case.id == "candidate_pressure")
        .expect("case exists");
    let index = MemoryIndex::build(records, Strategy::Trigram);
    let outcome = index.search(&pressure.query, QueryMode::SubstringOnly, 10);
    assert_eq!(outcome.hits.len(), 1);
    assert!(normalize_search_text(&outcome.hits[0].name)
        .contains(&normalize_search_text(&pressure.query)));
    assert!(outcome.metrics.candidate_count <= 10);
}

#[test]
fn controlled_cases_that_fit_the_limit_have_full_recall() {
    let (records, cases) = controlled_recall_workload(0, 25);
    let truth = ground_truth(&records, &cases);
    let index = MemoryIndex::build(records, Strategy::Trigram);
    for (case, expected) in cases.iter().zip(&truth) {
        let mut result = CaseResult::begin(case, expected, 300);
        let outcome = index.search(&case.query, QueryMode::SubstringOnly, 300);
        result.record(expected, &outcome);
        assert!(result.within_candidate_budget);
        assert_eq!(result.recall.numerator, result.recall.denominator, "{}", case.id);
    }
}

#[test]
fn workload_covers_required_shapes_and_pressure() {
    let (records, cases) = controlled_recall_workload(1_000, 350);
    for category in [
        "position_beginning",
        "position_middle",
        "position_end",
        "separator_space",
        "separator_underscore",
        "separator_dash",
        "separator_dot",
        "separator_parentheses",
        "digits",
        "long_name",
        "repeated_sequence",
        "script_latin",
        "script_cyrillic",
        "case_normalization",
        "unicode_nfc_query",
        "unicode_nfd_query",
        "frequency_common",
        "candidate_limit_pressure",
    ] {
        assert!(
            cases.iter().any(|case| case.category == category),
            "missing {category}"
        );
    }
    assert!(cases
        .iter()
        .all(|case| normalize_search_text(&case.query).chars().count() >= 3));
    assert!(cases.iter().any(|case| case.frequency == "common"));
    assert!(cases.iter().any(|case| case.frequency == "rare"));
    assert!(records.len() > 350);
}

#[test]
fn controlled_records_are_numbered_from_the_first_one() {
    let (records, _) = controlled_recall_workload(1_000, 5);
    for (position, record) in records.iter().enumerate() {
        assert_eq!(record.ordinal, 1_000 + u64::try_from(position).expect("position"));
    }
}

#[test]
fn metrics_are_quotients() {
    let metrics = CandidateMetrics {
        retrieval_ns: 1,
        verification_ns: 1,
        ranker_ns: 1,
        end_to_end_ns: 3,
        candidate_count: 8,
        verified_count: 6,
    };
    assert_eq!(metrics.rejection_ratio(), Ratio { numerator: 2, denominator: 8 });
    let build = BuildMetrics {
        documents: 4,
        wall_ns: 10,
        index_bytes: 100,
        source_text_bytes: 0,
        peak_ram_bytes: 1,
    };
    assert_eq!(build.bytes_per_document(), Ratio { numerator: 100, denominator: 4 });
    assert_eq!(build.index_amplification(), Ratio { numerator: 0, denominator: 1 });
    assert_eq!(augmented_documents(10, 5), Some(15));
    assert_eq!(augmented_documents(u64::MAX, 1), None);
}

#[test]
fn a_build_counts_bytes_and_samples_memory() {
    let mut progress = BuildProgress::begin(7);
    let (text, sample) = progress.take_record(&record(1, "é", "/é"), Strategy::Trigram);
    assert_eq!(text.exact, "é");
    assert!(sample);
    assert_eq!(progress.source_text_bytes, 5);
    let (_, sample) = progress.take_record(&record(2, "a", "/a"), Strategy::Trigram);
    assert!(!sample);
    assert_eq!(progress.source_text_bytes, 8);
    progress.sample_memory(5);
    assert_eq!(progress.peak_ram_bytes, 7);
    progress.sample_memory(9);
    assert_eq!(progress.peak_ram_bytes, 9);
}

fn millis(values: &[u64]) -> Vec<Ratio> {
    values.iter().map(|value| Ratio::of_count(*value)).collect()
}

#[test]
fn percentiles_take_the_sample_at_their_rank() {
    let samples = millis(&[5, 1, 4, 2, 3]);
    let ordered = sort_ascending(&samples);
    assert_eq!(ordered, millis(&[1, 2, 3, 4, 5]));
    assert_eq!(percentile_value(&ordered, 50), Ratio::of_count(3));
    assert_eq!(percentile_value(&ordered, 95), Ratio::of_count(5));
    assert_eq!(percentile_value(&ordered, 0), Ratio::of_count(1));
    assert_eq!(percentile_value(&Vec::new(), 50), Ratio::of_count(0));
    assert_eq!(percentile(&samples, 95), Ratio::of_count(4));
    assert_eq!(percentile(&samples, 100), Ratio::of_count(5));
    assert!(Ratio { numerator: 1, denominator: 3 }.is_at_most(Ratio { numerator: 1, denominator: 2 }));
    assert_eq!(
        Ratio { numerator: 1, denominator: 2 }.min(Ratio { numerator: 1, denominator: 3 }),
        Ratio { numerator: 1, denominator: 3 }
    );
    assert_eq!(Ratio::of_nanoseconds(5), Ratio { numerator: 5, denominator: 1_000_000 });
}

#[test]
fn summaries_keep_the_worst_case() {
    let (records, cases) = controlled_recall_workload(0, 5);
    let truth = ground_truth(&records, &cases);
    let mut missed = CaseResult::begin(&cases[0], &truth[0], 300);
    missed.record(
        &truth[0],
        &SearchOutcome {
            hits: Vec::new(),
            metrics: CandidateMetrics {
                retrieval_ns: 1,
                verification_ns: 1,
                ranker_ns: 1,
                end_to_end_ns: 4_000_000,
                candidate_count: 0,
                verified_count: 0,
            },
        },
    );
    let summary = summarize(&vec![missed]);
    assert_eq!(summary.minimum_recall.numerator, 0);
    assert_eq!(summary.p95, Ratio { numerator: 4_000_000, denominator: 1_000_000 });
}

fn texts(values: &[&str]) -> Vec<String> {
    values.iter().map(|value| (*value).to_owned()).collect()
}

#[test]
fn the_command_line_sets_every_control() {
    let options = parse_arguments(&texts(&[
        "--run-id", "run-1", "--records", "5", "--seed", "6", "--samples", "7",
        "--writer-heap-bytes", "8", "--candidate-limit", "9", "--output", "out", "--strategy",
        "trigram", "--memory-bytes", "10", "--storage", "nvme", "--power", "ac",
    ]))
    .expect("options");
    assert_eq!(options.run_id, "run-1");
    assert_eq!(options.records, 5);
    assert_eq!(options.seed, 6);
    assert_eq!(options.samples_per_cell, 7);
    assert_eq!(options.writer_heap_bytes, 8);
    assert_eq!(options.candidate_limit, 9);
    assert_eq!(options.output_directory, "out");
    assert_eq!(options.strategies, vec![Strategy::Trigram]);
    assert_eq!(options.memory_bytes, 10);
    assert!(validate_benchmark(&options).is_ok());
    assert!(matches!(
        parse_arguments(&texts(&["--records"])),
        Err(ExperimentError::InvalidDocument("missing CLI value"))
    ));
    assert!(matches!(
        parse_arguments(&texts(&["--unknown", "1"])),
        Err(ExperimentError::InvalidDocument("unknown CLI flag"))
    ));
    assert!(parse_arguments(&texts(&["--records", "x"])).is_err());
    assert!(validate_benchmark(&parse_arguments(&Vec::new()).expect("defaults")).is_err());
}

#[test]
fn strategies_are_known_by_their_labels() {
    for strategy in Strategy::all() {
        assert_eq!(parse_strategy(strategy.label()).expect("label"), strategy);
    }
    assert!(parse_strategy("other").is_err());
    assert_eq!(strategies_to_run(&Vec::new()), Strategy::all());
    assert_eq!(
        strategies_to_run(&vec![Strategy::BoundedFourgram]),
        vec![Strategy::BoundedFourgram]
    );
}

fn recall_options() -> RecallBenchmarkOptions {
    RecallBenchmarkOptions {
        run_id: "run-1".to_owned(),
        records: 10,
        seed: 1,
        samples_per_case: 1,
        writer_heap_bytes: 20_000_000,
        candidate_limit: 300,
        pressure_false_candidates: 5,
        baseline_index_bytes: 0,
        output_directory: "out".to_owned(),
        strategies: Vec::new(),
        memory_bytes: 1,
        storage: "nvme".to_owned(),
        power: "ac".to_owned(),
    }
}

#[test]
fn recall_controls_are_checked() {
    assert!(validate_options(&recall_options()).is_ok());
    let mut options = recall_options();
    options.samples_per_case = 0;
    assert!(matches!(
        validate_options(&options),
        Err(ExperimentError::InvalidDocument(_))
    ));
    let mut options = recall_options();
    options.candidate_limit = 501;
    assert!(matches!(
        validate_options(&options),
        Err(ExperimentError::Policy(PolicyError::CandidateLimit { .. }))
    ));
    assert!(valid_identifier("run-1"));
    assert!(!valid_identifier(""));
    assert!(!valid_identifier("run 1"));
}

#[test]
fn reports_are_named_after_their_run() {
    assert_eq!(
        benchmark_stem(Strategy::Trigram, 100, 7, "run"),
        "start-003-trigram-100-seed7-run"
    );
    let stem = recall_stem(Strategy::Trigram, 100, "run");
    assert!(stem.contains("trigram") && stem.contains("100") && stem.contains("run"));
    assert_eq!(artifact_path("a\\b"), "a/b");
    assert_eq!(csv_cell("a\"b"), "\"a\"\"b\"");
    assert_eq!(csv_query("a,b"), "a_b");
    assert_eq!(budget_label(true), "supported");
    assert_eq!(budget_label(false), "diagnostic");
    assert_eq!(length_label("a"), "1");
    assert_eq!(length_label("ab"), "2");
    assert_eq!(length_label("abcde"), "3-5");
    assert_eq!(length_label("abcdef"), "6+");
    assert!(!workload().is_empty());
    let descriptor = DatasetDescriptor::new("data", 2, 100, 7);
    assert_eq!(descriptor.workload, "substring-product-ranking-v1");
    assert_eq!(Quantity::Number(Ratio::of_count(1)), Quantity::Number(Ratio::of_count(1)));
}

#[test]
fn reports_carry_their_notes() {
    assert_eq!(benchmark_notes().len(), 5);
    assert_eq!(
        benchmark_notes()[3],
        "Peak RAM is a best-effort sampled process physical-memory high-water mark."
    );
    assert_eq!(
        recall_notes(),
        vec![
            "Ground truth is computed by scanning every normalized filename in the combined dataset.",
            "Recall acceptance applies only when the ground-truth cardinality fits the configured candidate budget.",
            "One/two-character queries are excluded from the substring contract.",
            "Exact normalized verification remains mandatory after positional candidate retrieval.",
        ]
    );
}

#[test]
fn probes_are_shorter_than_a_trigram() {
    assert_eq!(short_probes(), ["q", "qx"]);
    assert_eq!(WARMUP_SEARCHES, 3);
}

#[test]
fn artifacts_are_told_by_their_digest() {
    assert_eq!(
        artifact_sha256(&Vec::new()),
        "e3b0c44298fc1c149afbf4c8996fb92427ae41e4649b934ca495991b7852b855"
    );
    assert_eq!(
        artifact_sha256(&b"abc".to_vec()),
        "ba7816bf8f01cfea414140de5dae2223b00361a396177a9cb410ff61f20015ad"
    );
}
