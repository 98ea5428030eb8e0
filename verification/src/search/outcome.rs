//! What a search and an index build have measured.

use vstd::prelude::*;
use vstd::utf8::encode_utf8;

use crate::search::measure::{whole, Ratio};
use crate::search::normalize::normalized;
use crate::search::policy::QueryPlan;
use crate::search::ranking::{is_ranked, matching, rank_verified, CatalogRecord, RankedHit};
use crate::search::retrieval::{
    index_text, is_index_text, verification_keeps_every_hit, verified, verify_candidates,
    IndexText, Strategy,
};

verus! {

/// Times and counts of one search.
#[derive(Clone, Copy, Debug, PartialEq, Eq, Structural)]
pub struct CandidateMetrics {
    /// Time to retrieve the candidates.
    pub retrieval_ns: u64,
    /// Time to verify them.
    pub verification_ns: u64,
    /// Time to rank them.
    pub ranker_ns: u64,
    /// Time of the whole search.
    pub end_to_end_ns: u64,
    /// Candidates retrieved.
    pub candidate_count: usize,
    /// Candidates that contain the query.
    pub verified_count: usize,
}

/// The share of the candidates that were rejected; nothing of none.
pub open spec fn rejection(m: CandidateMetrics) -> Ratio {
    if m.candidate_count == 0 {
        whole(0)
    } else {
        Ratio {
            numerator: (m.candidate_count - m.verified_count) as u64,
            denominator: m.candidate_count as u64,
        }
    }
}

impl CandidateMetrics {
    /// The share of the candidates that were rejected.
    pub fn rejection_ratio(&self) -> (r: Ratio)
        requires
            self.verified_count <= self.candidate_count,
        ensures
            r == rejection(*self),
    {
        if self.candidate_count == 0 {
            Ratio::of_count(0)
        } else {
            Ratio {
                numerator: (self.candidate_count - self.verified_count) as u64,
                denominator: self.candidate_count as u64,
            }
        }
    }
}

/// A completed search.
#[derive(Clone, Debug, PartialEq, Eq)]
pub struct SearchOutcome {
    /// The hits, best first.
    pub hits: Vec<RankedHit>,
    /// Times and counts.
    pub metrics: CandidateMetrics,
}

/// Hits of a search, with the counts of both stages.
#[derive(Clone, Debug, PartialEq, Eq)]
pub struct RankedCandidates {
    /// The hits, best first.
    pub hits: Vec<RankedHit>,
    /// Candidates retrieved.
    pub candidate_count: usize,
    /// Candidates that contain the query.
    pub verified_count: usize,
}

/// Verifies the candidates of a plan and ranks them. Every candidate that contains the query is
/// a hit, and no other.
pub fn rank_candidates(plan: &QueryPlan, candidates: Vec<CatalogRecord>) -> (r: RankedCandidates)
    ensures
        is_ranked(r.hits@, matching(candidates@, plan.normalized_query@, candidates@.len())),
        r.candidate_count == candidates@.len(),
        r.verified_count == verified(
            candidates@,
            plan.normalized_query@,
            candidates@.len(),
        ).len(),
        r.hits@.len() == r.verified_count,
{
    let ghost all = candidates@;
    let candidate_count: usize = candidates.len();
    let kept = verify_candidates(candidates, plan.normalized_query.as_str());
    let verified_count: usize = kept.len();
    proof {
        verification_keeps_every_hit(all, plan.normalized_query@, all.len());
    }
    let hits = rank_verified(kept, plan.normalized_query.as_str());
    RankedCandidates { hits, candidate_count, verified_count }
}

/// Times and sizes of an index build.
#[derive(Clone, Copy, Debug, PartialEq, Eq, Structural)]
pub struct BuildMetrics {
    /// Documents written.
    pub documents: u64,
    /// Time of the build.
    pub wall_ns: u64,
    /// Bytes of the index.
    pub index_bytes: u64,
    /// Bytes of the names and paths.
    pub source_text_bytes: u64,
    /// Most memory seen.
    pub peak_ram_bytes: u64,
}

/// A quotient; nothing if the divisor is zero.
pub open spec fn quotient(a: u64, b: u64) -> Ratio {
    if b == 0 {
        whole(0)
    } else {
        Ratio { numerator: a, denominator: b }
    }
}

fn divide(a: u64, b: u64) -> (r: Ratio)
    ensures
        r == quotient(a, b),
{
    if b == 0 {
        Ratio::of_count(0)
    } else {
        Ratio { numerator: a, denominator: b }
    }
}

impl BuildMetrics {
    /// Bytes of the index per document.
    pub fn bytes_per_document(&self) -> (r: Ratio)
        ensures
            r == quotient(self.index_bytes, self.documents),
    {
        divide(self.index_bytes, self.documents)
    }

    /// Bytes of the index per byte of names and paths.
    pub fn index_amplification(&self) -> (r: Ratio)
        ensures
            r == quotient(self.index_bytes, self.source_text_bytes),
    {
        divide(self.index_bytes, self.source_text_bytes)
    }
}

/// The progress of an index build.
#[derive(Clone, Copy, Debug, PartialEq, Eq, Structural)]
pub struct BuildProgress {
    /// Records seen.
    pub records: u64,
    /// Bytes of the names and paths, at most the largest number.
    pub source_text_bytes: u64,
    /// Most memory seen.
    pub peak_ram_bytes: u64,
}

/// Records between two looks at the memory.
pub const MEMORY_SAMPLE_INTERVAL: u64 = 4_096;

/// A sum, at most the largest number.
pub open spec fn capped(n: int) -> u64 {
    if n > u64::MAX {
        u64::MAX
    } else {
        n as u64
    }
}

/// Bytes of the name and path of a record, at most the largest length.
pub open spec fn text_bytes(record: CatalogRecord) -> int {
    let bytes = encode_utf8(record.name@).len() + encode_utf8(record.path@).len();
    if bytes > usize::MAX {
        usize::MAX as int
    } else {
        bytes as int
    }
}

impl BuildProgress {
    /// The progress before the first record.
    pub fn begin(memory_bytes: u64) -> (r: BuildProgress)
        ensures
            r == (BuildProgress { records: 0, source_text_bytes: 0, peak_ram_bytes: memory_bytes }),
    {
        BuildProgress { records: 0, source_text_bytes: 0, peak_ram_bytes: memory_bytes }
    }

    /// Takes a record and says what the index holds for it, and whether memory is to be looked
    /// at: with the first record and with every further one at the sample interval.
    pub fn take_record(&mut self, record: &CatalogRecord, strategy: Strategy) -> (r: (IndexText, bool))
        requires
            old(self).records < u64::MAX,
        ensures
            final(self).records == old(self).records + 1,
            final(self).source_text_bytes == capped(
                old(self).source_text_bytes + text_bytes(*record),
            ),
            final(self).peak_ram_bytes == old(self).peak_ram_bytes,
            is_index_text(r.0, normalized(record.name@), strategy),
            r.1 == (old(self).records % MEMORY_SAMPLE_INTERVAL == 0),
    {
        let name: usize = record.name.as_str().as_bytes().len();
        let path: usize = record.path.as_str().as_bytes().len();
        let bytes: u64 = name.saturating_add(path) as u64;
        self.source_text_bytes = self.source_text_bytes.saturating_add(bytes);
        let sample = self.records % MEMORY_SAMPLE_INTERVAL == 0;
        self.records = self.records + 1;
        (index_text(record.name.as_str(), strategy), sample)
    }

    /// Takes a look at the memory.
    pub fn sample_memory(&mut self, memory_bytes: u64)
        ensures
            *final(self) == (BuildProgress {
                peak_ram_bytes: if old(self).peak_ram_bytes < memory_bytes {
                    memory_bytes
                } else {
                    old(self).peak_ram_bytes
                },
                ..*old(self)
            }),
    {
        if self.peak_ram_bytes < memory_bytes {
            self.peak_ram_bytes = memory_bytes;
        }
    }
}

/// The number of documents of an index with additional records; nothing if it is too large.
pub fn augmented_documents(records: u64, additions: usize) -> (r: Option<u64>)
    ensures
        match r {
            Some(n) => n == records + additions,
            None => records + additions > u64::MAX,
        },
{
    records.checked_add(additions as u64)
}

} // verus!
