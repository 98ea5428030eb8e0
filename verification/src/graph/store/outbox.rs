//! The projection outbox and its consumers.

use vstd::prelude::*;

use crate::catalog::{MutationBatch, SequencedMutation};
use crate::graph::domain::{OutboxMaintenanceSummary, ProjectorCheckpoint};
use crate::graph::error::{invalid_batch, invariant_error, numeric_range, ErrorModel, GraphResult};
use crate::graph::model::{column_max, ConsumerRow, GraphModel};
use crate::graph::soundness::sound;
use crate::graph::store::FilesystemGraph;
use crate::graph::upkeep_model::{
    acknowledge, is_least_acknowledged, lemma_acknowledge, lemma_prune, outbox_after,
    outbox_through, safe_through, without_outbox,
};
use crate::ids::MutationSeq;
use crate::order::{ascends, first_page, is_page};
use crate::table::{gathered, key_rank, lemma_gather, lemma_gathered_page};

verus! {

/// What a read of the outbox gives: the rows after the cursor, oldest first, at most `limit`.
pub open spec fn is_outbox_page(
    m: GraphModel,
    batch: MutationBatch,
    after: u64,
    limit: nat,
) -> bool {
    let page = first_page(outbox_after(m, after), key_rank::<MutationSeq>(), limit);
    &&& is_page(page, outbox_after(m, after), key_rank::<MutationSeq>(), limit)
    &&& batch.mutations@.len() == page.len()
    &&& forall|i: int|
        0 <= i < page.len() ==> (#[trigger] batch.mutations@[i]).sequence == page[i]
            && batch.mutations@[i].mutation@ == m.outbox[page[i]].mutation
}

impl FilesystemGraph {
    /// Reads one consecutive bounded projection-outbox batch after `sequence`.
    pub fn read_outbox(&self, sequence: Option<MutationSeq>, limit: u32) -> (r: GraphResult<
        MutationBatch,
    >)
        requires
            self.wf(),
        ensures
            ({
                let after = match sequence {
                    Some(s) => s.0,
                    None => 0,
                };
                match r {
                    Ok(batch) => after <= column_max() && is_outbox_page(
                        self@,
                        batch,
                        after,
                        limit as nat,
                    ) && batch.is_consecutive(),
                    Err(e) => after > column_max() && e@ == ErrorModel::NumericRange(
                        "outbox cursor"@,
                    ),
                }
            }),
    {
        let after: u64 = match sequence {
            Some(s) => s.0,
            None => 0,
        };
        if after > 0x7fff_ffff_ffff_ffff {
            return Err(numeric_range("outbox cursor"));
        }
        let ghost m = self@;
        let ghost eligible = outbox_after(m, after);
        let ghost keys = self.outbox.keys();
        let mut found: Vec<MutationSeq> = Vec::new();
        let mut mutations: Vec<SequencedMutation> = Vec::new();
        let mut i: usize = 0;
        proof {
            self.outbox.lemma_keys();
        }
        while i < self.outbox.len() && found.len() < limit as usize
            invariant
                self.wf(),
                m == self@,
                eligible == outbox_after(m, after),
                keys == self.outbox.keys(),
                i <= keys.len(),
                ascends(keys, key_rank::<MutationSeq>()),
                gathered(found@, keys, i as int, eligible),
                found@.len() <= limit,
                mutations@.len() == found@.len(),
                forall|x: int|
                    0 <= x < found@.len() ==> (#[trigger] mutations@[x]).sequence == found@[x]
                        && mutations@[x].mutation@ == m.outbox[found@[x]].mutation,
            decreases keys.len() - i,
        {
            let s = self.outbox.key_at(i);
            proof {
                lemma_gather(found@, keys, i as int, eligible);
            }
            if s.0 > after {
                found.push(s);
                mutations.push(
                    SequencedMutation {
                        sequence: s,
                        mutation: self.outbox.row_at(i).mutation.duplicate(),
                    },
                );
            }
            i = i + 1;
        }
        proof {
            self.outbox.lemma_keys();
            lemma_gathered_page(found@, keys, i as int, eligible, limit as nat);
            let batch = MutationBatch { mutations };
            assert forall|x: int| 0 < x < mutations@.len() implies (
            #[trigger] mutations@[x]).sequence.0 == mutations@[0].sequence.0 + x by {
                lemma_consecutive(m, after, found@, limit as nat, x);
            }
        }
        Ok(MutationBatch { mutations })
    }

    /// Returns the newest projection sequence that was ever issued, or zero if none was.
    pub fn latest_outbox_sequence(&self) -> (r: GraphResult<MutationSeq>)
        requires
            self.wf(),
        ensures
            r is Ok,
            r->Ok_0 == MutationSeq(self@.issued),
    {
        Ok(MutationSeq(self.issued))
    }

    /// Loads the progress of one consumer.
    pub fn projector_checkpoint(&self, consumer_id: &str) -> (r: GraphResult<
        Option<ProjectorCheckpoint>,
    >)
        requires
            self.wf(),
        ensures
            match r {
                Ok(Some(checkpoint)) => {
                    &&& self@.consumers.dom().contains(consumer_id@)
                    &&& checkpoint.consumer_id@ == consumer_id@
                    &&& checkpoint.last_sequence == self@.consumers[consumer_id@].last_sequence
                    &&& checkpoint.index_generation
                        == self@.consumers[consumer_id@].index_generation
                },
                Ok(None) => !self@.consumers.dom().contains(consumer_id@),
                Err(_) => false,
            },
    {
        match self.consumers.get(consumer_id) {
            Some(row) => Ok(
                Some(
                    ProjectorCheckpoint {
                        consumer_id: consumer_id.to_owned(),
                        last_sequence: row.last_sequence,
                        index_generation: row.index_generation,
                    },
                ),
            ),
            None => Ok(None),
        }
    }

    /// Records how far a consumer has come. It never moves back, nor beyond the outbox.
    pub fn acknowledge_projection(
        &mut self,
        consumer_id: &str,
        last_sequence: MutationSeq,
        index_generation: u64,
    ) -> (r: GraphResult<()>)
        requires
            old(self).wf(),
        ensures
            final(self).wf(),
            match r {
                Ok(()) => acknowledge(
                    old(self)@,
                    consumer_id@,
                    last_sequence.0,
                    index_generation,
                ) == Ok::<GraphModel, ErrorModel>(final(self)@),
                Err(e) => final(self)@ == old(self)@ && acknowledge(
                    old(self)@,
                    consumer_id@,
                    last_sequence.0,
                    index_generation,
                ) == Err::<GraphModel, ErrorModel>(e@),
            },
    {
        proof {
            lemma_acknowledge(self@, consumer_id@, last_sequence.0, index_generation);
        }
        if last_sequence.0 > self.issued {
            return Err(
                invariant_error("projector checkpoint cannot advance beyond durable outbox"),
            );
        }
        if let Some(current) = self.consumers.get(consumer_id) {
            if last_sequence.0 < current.last_sequence {
                return Err(invariant_error("projector checkpoint cannot move backwards"));
            }
        }
        if index_generation > 0x7fff_ffff_ffff_ffff {
            return Err(numeric_range("index generation"));
        }
        self.consumers.put(
            consumer_id,
            ConsumerRow { last_sequence: last_sequence.0, index_generation },
        );
        Ok(())
    }

    /// Forgets a consumer, and says whether it was registered.
    pub fn reset_projection_consumer(&mut self, consumer_id: &str) -> (r: GraphResult<bool>)
        requires
            old(self).wf(),
        ensures
            final(self).wf(),
            r is Ok,
            r->Ok_0 == old(self)@.consumers.dom().contains(consumer_id@),
            final(self)@ == (GraphModel {
                consumers: old(self)@.consumers.remove(consumer_id@),
                ..old(self)@
            }),
    {
        let removed = self.consumers.erase(consumer_id);
        Ok(removed)
    }

    /// The first outbox rows up to a position.
    fn outbox_page_through(&self, safe: u64, limit: usize) -> (page: Vec<MutationSeq>)
        requires
            self.tables_wf(),
        ensures
            is_page(
                page@,
                outbox_through(self@, safe),
                key_rank::<MutationSeq>(),
                limit as nat,
            ),
            page@ == first_page(
                outbox_through(self@, safe),
                key_rank::<MutationSeq>(),
                limit as nat,
            ),
    {
        let ghost m = self@;
        let ghost eligible = outbox_through(m, safe);
        let ghost keys = self.outbox.keys();
        let mut found: Vec<MutationSeq> = Vec::new();
        let mut i: usize = 0;
        proof {
            self.outbox.lemma_keys();
        }
        while i < self.outbox.len() && found.len() < limit
            invariant
                self.tables_wf(),
                m == self@,
                eligible == outbox_through(m, safe),
                keys == self.outbox.keys(),
                i <= keys.len(),
                ascends(keys, key_rank::<MutationSeq>()),
                gathered(found@, keys, i as int, eligible),
                found@.len() <= limit,
            decreases keys.len() - i,
        {
            let s = self.outbox.key_at(i);
            proof {
                lemma_gather(found@, keys, i as int, eligible);
            }
            if s.0 <= safe {
                found.push(s);
            }
            i = i + 1;
        }
        proof {
            self.outbox.lemma_keys();
            lemma_gathered_page(found@, keys, i as int, eligible, limit as nat);
        }
        found
    }

    fn erase_outbox(&mut self, page: &Vec<MutationSeq>)
        requires
            old(self).tables_wf(),
        ensures
            final(self).tables_wf(),
            final(self)@ == without_outbox(old(self)@, page@.to_set()),
    {
        let ghost m = self@;
        let mut i: usize = 0;
        proof {
            assert(m.outbox.remove_keys(page@.take(0).to_set()) =~= m.outbox);
        }
        while i < page.len()
            invariant
                self.tables_wf(),
                i <= page@.len(),
                self@ == without_outbox(m, page@.take(i as int).to_set()),
            decreases page@.len() - i,
        {
            self.outbox.erase(&page[i]);
            proof {
                let done = page@.take(i as int);
                let next = page@.take(i + 1);
                assert(next =~= done.push(page@[i as int]));
                assert(next.to_set() =~= done.to_set().insert(page@[i as int])) by {
                    assert forall|s: MutationSeq| next.to_set().contains(s)
                        == done.to_set().insert(page@[i as int]).contains(s) by {
                        if done.contains(s) {
                            let x = done.index_of(s);
                            assert(next[x] == s);
                        }
                        assert(next[i as int] == page@[i as int]);
                    }
                }
                assert(m.outbox.remove_keys(done.to_set()).remove(page@[i as int])
                    =~= m.outbox.remove_keys(next.to_set()));
            }
            i = i + 1;
        }
        assert(page@.take(i as int) =~= page@);
    }

    /// Discards every outbox row that all consumers have taken over, and says how many went.
    pub fn prune_consumed_outbox(&mut self) -> (r: GraphResult<u64>)
        requires
            old(self).wf(),
        ensures
            final(self).wf(),
            r is Ok,
            match safe_through(old(self)@, false) {
                None => r->Ok_0 == 0 && final(self)@ == old(self)@,
                Some(safe) => {
                    &&& final(self)@ == without_outbox(
                        old(self)@,
                        Set::new(outbox_through(old(self)@, safe)),
                    )
                    &&& r->Ok_0 == crate::graph::upkeep_model::how_many(
                        outbox_through(old(self)@, safe),
                    )
                },
            },
    {
        let ghost m = self@;
        let safe: u64 = match self.consumers.minimum() {
            Some(safe) => safe,
            None => {
                return Ok(0);
            },
        };
        proof {
            lemma_least_acknowledged(m, safe);
        }
        let all: usize = self.outbox.len();
        let page = self.outbox_page_through(safe, all);
        proof {
            let eligible = outbox_through(m, safe);
            let rank = key_rank::<MutationSeq>();
            self.outbox.lemma_keys();
            self.outbox.lemma_count();
            assert forall|s: MutationSeq| #[trigger] eligible(s) implies page@.contains(s) by {
                if !page@.contains(s) {
                    lemma_page_within(page@, self.outbox.keys(), eligible, s);
                }
            }
            assert(crate::order::is_listing(page@, eligible, rank));
            crate::graph::upkeep_model::lemma_how_many(page@, eligible, rank);
            assert(page@.to_set() =~= Set::new(eligible)) by {
                assert forall|s: MutationSeq| page@.to_set().contains(s) == Set::new(
                    eligible,
                ).contains(s) by {
                    if page@.contains(s) {
                        let i = page@.index_of(s);
                        assert(eligible(page@[i]));
                    }
                }
            }
            lemma_prune(m, page@, safe, all as nat);
        }
        self.erase_outbox(&page);
        Ok(page.len() as u64)
    }

    /// Whether outbox rows can be discarded that all consumers have taken over.
    pub fn consumed_outbox_maintenance_pending(&self) -> (r: GraphResult<bool>)
        requires
            self.wf(),
        ensures
            r is Ok,
            r->Ok_0 == match safe_through(self@, false) {
                None => false,
                Some(safe) => exists|s: MutationSeq| #[trigger] outbox_through(self@, safe)(s),
            },
    {
        match self.consumers.minimum() {
            Some(safe) => {
                proof {
                    lemma_least_acknowledged(self@, safe);
                }
                Ok(self.outbox_reaches_back_to(safe))
            },
            None => Ok(false),
        }
    }

    fn outbox_reaches_back_to(&self, safe: u64) -> (r: bool)
        requires
            self.tables_wf(),
        ensures
            r == exists|s: MutationSeq| #[trigger] outbox_through(self@, safe)(s),
    {
        let page = self.outbox_page_through(safe, 1);
        proof {
            let eligible = outbox_through(self@, safe);
            if page@.len() > 0 {
                assert(eligible(page@[0]));
            } else {
                assert forall|s: MutationSeq| !#[trigger] eligible(s) by {
                    assert(!page@.contains(s));
                }
            }
        }
        page.len() > 0
    }

    /// Discards at most `maximum_rows` outbox rows that no registered consumer still needs.
    ///
    /// Without consumers nothing goes, unless the caller allows it: a later consumer then
    /// rebuilds from the desired documents.
    pub fn prune_rebuildable_outbox_bounded(
        &mut self,
        maximum_rows: u32,
        allow_without_consumers: bool,
    ) -> (r: GraphResult<OutboxMaintenanceSummary>)
        requires
            old(self).wf(),
        ensures
            final(self).wf(),
            match r {
                Err(e) => {
                    &&& final(self)@ == old(self)@
                    &&& maximum_rows == 0 || maximum_rows > 100_000
                    &&& e@ == ErrorModel::InvalidBatch(
                        "outbox maintenance bound must be between 1 and 100000"@,
                    )
                },
                Ok(summary) => {
                    &&& 1 <= maximum_rows <= 100_000
                    &&& match safe_through(old(self)@, allow_without_consumers) {
                        None => final(self)@ == old(self)@ && summary == (
                        OutboxMaintenanceSummary {
                            safe_through_sequence: None,
                            deleted_rows: 0,
                            backlog_remaining: false,
                        }),
                        Some(safe) => {
                            let page = first_page(
                                outbox_through(old(self)@, safe),
                                key_rank::<MutationSeq>(),
                                maximum_rows as nat,
                            );
                            &&& is_page(
                                page,
                                outbox_through(old(self)@, safe),
                                key_rank::<MutationSeq>(),
                                maximum_rows as nat,
                            )
                            &&& final(self)@ == without_outbox(old(self)@, page.to_set())
                            &&& summary.safe_through_sequence == Some(safe)
                            &&& summary.deleted_rows == page.len()
                            &&& summary.backlog_remaining == exists|s: MutationSeq| #[trigger]
                                outbox_through(final(self)@, safe)(s)
                        },
                    }
                },
            },
    {
        if maximum_rows == 0 || maximum_rows > 100_000 {
            return Err(invalid_batch("outbox maintenance bound must be between 1 and 100000"));
        }
        let ghost m = self@;
        let safe: u64 = match self.consumers.minimum() {
            Some(safe) => {
                proof {
                    lemma_least_acknowledged(m, safe);
                }
                safe
            },
            None => {
                if !allow_without_consumers || self.issued == 0 {
                    return Ok(
                        OutboxMaintenanceSummary {
                            safe_through_sequence: None,
                            deleted_rows: 0,
                            backlog_remaining: false,
                        },
                    );
                }
                self.issued
            },
        };
        let page = self.outbox_page_through(safe, maximum_rows as usize);
        proof {
            lemma_prune(m, page@, safe, maximum_rows as nat);
        }
        self.erase_outbox(&page);
        let backlog_remaining = self.outbox_reaches_back_to(safe);
        Ok(
            OutboxMaintenanceSummary {
                safe_through_sequence: Some(safe),
                deleted_rows: page.len() as u64,
                backlog_remaining,
            },
        )
    }
}

proof fn lemma_least_acknowledged(m: GraphModel, least: u64)
    requires
        is_least_acknowledged(m, least),
    ensures
        safe_through(m, true) == Some(least),
        safe_through(m, false) == Some(least),
{
    let chosen = choose|x: u64| is_least_acknowledged(m, x);
    assert(is_least_acknowledged(m, chosen));
    let a = choose|c: Seq<char>| #[trigger]
        m.consumers.dom().contains(c) && m.consumers[c].last_sequence == least;
    let b = choose|c: Seq<char>| #[trigger]
        m.consumers.dom().contains(c) && m.consumers[c].last_sequence == chosen;
    assert(m.consumers.dom().contains(a));
    assert(m.consumers.dom().contains(b));
}

/// The rows of an outbox page follow one another without a gap.
proof fn lemma_consecutive(
    m: GraphModel,
    after: u64,
    page: Seq<MutationSeq>,
    limit: nat,
    x: int,
)
    requires
        sound(m),
        is_page(page, outbox_after(m, after), key_rank::<MutationSeq>(), limit),
        0 <= x < page.len(),
    ensures
        page[x].0 == page[0].0 + x,
    decreases x,
{
    if x > 0 {
        lemma_consecutive(m, after, page, limit, x - 1);
        let eligible = outbox_after(m, after);
        let rank = key_rank::<MutationSeq>();
        assert(eligible(page[x - 1]) && eligible(page[x]));
        assert(rank(page[x - 1]) < rank(page[x]));
        let between = MutationSeq((page[x - 1].0 + 1) as u64);
        assert(m.outbox.dom().contains(between));
        assert(eligible(between));
        if page.contains(between) {
            let j = page.index_of(between);
            assert(page[j] == between);
            if j < x - 1 {
                assert(rank(page[j]) < rank(page[x - 1]));
            }
            if j > x {
                assert(rank(page[x]) < rank(page[j]));
            }
        } else {
            assert(rank(page[x]) < rank(between));
        }
    }
}

/// A page as large as the table holds every eligible key.
proof fn lemma_page_within(
    page: Seq<MutationSeq>,
    keys: Seq<MutationSeq>,
    eligible: spec_fn(MutationSeq) -> bool,
    s: MutationSeq,
)
    requires
        is_page(page, eligible, key_rank::<MutationSeq>(), keys.len()),
        eligible(s),
        forall|k: MutationSeq| #[trigger] eligible(k) ==> keys.contains(k),
    ensures
        page.contains(s),
{
    if !page.contains(s) {
        let rank = key_rank::<MutationSeq>();
        assert(page.no_duplicates()) by {
            assert forall|i: int, j: int|
                0 <= i < page.len() && 0 <= j < page.len() && i != j implies page[i]
                != page[j] by {
                if i < j {
                    assert(rank(page[i]) < rank(page[j]));
                } else {
                    assert(rank(page[j]) < rank(page[i]));
                }
            }
        }
        let grown = page.push(s);
        assert(grown.no_duplicates());
        grown.unique_seq_to_set();
        keys.lemma_cardinality_of_set();
        assert(grown.to_set().subset_of(keys.to_set())) by {
            assert forall|k: MutationSeq| grown.to_set().contains(k) implies keys.to_set().contains(
                k,
            ) by {
                let i = grown.index_of(k);
                assert(grown[i] == k);
                if i < page.len() {
                    assert(eligible(page[i]));
                }
            }
        }
        vstd::set_lib::lemma_len_subset(grown.to_set(), keys.to_set());
    }
}

} // verus!
