//! Atomic batches.

use vstd::prelude::*;

use crate::catalog::{FilesystemEvent, ProviderCheckpoint, VolumeDescriptor};
use crate::graph::domain::{
    append_events, mutation_models, mutations_of, ApplySummary, BatchModel, GraphMutation,
    GraphMutationBatch, MutationModel,
};
use crate::graph::error::{invariant_error, numeric_range, ErrorModel, GraphResult};
use crate::graph::model::{
    affects, apply_batch, ascending_links, column_max, lists_touched_links, run_mutations,
    with_generation, GraphModel, Progress, ProjectionOutboxMode,
};
use crate::graph::rows::VolumeRow;
use crate::graph::soundness::{lemma_apply_batch, lemma_run_mutations, sound};
use crate::graph::store::FilesystemGraph;
use crate::ids::{FileLinkId, VolumeId};
use crate::order::{is_listing, lemma_is_listing};
use crate::table::{key_rank, lemma_key_rank_separates, Row, Table};

verus! {

/// A row that only says that its key is present.
#[derive(Clone, Copy)]
struct Present;

impl View for Present {
    type V = Present;

    open spec fn view(&self) -> Present {
        *self
    }
}

impl Row for Present {
    fn duplicate(&self) -> (r: Self) {
        *self
    }
}

/// The links without repetition, in ascending order.
fn ascending(links: &Vec<FileLinkId>) -> (r: Vec<FileLinkId>)
    ensures
        is_listing(
            r@,
            |l: FileLinkId| links@.to_set().contains(l),
            key_rank::<FileLinkId>(),
        ),
        r@ == ascending_links(links@.to_set()),
{
    let mut marks: Table<FileLinkId, Present> = Table::new();
    let mut i: usize = 0;
    while i < links.len()
        invariant
            marks.wf(),
            i <= links@.len(),
            forall|l: FileLinkId| #[trigger]
                marks@.dom().contains(l) <==> exists|j: int| 0 <= j < i && #[trigger] links@[j] == l,
        decreases links@.len() - i,
    {
        let ghost before = marks@;
        marks.put(links[i], Present);
        proof {
            assert forall|l: FileLinkId| #[trigger] marks@.dom().contains(l) <==> exists|j: int|
                0 <= j < i + 1 && #[trigger] links@[j] == l by {
                if before.dom().contains(l) {
                    let j = choose|j: int| 0 <= j < i && #[trigger] links@[j] == l;
                    assert(0 <= j < i + 1 && links@[j] == l);
                }
                if l == links@[i as int] {
                    assert(0 <= i < i + 1 && links@[i as int] == l);
                }
            }
        }
        i = i + 1;
    }
    let mut r: Vec<FileLinkId> = Vec::new();
    let mut k: usize = 0;
    while k < marks.len()
        invariant
            marks.wf(),
            k <= marks.keys().len(),
            r@ == marks.keys().take(k as int),
        decreases marks.keys().len() - k,
    {
        r.push(marks.key_at(k));
        k = k + 1;
        assert(r@ =~= marks.keys().take(k as int));
    }
    proof {
        assert(r@ =~= marks.keys());
        marks.lemma_keys();
        let eligible = |l: FileLinkId| links@.to_set().contains(l);
        assert forall|x: int| 0 <= x < r@.len() implies eligible(#[trigger] r@[x]) by {
            assert(marks@.dom().contains(r@[x]));
            let j = choose|j: int| 0 <= j < links@.len() && #[trigger] links@[j] == r@[x];
            assert(links@.contains(r@[x]));
        }
        assert forall|l: FileLinkId| #[trigger] eligible(l) implies r@.contains(l) by {
            let j = links@.index_of(l);
            assert(links@.contains(l));
            assert(links@[j] == l);
            assert(marks@.dom().contains(l));
            let x = choose|x: int| 0 <= x < marks.keys().len() && #[trigger] marks.keys()[x] == l;
            assert(r@[x] == l);
        }
        lemma_key_rank_separates::<FileLinkId>(eligible);
        lemma_is_listing(r@, eligible, key_rank::<FileLinkId>());
    }
    r
}

/// Once a mutation fails, the rest is not tried.
proof fn lemma_run_mutations_fails(
    m: GraphModel,
    mutations: Seq<MutationModel>,
    generation: u64,
    i: nat,
    n: nat,
)
    requires
        i <= n,
        run_mutations(m, mutations, generation, i) is Err,
    ensures
        run_mutations(m, mutations, generation, n) == run_mutations(m, mutations, generation, i),
    decreases n,
{
    if i < n {
        lemma_run_mutations_fails(m, mutations, generation, i, (n - 1) as nat);
    }
}

impl FilesystemGraph {
    fn run_mutations(
        &mut self,
        mutations: &Vec<GraphMutation>,
        generation: u64,
    ) -> (r: GraphResult<(Vec<FileLinkId>, u64)>)
        requires
            sound(old(self)@),
            old(self).tables_wf(),
            generation <= column_max(),
        ensures
            match r {
                Ok((affected, jobs)) => {
                    &&& final(self).wf_inside()
                    &&& run_mutations(
                        old(self)@,
                        mutation_models(mutations@),
                        generation,
                        mutations@.len(),
                    ) == Ok::<Progress, ErrorModel>(
                        Progress {
                            graph: final(self)@,
                            affected: affected@.to_set(),
                            jobs: jobs as nat,
                        },
                    )
                },
                Err(e) => run_mutations(
                    old(self)@,
                    mutation_models(mutations@),
                    generation,
                    mutations@.len(),
                ) == Err::<Progress, ErrorModel>(e@),
            },
    {
        let ghost m = self@;
        let ghost models = mutation_models(mutations@);
        let mut affected: Vec<FileLinkId> = Vec::new();
        let mut jobs: u64 = 0;
        let mut i: usize = 0;
        proof {
            assert(affected@.to_set() =~= Set::<FileLinkId>::empty());
        }
        while i < mutations.len()
            invariant
                m == old(self)@,
                models == mutation_models(mutations@),
                sound(m),
                self.wf_inside(),
                generation <= column_max(),
                i <= mutations@.len(),
                jobs <= i,
                run_mutations(m, models, generation, i as nat) == Ok::<Progress, ErrorModel>(
                    Progress { graph: self@, affected: affected@.to_set(), jobs: jobs as nat },
                ),
            decreases mutations@.len() - i,
        {
            let ghost before = self@;
            let ghost collected = affected@.to_set();
            assert(models[i as int] == mutations@[i as int]@);
            self.collect_affected_links(&mutations[i], &mut affected);
            proof {
                assert(affected@.to_set() =~= collected.union(
                    Set::new(|l: FileLinkId| affects(before, models[i as int], l)),
                ));
            }
            match self.apply_mutation(&mutations[i], generation) {
                Ok(n) => {
                    jobs = jobs + n;
                },
                Err(e) => {
                    proof {
                        lemma_run_mutations_fails(
                            m,
                            models,
                            generation,
                            (i + 1) as nat,
                            mutations@.len(),
                        );
                    }
                    return Err(e);
                },
            }
            i = i + 1;
        }
        Ok((affected, jobs))
    }

    pub(super) fn set_generation(&mut self, volume_id: VolumeId, generation: u64) -> (known: bool)
        requires
            old(self).tables_wf(),
        ensures
            final(self).tables_wf(),
            known == old(self)@.volumes.dom().contains(volume_id),
            known ==> final(self)@ == with_generation(old(self)@, volume_id, generation),
            !known ==> final(self)@ == old(self)@,
    {
        let row = match self.volumes.get(&volume_id) {
            Some(row) => VolumeRow {
                descriptor: row.descriptor.duplicate(),
                state: row.state,
                reason: row.reason,
                generation,
            },
            None => {
                return false;
            },
        };
        self.volumes.put(volume_id, row);
        true
    }

    fn apply_batch_with_outbox_mode(
        &mut self,
        batch: &GraphMutationBatch,
        outbox_mode: ProjectionOutboxMode,
    ) -> (r: GraphResult<ApplySummary>)
        requires
            old(self).wf(),
        ensures
            final(self).wf(),
            match r {
                Ok(summary) => apply_batch(old(self)@, batch@, outbox_mode) == Ok::<
                    (GraphModel, ApplySummary),
                    ErrorModel,
                >((final(self)@, summary)),
                Err(e) => final(self)@ == old(self)@ && apply_batch(
                    old(self)@,
                    batch@,
                    outbox_mode,
                ) == Err::<(GraphModel, ApplySummary), ErrorModel>(e@),
            },
            r is Ok ==> lists_touched_links(old(self)@, batch@),
    {
        let ghost m = self@;
        if let Err(e) = batch.validate() {
            return Err(e);
        }
        if matches!(outbox_mode, ProjectionOutboxMode::Rebuildable) && !self.consumers.is_empty() {
            return Err(
                invariant_error("rebuildable graph batch requires zero projection consumers"),
            );
        }
        let current: u64 = self.volume_generation(batch.volume_id);
        if current >= 0x7fff_ffff_ffff_ffff {
            return Err(numeric_range("graph generation"));
        }
        let generation: u64 = current + 1;
        let mut next = self.duplicate();
        let (affected, jobs) = match next.run_mutations(&batch.mutations, generation) {
            Ok(done) => done,
            Err(e) => {
                return Err(e);
            },
        };
        proof {
            lemma_run_mutations(m, batch@.mutations, generation, batch@.mutations.len());
        }
        let links = ascending(&affected);
        let appended: u64 = match next.sync_catalog_projections(&links, generation, outbox_mode) {
            Ok(appended) => appended,
            Err(e) => {
                return Err(e);
            },
        };
        let ghost synced = next@;
        if !next.set_generation(batch.volume_id, generation) {
            return Err(
                invariant_error("batch must upsert its volume before graph observations"),
            );
        }
        next.checkpoints.put(batch.volume_id, ProviderCheckpoint::duplicate(&batch.checkpoint));
        proof {
            lemma_apply_batch(m, batch@, outbox_mode, links@);
        }
        *self = next;
        Ok(
            ApplySummary {
                mutations: batch.mutations.len() as u64,
                generation,
                refresh_jobs_enqueued: jobs,
                outbox_mutations_appended: appended,
            },
        )
    }

    /// Applies graph changes and the opaque source checkpoint in one transaction.
    ///
    /// On error, neither state nor checkpoint changes.
    pub fn apply_batch(&mut self, batch: &GraphMutationBatch) -> (r: GraphResult<ApplySummary>)
        requires
            old(self).wf(),
        ensures
            final(self).wf(),
            match r {
                Ok(summary) => apply_batch(old(self)@, batch@, ProjectionOutboxMode::Durable)
                    == Ok::<(GraphModel, ApplySummary), ErrorModel>((final(self)@, summary)),
                Err(e) => final(self)@ == old(self)@ && apply_batch(
                    old(self)@,
                    batch@,
                    ProjectionOutboxMode::Durable,
                ) == Err::<(GraphModel, ApplySummary), ErrorModel>(e@),
            },
            r is Ok ==> lists_touched_links(old(self)@, batch@),
    {
        self.apply_batch_with_outbox_mode(batch, ProjectionOutboxMode::Durable)
    }

    /// Applies graph changes without materializing a rebuildable projection outbox.
    ///
    /// This is only valid before the first projection consumer is registered. Desired catalog
    /// state is still updated and remains the source for a future consumer's full rebuild.
    pub fn apply_rebuildable_batch(&mut self, batch: &GraphMutationBatch) -> (r: GraphResult<
        ApplySummary,
    >)
        requires
            old(self).wf(),
        ensures
            final(self).wf(),
            match r {
                Ok(summary) => apply_batch(old(self)@, batch@, ProjectionOutboxMode::Rebuildable)
                    == Ok::<(GraphModel, ApplySummary), ErrorModel>((final(self)@, summary)),
                Err(e) => final(self)@ == old(self)@ && apply_batch(
                    old(self)@,
                    batch@,
                    ProjectionOutboxMode::Rebuildable,
                ) == Err::<(GraphModel, ApplySummary), ErrorModel>(e@),
            },
            r is Ok ==> lists_touched_links(old(self)@, batch@),
    {
        self.apply_batch_with_outbox_mode(batch, ProjectionOutboxMode::Rebuildable)
    }

    /// Atomically ingests a provider snapshot and saves its continuation checkpoint.
    pub fn ingest_snapshot(
        &mut self,
        descriptor: VolumeDescriptor,
        checkpoint: ProviderCheckpoint,
        events: Vec<FilesystemEvent>,
    ) -> (r: GraphResult<ApplySummary>)
        requires
            old(self).wf(),
        ensures
            final(self).wf(),
            ({
                let batch = BatchModel {
                    volume_id: descriptor.volume_id,
                    checkpoint: checkpoint@,
                    mutations: seq![MutationModel::UpsertVolume { descriptor: descriptor@ }]
                        + mutations_of(events@),
                };
                &&& match r {
                    Ok(summary) => apply_batch(old(self)@, batch, ProjectionOutboxMode::Durable)
                        == Ok::<(GraphModel, ApplySummary), ErrorModel>((final(self)@, summary)),
                    Err(e) => final(self)@ == old(self)@ && apply_batch(
                        old(self)@,
                        batch,
                        ProjectionOutboxMode::Durable,
                    ) == Err::<(GraphModel, ApplySummary), ErrorModel>(e@),
                }
                &&& r is Ok ==> lists_touched_links(old(self)@, batch)
            }),
    {
        let volume_id = descriptor.volume_id;
        let ghost first = descriptor@;
        let mut mutations: Vec<GraphMutation> = Vec::new();
        mutations.push(GraphMutation::UpsertVolume { descriptor });
        proof {
            assert(mutation_models(mutations@) =~= seq![
                MutationModel::UpsertVolume { descriptor: first },
            ]);
        }
        append_events(&mut mutations, events);
        self.apply_batch(&GraphMutationBatch { volume_id, checkpoint, mutations })
    }

    /// Reports whether at least one materialized projection consumer is registered.
    pub fn has_projection_consumers(&self) -> (r: GraphResult<bool>)
        requires
            self.wf(),
        ensures
            r is Ok,
            r->Ok_0 == (self@.consumers.dom() != Set::<Seq<char>>::empty()),
    {
        Ok(!self.consumers.is_empty())
    }

    /// Loads the last checkpoint committed with graph state for a volume.
    pub fn checkpoint(&self, volume_id: VolumeId) -> (r: GraphResult<Option<ProviderCheckpoint>>)
        requires
            self.wf(),
        ensures
            match r {
                Ok(Some(checkpoint)) => self@.checkpoints.dom().contains(volume_id) && checkpoint@
                    == self@.checkpoints[volume_id],
                Ok(None) => !self@.checkpoints.dom().contains(volume_id),
                Err(_) => false,
            },
    {
        match self.checkpoints.get(&volume_id) {
            Some(checkpoint) => Ok(Some(ProviderCheckpoint::duplicate(checkpoint))),
            None => Ok(None),
        }
    }
}

} // verus!
