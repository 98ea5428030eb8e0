//! What whole steps of scans and refreshes do.

use vstd::prelude::*;

use crate::catalog::FilesystemEvent;
use crate::graph::domain::{ObservationScanPhase, VolumeState};
use crate::graph::laws::scan_completes_without_stale_objects;
use crate::graph::model::{column_max, generation_of, is_linked, GraphModel};
use crate::graph::scan_model::{
    finalize_scan, lemma_sweep_links, scan_checkpoint, scan_page, stale_links, stale_objects,
    sweep_objects, sweeps_a_page,
};
use crate::graph::soundness::{rows_sound, sound};
use crate::graph::upkeep_laws::{
    object_sweeps_spare_what_was_seen, path_refresh_steps_move_on, sweeps_spare_what_was_seen,
    volume_refresh_steps_move_on,
};
use crate::graph::upkeep_model::{
    document_links_after, links_after, pending_path_jobs, pending_volume_jobs, refresh_paths,
    refresh_volume, refreshes_a_path_page, refreshes_a_volume_page,
};
use crate::ids::{FileKey, FileLinkId, JobId, VolumeId};
use crate::order::first_page;
use crate::selection::pair_rank;
use crate::table::key_rank;

verus! {

/// A sweep takes steps only once the provider told its checkpoint, and none where no row may be
/// touched. A step takes no more rows than it may and spares every link and object that the scan
/// saw. The checkpoint moves exactly in the step that completes the scan, which leaves no stale
/// object behind, brings the volume online and closes the session.
pub proof fn sweeps_go_step_by_step(
    m: GraphModel,
    volume: VolumeId,
    limit: nat,
    link: FileLinkId,
    key: FileKey,
)
    requires
        sound(m),
        m.volumes.dom().contains(volume),
        limit <= u32::MAX,
        sweeps_a_page(m, volume, limit),
        m.links.dom().contains(link),
        m.objects.dom().contains(key),
    ensures
        limit == 0 ==> (finalize_scan(m, volume, limit) matches Ok((next, summary)) && next == m
            && !summary.completed && summary.stale_links_removed == 0
            && summary.stale_objects_tombstoned == 0),
        limit > 0 && (!m.sessions.dom().contains(volume) || m.sessions[volume].phase
            == ObservationScanPhase::Scanning) ==> finalize_scan(m, volume, limit) is Err,
        limit > 0 ==> (finalize_scan(m, volume, limit) matches Ok((next, summary)) ==> {
            let cutoff = m.sessions[volume].scan_generation;
            let sweeps_links = m.sessions[volume].phase == ObservationScanPhase::SweepingLinks;
            &&& summary.stale_links_removed + summary.stale_objects_tombstoned <= limit
            &&& sweeps_links ==> summary.stale_objects_tombstoned == 0 && !summary.completed
            &&& !sweeps_links ==> summary.stale_links_removed == 0
            &&& next.volumes[volume].generation == m.volumes[volume].generation + 1
            &&& m.links[link].observed >= cutoff || m.links[link].object_key.volume_id != volume
                || !sweeps_links ==> next.links.dom().contains(link) && next.links[link]
                == m.links[link]
            &&& !sweeps_links && (m.objects[key].observed >= cutoff || key.volume_id != volume
                || is_linked(m, key)) ==> next.objects[key] == m.objects[key]
            &&& summary.completed ==> {
                &&& next.checkpoints[volume] == m.sessions[volume].staged->0
                &&& next.volumes[volume].state == VolumeState::Online
                &&& !next.sessions.dom().contains(volume)
                &&& forall|p: (u64, u128)| !#[trigger] stale_objects(next, volume, cutoff)(p)
            }
            &&& !summary.completed ==> next.sessions.dom().contains(volume) && next.checkpoints
                == m.checkpoints
        }),
{
    if limit > 0 && m.sessions.dom().contains(volume) && m.sessions[volume].phase
        != ObservationScanPhase::Scanning && m.volumes[volume].generation < column_max() {
        let generation = (m.volumes[volume].generation + 1) as u64;
        let cutoff = m.sessions[volume].scan_generation;
        if m.sessions[volume].phase == ObservationScanPhase::SweepingLinks {
            let page = first_page(
                stale_links(m, volume, cutoff),
                pair_rank(),
                limit,
            );
            lemma_sweep_links(m, page, generation, page.len());
            if m.links[link].observed >= cutoff || m.links[link].object_key.volume_id != volume {
                sweeps_spare_what_was_seen(m, volume, generation, cutoff, page, limit, link);
            }
        } else {
            let page = first_page(
                stale_objects(m, volume, cutoff),
                pair_rank(),
                limit,
            );
            if m.objects[key].observed >= cutoff || key.volume_id != volume || is_linked(m, key) {
                object_sweeps_spare_what_was_seen(
                    m,
                    volume,
                    generation,
                    cutoff,
                    page,
                    limit,
                    key,
                );
            }
            lemma_object_sweep_frame(m, volume, page, page.len());
            if page.len() < limit {
                scan_completes_without_stale_objects(m, volume, generation, page, limit, cutoff);
            }
        }
    }
}

proof fn lemma_object_sweep_frame(
    m: GraphModel,
    volume: VolumeId,
    page: Seq<(u64, u128)>,
    n: nat,
)
    requires
        n <= page.len(),
    ensures
        ({
            let next = sweep_objects(m, volume, page, n);
            next == (GraphModel { objects: next.objects, ..m })
        }),
    decreases n,
{
    if n > 0 {
        lemma_object_sweep_frame(m, volume, page, (n - 1) as nat);
    }
}

/// Pages are taken up only while a scan is under way. A page counts its events and leaves the
/// checkpoint of the scan, under the next generation; an empty one changes nothing.
pub proof fn pages_belong_to_a_scan(
    m: GraphModel,
    volume: VolumeId,
    events: Seq<FilesystemEvent>,
)
    ensures
        scan_page(m, volume, events) is Ok ==> m.sessions.dom().contains(volume)
            && m.sessions[volume].phase == ObservationScanPhase::Scanning,
        scan_page(m, volume, events) matches Ok((next, summary)) ==> {
            &&& summary.mutations == events.len() as u64
            &&& events.len() == 0 ==> next == m
            &&& events.len() > 0 ==> {
                &&& next.checkpoints[volume] == scan_checkpoint(
                    volume,
                    m.sessions[volume].scan_generation,
                )
                &&& next.volumes[volume].generation == generation_of(m, volume) + 1
                &&& summary.generation == generation_of(m, volume) + 1
            }
        },
{
}

/// A path refresh takes up the oldest pending job and no other: it takes no more links than
/// it may, and does nothing where nothing is pending or no link may be taken.
pub proof fn the_oldest_path_job_is_taken_up(m: GraphModel, limit: nat, job: JobId)
    requires
        rows_sound(m),
        limit <= u32::MAX,
        refreshes_a_path_page(m, limit),
        m.path_jobs.dom().contains(job),
    ensures
        limit == 0 || (forall|k: JobId| !#[trigger] pending_path_jobs(m)(k)) ==> (refresh_paths(
            m,
            limit,
        ) matches Ok((next, summary)) && next == m && summary.links_scanned == 0
            && summary.outbox_mutations_appended == 0 && !summary.job_completed),
        limit > 0 ==> (refresh_paths(m, limit) matches Ok((next, summary)) ==> {
            let is_taken = m.path_jobs[job].pending && forall|k: JobId|
                #![trigger m.path_jobs[k]]
                m.path_jobs.dom().contains(k) && m.path_jobs[k].pending ==> job.0 <= k.0;
            &&& summary.links_scanned <= limit
            &&& !is_taken ==> next.path_jobs[job] == m.path_jobs[job]
            &&& is_taken ==> {
                &&& summary.job_completed <==> summary.links_scanned < limit
                &&& next.path_jobs[job].pending <==> !summary.job_completed
                &&& next.path_jobs[job].root_object == m.path_jobs[job].root_object
            }
            &&& next.links == m.links && next.objects == m.objects && next.volumes == m.volumes
            &&& next.issued == m.issued + summary.outbox_mutations_appended
        }),
{
    let pending = first_page(pending_path_jobs(m), key_rank::<JobId>(), 1);
    if pending.len() == 0 {
        assert forall|k: JobId| !#[trigger] pending_path_jobs(m)(k) by {
            if pending_path_jobs(m)(k) {
                assert(!pending.contains(k));
            }
        }
        assert(!pending_path_jobs(m)(job));
    } else {
        let taken = pending[0];
        assert(pending_path_jobs(m)(taken));
        assert(pending =~= seq![taken]);
        assert forall|k: JobId| #[trigger]
            pending_path_jobs(m)(k) && taken != k implies taken.0 < k.0 by {
            assert(!pending.contains(k));
            assert(key_rank::<JobId>()(pending[0]) < key_rank::<JobId>()(k));
        }
        if limit > 0 {
            let row = m.path_jobs[taken];
            let page = first_page(
                links_after(m, row.root_object.volume_id, row.cursor),
                key_rank::<FileLinkId>(),
                limit,
            );
            path_refresh_steps_move_on(m, taken, page, limit);
            if m.path_jobs[job].pending && job != taken {
                assert(pending_path_jobs(m)(job));
                assert(m.path_jobs[taken].pending && taken.0 < job.0);
            }
            if job == taken {
                assert forall|k: JobId|
                    #![trigger m.path_jobs[k]]
                    m.path_jobs.dom().contains(k) && m.path_jobs[k].pending implies job.0
                    <= k.0 by {
                    assert(pending_path_jobs(m)(k));
                }
            }
        }
    }
}

/// A volume refresh takes up the first pending volume and no other: it takes no more links than
/// it may, and does nothing where nothing is pending or no link may be taken.
pub proof fn the_first_volume_is_taken_up(m: GraphModel, limit: nat, volume: VolumeId)
    requires
        rows_sound(m),
        limit <= u32::MAX,
        refreshes_a_volume_page(m, limit),
        m.volume_jobs.dom().contains(volume),
    ensures
        limit == 0 || (forall|k: VolumeId| !#[trigger] pending_volume_jobs(m)(k)) ==> (refresh_volume(
            m,
            limit,
        ) matches Ok((next, summary)) && next == m && summary.links_scanned == 0
            && summary.outbox_mutations_appended == 0 && !summary.job_completed),
        limit > 0 ==> (refresh_volume(m, limit) matches Ok((next, summary)) ==> {
            let is_taken = m.volume_jobs[volume].pending && forall|k: VolumeId|
                #![trigger m.volume_jobs[k]]
                m.volume_jobs.dom().contains(k) && m.volume_jobs[k].pending ==> volume.value <= k.value;
            &&& summary.links_scanned <= limit
            &&& !is_taken ==> next.volume_jobs[volume] == m.volume_jobs[volume]
            &&& is_taken ==> {
                &&& summary.job_completed <==> summary.links_scanned < limit
                &&& next.volume_jobs[volume].pending <==> !summary.job_completed
            }
            &&& next.links == m.links && next.objects == m.objects && next.volumes == m.volumes
            &&& next.issued == m.issued + summary.outbox_mutations_appended
        }),
{
    let pending = first_page(pending_volume_jobs(m), key_rank::<VolumeId>(), 1);
    if pending.len() == 0 {
        assert forall|k: VolumeId| !#[trigger] pending_volume_jobs(m)(k) by {
            if pending_volume_jobs(m)(k) {
                assert(!pending.contains(k));
            }
        }
        assert(!pending_volume_jobs(m)(volume));
    } else {
        let taken = pending[0];
        assert(pending_volume_jobs(m)(taken));
        assert(pending =~= seq![taken]);
        assert forall|k: VolumeId| #[trigger]
            pending_volume_jobs(m)(k) && taken != k implies taken.value < k.value by {
            assert(!pending.contains(k));
            assert(key_rank::<VolumeId>()(pending[0]) < key_rank::<VolumeId>()(k));
        }
        if limit > 0 {
            let page = first_page(
                document_links_after(m, taken, m.volume_jobs[taken].cursor),
                key_rank::<FileLinkId>(),
                limit,
            );
            volume_refresh_steps_move_on(m, taken, page, limit);
            if m.volume_jobs[volume].pending && volume != taken {
                assert(pending_volume_jobs(m)(volume));
                assert(m.volume_jobs[taken].pending && taken.value < volume.value);
            }
            if volume == taken {
                assert forall|k: VolumeId|
                    #![trigger m.volume_jobs[k]]
                    m.volume_jobs.dom().contains(k) && m.volume_jobs[k].pending implies volume.value
                    <= k.value by {
                    assert(pending_volume_jobs(m)(k));
                }
            }
        }
    }
}

} // verus!
