//! The filesystem graph and its transactions.

use vstd::prelude::*;

use crate::catalog::ProviderCheckpoint;
use crate::graph::error::GraphResult;
use crate::graph::model::{
    empty_graph, GraphModel, ObjectRow, PathJobRow, VolumeJobRow,
};
use crate::graph::rows::{Consumers, DocumentRow, LinkRow, OutboxRow, SessionRow, VolumeRow};
use crate::graph::soundness::{rows_sound, sound};
use crate::ids::{DocumentId, FileKey, FileLinkId, JobId, MutationSeq, VolumeId};
use crate::table::Table;

mod batch;
pub mod desired;
mod mutate;
mod observation;
pub mod outbox;
pub mod paths;
pub mod refresh;
pub mod restore;
mod stats;
pub mod projection;

verus! {

/// Schema version that the rows follow.
pub const GRAPH_SCHEMA_VERSION: u32 = 5;

/// Filesystem graph and its atomic provider-checkpoint boundary.
pub struct FilesystemGraph {
    volumes: Table<VolumeId, VolumeRow>,
    checkpoints: Table<VolumeId, ProviderCheckpoint>,
    objects: Table<FileKey, ObjectRow>,
    links: Table<FileLinkId, LinkRow>,
    path_jobs: Table<JobId, PathJobRow>,
    last_job: i64,
    volume_jobs: Table<VolumeId, VolumeJobRow>,
    sessions: Table<VolumeId, SessionRow>,
    documents: Table<DocumentId, DocumentRow>,
    outbox: Table<MutationSeq, OutboxRow>,
    issued: u64,
    consumers: Consumers,
}

impl View for FilesystemGraph {
    type V = GraphModel;

    closed spec fn view(&self) -> GraphModel {
        GraphModel {
            volumes: self.volumes@,
            checkpoints: self.checkpoints@,
            objects: self.objects@,
            links: self.links@,
            path_jobs: self.path_jobs@,
            last_job: self.last_job,
            volume_jobs: self.volume_jobs@,
            sessions: self.sessions@,
            documents: self.documents@,
            outbox: self.outbox@,
            issued: self.issued,
            consumers: self.consumers@,
        }
    }
}

impl FilesystemGraph {
    /// Every table is in order.
    pub closed spec fn tables_wf(self) -> bool {
        &&& self.volumes.wf()
        &&& self.checkpoints.wf()
        &&& self.objects.wf()
        &&& self.links.wf()
        &&& self.path_jobs.wf()
        &&& self.volume_jobs.wf()
        &&& self.sessions.wf()
        &&& self.documents.wf()
        &&& self.outbox.wf()
        &&& self.consumers.wf()
    }

    /// The tables are in order and their rows agree with one another.
    pub open spec fn wf(self) -> bool {
        self.tables_wf() && sound(self@)
    }

    /// The tables are in order and their rows agree, in the middle of a transaction.
    pub open spec fn wf_inside(self) -> bool {
        self.tables_wf() && rows_sound(self@)
    }

    /// Opens an empty graph.
    pub fn open_in_memory() -> (r: GraphResult<Self>)
        ensures
            r is Ok,
            r->Ok_0.wf(),
            r->Ok_0@ == empty_graph(),
    {
        Ok(
            FilesystemGraph {
                volumes: Table::new(),
                checkpoints: Table::new(),
                objects: Table::new(),
                links: Table::new(),
                path_jobs: Table::new(),
                last_job: 0,
                volume_jobs: Table::new(),
                sessions: Table::new(),
                documents: Table::new(),
                outbox: Table::new(),
                issued: 0,
                consumers: Consumers::new(),
            },
        )
    }

    /// A second graph with the same content: the working copy of a transaction.
    fn duplicate(&self) -> (r: Self)
        requires
            self.tables_wf(),
        ensures
            r.tables_wf(),
            r@ == self@,
    {
        FilesystemGraph {
            volumes: self.volumes.duplicate(),
            checkpoints: self.checkpoints.duplicate(),
            objects: self.objects.duplicate(),
            links: self.links.duplicate(),
            path_jobs: self.path_jobs.duplicate(),
            last_job: self.last_job,
            volume_jobs: self.volume_jobs.duplicate(),
            sessions: self.sessions.duplicate(),
            documents: self.documents.duplicate(),
            outbox: self.outbox.duplicate(),
            issued: self.issued,
            consumers: self.consumers.duplicate(),
        }
    }

    /// Returns the schema version of the rows.
    pub fn schema_version(&self) -> (r: u32)
        ensures
            r == GRAPH_SCHEMA_VERSION,
    {
        GRAPH_SCHEMA_VERSION
    }
}

} // verus!
