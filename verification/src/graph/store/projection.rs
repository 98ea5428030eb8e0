//! Desired catalog documents and the outbox of their changes.

use vstd::prelude::*;

use crate::catalog::{
    catalog_content_equal, Availability, CatalogDocument, CatalogIdentity, FileMetadata,
    IndexMutation,
};
use crate::graph::domain::VolumeState;
use crate::graph::error::{invariant_error, ErrorModel, GraphError, GraphResult, StorageFault};
use crate::graph::fingerprint::{catalog_content_fingerprint, document_fingerprint};
use crate::graph::model::{
    append_outbox, build_document, column_max, content_unchanged, delete_projection, document_of,
    effective_availability, extension_of, has_no_path, is_last_dot, sync_links, sync_projection,
    GraphModel, ProjectionOutboxMode,
};
use crate::graph::rows::{DocumentPayload, DocumentRow, OutboxRow};
use crate::graph::soundness::{lemma_append_outbox, lemma_sync_projection};
use crate::graph::store::mutate::agrees;
use crate::graph::store::FilesystemGraph;
use crate::ids::{DocumentId, DocumentVersion, FileLinkId, MutationSeq};
use crate::text::{chars_of, lowercase, optional_text, same_bytes, text_of};

verus! {

/// The document of a link.
pub fn document_id_for_link(file_link_id: FileLinkId) -> (r: DocumentId)
    ensures
        r == document_of(file_link_id),
{
    DocumentId { value: file_link_id.value }
}

/// The text after the last dot in lower case; none without a dot or with nothing after it.
pub fn extension_for_name(name: &str) -> (r: Option<String>)
    ensures
        optional_text(r) == extension_of(name@),
{
    let chars = chars_of(name);
    let mut i: usize = chars.len();
    while i > 0
        invariant
            i <= chars@.len(),
            chars@ == name@,
            forall|j: int| i <= j < chars@.len() ==> #[trigger] chars@[j] != '.',
        decreases i,
    {
        i = i - 1;
        if chars[i] == '.' {
            assert(is_last_dot(name@, i as int));
            if i + 1 == chars.len() {
                proof {
                    assert forall|k: int| #[trigger] is_last_dot(name@, k) implies k + 1
                        >= name@.len() by {
                        if k < i {
                            assert(name@[i as int] != '.');
                        }
                    }
                }
                return None;
            }
            let mut tail: Vec<char> = Vec::new();
            let mut j: usize = i + 1;
            while j < chars.len()
                invariant
                    i < j <= chars@.len(),
                    tail@ == chars@.subrange(i + 1, j as int),
                decreases chars@.len() - j,
            {
                tail.push(chars[j]);
                j = j + 1;
                assert(tail@ =~= chars@.subrange(i + 1, j as int));
            }
            let extension = text_of(&tail);
            proof {
                let dot = choose|k: int| #[trigger] is_last_dot(name@, k) && k + 1 < name@.len();
                assert(is_last_dot(name@, dot));
                if dot < i {
                    assert(name@[i as int] != '.');
                }
                if dot > i {
                    assert(name@[dot] != '.');
                }
                assert(dot == i);
            }
            return Some(lowercase(extension.as_str()));
        }
    }
    proof {
        assert forall|k: int| !#[trigger] is_last_dot(name@, k) by {
        }
    }
    None
}

/// The availability of an object on a volume in the state.
pub(super) fn availability_on(own: Availability, state: VolumeState) -> (r: Availability)
    ensures
        r == effective_availability(own, state),
{
    match state {
        VolumeState::Online => own,
        VolumeState::Offline => Availability::Offline,
        VolumeState::NeedsReconciliation => Availability::Unknown,
    }
}

impl FilesystemGraph {
    fn build_catalog_document(&self, file_link_id: FileLinkId, version: u64) -> (r: GraphResult<
        CatalogDocument,
    >)
        requires
            self.tables_wf(),
            self@.links.dom().contains(file_link_id),
        ensures
            match r {
                Ok(document) => build_document(self@, file_link_id, version) == Ok::<_, ErrorModel>(
                    document@,
                ),
                Err(e) => build_document(self@, file_link_id, version) == Err::<
                    crate::catalog::DocumentModel,
                    ErrorModel,
                >(e@),
            },
    {
        let link = match self.links.get(&file_link_id) {
            Some(link) => link,
            None => {
                return Err(GraphError::LinkNotFound(file_link_id));
            },
        };
        let object = match self.objects.get(&link.object_key) {
            Some(object) => *object,
            None => {
                return Err(invariant_error("catalog link references a missing object"));
            },
        };
        if object.tombstoned {
            return Err(invariant_error("catalog link references a missing object"));
        }
        let state = match self.volumes.get(&link.object_key.volume_id) {
            Some(volume) => volume.state,
            None => {
                return Err(invariant_error("catalog object references a missing volume"));
            },
        };
        let path = match self.resolve_path(file_link_id, 512) {
            Ok(path) => path,
            Err(e) => {
                return Err(e);
            },
        };
        let own = object.metadata;
        Ok(
            CatalogDocument {
                identity: CatalogIdentity::new(
                    link.object_key,
                    file_link_id,
                    document_id_for_link(file_link_id),
                ),
                document_version: DocumentVersion(version),
                name: link.name.clone(),
                resolved_path: path.display(),
                extension: extension_for_name(link.name.as_str()),
                metadata: FileMetadata {
                    kind: own.kind,
                    size: own.size,
                    created_at_unix_ms: own.created_at_unix_ms,
                    modified_at_unix_ms: own.modified_at_unix_ms,
                    hidden: own.hidden,
                    availability: availability_on(own.availability, state),
                },
            },
        )
    }

    fn append_outbox(&mut self, document_id: DocumentId, version: u64, mutation: IndexMutation) -> (r:
        GraphResult<()>)
        requires
            old(self).wf_inside(),
        ensures
            match r {
                Ok(()) => append_outbox(old(self)@, document_id, version, mutation@) == Ok::<
                    GraphModel,
                    ErrorModel,
                >(final(self)@) && final(self).wf_inside(),
                Err(e) => append_outbox(old(self)@, document_id, version, mutation@) == Err::<
                    GraphModel,
                    ErrorModel,
                >(e@),
            },
    {
        proof {
            lemma_append_outbox(self@, document_id, version, mutation@);
        }
        if self.issued >= 0x7fff_ffff_ffff_ffff {
            return Err(GraphError::Storage(StorageFault::SequenceExhausted));
        }
        let next: u64 = self.issued + 1;
        self.outbox.put(
            MutationSeq(next),
            OutboxRow { document_id, document_version: version, mutation },
        );
        self.issued = next;
        Ok(())
    }

    fn delete_catalog_projection(
        &mut self,
        document_id: DocumentId,
        version: u64,
        mode: ProjectionOutboxMode,
    ) -> (r: GraphResult<u64>)
        requires
            old(self).wf_inside(),
        ensures
            agrees(
                delete_projection(old(self)@, document_id, version, mode),
                r,
                final(self)@,
            ),
            r is Ok ==> final(self).tables_wf(),
    {
        if !self.documents.contains(&document_id) {
            return Ok(0);
        }
        let durable = matches!(mode, ProjectionOutboxMode::Durable);
        if durable {
            let mutation = IndexMutation::Delete {
                document_id,
                document_version: DocumentVersion(version),
            };
            match self.append_outbox(document_id, version, mutation) {
                Ok(()) => {},
                Err(e) => {
                    return Err(e);
                },
            }
        }
        self.documents.erase(&document_id);
        if durable {
            Ok(1)
        } else {
            Ok(0)
        }
    }

    fn stored_content_is(&self, document_id: DocumentId, document: &CatalogDocument, fingerprint:
        &Vec<u8>) -> (r: bool)
        requires
            self.tables_wf(),
            fingerprint@ == document_fingerprint(document@),
        ensures
            r == (self@.documents.dom().contains(document_id) && content_unchanged(
                self@.documents[document_id],
                document@,
            )),
    {
        match self.documents.get(&document_id) {
            Some(row) => match &row.payload {
                DocumentPayload::Compact { fingerprint: previous, .. } => {
                    same_bytes(previous, fingerprint)
                },
                DocumentPayload::Legacy { document: previous } => {
                    catalog_content_equal(previous, document)
                },
            },
            None => false,
        }
    }

    /// Brings the desired document of a link up to date, and says how many changes were appended
    /// to the outbox.
    pub(super) fn sync_catalog_projection(
        &mut self,
        file_link_id: FileLinkId,
        generation: u64,
        mode: ProjectionOutboxMode,
    ) -> (r: GraphResult<u64>)
        requires
            old(self).wf_inside(),
            generation <= column_max(),
        ensures
            agrees(
                sync_projection(old(self)@, file_link_id, generation, mode),
                r,
                final(self)@,
            ),
            r is Ok ==> final(self).wf_inside(),
            r matches Ok(n) ==> n <= 1,
    {
        let ghost m = self@;
        proof {
            lemma_sync_projection(m, file_link_id, generation, mode, Set::full());
        }
        let document_id = document_id_for_link(file_link_id);
        if !self.links.contains(&file_link_id) {
            return self.delete_catalog_projection(document_id, generation, mode);
        }
        let document = match self.build_catalog_document(file_link_id, generation) {
            Ok(document) => document,
            Err(e) => {
                if path_is_missing(&e) {
                    return self.delete_catalog_projection(document_id, generation, mode);
                }
                return Err(e);
            },
        };
        let fingerprint = match catalog_content_fingerprint(&document) {
            Ok(fingerprint) => fingerprint,
            Err(e) => {
                return Err(e);
            },
        };
        if self.stored_content_is(document_id, &document, &fingerprint) {
            return Ok(0);
        }
        let path = document.resolved_path.clone();
        let row = DocumentRow {
            object_key: document.identity.object_key,
            file_link_id,
            version: generation,
            payload: DocumentPayload::Compact { path, fingerprint },
        };
        self.documents.put(document_id, row);
        if matches!(mode, ProjectionOutboxMode::Durable) {
            let ghost stored = self@;
            assert(self.wf_inside());
            match self.append_outbox(document_id, generation, IndexMutation::Upsert { document }) {
                Ok(()) => Ok(1),
                Err(e) => Err(e),
            }
        } else {
            Ok(0)
        }
    }

    /// Brings the documents of several links up to date, in the given order.
    pub(super) fn sync_catalog_projections(
        &mut self,
        links: &Vec<FileLinkId>,
        generation: u64,
        mode: ProjectionOutboxMode,
    ) -> (r: GraphResult<u64>)
        requires
            old(self).wf_inside(),
            generation <= column_max(),
        ensures
            agrees(
                sync_links(old(self)@, links@, generation, mode, links@.len()),
                r,
                final(self)@,
            ),
            r is Ok ==> final(self).wf_inside(),
    {
        let ghost m = self@;
        let mut appended: u64 = 0;
        let mut i: usize = 0;
        while i < links.len()
            invariant
                m == old(self)@,
                self.wf_inside(),
                generation <= column_max(),
                i <= links@.len(),
                appended <= i,
                sync_links(m, links@, generation, mode, i as nat) == Ok::<
                    (GraphModel, nat),
                    ErrorModel,
                >((self@, appended as nat)),
            decreases links@.len() - i,
        {
            match self.sync_catalog_projection(links[i], generation, mode) {
                Ok(n) => {
                    appended = appended + n;
                },
                Err(e) => {
                    proof {
                        lemma_sync_links_fails(
                            m,
                            links@,
                            generation,
                            mode,
                            (i + 1) as nat,
                            links@.len(),
                        );
                    }
                    return Err(e);
                },
            }
            i = i + 1;
        }
        Ok(appended)
    }
}

/// Whether the failure means that the link has no current path.
fn path_is_missing(e: &GraphError) -> (r: bool)
    ensures
        r == has_no_path(e@),
{
    matches!(
        e,
        GraphError::MissingParent(_)
        | GraphError::AmbiguousParent(_)
        | GraphError::ParentCycle(_)
        | GraphError::TraversalBoundary(_)
        | GraphError::DepthLimit(_)
    )
}

/// Once a document cannot be brought up to date, the rest is not tried.
proof fn lemma_sync_links_fails(
    m: GraphModel,
    links: Seq<FileLinkId>,
    version: u64,
    mode: ProjectionOutboxMode,
    i: nat,
    n: nat,
)
    requires
        i <= n,
        sync_links(m, links, version, mode, i) is Err,
    ensures
        sync_links(m, links, version, mode, n) == sync_links(m, links, version, mode, i),
    decreases n,
{
    if i < n {
        lemma_sync_links_fails(m, links, version, mode, i, (n - 1) as nat);
    }
}

} // verus!
