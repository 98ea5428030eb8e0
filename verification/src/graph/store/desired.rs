//! Reading the desired catalog documents.

use vstd::prelude::*;

use crate::catalog::{CatalogDocument, CatalogIdentity, FileMetadata};
use crate::graph::domain::DesiredPayloadMaintenanceSummary;
use crate::graph::error::{invalid_batch, ErrorModel, GraphResult};
use crate::graph::fingerprint::catalog_content_fingerprint;
use crate::graph::model::GraphModel;
use crate::graph::rows::{DocumentPayload, DocumentRow};
use crate::graph::soundness::sound;
use crate::graph::store::projection::{availability_on, extension_for_name};
use crate::graph::store::FilesystemGraph;
use crate::graph::upkeep_model::{
    compact_documents, compacted, desired_document, documents_after, documents_on, legacy_documents,
    lemma_compact,
};
use crate::ids::{DocumentId, DocumentVersion, FileKey, FileLinkId, VolumeId};
use crate::order::{ascends, first_page, is_listing, is_page, listing};
use crate::table::{gathered, key_rank, lemma_gather, lemma_gathered_all, lemma_gathered_page};

verus! {

/// The documents are those under the identities, in order.
pub open spec fn reads_back(
    m: GraphModel,
    documents: Seq<CatalogDocument>,
    ids: Seq<DocumentId>,
) -> bool {
    &&& documents.len() == ids.len()
    &&& forall|i: int|
        0 <= i < ids.len() ==> (#[trigger] documents[i])@ == desired_document(m, ids[i])
}

impl FilesystemGraph {
    /// The document under an identity.
    fn read_document(&self, id: DocumentId) -> (r: Option<CatalogDocument>)
        requires
            self.wf(),
        ensures
            match r {
                Some(document) => self@.documents.dom().contains(id) && document@
                    == desired_document(self@, id),
                None => !self@.documents.dom().contains(id),
            },
    {
        let row = match self.documents.get(&id) {
            Some(row) => row,
            None => {
                return None;
            },
        };
        let ghost m = self@;
        assert(m.documents.dom().contains(id));
        assert(m.links.dom().contains(m.documents[id].file_link_id));
        assert(m.objects.dom().contains(m.documents[id].object_key));
        match &row.payload {
            DocumentPayload::Legacy { document } => Some(document.duplicate()),
            DocumentPayload::Compact { path, .. } => {
                match (
                    self.links.get(&row.file_link_id),
                    self.objects.get(&row.object_key),
                    self.volumes.get(&row.object_key.volume_id),
                ) {
                    (Some(link), Some(object), Some(volume)) => {
                        let own = object.metadata;
                        Some(
                            CatalogDocument {
                                identity: CatalogIdentity::new(
                                    row.object_key,
                                    row.file_link_id,
                                    id,
                                ),
                                document_version: DocumentVersion(row.version),
                                extension: extension_for_name(link.name.as_str()),
                                name: link.name.clone(),
                                resolved_path: path.clone(),
                                metadata: FileMetadata {
                                    kind: own.kind,
                                    size: own.size,
                                    created_at_unix_ms: own.created_at_unix_ms,
                                    modified_at_unix_ms: own.modified_at_unix_ms,
                                    hidden: own.hidden,
                                    availability: availability_on(
                                        own.availability,
                                        volume.state,
                                    ),
                                },
                            },
                        )
                    },
                    _ => None,
                }
            },
        }
    }

    fn read_documents(&self, ids: &Vec<DocumentId>) -> (r: Vec<CatalogDocument>)
        requires
            self.wf(),
            forall|i: int|
                0 <= i < ids@.len() ==> self@.documents.dom().contains(#[trigger] ids@[i]),
        ensures
            reads_back(self@, r@, ids@),
    {
        let mut r: Vec<CatalogDocument> = Vec::new();
        let mut i: usize = 0;
        while i < ids.len()
            invariant
                self.wf(),
                i <= ids@.len(),
                r@.len() == i,
                forall|x: int|
                    0 <= x < ids@.len() ==> self@.documents.dom().contains(#[trigger] ids@[x]),
                forall|x: int|
                    0 <= x < i ==> (#[trigger] r@[x])@ == desired_document(self@, ids@[x]),
            decreases ids@.len() - i,
        {
            assert(self@.documents.dom().contains(ids@[i as int]));
            if let Some(document) = self.read_document(ids[i]) {
                r.push(document);
            }
            i = i + 1;
        }
        r
    }

    fn document_page(&self, after: Option<DocumentId>, limit: usize) -> (page: Vec<DocumentId>)
        requires
            self.tables_wf(),
        ensures
            is_page(
                page@,
                documents_after(self@, after),
                key_rank::<DocumentId>(),
                limit as nat,
            ),
            page@ == first_page(
                documents_after(self@, after),
                key_rank::<DocumentId>(),
                limit as nat,
            ),
    {
        let ghost m = self@;
        let ghost eligible = documents_after(m, after);
        let ghost keys = self.documents.keys();
        let mut found: Vec<DocumentId> = Vec::new();
        let mut i: usize = 0;
        proof {
            self.documents.lemma_keys();
        }
        while i < self.documents.len() && found.len() < limit
            invariant
                self.tables_wf(),
                m == self@,
                eligible == documents_after(m, after),
                keys == self.documents.keys(),
                i <= keys.len(),
                ascends(keys, key_rank::<DocumentId>()),
                gathered(found@, keys, i as int, eligible),
                found@.len() <= limit,
            decreases keys.len() - i,
        {
            let id = self.documents.key_at(i);
            proof {
                lemma_gather(found@, keys, i as int, eligible);
            }
            let later = match after {
                Some(cursor) => id.value > cursor.value,
                None => true,
            };
            if later {
                found.push(id);
            }
            i = i + 1;
        }
        proof {
            self.documents.lemma_keys();
            lemma_gathered_page(found@, keys, i as int, eligible, limit as nat);
        }
        found
    }

    /// Returns all current desired catalog documents for index reconstruction.
    pub fn desired_catalog_documents(&self) -> (r: GraphResult<Vec<CatalogDocument>>)
        requires
            self.wf(),
        ensures
            r is Ok,
            is_listing(
                listing(documents_after(self@, None), key_rank::<DocumentId>()),
                documents_after(self@, None),
                key_rank::<DocumentId>(),
            ),
            reads_back(
                self@,
                r->Ok_0@,
                listing(documents_after(self@, None), key_rank::<DocumentId>()),
            ),
    {
        let ghost m = self@;
        let ghost eligible = documents_after(m, None);
        let ghost keys = self.documents.keys();
        let mut found: Vec<DocumentId> = Vec::new();
        let mut i: usize = 0;
        proof {
            self.documents.lemma_keys();
        }
        while i < self.documents.len()
            invariant
                self.wf(),
                m == self@,
                eligible == documents_after(m, None),
                keys == self.documents.keys(),
                i <= keys.len(),
                ascends(keys, key_rank::<DocumentId>()),
                gathered(found@, keys, i as int, eligible),
            decreases keys.len() - i,
        {
            let id = self.documents.key_at(i);
            proof {
                assert(eligible(keys[i as int]));
                lemma_gather(found@, keys, i as int, eligible);
            }
            found.push(id);
            i = i + 1;
        }
        proof {
            self.documents.lemma_keys();
            lemma_gathered_all(found@, keys, eligible);
            assert forall|x: int| 0 <= x < found@.len() implies m.documents.dom().contains(
                #[trigger] found@[x],
            ) by {
                assert(eligible(found@[x]));
            }
        }
        Ok(self.read_documents(&found))
    }

    /// Returns one desired catalog document.
    pub fn desired_catalog_document(&self, document_id: DocumentId) -> (r: GraphResult<
        Option<CatalogDocument>,
    >)
        requires
            self.wf(),
        ensures
            match r {
                Ok(Some(document)) => self@.documents.dom().contains(document_id) && document@
                    == desired_document(self@, document_id),
                Ok(None) => !self@.documents.dom().contains(document_id),
                Err(_) => false,
            },
    {
        Ok(self.read_document(document_id))
    }

    /// Returns one bounded page of desired documents in identity order.
    pub fn desired_catalog_page(&self, after: Option<DocumentId>, limit: u32) -> (r: GraphResult<
        Vec<CatalogDocument>,
    >)
        requires
            self.wf(),
        ensures
            r is Ok,
            is_page(
                first_page(
                    documents_after(self@, after),
                    key_rank::<DocumentId>(),
                    limit as nat,
                ),
                documents_after(self@, after),
                key_rank::<DocumentId>(),
                limit as nat,
            ),
            reads_back(
                self@,
                r->Ok_0@,
                first_page(
                    documents_after(self@, after),
                    key_rank::<DocumentId>(),
                    limit as nat,
                ),
            ),
    {
        let page = self.document_page(after, limit as usize);
        proof {
            assert forall|x: int| 0 <= x < page@.len() implies self@.documents.dom().contains(
                #[trigger] page@[x],
            ) by {
                assert(documents_after(self@, after)(page@[x]));
            }
        }
        Ok(self.read_documents(&page))
    }

    /// Returns the link and object of every desired document of a volume, in link order.
    pub fn desired_catalog_identities(&self, volume_id: VolumeId) -> (r: GraphResult<
        Vec<(FileLinkId, FileKey)>,
    >)
        requires
            self.wf(),
        ensures
            r is Ok,
            ({
                let ids = listing(documents_on(self@, volume_id), key_rank::<DocumentId>());
                &&& is_listing(ids, documents_on(self@, volume_id), key_rank::<DocumentId>())
                &&& r->Ok_0@.len() == ids.len()
                &&& forall|i: int|
                    0 <= i < ids.len() ==> #[trigger] r->Ok_0@[i] == (
                        self@.documents[ids[i]].file_link_id,
                        self@.documents[ids[i]].object_key,
                    )
            }),
    {
        let ghost m = self@;
        let ghost eligible = documents_on(m, volume_id);
        let ghost keys = self.documents.keys();
        let ghost mut found: Seq<DocumentId> = Seq::empty();
        let mut identities: Vec<(FileLinkId, FileKey)> = Vec::new();
        let mut i: usize = 0;
        proof {
            self.documents.lemma_keys();
        }
        while i < self.documents.len()
            invariant
                self.wf(),
                m == self@,
                eligible == documents_on(m, volume_id),
                keys == self.documents.keys(),
                i <= keys.len(),
                ascends(keys, key_rank::<DocumentId>()),
                gathered(found, keys, i as int, eligible),
                identities@.len() == found.len(),
                forall|x: int|
                    0 <= x < found.len() ==> #[trigger] identities@[x] == (
                        m.documents[found[x]].file_link_id,
                        m.documents[found[x]].object_key,
                    ),
            decreases keys.len() - i,
        {
            let id = self.documents.key_at(i);
            let row = self.documents.row_at(i);
            proof {
                lemma_gather(found, keys, i as int, eligible);
            }
            if row.object_key.volume_id == volume_id {
                identities.push((row.file_link_id, row.object_key));
                proof {
                    found = found.push(id);
                }
            }
            i = i + 1;
        }
        proof {
            self.documents.lemma_keys();
            lemma_gathered_all(found, keys, eligible);
        }
        Ok(identities)
    }

    fn legacy_page(&self, limit: usize) -> (page: Vec<DocumentId>)
        requires
            self.tables_wf(),
        ensures
            is_page(page@, legacy_documents(self@), key_rank::<DocumentId>(), limit as nat),
            page@ == first_page(
                legacy_documents(self@),
                key_rank::<DocumentId>(),
                limit as nat,
            ),
    {
        let ghost m = self@;
        let ghost eligible = legacy_documents(m);
        let ghost keys = self.documents.keys();
        let mut found: Vec<DocumentId> = Vec::new();
        let mut i: usize = 0;
        proof {
            self.documents.lemma_keys();
        }
        while i < self.documents.len() && found.len() < limit
            invariant
                self.tables_wf(),
                m == self@,
                eligible == legacy_documents(m),
                keys == self.documents.keys(),
                i <= keys.len(),
                ascends(keys, key_rank::<DocumentId>()),
                gathered(found@, keys, i as int, eligible),
                found@.len() <= limit,
            decreases keys.len() - i,
        {
            let id = self.documents.key_at(i);
            proof {
                lemma_gather(found@, keys, i as int, eligible);
            }
            let legacy = match &self.documents.row_at(i).payload {
                DocumentPayload::Legacy { .. } => true,
                DocumentPayload::Compact { .. } => false,
            };
            if legacy {
                found.push(id);
            }
            i = i + 1;
        }
        proof {
            self.documents.lemma_keys();
            lemma_gathered_page(found@, keys, i as int, eligible, limit as nat);
        }
        found
    }

    /// Whether any document still holds a complete legacy payload.
    pub fn legacy_desired_payload_maintenance_pending(&self) -> (r: GraphResult<bool>)
        requires
            self.wf(),
        ensures
            r is Ok,
            r->Ok_0 == exists|d: DocumentId| #[trigger] legacy_documents(self@)(d),
    {
        Ok(self.has_legacy())
    }

    fn has_legacy(&self) -> (r: bool)
        requires
            self.tables_wf(),
        ensures
            r == exists|d: DocumentId| #[trigger] legacy_documents(self@)(d),
    {
        let page = self.legacy_page(1);
        proof {
            let eligible = legacy_documents(self@);
            if page@.len() > 0 {
                assert(eligible(page@[0]));
            } else {
                assert forall|d: DocumentId| !#[trigger] eligible(d) by {
                    assert(!page@.contains(d));
                }
            }
        }
        page.len() > 0
    }

    /// Rewrites at most `maximum_rows` legacy documents to their path and fingerprint.
    pub fn compact_legacy_desired_payloads_bounded(&mut self, maximum_rows: u32) -> (r:
        GraphResult<DesiredPayloadMaintenanceSummary>)
        requires
            old(self).wf(),
        ensures
            final(self).wf(),
            match r {
                Err(e) => {
                    &&& final(self)@ == old(self)@
                    &&& maximum_rows == 0 || maximum_rows > 100_000
                    &&& e@ == ErrorModel::InvalidBatch(
                        "desired payload maintenance bound must be between 1 and 100000"@,
                    )
                },
                Ok(summary) => {
                    let page = first_page(
                        legacy_documents(old(self)@),
                        key_rank::<DocumentId>(),
                        maximum_rows as nat,
                    );
                    &&& 1 <= maximum_rows <= 100_000
                    &&& is_page(
                        page,
                        legacy_documents(old(self)@),
                        key_rank::<DocumentId>(),
                        maximum_rows as nat,
                    )
                    &&& final(self)@ == compact_documents(old(self)@, page, page.len())
                    &&& summary.rewritten_rows == page.len()
                    &&& summary.backlog_remaining == exists|d: DocumentId| #[trigger]
                        legacy_documents(final(self)@)(d)
                },
            },
    {
        if maximum_rows == 0 || maximum_rows > 100_000 {
            return Err(
                invalid_batch("desired payload maintenance bound must be between 1 and 100000"),
            );
        }
        let ghost m = self@;
        let page = self.legacy_page(maximum_rows as usize);
        proof {
            assert forall|x: int| 0 <= x < page@.len() implies m.documents.dom().contains(
                #[trigger] page@[x],
            ) by {
                assert(legacy_documents(m)(page@[x]));
            }
        }
        let mut i: usize = 0;
        while i < page.len()
            invariant
                sound(m),
                self.wf(),
                i <= page@.len(),
                self@ == compact_documents(m, page@, i as nat),
                forall|x: int|
                    0 <= x < page@.len() ==> m.documents.dom().contains(#[trigger] page@[x]),
            decreases page@.len() - i,
        {
            proof {
                lemma_compact(m, page@, i as nat);
                lemma_compact(m, page@, (i + 1) as nat);
                assert(m.documents.dom().contains(page@[i as int]));
            }
            let id = page[i];
            let ghost before = self@;
            self.compact_document(id);
            i = i + 1;
        }
        let backlog_remaining = self.has_legacy();
        Ok(
            DesiredPayloadMaintenanceSummary {
                rewritten_rows: page.len() as u64,
                backlog_remaining,
            },
        )
    }

    fn compact_document(&mut self, id: DocumentId)
        requires
            old(self).tables_wf(),
            old(self)@.documents.dom().contains(id),
        ensures
            final(self).tables_wf(),
            final(self)@ == (GraphModel {
                documents: old(self)@.documents.insert(
                    id,
                    compacted(old(self)@.documents[id]),
                ),
                ..old(self)@
            }),
    {
        let mut next: Option<DocumentRow> = None;
        if let Some(row) = self.documents.get(&id) {
            if let DocumentPayload::Legacy { document } = &row.payload {
                if let Ok(fingerprint) = catalog_content_fingerprint(document) {
                    next = Some(
                        DocumentRow {
                            object_key: row.object_key,
                            file_link_id: row.file_link_id,
                            version: row.version,
                            payload: DocumentPayload::Compact {
                                path: document.resolved_path.clone(),
                                fingerprint,
                            },
                        },
                    );
                }
            }
        }
        match next {
            Some(row) => {
                self.documents.put(id, row);
            },
            None => {
                assert(self@.documents.insert(id, compacted(self@.documents[id]))
                    =~= self@.documents);
            },
        }
    }
}

} // verus!
