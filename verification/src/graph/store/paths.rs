//! Derived paths.

use vstd::prelude::*;

use crate::graph::domain::ResolvedPath;
use crate::graph::error::{ErrorModel, GraphError, GraphResult};
use crate::graph::model::{climb, is_linked, names_object, only_link, resolve_path, GraphModel};
use crate::graph::store::FilesystemGraph;
use crate::ids::{FileKey, FileLinkId};
use crate::order::is_listing;
use crate::table::{gathered, key_rank, lemma_gather, lemma_gathered_all};
use crate::text::texts;

verus! {

/// The links that name an object, as a condition on links.
pub open spec fn linked_to(m: GraphModel, key: FileKey) -> spec_fn(FileLinkId) -> bool {
    |l: FileLinkId| names_object(m, l, key)
}

/// What the steps up from a link give: the names found so far, and what is left to climb.
spec fn climbed(
    m: GraphModel,
    start: FileLinkId,
    limit: nat,
    names: Seq<Seq<char>>,
    current: FileLinkId,
    seen: Set<FileKey>,
    room: nat,
    target: bool,
) -> bool {
    climb(m, start, Set::empty(), limit, limit, true) == match climb(
        m,
        current,
        seen,
        room,
        limit,
        target,
    ) {
        Err(e) => Err(e),
        Ok(above) => Ok(above + names.reverse()),
    }
}

impl FilesystemGraph {
    /// The links that name an object, in ascending order.
    pub(crate) fn links_of_object(&self, key: FileKey) -> (r: Vec<FileLinkId>)
        requires
            self.tables_wf(),
        ensures
            is_listing(r@, linked_to(self@, key), key_rank::<FileLinkId>()),
    {
        let ghost eligible = linked_to(self@, key);
        let mut r: Vec<FileLinkId> = Vec::new();
        let mut i: usize = 0;
        proof {
            self.links.lemma_keys();
        }
        while i < self.links.len()
            invariant
                self.tables_wf(),
                eligible == linked_to(self@, key),
                i <= self.links.keys().len(),
                crate::order::ascends(self.links.keys(), key_rank::<FileLinkId>()),
                gathered(r@, self.links.keys(), i as int, eligible),
            decreases self.links.keys().len() - i,
        {
            let id = self.links.key_at(i);
            proof {
                lemma_gather(r@, self.links.keys(), i as int, eligible);
            }
            if self.links.row_at(i).object_key == key {
                r.push(id);
            }
            i = i + 1;
        }
        proof {
            self.links.lemma_keys();
            lemma_gathered_all(r@, self.links.keys(), eligible);
        }
        r
    }

    /// The one link of an object.
    fn load_only_link_for_object(&self, key: FileKey) -> (r: GraphResult<FileLinkId>)
        requires
            self.tables_wf(),
        ensures
            match r {
                Ok(link) => only_link(self@, key) == Ok::<FileLinkId, ErrorModel>(link)
                    && self@.links.dom().contains(link),
                Err(e) => only_link(self@, key) == Err::<FileLinkId, ErrorModel>(e@),
            },
    {
        let found = self.links_of_object(key);
        let ghost eligible = linked_to(self@, key);
        if found.len() == 0 {
            proof {
                if is_linked(self@, key) {
                    let l = choose|l: FileLinkId| #[trigger] names_object(self@, l, key);
                    assert(eligible(l));
                }
            }
            return Err(GraphError::MissingParent(key));
        }
        proof {
            assert(eligible(found@[0]));
            assert(names_object(self@, found@[0], key));
        }
        if found.len() >= 2 {
            proof {
                assert(eligible(found@[1]));
                assert(names_object(self@, found@[1], key));
                assert(key_rank::<FileLinkId>()(found@[0]) < key_rank::<FileLinkId>()(found@[1]));
            }
            return Err(GraphError::AmbiguousParent(key));
        }
        proof {
            assert forall|l: FileLinkId| #[trigger] names_object(self@, l, key) implies l
                == found@[0] by {
                assert(eligible(l));
                assert(found@.contains(l));
            }
        }
        Ok(found[0])
    }

    /// Resolves the current path of a link with a bounded number of steps.
    ///
    /// A parent without a link, with several links, beyond a boundary or in a cycle has no
    /// current path.
    pub fn resolve_path(&self, file_link_id: FileLinkId, depth_limit: usize) -> (r: GraphResult<
        ResolvedPath,
    >)
        requires
            self.tables_wf(),
        ensures
            match r {
                Ok(path) => resolve_path(self@, file_link_id, depth_limit as nat)
                    == Ok::<Seq<Seq<char>>, ErrorModel>(path@),
                Err(e) => resolve_path(self@, file_link_id, depth_limit as nat)
                    == Err::<Seq<Seq<char>>, ErrorModel>(e@),
            },
    {
        if depth_limit == 0 {
            return Err(GraphError::DepthLimit(0));
        }
        if !self.links.contains(&file_link_id) {
            return Err(GraphError::LinkNotFound(file_link_id));
        }
        let mut current = file_link_id;
        let mut components: Vec<String> = Vec::new();
        let mut seen: Vec<FileKey> = Vec::new();
        let mut is_target = true;
        let ghost limit = depth_limit as nat;
        proof {
            assert(texts(components@).reverse() =~= Seq::empty());
            assert(seen@.to_set() =~= Set::empty());
            let top = climb(self@, current, seen@.to_set(), limit, limit, true);
            if let Ok(above) = top {
                assert(above + texts(components@).reverse() =~= above);
            }
        }
        loop
            invariant
                self.tables_wf(),
                limit == depth_limit as nat,
                limit > 0,
                self@.links.dom().contains(file_link_id),
                self@.links.dom().contains(current),
                components@.len() <= limit,
                climbed(
                    self@,
                    file_link_id,
                    limit,
                    texts(components@),
                    current,
                    seen@.to_set(),
                    (limit - components@.len()) as nat,
                    is_target,
                ),
            decreases limit - components@.len(),
        {
            if components.len() >= depth_limit {
                return Err(GraphError::DepthLimit(depth_limit));
            }
            let row = match self.links.get(&current) {
                Some(row) => row,
                None => {
                    return Err(GraphError::LinkNotFound(current));
                },
            };
            if row.traversal_boundary && !is_target {
                return Err(GraphError::TraversalBoundary(current));
            }
            let ghost names = texts(components@);
            let ghost own = row.name@;
            components.push(row.name.clone());
            proof {
                assert(texts(components@) =~= names.push(own));
                assert(texts(components@).reverse() =~= seq![own] + names.reverse());
            }
            let parent = match row.parent_key {
                Some(parent) => parent,
                None => {
                    let components = reversed(components);
                    proof {
                        assert(seq![own] + names.reverse() =~= texts(components@));
                    }
                    return Ok(ResolvedPath { components });
                },
            };
            if holds_key(&seen, parent) {
                return Err(GraphError::ParentCycle(parent));
            }
            let ghost before = seen@;
            seen.push(parent);
            proof {
                assert(seen@.to_set() =~= before.to_set().insert(parent)) by {
                    assert forall|k: FileKey| seen@.to_set().contains(k) == before.to_set().insert(
                        parent,
                    ).contains(k) by {
                        if before.contains(k) {
                            let i = before.index_of(k);
                            assert(seen@[i] == k);
                        }
                        assert(seen@[before.len() as int] == parent);
                    }
                }
            }
            let next = match self.load_only_link_for_object(parent) {
                Ok(next) => next,
                Err(e) => {
                    return Err(e);
                },
            };
            proof {
                let room = (limit - components@.len()) as nat;
                if let Ok(above) = climb(self@, next, seen@.to_set(), room, limit, false) {
                    assert(above.push(own) + names.reverse() =~= above + texts(
                        components@,
                    ).reverse());
                }
            }
            current = next;
            is_target = false;
        }
    }
}

/// The texts in the opposite order.
fn reversed(values: Vec<String>) -> (r: Vec<String>)
    ensures
        texts(r@) == texts(values@).reverse(),
{
    let mut r: Vec<String> = Vec::new();
    let mut i: usize = values.len();
    while i > 0
        invariant
            i <= values@.len(),
            r@.len() == values@.len() - i,
            forall|j: int|
                0 <= j < r@.len() ==> (#[trigger] r@[j])@ == values@[values@.len() - 1 - j]@,
        decreases i,
    {
        i = i - 1;
        r.push(values[i].clone());
    }
    assert(texts(r@) =~= texts(values@).reverse());
    r
}

/// Whether the list holds the key.
fn holds_key(keys: &Vec<FileKey>, key: FileKey) -> (r: bool)
    ensures
        r == keys@.to_set().contains(key),
{
    let mut i: usize = 0;
    while i < keys.len()
        invariant
            i <= keys@.len(),
            forall|j: int| 0 <= j < i ==> #[trigger] keys@[j] != key,
        decreases keys@.len() - i,
    {
        if keys[i] == key {
            assert(keys@.contains(key));
            return true;
        }
        i = i + 1;
    }
    assert(!keys@.contains(key));
    false
}

} // verus!
