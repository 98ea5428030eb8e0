//! What the contract of providers asks of the changes that they report.

use vstd::prelude::*;

use crate::catalog::EventModel;
use crate::ids::FileKey;
use crate::provider::{batch_violation, created_after, ChangeBatch, ContractMutation};

verus! {

/// The state has a link to the object, and the object itself.
pub open spec fn has_linked_object(state: Seq<EventModel>, object_key: FileKey) -> bool {
    exists|i: int, j: int|
        0 <= i < state.len() && 0 <= j < state.len() && #[trigger] state[i] is ObjectObserved
            && state[i]->object.object_key == object_key && #[trigger] state[j] is LinkObserved
            && state[j]->link.object_key == object_key
}

/// The state has the object.
pub open spec fn has_object(state: Seq<EventModel>, object_key: FileKey) -> bool {
    exists|i: int|
        0 <= i < state.len() && #[trigger] state[i] is ObjectObserved
            && state[i]->object.object_key == object_key
}

/// The state has a link to the object.
pub open spec fn has_link_to(state: Seq<EventModel>, object_key: FileKey) -> bool {
    exists|i: int|
        0 <= i < state.len() && #[trigger] state[i] is LinkObserved && state[i]->link.object_key
            == object_key
}

/// Changes that are accepted are in the state: an object that was created is there with a link,
/// and is the one that is gone once it was deleted; what was changed of the primary object is
/// there, and the primary object stays the same.
pub proof fn accepted_changes_are_in_the_state(
    mutation: ContractMutation,
    batch: ChangeBatch,
    observed: Seq<EventModel>,
    state: Seq<EventModel>,
    primary: (FileKey, FileKey),
    created: Option<FileKey>,
)
    requires
        batch_violation(mutation, batch, observed, state, primary, created) is None,
    ensures
        batch.emitted_events == observed.len(),
        observed.len() > 0,
        forall|i: int|
            0 <= i < observed.len() && (observed[i] is ObjectObserved || observed[i] is LinkObserved)
                ==> state.contains(#[trigger] observed[i]),
        mutation == ContractMutation::Create ==> (created_after(mutation, observed, created) matches
            Some(key) && has_linked_object(state, key)),
        mutation != ContractMutation::Create ==> created_after(mutation, observed, created)
            == created,
        mutation == ContractMutation::Delete ==> (created matches Some(key) && !has_object(
            state,
            key,
        )),
        mutation == ContractMutation::Metadata ==> has_object(state, primary.0),
        mutation == ContractMutation::Rename || mutation == ContractMutation::Move || mutation
            == ContractMutation::HardLinkCreate ==> has_link_to(state, primary.0),
        mutation == ContractMutation::HardLinkDelete ==> observed[0] is LinkRemoved
            && observed[0]->LinkRemoved_object_key == primary.0 && forall|i: int|
            0 <= i < state.len() && #[trigger] state[i] is LinkObserved ==> state[i]->link.file_link_id
                != observed[0]->LinkRemoved_file_link_id,
        mutation != ContractMutation::Create && mutation != ContractMutation::Delete ==> primary.0
            == primary.1,
{
    match mutation {
        ContractMutation::Create => {
            assert(state.contains(observed[0]));
            assert(state.contains(observed[1]));
            let i = choose|i: int| 0 <= i < state.len() && state[i] == observed[0];
            let j = choose|j: int| 0 <= j < state.len() && state[j] == observed[1];
            assert(state[i] is ObjectObserved && state[j] is LinkObserved);
            assert(has_linked_object(state, observed[0]->object.object_key));
        },
        ContractMutation::Delete => {
            assert(observed[1] is ObjectRemoved);
            assert(observed[0] is LinkRemoved);
        },
        ContractMutation::HardLinkDelete => {
            assert(observed[0] is LinkRemoved);
        },
        _ => {
            assert(state.contains(observed[0]));
            let i = choose|i: int| 0 <= i < state.len() && state[i] == observed[0];
            assert(state[i] == observed[0]);
        },
    }
}

/// Changes that are accepted are all that the mutation led to: one more is too much, one less
/// too little, and a batch that counts them wrongly is refused.
pub proof fn accepted_changes_are_complete(
    mutation: ContractMutation,
    batch: ChangeBatch,
    other: ChangeBatch,
    observed: Seq<EventModel>,
    state: Seq<EventModel>,
    primary: (FileKey, FileKey),
    created: Option<FileKey>,
    more: EventModel,
)
    requires
        batch_violation(mutation, batch, observed, state, primary, created) is None,
    ensures
        batch_violation(mutation, other, observed.push(more), state, primary, created) is Some,
        batch_violation(mutation, other, observed.drop_last(), state, primary, created) is Some,
        other.emitted_events != batch.emitted_events ==> batch_violation(
            mutation,
            other,
            observed,
            state,
            primary,
            created,
        ) is Some,
{
}

} // verus!
