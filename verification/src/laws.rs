//! What holds of the home over any sequence of calls.

use crate::accumulator::merkle_root;
use crate::base::NomadState;
use crate::history::HistoryView;
use crate::message::message_hash;
use crate::model::{nonce_of, Call, Error, EventView, HomeView};
use crate::primitives::{AccountId, H160, H256};
use crate::update::{SignatureError, SignedUpdate};
use vstd::prelude::*;

verus! {

/// Two trees that took the same leaves in the same order have the same
/// root: the root is a function of the sequence of leaves and of nothing
/// else.
pub proof fn law_root_is_determined(first: Seq<H256>, second: Seq<H256>)
    requires
        first.len() == second.len(),
        forall|i: int| 0 <= i < first.len() ==> first[i] == second[i],
    ensures
        merkle_root(first) == merkle_root(second),
{
    assert(first =~= second);
}

/// From any state on, the accepted messages to one destination are
/// numbered upwards from the nonce of that destination, one by one, and the
/// nonce of the destination keeps count of them.
pub proof fn law_nonces_count_on(start: HomeView, calls: Seq<Call>, destination: u32)
    ensures
        ({
            let assigned = start.nonces_assigned(calls, destination);
            &&& nonce_of(start.run(calls).nonces, destination) == nonce_of(
                start.nonces,
                destination,
            ) + assigned.len()
            &&& forall|k: int|
                0 <= k < assigned.len() ==> #[trigger] assigned[k] == nonce_of(
                    start.nonces,
                    destination,
                ) + k
        }),
    decreases calls.len(),
{
    if calls.len() > 0 {
        law_nonces_count_on(start, calls.drop_last(), destination);
    }
}

/// The accepted messages to one destination are numbered 0, 1, 2 and so
/// on, without a repeat and without a gap, whatever other calls come
/// between them.
pub proof fn law_nonces_count_up(
    local_domain: u32,
    committed_root: H256,
    updater: H160,
    max_message_body_bytes: u32,
    calls: Seq<Call>,
    destination: u32,
)
    ensures
        ({
            let assigned = HomeView::genesis(
                local_domain,
                committed_root,
                updater,
                max_message_body_bytes,
            ).nonces_assigned(calls, destination);
            forall|k: int| 0 <= k < assigned.len() ==> #[trigger] assigned[k] == k
        }),
{
    law_nonces_count_on(
        HomeView::genesis(local_domain, committed_root, updater, max_message_body_bytes),
        calls,
        destination,
    );
}

/// After an accepted message the tree has the hash of the message as its
/// newest leaf, and the history holds the new root for the index of that
/// leaf, and that index for the new root.
pub proof fn law_dispatch_is_recorded(
    state: HomeView,
    sender: H256,
    destination: u32,
    recipient: H256,
    body: Seq<u8>,
)
    requires
        state.dispatch_error(destination, body.len()) is None,
    ensures
        ({
            let after = state.dispatched(sender, destination, recipient, body);
            let index = state.leaves.len() as u32;
            let root = merkle_root(after.leaves);
            &&& after.leaves == state.leaves.push(
                message_hash(state.next_message(sender, destination, recipient, body)),
            )
            &&& after.history.index_to_root.contains_key(index)
            &&& after.history.index_to_root[index] == root
            &&& after.history.root_to_index.contains_key(root)
            &&& after.history.root_to_index[root] == index
        }),
{
}

/// An entry of the history outlasts every call but an update that is
/// applied: the root for a leaf index stays, and a root keeps a leaf index,
/// the same one unless a later message brings the same root again.
pub proof fn law_history_outlasts_other_calls(state: HomeView, call: Call, index: u32, root: H256)
    requires
        state.consistent(),
        !state.applies_update(call),
    ensures
        ({
            let after = state.step(call);
            let recorded_again = after.leaves.len() == state.leaves.len() + 1 && root
                == merkle_root(after.leaves);
            &&& state.history.index_to_root.contains_key(index) ==> {
                &&& after.history.index_to_root.contains_key(index)
                &&& after.history.index_to_root[index] == state.history.index_to_root[index]
            }
            &&& state.history.root_to_index.contains_key(root) ==> {
                &&& after.history.root_to_index.contains_key(root)
                &&& recorded_again || after.history.root_to_index[root]
                    == state.history.root_to_index[root]
            }
        }),
{
}

/// Every entry of the history of a new home holds a root that the tree
/// had, and every call keeps it so.
pub proof fn law_history_is_consistent(start: HomeView, calls: Seq<Call>)
    requires
        start.consistent(),
    ensures
        start.run(calls).consistent(),
    decreases calls.len(),
{
    if calls.len() > 0 {
        law_history_is_consistent(start, calls.drop_last());
        lemma_step_keeps_consistent(start.run(calls.drop_last()), calls.last());
    }
}

/// A home at its start has a consistent history.
pub proof fn law_genesis_is_consistent(
    local_domain: u32,
    committed_root: H256,
    updater: H160,
    max_message_body_bytes: u32,
)
    ensures
        HomeView::genesis(
            local_domain,
            committed_root,
            updater,
            max_message_body_bytes,
        ).consistent(),
        HomeView::genesis(
            local_domain,
            committed_root,
            updater,
            max_message_body_bytes,
        ).anchored(),
{
}

/// A call keeps the history consistent.
pub proof fn lemma_step_keeps_consistent(state: HomeView, call: Call)
    requires
        state.consistent(),
    ensures
        state.step(call).consistent(),
{
    let after = state.step(call);
    match call {
        Call::Dispatch { sender, destination, recipient, body } => {
            if state.dispatch_error(destination, body.len()) is None {
                let added = state.leaves.len() as u32;
                assert(after.leaves.take(added + 1) =~= after.leaves);
                assert forall|index: u32| #[trigger]
                    after.history.index_to_root.contains_key(
                        index,
                    ) implies index < after.leaves.len() && after.history.index_to_root[index]
                    == merkle_root(after.leaves.take(index + 1)) by {
                    if index != added {
                        assert(state.history.index_to_root.contains_key(index));
                        assert(after.leaves.take(index + 1) =~= state.leaves.take(index + 1));
                    }
                }
                assert forall|root: H256| #[trigger]
                    after.history.root_to_index.contains_key(
                        root,
                    ) implies after.history.root_to_index[root] < after.leaves.len() && root
                    == merkle_root(after.leaves.take(after.history.root_to_index[root] + 1)) by {
                    if root != merkle_root(after.leaves) {
                        assert(state.history.root_to_index.contains_key(root));
                        let index = state.history.root_to_index[root];
                        assert(after.leaves.take(index + 1) =~= state.leaves.take(index + 1));
                    }
                }
            }
        },
        Call::Update { signed_update, recovered, .. } => {
            if state.applies_update(call) {
                assert forall|index: u32| #[trigger]
                    after.history.index_to_root.contains_key(
                        index,
                    ) implies index < after.leaves.len() && after.history.index_to_root[index]
                    == merkle_root(after.leaves.take(index + 1)) by {
                    assert(state.history.index_to_root.contains_key(index));
                }
                assert forall|root: H256| #[trigger]
                    after.history.root_to_index.contains_key(
                        root,
                    ) implies after.history.root_to_index[root] < after.leaves.len() && root
                    == merkle_root(after.leaves.take(after.history.root_to_index[root] + 1)) by {
                    assert(state.history.root_to_index.contains_key(root));
                }
            }
        },
        _ => {},
    }
}

/// While the history is consistent, the committed root stays the root that
/// the home started with or becomes a root that the tree had after one of
/// its leaves.
pub proof fn law_committed_root_was_produced(state: HomeView, call: Call)
    requires
        state.consistent(),
        state.anchored(),
    ensures
        state.step(call).anchored(),
{
    let after = state.step(call);
    if after.base.committed_root == state.base.committed_root {
        if state.base.committed_root != state.genesis_root {
            let count = choose|count: int|
                0 < count <= state.leaves.len() && state.base.committed_root == merkle_root(
                    #[trigger] state.leaves.take(count),
                );
            assert(after.leaves.take(count) =~= state.leaves.take(count));
        }
    } else {
        match call {
            Call::Update { signed_update, .. } => {
                let root = signed_update.update.new_root;
                assert(state.history.root_to_index.contains_key(root));
                let count = state.history.root_to_index[root] + 1;
                assert(after.base.committed_root == merkle_root(after.leaves.take(count)));
            },
            _ => {},
        }
    }
}

/// Of a submitted update that is accepted: the domain fails and the
/// updater is slashed exactly when the history does not hold the new root.
/// An honest update leaves the domain active and slashes nobody.
pub proof fn law_fraud_is_judged_by_the_history(
    state: HomeView,
    sender: AccountId,
    signed_update: SignedUpdate,
    recovered: Result<H160, SignatureError>,
)
    requires
        state.update_error(signed_update, recovered) is None,
    ensures
        ({
            let after = state.after_update(sender, signed_update, recovered);
            let slashed = EventView::UpdaterSlashed {
                updater: state.base.updater,
                reporter: sender,
            };
            let fraud = state.is_fraud(signed_update);
            let told = after.events.skip(state.events.len() as int);
            &&& after.base.state == NomadState::Failed <==> fraud
            &&& told.contains(slashed) <==> fraud
            &&& fraud ==> {
                &&& told.len() == 2
                &&& told[0] == slashed
                &&& told[1] is ImproperUpdate
                &&& after.base.committed_root == state.base.committed_root
                &&& after.history == state.history
            }
            &&& !fraud ==> {
                &&& told.len() == 1
                &&& told[0] is Update
                &&& after.base.state == NomadState::Active
            }
        }),
{
}

/// A walk comes to rest below where it starts and not below -1; every leaf
/// index that it passes holds a root other than the anchor; and it does
/// not pass a leaf index that holds the anchor.
pub proof fn lemma_walk_floor(history: HistoryView, index: int, anchor: H256, held: u32)
    requires
        0 <= index <= u32::MAX,
    ensures
        -1 <= history.walk_floor(index, anchor),
        history.walk_floor(index, anchor) < index || index == 0,
        history.walk_floor(index, anchor) < held < index
            ==> history.index_to_root.contains_key(held) && history.index_to_root[held] != anchor,
        held < index && history.index_to_root.contains_key(held) && history.index_to_root[held]
            == anchor ==> held <= history.walk_floor(index, anchor),
    decreases index,
{
    if index > 0 {
        lemma_walk_floor(history, index - 1, anchor, held);
    }
}

/// Pruning only removes: an entry that the history holds after an update
/// was applied was there before, unchanged. So a root without a leaf index,
/// such as the previous root of an update after the update that committed
/// it, stays without one.
pub proof fn law_pruning_only_removes(
    state: HomeView,
    sender: AccountId,
    signed_update: SignedUpdate,
    recovered: Result<H160, SignatureError>,
    index: u32,
    root: H256,
)
    requires
        state.update_error(signed_update, recovered) is None,
        !state.is_fraud(signed_update),
    ensures
        ({
            let before = state.history;
            let after = state.after_update(sender, signed_update, recovered).history;
            &&& after.index_to_root.contains_key(index) ==> {
                &&& before.index_to_root.contains_key(index)
                &&& after.index_to_root[index] == before.index_to_root[index]
            }
            &&& after.root_to_index.contains_key(root) ==> {
                &&& before.root_to_index.contains_key(root)
                &&& after.root_to_index[root] == before.root_to_index[root]
            }
            &&& !before.root_to_index.contains_key(root) ==> !after.root_to_index.contains_key(root)
        }),
{
}

/// Of an update that is applied, with new root `r` at leaf index `i` and
/// previous root `p`: afterwards `r` is the committed root, and unless `r`
/// is `p` the history holds neither a root for `i` nor a leaf index for
/// `r`. Every leaf index above `i` keeps what it held. Where a leaf index
/// `held` below `i` holds `p`, that leaf index and every one below it keep
/// what they held.
pub proof fn law_pruning_is_bounded(
    state: HomeView,
    sender: AccountId,
    signed_update: SignedUpdate,
    recovered: Result<H160, SignatureError>,
    index: u32,
    held: u32,
)
    requires
        state.update_error(signed_update, recovered) is None,
        !state.is_fraud(signed_update),
    ensures
        ({
            let after = state.after_update(sender, signed_update, recovered);
            let r = signed_update.update.new_root;
            let p = signed_update.update.previous_root;
            let i = state.history.root_to_index[r];
            let holds_previous = held < i && state.history.index_to_root.contains_key(held)
                && state.history.index_to_root[held] == p;
            &&& after.base.committed_root == r
            &&& r != p ==> {
                &&& !after.history.index_to_root.contains_key(i)
                &&& !after.history.root_to_index.contains_key(r)
            }
            &&& index > i ==> state.history.keeps_root(after.history, index)
            &&& holds_previous && index <= held ==> state.history.keeps_root(after.history, index)
        }),
{
    let r = signed_update.update.new_root;
    let p = signed_update.update.previous_root;
    let i = state.history.root_to_index[r];
    lemma_walk_floor(state.history, i as int, p, held);
}

/// Of an update that is applied, with its new root at leaf index `i`:
/// where the history held nothing above `i` before, it holds nothing
/// above `i` afterwards.
pub proof fn law_pruning_leaves_nothing_newer(
    state: HomeView,
    sender: AccountId,
    signed_update: SignedUpdate,
    recovered: Result<H160, SignatureError>,
)
    requires
        state.update_error(signed_update, recovered) is None,
        !state.is_fraud(signed_update),
        forall|index: u32|
            index > state.history.root_to_index[signed_update.update.new_root]
                ==> !state.history.index_to_root.contains_key(index),
    ensures
        forall|index: u32|
            index > state.history.root_to_index[signed_update.update.new_root]
                ==> !state.after_update(
                sender,
                signed_update,
                recovered,
            ).history.index_to_root.contains_key(index),
{
}

/// A refused call changes nothing.
pub proof fn law_refused_calls_change_nothing(state: HomeView, call: Call)
    requires
        state.refusal(call) is Some,
    ensures
        state.step(call) == state,
{
}

/// Once the domain has failed, every message, update and report is
/// refused with `FailedState` and changes nothing, and no call makes the
/// domain active again.
pub proof fn law_failure_is_final(state: HomeView, call: Call)
    requires
        state.base.state == NomadState::Failed,
    ensures
        call is Dispatch || call is Update || call is ImproperUpdate ==> state.refusal(
            call,
        ) == Some(Error::FailedState) && state.step(call) == state,
        state.step(call).base.state == NomadState::Failed,
{
}

/// No call changes the identifier of the domain or the limit on message
/// bodies, and none takes a leaf from the tree.
pub proof fn law_leaves_are_only_appended(state: HomeView, call: Call)
    ensures
        ({
            let after = state.step(call);
            &&& after.base.local_domain == state.base.local_domain
            &&& after.max_message_body_bytes == state.max_message_body_bytes
            &&& after.genesis_root == state.genesis_root
            &&& after.leaves.len() >= state.leaves.len()
            &&& after.leaves.take(state.leaves.len() as int) == state.leaves
        }),
{
    let after = state.step(call);
    assert(after.leaves.take(state.leaves.len() as int) =~= state.leaves);
}

} // verus!
