//! The state of a domain as plain mathematical values, and what each
//! operation makes of it.

use crate::accumulator::merkle_root;
use crate::base::{NomadBase, NomadState};
use crate::history::HistoryView;
use crate::message::{message_bytes, message_hash, spec_destination_and_nonce};
use crate::primitives::{AccountId, H160, H256};
use crate::update::{SignatureError, SignedUpdate};
use vstd::prelude::*;

verus! {

/// Why an operation was refused. A refused operation changes nothing.
#[derive(Clone, Copy, Debug, PartialEq, Eq, Structural)]
pub enum Error {
    /// The tree cannot take another leaf.
    IngestionError,
    /// No signer could be recovered from the signature of an update.
    SignatureRecoveryError,
    /// The body of a message is not shorter than the limit.
    MessageTooLarge,
    /// An update was signed, but not by the bonded updater.
    InvalidUpdaterSignature,
    /// The previous root of an update is not the committed root.
    CommittedRootMismatch,
    /// The new root of an accepted update has no leaf index in the
    /// history. An update whose new root is absent is handled as fraud, so
    /// no operation returns this.
    RootNotFoundInHistory,
    /// The domain has failed.
    FailedState,
    /// The nonce of a destination cannot grow any further.
    ArithmeticOverflow,
}

/// What an operation tells the outside world, with byte strings as
/// sequences.
pub enum EventView {
    /// A message was committed.
    Dispatch {
        message_hash: H256,
        leaf_index: u32,
        destination_and_nonce: u64,
        committed_root: H256,
        message_bytes: Seq<u8>,
    },
    /// The committed root moved.
    Update { domain: u32, previous_root: H256, new_root: H256, signature: Seq<u8> },
    /// The updater attested a root that was never produced.
    ImproperUpdate { previous_root: H256, new_root: H256, signature: Seq<u8> },
    /// The updater is to lose its bond.
    UpdaterSlashed { updater: H160, reporter: AccountId },
}

/// The state of a domain.
pub struct HomeView {
    /// Identity, updater, committed root and status.
    pub base: NomadBase,
    /// The leaves of the tree, oldest first.
    pub leaves: Seq<H256>,
    /// For each destination that was sent to, the nonce of the next
    /// message.
    pub nonces: Map<u32, u32>,
    /// The index of past roots.
    pub history: HistoryView,
    /// What was emitted so far, oldest first.
    pub events: Seq<EventView>,
    /// The limit below which the length of a message body must stay.
    pub max_message_body_bytes: u32,
    /// The root that counted as committed when the domain started.
    pub genesis_root: H256,
}

/// One call of an entry point, with what the outside world answered to it.
pub enum Call {
    /// A message is handed in.
    Dispatch { sender: H256, destination: u32, recipient: H256, body: Seq<u8> },
    /// A signed update is submitted; `recovered` is what recovering its
    /// signer gave.
    Update {
        caller: AccountId,
        signed_update: SignedUpdate,
        recovered: Result<H160, SignatureError>,
    },
    /// A signed update is reported as fraudulent; `recovered` is what
    /// recovering its signer gave.
    ImproperUpdate {
        caller: AccountId,
        signed_update: SignedUpdate,
        recovered: Result<H160, SignatureError>,
    },
    /// The updater is to be replaced; `rotated` is whether the bonding
    /// ledger agreed.
    SetUpdater { new_updater: H160, rotated: bool },
    /// The event log is emptied.
    TakeEvents,
}

/// The nonce of the next message to `destination`.
pub open spec fn nonce_of(nonces: Map<u32, u32>, destination: u32) -> u32 {
    if nonces.contains_key(destination) {
        nonces[destination]
    } else {
        0
    }
}

impl HomeView {
    /// The state of a domain at its start.
    pub open spec fn genesis(
        local_domain: u32,
        committed_root: H256,
        updater: H160,
        max_message_body_bytes: u32,
    ) -> HomeView {
        HomeView {
            base: NomadBase::spec_new(local_domain, committed_root, updater),
            leaves: Seq::empty(),
            nonces: Map::empty(),
            history: HistoryView::empty(),
            events: Seq::empty(),
            max_message_body_bytes,
            genesis_root: committed_root,
        }
    }

    /// Why a message to `destination` with a body of `body_len` bytes is
    /// refused, if it is.
    pub open spec fn dispatch_error(self, destination: u32, body_len: nat) -> Option<Error> {
        if self.base.state == NomadState::Failed {
            Some(Error::FailedState)
        } else if body_len >= self.max_message_body_bytes {
            Some(Error::MessageTooLarge)
        } else if nonce_of(self.nonces, destination) == u32::MAX {
            Some(Error::ArithmeticOverflow)
        } else if self.leaves.len() >= u32::MAX {
            Some(Error::IngestionError)
        } else {
            None
        }
    }

    /// The encoding of the next message from `sender` to `recipient` in
    /// `destination`.
    pub open spec fn next_message(
        self,
        sender: H256,
        destination: u32,
        recipient: H256,
        body: Seq<u8>,
    ) -> Seq<u8> {
        message_bytes(
            self.base.local_domain,
            sender,
            nonce_of(self.nonces, destination),
            destination,
            recipient,
            body,
        )
    }

    /// The state after a message was accepted: the nonce of its
    /// destination grew by one, its hash is the newest leaf, the new root
    /// is recorded for the index of that leaf, and a `Dispatch` event tells
    /// of it.
    pub open spec fn dispatched(
        self,
        sender: H256,
        destination: u32,
        recipient: H256,
        body: Seq<u8>,
    ) -> HomeView {
        let nonce = nonce_of(self.nonces, destination);
        let encoded = self.next_message(sender, destination, recipient, body);
        let leaf = message_hash(encoded);
        let leaves = self.leaves.push(leaf);
        let index = self.leaves.len() as u32;
        HomeView {
            base: self.base,
            max_message_body_bytes: self.max_message_body_bytes,
            genesis_root: self.genesis_root,
            leaves,
            nonces: self.nonces.insert(destination, (nonce + 1) as u32),
            history: self.history.record(index, merkle_root(leaves)),
            events: self.events.push(
                EventView::Dispatch {
                    message_hash: leaf,
                    leaf_index: index,
                    destination_and_nonce: spec_destination_and_nonce(destination, nonce),
                    committed_root: self.base.committed_root,
                    message_bytes: encoded,
                },
            ),
        }
    }

    /// Why a signed update is refused, if it is, where `recovered` is
    /// what recovering its signer gave.
    pub open spec fn update_error(
        self,
        signed_update: SignedUpdate,
        recovered: Result<H160, SignatureError>,
    ) -> Option<Error> {
        if self.base.state == NomadState::Failed {
            Some(Error::FailedState)
        } else if self.base.committed_root != signed_update.update.previous_root {
            Some(Error::CommittedRootMismatch)
        } else {
            match recovered {
                Err(_) => Some(Error::SignatureRecoveryError),
                Ok(signer) => if signer != self.base.updater {
                    Some(Error::InvalidUpdaterSignature)
                } else {
                    None
                },
            }
        }
    }

    /// Whether the new root of an update was never recorded, or is
    /// recorded no more.
    pub open spec fn is_fraud(self, signed_update: SignedUpdate) -> bool {
        !self.history.root_to_index.contains_key(signed_update.update.new_root)
    }

    /// The state after the domain failed on the report of `reporter`.
    pub open spec fn failed(self, reporter: AccountId) -> HomeView {
        HomeView {
            base: NomadBase { state: NomadState::Failed, ..self.base },
            events: self.events.push(
                EventView::UpdaterSlashed { updater: self.base.updater, reporter },
            ),
            ..self
        }
    }

    /// The state after `reporter` handed in a fraudulent update: the domain
    /// has failed, and an `UpdaterSlashed` and an `ImproperUpdate` event
    /// tell of it.
    pub open spec fn slashed(self, reporter: AccountId, signed_update: SignedUpdate) -> HomeView {
        let failed = self.failed(reporter);
        HomeView {
            events: failed.events.push(
                EventView::ImproperUpdate {
                    previous_root: signed_update.update.previous_root,
                    new_root: signed_update.update.new_root,
                    signature: signed_update.signature.encoding(),
                },
            ),
            ..failed
        }
    }

    /// The state after an honest update was applied: the history is pruned
    /// from the new root back to the previous one, the new root is the
    /// committed root, and an `Update` event tells of it.
    pub open spec fn updated(self, signed_update: SignedUpdate) -> HomeView {
        let new_root = signed_update.update.new_root;
        let previous_root = signed_update.update.previous_root;
        HomeView {
            base: NomadBase { committed_root: new_root, ..self.base },
            history: self.history.pruned(
                self.history.root_to_index[new_root],
                new_root,
                previous_root,
            ),
            events: self.events.push(
                EventView::Update {
                    domain: self.base.local_domain,
                    previous_root,
                    new_root,
                    signature: signed_update.signature.encoding(),
                },
            ),
            ..self
        }
    }

    /// The state after a signed update was checked for fraud.
    pub open spec fn after_report(
        self,
        reporter: AccountId,
        signed_update: SignedUpdate,
        recovered: Result<H160, SignatureError>,
    ) -> HomeView {
        if self.update_error(signed_update, recovered) is None && self.is_fraud(signed_update) {
            self.slashed(reporter, signed_update)
        } else {
            self
        }
    }

    /// The state after a signed update was submitted.
    pub open spec fn after_update(
        self,
        reporter: AccountId,
        signed_update: SignedUpdate,
        recovered: Result<H160, SignatureError>,
    ) -> HomeView {
        if self.update_error(signed_update, recovered) is Some {
            self
        } else if self.is_fraud(signed_update) {
            self.slashed(reporter, signed_update)
        } else {
            self.updated(signed_update)
        }
    }

    /// The state after the updater was replaced.
    pub open spec fn rotated(self, new_updater: H160) -> HomeView {
        HomeView { base: NomadBase { updater: new_updater, ..self.base }, ..self }
    }

    /// Why `call` is refused, if it is.
    pub open spec fn refusal(self, call: Call) -> Option<Error> {
        match call {
            Call::Dispatch { destination, body, .. } => self.dispatch_error(
                destination,
                body.len(),
            ),
            Call::Update { signed_update, recovered, .. } => self.update_error(
                signed_update,
                recovered,
            ),
            Call::ImproperUpdate { signed_update, recovered, .. } => self.update_error(
                signed_update,
                recovered,
            ),
            Call::SetUpdater { .. } => None,
            Call::TakeEvents => None,
        }
    }

    /// What the caller of `call` is told.
    pub open spec fn outcome(self, call: Call) -> Result<(), Error> {
        match self.refusal(call) {
            Some(e) => Err(e),
            None => Ok(()),
        }
    }

    /// The state after `call`.
    pub open spec fn step(self, call: Call) -> HomeView {
        match call {
            Call::Dispatch { sender, destination, recipient, body } => if self.dispatch_error(
                destination,
                body.len(),
            ) is None {
                self.dispatched(sender, destination, recipient, body)
            } else {
                self
            },
            Call::Update { caller, signed_update, recovered } => self.after_update(
                caller,
                signed_update,
                recovered,
            ),
            Call::ImproperUpdate { caller, signed_update, recovered } => self.after_report(
                caller,
                signed_update,
                recovered,
            ),
            Call::SetUpdater { new_updater, rotated } => if rotated {
                self.rotated(new_updater)
            } else {
                self
            },
            Call::TakeEvents => HomeView { events: Seq::empty(), ..self },
        }
    }

    /// The state after `calls`, first to last.
    pub open spec fn run(self, calls: Seq<Call>) -> HomeView
        decreases calls.len(),
    {
        if calls.len() == 0 {
            self
        } else {
            self.run(calls.drop_last()).step(calls.last())
        }
    }

    /// The nonces that the accepted messages to `destination` among
    /// `calls` were numbered with, first to last.
    pub open spec fn nonces_assigned(self, calls: Seq<Call>, destination: u32) -> Seq<u32>
        decreases calls.len(),
    {
        if calls.len() == 0 {
            Seq::empty()
        } else {
            let earlier = self.nonces_assigned(calls.drop_last(), destination);
            let state = self.run(calls.drop_last());
            if state.accepts_message_to(calls.last(), destination) {
                earlier.push(nonce_of(state.nonces, destination))
            } else {
                earlier
            }
        }
    }

    /// Whether `call` hands in a message to `destination` that is accepted.
    pub open spec fn accepts_message_to(self, call: Call, destination: u32) -> bool {
        match call {
            Call::Dispatch { destination: d, body, .. } => d == destination && self.dispatch_error(
                d,
                body.len(),
            ) is None,
            _ => false,
        }
    }

    /// Whether `call` is an update that is accepted and found honest.
    pub open spec fn applies_update(self, call: Call) -> bool {
        match call {
            Call::Update { signed_update, recovered, .. } => self.update_error(
                signed_update,
                recovered,
            ) is None && !self.is_fraud(signed_update),
            _ => false,
        }
    }

    /// Whether every entry of the history holds a root that the tree had:
    /// the root for a leaf index is the root of the leaves up to and with
    /// that index, and the leaf index for a root is one at which the tree
    /// had that root.
    pub open spec fn consistent(self) -> bool {
        &&& self.leaves.len() <= u32::MAX
        &&& forall|index: u32| #[trigger]
            self.history.index_to_root.contains_key(index) ==> index < self.leaves.len()
                && self.history.index_to_root[index] == merkle_root(
                self.leaves.take(index + 1),
            )
        &&& forall|root: H256| #[trigger]
            self.history.root_to_index.contains_key(root) ==> self.history.root_to_index[root]
                < self.leaves.len() && root == merkle_root(
                self.leaves.take(self.history.root_to_index[root] + 1),
            )
    }

    /// Whether the committed root is the root that the domain started with
    /// or a root that the tree had after one of its leaves.
    pub open spec fn anchored(self) -> bool {
        self.base.committed_root == self.genesis_root || exists|count: int|
            0 < count <= self.leaves.len() && self.base.committed_root == merkle_root(
                #[trigger] self.leaves.take(count),
            )
    }
}

} // verus!
