//! The home of a domain: it commits outbound messages to the tree, keeps
//! the history of roots, and judges the updates that the updater signs.

use crate::accumulator::{merkle_root, Accumulator};
use crate::base::{NomadBase, NomadState};
use crate::history::RootHistory;
use crate::laws::{
    law_committed_root_was_produced, law_genesis_is_consistent, lemma_step_keeps_consistent,
};
use crate::message::{destination_and_nonce, NomadMessage};
use crate::model::{nonce_of, Call, Error, EventView, HomeView};
use crate::primitives::{bytes_eq, copy_bytes, AccountId, H160, H256};
use crate::update::{SignatureError, SignedUpdate};
use std::collections::HashMap;
use vstd::prelude::*;

verus! {

broadcast use vstd::std_specs::hash::group_hash_axioms;

/// What a home is configured with.
pub trait Config {
    /// The limit below which the length of a message body must stay. A
    /// home asks for it once, when it is built.
    fn max_message_body_bytes() -> u32;
}

/// What a home starts from.
#[derive(Clone, Copy, Debug)]
pub struct GenesisConfig {
    /// The identifier of the domain.
    pub local_domain: u32,
    /// The root that counts as committed before any update.
    pub committed_root: H256,
    /// The address of the first updater.
    pub updater: H160,
}

/// What an operation tells the outside world.
#[derive(Debug)]
pub enum Event {
    /// A message was committed.
    Dispatch {
        message_hash: H256,
        leaf_index: u32,
        destination_and_nonce: u64,
        committed_root: H256,
        message_bytes: Vec<u8>,
    },
    /// The committed root moved.
    Update { domain: u32, previous_root: H256, new_root: H256, signature: Vec<u8> },
    /// The updater attested a root that was never produced.
    ImproperUpdate { previous_root: H256, new_root: H256, signature: Vec<u8> },
    /// The updater is to lose its bond.
    UpdaterSlashed { updater: H160, reporter: AccountId },
}

impl View for Event {
    type V = EventView;

    open spec fn view(&self) -> EventView {
        match *self {
            Event::Dispatch {
                message_hash,
                leaf_index,
                destination_and_nonce,
                committed_root,
                message_bytes,
            } => EventView::Dispatch {
                message_hash,
                leaf_index,
                destination_and_nonce,
                committed_root,
                message_bytes: message_bytes@,
            },
            Event::Update { domain, previous_root, new_root, signature } => EventView::Update {
                domain,
                previous_root,
                new_root,
                signature: signature@,
            },
            Event::ImproperUpdate { previous_root, new_root, signature } => {
                EventView::ImproperUpdate { previous_root, new_root, signature: signature@ }
            },
            Event::UpdaterSlashed { updater, reporter } => EventView::UpdaterSlashed {
                updater,
                reporter,
            },
        }
    }
}

/// The events of a log, each by its view.
pub open spec fn events_view(events: Seq<Event>) -> Seq<EventView> {
    events.map_values(|e: Event| e@)
}

/// The home of a domain.
pub struct Pallet {
    base: NomadBase,
    tree: Accumulator,
    nonces: HashMap<u32, u32>,
    history: RootHistory,
    events: Vec<Event>,
    max_message_body_bytes: u32,
    genesis_root: Ghost<H256>,
}

impl View for Pallet {
    type V = HomeView;

    closed spec fn view(&self) -> HomeView {
        HomeView {
            base: self.base,
            leaves: self.tree.leaves(),
            nonces: self.nonces@,
            history: self.history@,
            events: events_view(self.events@),
            max_message_body_bytes: self.max_message_body_bytes,
            genesis_root: self.genesis_root@,
        }
    }
}

impl Default for GenesisConfig {
    /// Domain 0 with the zero digest as committed root and the zero address
    /// as updater.
    fn default() -> (genesis: GenesisConfig)
        ensures
            genesis.local_domain == 0,
            genesis.committed_root == H256::spec_zero(),
            genesis.updater == H160::spec_zero(),
    {
        GenesisConfig { local_domain: 0, committed_root: H256::zero(), updater: H160::zero() }
    }
}

impl GenesisConfig {
    /// This configuration with domain, committed root and updater taken
    /// from `base`.
    pub fn with_base(self, base: NomadBase) -> (genesis: GenesisConfig)
        ensures
            genesis.local_domain == base.local_domain,
            genesis.committed_root == base.committed_root,
            genesis.updater == base.updater,
    {
        GenesisConfig {
            local_domain: base.local_domain,
            committed_root: base.committed_root,
            updater: base.updater,
        }
    }

    /// The home that starts from this configuration.
    pub fn build<T: Config>(&self) -> (home: Pallet)
        ensures
            home.wf(),
            home@ == HomeView::genesis(
                self.local_domain,
                self.committed_root,
                self.updater,
                home@.max_message_body_bytes,
            ),
    {
        let home = Pallet {
            base: NomadBase::new(self.local_domain, self.committed_root, self.updater),
            tree: Accumulator::new(),
            nonces: HashMap::new(),
            history: RootHistory::new(),
            events: Vec::new(),
            max_message_body_bytes: T::max_message_body_bytes(),
            genesis_root: Ghost(self.committed_root),
        };
        assert(home@.events =~= Seq::empty());
        proof {
            law_genesis_is_consistent(
                self.local_domain,
                self.committed_root,
                self.updater,
                home.max_message_body_bytes,
            );
        }
        home
    }
}

impl Pallet {
    /// What holds of every home that this module hands out.
    pub closed spec fn wf(&self) -> bool {
        &&& self.tree_wf()
        &&& self@.consistent()
        &&& self@.anchored()
    }

    /// What holds of the tree of every home.
    closed spec fn tree_wf(&self) -> bool {
        self.tree.wf()
    }

    /// Every entry of the history of a home holds a root that its tree
    /// had, and its committed root is the root that it started with or a
    /// root that its tree had.
    pub proof fn lemma_wf(&self)
        requires
            self.wf(),
        ensures
            self@.consistent(),
            self@.anchored(),
    {
    }

    /// Refuses when the domain has failed.
    fn ensure_not_failed(&self) -> (res: Result<(), Error>)
        ensures
            res == if self@.base.state == NomadState::Failed {
                Err::<(), Error>(Error::FailedState)
            } else {
                Ok(())
            },
    {
        match self.base.state {
            NomadState::Failed => Err(Error::FailedState),
            NomadState::Active => Ok(()),
        }
    }

    /// Appends an event to the log.
    fn deposit_event(&mut self, event: Event)
        requires
            old(self).tree_wf(),
        ensures
            final(self).tree_wf(),
            final(self)@ == (HomeView { events: old(self)@.events.push(event@), ..old(self)@ }),
    {
        self.events.push(event);
        assert(events_view(self.events@) =~= events_view(old(self).events@).push(event@));
    }

    /// Puts the domain into the failed state and tells that the updater is
    /// to be slashed on the report of `reporter`.
    fn fail(&mut self, reporter: AccountId)
        requires
            old(self).tree_wf(),
        ensures
            final(self).tree_wf(),
            final(self)@ == old(self)@.failed(reporter),
    {
        let updater = self.base.updater;
        self.base.state = NomadState::Failed;
        self.deposit_event(Event::UpdaterSlashed { updater, reporter });
    }

    /// Commits a message of the authenticated caller `sender` to
    /// `recipient_address` in `destination_domain`.
    pub fn dispatch(
        &mut self,
        sender: AccountId,
        destination_domain: u32,
        recipient_address: H256,
        message_body: Vec<u8>,
    ) -> (res: Result<(), Error>)
        requires
            old(self).wf(),
        ensures
            final(self).wf(),
            final(self)@ == old(self)@.step(
                Call::Dispatch {
                    sender: H256(sender.0),
                    destination: destination_domain,
                    recipient: recipient_address,
                    body: message_body@,
                },
            ),
            res == old(self)@.outcome(
                Call::Dispatch {
                    sender: H256(sender.0),
                    destination: destination_domain,
                    recipient: recipient_address,
                    body: message_body@,
                },
            ),
    {
        self.do_dispatch(sender.into_h256(), destination_domain, recipient_address, message_body)
    }

    /// Numbers the message, hashes it into the tree, records the new root
    /// for the index of the new leaf, and tells of it in a `Dispatch`
    /// event. A refused message changes nothing.
    pub fn do_dispatch(
        &mut self,
        sender: H256,
        destination_domain: u32,
        recipient_address: H256,
        message_body: Vec<u8>,
    ) -> (res: Result<(), Error>)
        requires
            old(self).wf(),
        ensures
            final(self).wf(),
            final(self)@ == old(self)@.step(
                Call::Dispatch {
                    sender,
                    destination: destination_domain,
                    recipient: recipient_address,
                    body: message_body@,
                },
            ),
            res == old(self)@.outcome(
                Call::Dispatch {
                    sender,
                    destination: destination_domain,
                    recipient: recipient_address,
                    body: message_body@,
                },
            ),
    {
        match self.ensure_not_failed() {
            Ok(()) => {},
            Err(e) => {
                return Err(e);
            },
        }
        if message_body.len() >= self.max_message_body_bytes as usize {
            return Err(Error::MessageTooLarge);
        }
        let nonce = self.get_nonce(destination_domain);
        let new_nonce = match nonce.checked_add(1) {
            Some(n) => n,
            None => {
                return Err(Error::ArithmeticOverflow);
            },
        };
        let message = NomadMessage {
            origin: self.base.local_domain,
            sender,
            nonce,
            destination: destination_domain,
            recipient: recipient_address,
            body: message_body,
        };
        let message_hash = message.hash();
        let (root, count) = match self.tree.ingest(message_hash) {
            Ok(grown) => grown,
            Err(_) => {
                return Err(Error::IngestionError);
            },
        };
        let index = count - 1;
        self.nonces.insert(destination_domain, new_nonce);
        self.history.record(index, root);
        let event = Event::Dispatch {
            message_hash,
            leaf_index: index,
            destination_and_nonce: destination_and_nonce(destination_domain, nonce),
            committed_root: self.base.committed_root,
            message_bytes: message.to_vec(),
        };
        self.deposit_event(event);
        proof {
            let call = Call::Dispatch {
                sender,
                destination: destination_domain,
                recipient: recipient_address,
                body: message.body@,
            };
            lemma_step_keeps_consistent(old(self)@, call);
            law_committed_root_was_produced(old(self)@, call);
        }
        Ok(())
    }

    /// Judges a signed update, where `recovered` is what recovering its
    /// signer gave. A refused update changes nothing. An accepted update
    /// whose new root the history does not hold is fraud: the domain
    /// fails, and an `UpdaterSlashed` and an `ImproperUpdate` event tell of
    /// it. Returns whether it was fraud.
    pub fn check_fraud(
        &mut self,
        sender: AccountId,
        signed_update: &SignedUpdate,
        recovered: Result<H160, SignatureError>,
    ) -> (res: Result<bool, Error>)
        requires
            old(self).wf(),
        ensures
            final(self).wf(),
            final(self)@ == old(self)@.step(
                Call::ImproperUpdate { caller: sender, signed_update: *signed_update, recovered },
            ),
            res == match old(self)@.update_error(*signed_update, recovered) {
                Some(e) => Err::<bool, Error>(e),
                None => Ok(old(self)@.is_fraud(*signed_update)),
            },
    {
        match self.ensure_not_failed() {
            Ok(()) => {},
            Err(e) => {
                return Err(e);
            },
        }
        if self.base.committed_root != signed_update.previous_root() {
            return Err(Error::CommittedRootMismatch);
        }
        match recovered {
            Err(_) => {
                return Err(Error::SignatureRecoveryError);
            },
            Ok(signer) => {
                if signer != self.base.updater {
                    return Err(Error::InvalidUpdaterSignature);
                }
            },
        }
        let root_exists = self.history.lookup_index(signed_update.new_root()).is_some();
        if !root_exists {
            self.fail(sender);
            self.deposit_event(
                Event::ImproperUpdate {
                    previous_root: signed_update.previous_root(),
                    new_root: signed_update.new_root(),
                    signature: signed_update.signature.to_vec(),
                },
            );
            proof {
                let call = Call::ImproperUpdate { caller: sender, signed_update: *signed_update, recovered };
                lemma_step_keeps_consistent(old(self)@, call);
                law_committed_root_was_produced(old(self)@, call);
            }
            return Ok(true);
        }
        Ok(false)
    }

    /// Applies a signed update, where `recovered` is what recovering its
    /// signer gave. Fraud is handled as [`Pallet::check_fraud`] does, and
    /// is no error. An honest update prunes the history from its new root
    /// back to its previous root, commits the new root, and tells of it in
    /// an `Update` event.
    pub fn apply_update(
        &mut self,
        sender: AccountId,
        signed_update: SignedUpdate,
        recovered: Result<H160, SignatureError>,
    ) -> (res: Result<(), Error>)
        requires
            old(self).wf(),
        ensures
            final(self).wf(),
            final(self)@ == old(self)@.step(Call::Update { caller: sender, signed_update, recovered }),
            res == old(self)@.outcome(Call::Update { caller: sender, signed_update, recovered }),
    {
        let fraud = match self.check_fraud(sender, &signed_update, recovered) {
            Ok(fraud) => fraud,
            Err(e) => {
                return Err(e);
            },
        };
        if fraud {
            return Ok(());
        }
        let new_root = signed_update.new_root();
        let previous_root = signed_update.previous_root();
        let index = match self.history.lookup_index(new_root) {
            Some(index) => index,
            None => {
                return Err(Error::RootNotFoundInHistory);
            },
        };
        self.history.prune(index, new_root, previous_root);
        self.base.set_committed_root(new_root);
        self.deposit_event(
            Event::Update {
                domain: self.base.local_domain,
                previous_root,
                new_root,
                signature: signed_update.signature.to_vec(),
            },
        );
        proof {
            let call = Call::Update { caller: sender, signed_update, recovered };
            lemma_step_keeps_consistent(old(self)@, call);
            law_committed_root_was_produced(old(self)@, call);
        }
        Ok(())
    }

    /// Recovers the signer of `signed_update` and judges the update as
    /// [`Pallet::check_fraud`] does.
    fn do_improper_update(&mut self, sender: AccountId, signed_update: &SignedUpdate) -> (res:
        Result<bool, Error>)
        requires
            old(self).wf(),
        ensures
            final(self).wf(),
            final(self)@ == old(self)@.step(
                Call::ImproperUpdate {
                    caller: sender,
                    signed_update: *signed_update,
                    recovered: signed_update.spec_recover(),
                },
            ),
            res == match old(self)@.update_error(*signed_update, signed_update.spec_recover()) {
                Some(e) => Err::<bool, Error>(e),
                None => Ok(old(self)@.is_fraud(*signed_update)),
            },
    {
        let recovered = signed_update.recover();
        self.check_fraud(sender, signed_update, recovered)
    }

    /// Recovers the signer of `signed_update` and applies the update as
    /// [`Pallet::apply_update`] does.
    fn do_update(&mut self, sender: AccountId, signed_update: SignedUpdate) -> (res: Result<
        (),
        Error,
    >)
        requires
            old(self).wf(),
        ensures
            final(self).wf(),
            final(self)@ == old(self)@.step(
                Call::Update { caller: sender, signed_update, recovered: signed_update.spec_recover() },
            ),
            res == old(self)@.outcome(
                Call::Update { caller: sender, signed_update, recovered: signed_update.spec_recover() },
            ),
    {
        let recovered = signed_update.recover();
        self.apply_update(sender, signed_update, recovered)
    }

    /// Submits a signed update on behalf of the authenticated caller
    /// `sender`.
    pub fn update(&mut self, sender: AccountId, signed_update: SignedUpdate) -> (res: Result<
        (),
        Error,
    >)
        requires
            old(self).wf(),
        ensures
            final(self).wf(),
            final(self)@ == old(self)@.step(
                Call::Update { caller: sender, signed_update, recovered: signed_update.spec_recover() },
            ),
            res == old(self)@.outcome(
                Call::Update { caller: sender, signed_update, recovered: signed_update.spec_recover() },
            ),
    {
        self.do_update(sender, signed_update)
    }

    /// Reports a signed update as fraudulent on behalf of the authenticated
    /// caller `sender`. A report of an honest update changes nothing and is
    /// no error.
    pub fn improper_update(&mut self, sender: AccountId, signed_update: SignedUpdate) -> (res:
        Result<(), Error>)
        requires
            old(self).wf(),
        ensures
            final(self).wf(),
            final(self)@ == old(self)@.step(
                Call::ImproperUpdate {
                    caller: sender,
                    signed_update,
                    recovered: signed_update.spec_recover(),
                },
            ),
            res == old(self)@.outcome(
                Call::ImproperUpdate {
                    caller: sender,
                    signed_update,
                    recovered: signed_update.spec_recover(),
                },
            ),
    {
        match self.do_improper_update(sender, &signed_update) {
            Ok(_) => Ok(()),
            Err(e) => Err(e),
        }
    }

    /// Replaces the bonded updater, where `rotated` is what the bonding
    /// ledger answered to the same rotation. Where the ledger refused,
    /// nothing changes and its error is handed on.
    pub fn set_updater<E>(&mut self, new_updater: H160, rotated: Result<(), E>) -> (res: Result<
        (),
        E,
    >)
        requires
            old(self).wf(),
        ensures
            final(self).wf(),
            final(self)@ == old(self)@.step(
                Call::SetUpdater { new_updater, rotated: rotated is Ok },
            ),
            res == rotated,
    {
        if rotated.is_ok() {
            self.base.updater = new_updater;
        }
        proof {
            let call = Call::SetUpdater { new_updater, rotated: rotated is Ok };
            lemma_step_keeps_consistent(old(self)@, call);
            law_committed_root_was_produced(old(self)@, call);
        }
        rotated
    }

    /// The base state.
    pub fn base(&self) -> (base: NomadBase)
        ensures
            base == self@.base,
    {
        self.base
    }

    /// Whether the domain still operates.
    pub fn state(&self) -> (state: NomadState)
        ensures
            state == self@.base.state,
    {
        self.base.state
    }

    /// The limit below which the length of a message body must stay.
    pub fn max_message_body_bytes(&self) -> (limit: u32)
        ensures
            limit == self@.max_message_body_bytes,
    {
        self.max_message_body_bytes
    }

    /// The root of the tree of all messages so far.
    pub fn root(&self) -> (root: H256)
        requires
            self.wf(),
        ensures
            root == merkle_root(self@.leaves),
    {
        self.tree.root()
    }

    /// The number of messages so far.
    pub fn count(&self) -> (count: u32)
        requires
            self.wf(),
        ensures
            count == self@.leaves.len(),
    {
        self.tree.count()
    }

    /// The nonce that was stored for `domain`, if one was.
    pub fn nonces(&self, domain: u32) -> (nonce: Option<u32>)
        ensures
            nonce == if self@.nonces.contains_key(domain) {
                Some(self@.nonces[domain])
            } else {
                None
            },
    {
        match self.nonces.get(&domain) {
            Some(nonce) => Some(*nonce),
            None => None,
        }
    }

    /// The nonce of the next message to `domain`.
    pub fn get_nonce(&self, domain: u32) -> (nonce: u32)
        ensures
            nonce == nonce_of(self@.nonces, domain),
    {
        match self.nonces(domain) {
            Some(nonce) => nonce,
            None => 0,
        }
    }

    /// The root that the history holds for a leaf index.
    pub fn index_to_root(&self, index: u32) -> (root: Option<H256>)
        ensures
            root == if self@.history.index_to_root.contains_key(index) {
                Some(self@.history.index_to_root[index])
            } else {
                None
            },
    {
        self.history.lookup_root(index)
    }

    /// The leaf index that the history holds for a root.
    pub fn root_to_index(&self, root: H256) -> (index: Option<u32>)
        ensures
            index == if self@.history.root_to_index.contains_key(root) {
                Some(self@.history.root_to_index[root])
            } else {
                None
            },
    {
        self.history.lookup_index(root)
    }

    /// The events that were emitted and not yet taken, oldest first.
    pub fn events(&self) -> (events: &Vec<Event>)
        ensures
            events_view(events@) == self@.events,
    {
        &self.events
    }

    /// Takes the events out of the log, oldest first.
    pub fn take_events(&mut self) -> (events: Vec<Event>)
        requires
            old(self).wf(),
        ensures
            final(self).wf(),
            final(self)@ == old(self)@.step(Call::TakeEvents),
            events_view(events@) == old(self)@.events,
            final(self)@ == (HomeView { events: Seq::empty(), ..old(self)@ }),
    {
        let mut events: Vec<Event> = Vec::new();
        std::mem::swap(&mut events, &mut self.events);
        assert(events_view(self.events@) =~= Seq::empty());
        proof {
            lemma_step_keeps_consistent(old(self)@, Call::TakeEvents);
            law_committed_root_was_produced(old(self)@, Call::TakeEvents);
        }
        events
    }
}

impl Clone for Event {
    fn clone(&self) -> (copy: Event)
        ensures
            copy@ == self@,
    {
        match self {
            Event::Dispatch {
                message_hash,
                leaf_index,
                destination_and_nonce,
                committed_root,
                message_bytes,
            } => Event::Dispatch {
                message_hash: *message_hash,
                leaf_index: *leaf_index,
                destination_and_nonce: *destination_and_nonce,
                committed_root: *committed_root,
                message_bytes: copy_bytes(message_bytes.as_slice()),
            },
            Event::Update { domain, previous_root, new_root, signature } => Event::Update {
                domain: *domain,
                previous_root: *previous_root,
                new_root: *new_root,
                signature: copy_bytes(signature.as_slice()),
            },
            Event::ImproperUpdate { previous_root, new_root, signature } => Event::ImproperUpdate {
                previous_root: *previous_root,
                new_root: *new_root,
                signature: copy_bytes(signature.as_slice()),
            },
            Event::UpdaterSlashed { updater, reporter } => Event::UpdaterSlashed {
                updater: *updater,
                reporter: *reporter,
            },
        }
    }
}

impl PartialEq for Event {
    fn eq(&self, other: &Event) -> (same: bool) {
        match (self, other) {
            (
                Event::Dispatch {
                    message_hash: h1,
                    leaf_index: i1,
                    destination_and_nonce: d1,
                    committed_root: c1,
                    message_bytes: m1,
                },
                Event::Dispatch {
                    message_hash: h2,
                    leaf_index: i2,
                    destination_and_nonce: d2,
                    committed_root: c2,
                    message_bytes: m2,
                },
            ) => *h1 == *h2 && *i1 == *i2 && *d1 == *d2 && *c1 == *c2 && bytes_eq(
                m1.as_slice(),
                m2.as_slice(),
            ),
            (
                Event::Update { domain: d1, previous_root: p1, new_root: n1, signature: s1 },
                Event::Update { domain: d2, previous_root: p2, new_root: n2, signature: s2 },
            ) => *d1 == *d2 && *p1 == *p2 && *n1 == *n2 && bytes_eq(s1.as_slice(), s2.as_slice()),
            (
                Event::ImproperUpdate { previous_root: p1, new_root: n1, signature: s1 },
                Event::ImproperUpdate { previous_root: p2, new_root: n2, signature: s2 },
            ) => *p1 == *p2 && *n1 == *n2 && bytes_eq(s1.as_slice(), s2.as_slice()),
            (
                Event::UpdaterSlashed { updater: u1, reporter: r1 },
                Event::UpdaterSlashed { updater: u2, reporter: r2 },
            ) => *u1 == *u2 && *r1 == *r2,
            _ => false,
        }
    }
}

impl vstd::std_specs::cmp::PartialEqSpecImpl for Event {
    open spec fn obeys_eq_spec() -> bool {
        true
    }

    open spec fn eq_spec(&self, other: &Event) -> bool {
        self@ == other@
    }
}

} // verus!
