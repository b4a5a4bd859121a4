//! The identity of a domain, its bonded updater, its committed root and
//! whether it still operates.

use crate::primitives::{H160, H256};
use crate::update::{SignatureError, SignedUpdate};
use vstd::prelude::*;

verus! {

/// Whether a domain still accepts messages and updates.
#[derive(Clone, Copy, Debug, PartialEq, Eq, Structural)]
pub enum NomadState {
    /// It does.
    Active,
    /// Its updater attested a root that was never produced; it accepts
    /// nothing any more.
    Failed,
}

/// The base state of a domain.
#[derive(Clone, Copy, Debug)]
pub struct NomadBase {
    /// Whether the domain still operates.
    pub state: NomadState,
    /// The identifier of the domain.
    pub local_domain: u32,
    /// The root that the updater last committed.
    pub committed_root: H256,
    /// The address of the bonded updater.
    pub updater: H160,
}

impl NomadBase {
    /// The base state of a domain at its start.
    pub open spec fn spec_new(local_domain: u32, committed_root: H256, updater: H160) -> NomadBase {
        NomadBase { state: NomadState::Active, local_domain, committed_root, updater }
    }

    /// The base state of a domain at its start: active, with the given
    /// committed root and updater.
    #[verifier::when_used_as_spec(spec_new)]
    pub fn new(local_domain: u32, committed_root: H256, updater: H160) -> (base: NomadBase)
        ensures
            base == NomadBase::spec_new(local_domain, committed_root, updater),
    {
        NomadBase { state: NomadState::Active, local_domain, committed_root, updater }
    }

    /// Replaces the committed root.
    pub fn set_committed_root(&mut self, new_committed_root: H256)
        ensures
            *final(self) == (NomadBase { committed_root: new_committed_root, ..*old(self) }),
    {
        self.committed_root = new_committed_root;
    }

    /// Whether the bonded updater signed `signed_update`, or why no signer
    /// could be recovered from it.
    pub fn is_updater_signature(&self, signed_update: &SignedUpdate) -> (res: Result<
        bool,
        SignatureError,
    >)
        ensures
            res == match signed_update.spec_recover() {
                Ok(signer) => Ok::<bool, SignatureError>(signer == self.updater),
                Err(e) => Err(e),
            },
    {
        match signed_update.recover() {
            Ok(signer) => Ok(signer == self.updater),
            Err(e) => Err(e),
        }
    }
}

} // verus!
