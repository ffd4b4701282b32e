use vstd::prelude::*;

use crate::communication::{
    accepted_message, handle_incoming, sign_message, MessageKind, MAX_PAYLOAD_SIZE,
};
use crate::crypto::{AuthorityId, AuthorityKeystore};
use crate::error::Error;
use crate::registry::{distinct_ids, Registry};

verus! {

/// Names one run of the consensus protocol over one fixed authority set and
/// genesis point. Assigned monotonically by the embedding process and never
/// reused.
#[derive(Clone, Copy, Debug, PartialEq, Eq, Structural)]
pub struct EpochId(pub u64);

/// What one epoch's run is constructed from: the signing binding, the
/// epoch's authority list, and the epoch identifier. The embedding process
/// supplies the network, chain and task handles alongside.
pub struct AlephConfig {
    pub auth_keystore: AuthorityKeystore,
    pub authorities: Vec<AuthorityId>,
    pub epoch_id: EpochId,
}

/// Lifecycle phase of one epoch's run.
#[derive(Clone, Copy, Debug, PartialEq, Eq, Structural)]
pub enum PartyState {
    Constructed,
    Running,
    Stopped,
}

/// What the embedding process reports to the orchestrator.
#[derive(Clone, Copy, Debug, PartialEq, Eq, Structural)]
pub enum PartyEvent {
    Start,
    EngineTerminated,
    ShutdownRequested,
}

/// What the orchestrator asks the embedding process to do: spawn the ordering
/// engine's task, cancel it cooperatively, or surface a fatal epoch failure.
#[derive(Clone, Copy, Debug, PartialEq, Eq, Structural)]
pub enum PartyAction {
    SpawnEngine,
    CancelEngine,
    ReportFatal,
    Ignore,
}

/// The epoch lifecycle: starting spawns the engine; an engine that stops on
/// its own is a fatal epoch failure, never silently restarted; a shutdown
/// request cancels it cooperatively; a stopped epoch stays stopped.
pub open spec fn party_step(s: PartyState, e: PartyEvent) -> (PartyState, PartyAction) {
    match (s, e) {
        (PartyState::Constructed, PartyEvent::Start) => (
            PartyState::Running,
            PartyAction::SpawnEngine,
        ),
        (PartyState::Constructed, PartyEvent::ShutdownRequested) => (
            PartyState::Stopped,
            PartyAction::Ignore,
        ),
        (PartyState::Constructed, PartyEvent::EngineTerminated) => (
            PartyState::Constructed,
            PartyAction::Ignore,
        ),
        (PartyState::Running, PartyEvent::Start) => (PartyState::Running, PartyAction::Ignore),
        (PartyState::Running, PartyEvent::EngineTerminated) => (
            PartyState::Stopped,
            PartyAction::ReportFatal,
        ),
        (PartyState::Running, PartyEvent::ShutdownRequested) => (
            PartyState::Stopped,
            PartyAction::CancelEngine,
        ),
        (PartyState::Stopped, _) => (PartyState::Stopped, PartyAction::Ignore),
    }
}

/// The top-level orchestrator of one epoch: it owns the epoch's registry and
/// signing binding and supervises the engine task's lifecycle. Its own
/// authority always stands in its registry.
pub struct ConsensusParty {
    registry: Registry,
    keystore: AuthorityKeystore,
    my_index: usize,
    epoch: EpochId,
    state: PartyState,
}

impl ConsensusParty {
    #[verifier::type_invariant]
    spec fn wf(self) -> bool {
        self.my_index < self.registry@.len() && self.registry@[self.my_index as int]
            == self.keystore.id_view()
    }

    /// The epoch's authority identities, by dense index.
    pub closed spec fn registry_view(&self) -> Seq<Seq<u8>> {
        self.registry@
    }

    /// This participant's own identity.
    pub closed spec fn id_view(&self) -> Seq<u8> {
        self.keystore.id_view()
    }

    /// This participant's dense index.
    pub closed spec fn my_index_spec(&self) -> usize {
        self.my_index
    }

    /// The epoch being run.
    pub closed spec fn epoch_spec(&self) -> EpochId {
        self.epoch
    }

    /// The current lifecycle phase.
    pub closed spec fn state_spec(&self) -> PartyState {
        self.state
    }

    /// Builds the orchestrator for one epoch. Fails, before any network
    /// activity, on an empty or duplicated authority list and on a signer
    /// whose identity is not in the epoch's authority set; a missing signing
    /// key already failed when the keystore binding was built.
    pub fn new(config: AlephConfig) -> (r: Result<ConsensusParty, Error>)
        ensures
            match r {
                Ok(p) => {
                    &&& p.registry_view() == Seq::new(
                        config.authorities@.len(),
                        |i: int| config.authorities@[i]@,
                    )
                    &&& p.id_view() == config.auth_keystore.id_view()
                    &&& p.registry_view()[p.my_index_spec() as int] == p.id_view()
                    &&& p.my_index_spec() < p.registry_view().len()
                    &&& p.epoch_spec() == config.epoch_id
                    &&& p.state_spec() == PartyState::Constructed
                },
                Err(Error::EmptyAuthoritySet) => config.authorities@.len() == 0,
                Err(Error::DuplicateAuthority) => !distinct_ids(
                    Seq::new(config.authorities@.len(), |i: int| config.authorities@[i]@),
                ),
                Err(Error::NotAnAuthority) => !Seq::new(
                    config.authorities@.len(),
                    |i: int| config.authorities@[i]@,
                ).contains(config.auth_keystore.id_view()),
                Err(_) => false,
            },
    {
        let AlephConfig { auth_keystore, authorities, epoch_id } = config;
        let registry = match Registry::new(authorities) {
            Ok(reg) => reg,
            Err(e) => {
                return Err(e);
            },
        };
        let my_index = match registry.resolve_index(auth_keystore.authority_id()) {
            Ok(i) => i,
            Err(_) => {
                return Err(Error::NotAnAuthority);
            },
        };
        Ok(
            ConsensusParty {
                registry,
                keystore: auth_keystore,
                my_index,
                epoch: epoch_id,
                state: PartyState::Constructed,
            },
        )
    }

    /// Drives the lifecycle one step; everything but the phase is immutable
    /// for the epoch.
    pub fn on_event(&mut self, event: PartyEvent) -> (action: PartyAction)
        ensures
            (final(self).state_spec(), action) == party_step(old(self).state_spec(), event),
            final(self).registry_view() == old(self).registry_view(),
            final(self).id_view() == old(self).id_view(),
            final(self).my_index_spec() == old(self).my_index_spec(),
            final(self).epoch_spec() == old(self).epoch_spec(),
    {
        proof {
            use_type_invariant(&*self);
        }
        match (self.state, event) {
            (PartyState::Constructed, PartyEvent::Start) => {
                self.state = PartyState::Running;
                PartyAction::SpawnEngine
            },
            (PartyState::Constructed, PartyEvent::ShutdownRequested) => {
                self.state = PartyState::Stopped;
                PartyAction::Ignore
            },
            (PartyState::Constructed, PartyEvent::EngineTerminated) => PartyAction::Ignore,
            (PartyState::Running, PartyEvent::Start) => PartyAction::Ignore,
            (PartyState::Running, PartyEvent::EngineTerminated) => {
                self.state = PartyState::Stopped;
                PartyAction::ReportFatal
            },
            (PartyState::Running, PartyEvent::ShutdownRequested) => {
                self.state = PartyState::Stopped;
                PartyAction::CancelEngine
            },
            (PartyState::Stopped, _) => PartyAction::Ignore,
        }
    }

    /// The current lifecycle phase.
    pub fn state(&self) -> (s: PartyState)
        ensures
            s == self.state_spec(),
    {
        self.state
    }

    /// The completion signal the embedding process awaits: the run is over
    /// only once the epoch has stopped.
    pub fn is_completed(&self) -> (b: bool)
        ensures
            b == (self.state_spec() is Stopped),
    {
        match self.state {
            PartyState::Stopped => true,
            _ => false,
        }
    }

    /// This participant's dense index, always within the registry.
    pub fn my_node_index(&self) -> (i: usize)
        ensures
            i == self.my_index_spec(),
            i < self.registry_view().len(),
            self.registry_view()[i as int] == self.id_view(),
    {
        proof {
            use_type_invariant(&*self);
        }
        self.my_index
    }

    /// The epoch being run.
    pub fn epoch_id(&self) -> (e: EpochId)
        ensures
            e == self.epoch_spec(),
    {
        self.epoch
    }

    /// The epoch's registry.
    pub fn registry(&self) -> (r: &Registry)
        ensures
            r@ == self.registry_view(),
    {
        &self.registry
    }

    /// Signs one outgoing protocol message under this party's own index, so
    /// that every peer's receive filter accepts it.
    pub fn sign_unit_message(&self, kind: MessageKind, payload: Vec<u8>) -> (r: Option<Vec<u8>>)
        ensures
            r is Some <==> payload@.len() <= MAX_PAYLOAD_SIZE,
            r matches Some(raw) ==> accepted_message(
                self.registry_view(),
                raw@,
                kind,
                self.my_index_spec() as u64,
                payload@,
            ),
    {
        proof {
            use_type_invariant(&*self);
        }
        let ghost p = payload@;
        match sign_message(&self.keystore, self.my_index as u64, kind, payload) {
            Some(raw) => {
                proof {
                    let g = choose|g: Seq<u8>|
                        g.len() == 64 && raw@ == crate::communication::wire_bytes(
                            kind,
                            self.my_index as u64,
                            p,
                            g,
                        ) && crate::crypto::sig_valid(
                            self.keystore.id_view(),
                            crate::communication::signed_part(kind, self.my_index as u64, p),
                            g,
                        );
                    assert(accepted_message(
                        self.registry_view(),
                        raw@,
                        kind,
                        self.my_index as u64,
                        p,
                    )) by {
                        assert(g.len() == 64 && p.len() <= MAX_PAYLOAD_SIZE && raw@
                            == crate::communication::wire_bytes(kind, self.my_index as u64, p, g)
                            && (self.my_index as u64) < self.registry_view().len()
                            && crate::crypto::sig_valid(
                            self.registry_view()[self.my_index as int],
                            crate::communication::signed_part(kind, self.my_index as u64, p),
                            g,
                        ));
                    }
                }
                Some(raw)
            },
            None => None,
        }
    }

    /// Filters one incoming wire message against this party's registry; what
    /// it drops never reaches the ordering engine.
    pub fn handle(&self, raw: &[u8]) -> (r: Option<(u64, MessageKind, Vec<u8>)>)
        ensures
            match r {
                Some((sender, kind, payload)) => accepted_message(
                    self.registry_view(),
                    raw@,
                    kind,
                    sender,
                    payload@,
                ),
                None => forall|kind: MessageKind, sender: u64, payload: Seq<u8>|
                    !accepted_message(self.registry_view(), raw@, kind, sender, payload),
            },
    {
        handle_incoming(&self.registry, raw)
    }
}

} // verus!
