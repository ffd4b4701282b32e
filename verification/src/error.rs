use vstd::prelude::*;

verus! {

/// What can go wrong in the integration layer.
///
/// Configuration errors (`EmptyAuthoritySet`, `DuplicateAuthority`,
/// `KeyNotFound`, `NotAnAuthority`) are fatal at startup: the epoch must not
/// begin. `UnknownParticipant` answers lookups outside the epoch's authority
/// set. `ChainUnavailable` is transient ("no data this round").
/// `FinalizationFailed` is fatal for the epoch: the adapter halts rather than
/// skip an item of the finalization order.
#[derive(Clone, Copy, Debug, PartialEq, Eq, Structural)]
pub enum Error {
    EmptyAuthoritySet,
    DuplicateAuthority,
    KeyNotFound,
    NotAnAuthority,
    UnknownParticipant,
    ChainUnavailable,
    FinalizationFailed,
}

} // verus!
