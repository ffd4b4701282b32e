use vstd::prelude::*;

use crate::crypto::AuthorityId;
use crate::error::Error;

verus! {

/// No two entries of the identity list are the same.
pub open spec fn distinct_ids(ids: Seq<Seq<u8>>) -> bool {
    forall|i: int, j: int| 0 <= i < j < ids.len() ==> ids[i] != ids[j]
}

/// Bijective mapping between the epoch's authority identities and the dense
/// indices `0..n` that the ordering engine uses. Built once per epoch from
/// the configured authority list and immutable afterwards.
pub struct Registry {
    authorities: Vec<AuthorityId>,
}

impl View for Registry {
    type V = Seq<Seq<u8>>;

    closed spec fn view(&self) -> Seq<Seq<u8>> {
        Seq::new(self.authorities@.len(), |i: int| self.authorities@[i]@)
    }
}

impl Registry {
    #[verifier::type_invariant]
    spec fn wf(self) -> bool {
        self@.len() > 0 && distinct_ids(self@)
    }

    /// Builds the registry for one epoch. The list must be non-empty and
    /// free of duplicates; anything else is a fatal configuration error.
    pub fn new(authorities: Vec<AuthorityId>) -> (r: Result<Registry, Error>)
        ensures
            match r {
                Ok(reg) => reg@ == Seq::new(
                    authorities@.len(),
                    |i: int| authorities@[i]@,
                ) && authorities@.len() > 0 && distinct_ids(reg@),
                Err(Error::EmptyAuthoritySet) => authorities@.len() == 0,
                Err(Error::DuplicateAuthority) => !distinct_ids(
                    Seq::new(authorities@.len(), |i: int| authorities@[i]@),
                ),
                Err(_) => false,
            },
            r is Ok <==> authorities@.len() > 0 && distinct_ids(
                Seq::new(authorities@.len(), |i: int| authorities@[i]@),
            ),
    {
        let ghost ids = Seq::new(authorities@.len(), |i: int| authorities@[i]@);
        if authorities.len() == 0 {
            return Err(Error::EmptyAuthoritySet);
        }
        let n = authorities.len();
        let mut i: usize = 0;
        while i < n
            invariant
                i <= n,
                n == authorities@.len(),
                ids == Seq::new(authorities@.len(), |k: int| authorities@[k]@),
                forall|a: int, b: int| 0 <= a < b < i ==> ids[a] != ids[b],
                forall|a: int, b: int| 0 <= a < i && a < b < n ==> ids[a] != ids[b],
            decreases n - i,
        {
            let mut j: usize = i + 1;
            while j < n
                invariant
                    i < j <= n,
                    n == authorities@.len(),
                    ids == Seq::new(authorities@.len(), |k: int| authorities@[k]@),
                    forall|b: int| i < b < j ==> ids[i as int] != ids[b],
                decreases n - j,
            {
                if authorities[i].equals(&authorities[j]) {
                    proof {
                        assert(!distinct_ids(ids)) by {
                            assert(ids[i as int] == ids[j as int]);
                        }
                    }
                    return Err(Error::DuplicateAuthority);
                }
                j += 1;
            }
            i += 1;
        }
        let reg = Registry { authorities };
        proof {
            assert(reg@ =~= ids);
        }
        Ok(reg)
    }

    /// How many authorities this epoch has.
    pub fn len(&self) -> (n: usize)
        ensures
            n == self@.len(),
    {
        self.authorities.len()
    }

    /// The dense index of `id`, or `UnknownParticipant` for an identity
    /// outside the epoch's authority set.
    pub fn resolve_index(&self, id: &AuthorityId) -> (r: Result<usize, Error>)
        ensures
            match r {
                Ok(i) => i < self@.len() && self@[i as int] == id@,
                Err(e) => e == Error::UnknownParticipant && !self@.contains(id@),
            },
    {
        let n = self.authorities.len();
        let mut i: usize = 0;
        while i < n
            invariant
                i <= n,
                n == self@.len(),
                n == self.authorities@.len(),
                forall|j: int| 0 <= j < i ==> self@[j] != id@,
            decreases n - i,
        {
            if self.authorities[i].equals(id) {
                return Ok(i);
            }
            i += 1;
        }
        proof {
            assert(forall|j: int| 0 <= j < self@.len() ==> self@[j] != id@);
        }
        Err(Error::UnknownParticipant)
    }

    /// The identity at dense index `index`, or `UnknownParticipant` for an
    /// index outside `0..n`.
    pub fn resolve_identity(&self, index: usize) -> (r: Result<&AuthorityId, Error>)
        ensures
            match r {
                Ok(a) => index < self@.len() && a@ == self@[index as int],
                Err(e) => e == Error::UnknownParticipant && index >= self@.len(),
            },
    {
        if index < self.authorities.len() {
            Ok(&self.authorities[index])
        } else {
            Err(Error::UnknownParticipant)
        }
    }
}

/// Law: over a duplicate-free identity list, an identity names at most one
/// index, so identity-to-index resolution inverts index-to-identity lookup.
pub proof fn lemma_identity_index_unique(ids: Seq<Seq<u8>>, i: int, j: int)
    requires
        distinct_ids(ids),
        0 <= i < ids.len(),
        0 <= j < ids.len(),
        ids[i] == ids[j],
    ensures
        i == j,
{
}

/// Law: index-to-identity lookup followed by identity-to-index resolution is
/// the identity map on `0..n`. The returned flag is always true.
pub fn resolve_round_trip(registry: &Registry, index: usize) -> (r: bool)
    requires
        index < registry@.len(),
    ensures
        r,
{
    proof {
        use_type_invariant(&*registry);
    }
    let id = match registry.resolve_identity(index) {
        Ok(a) => a,
        Err(_) => {
            proof {
                assert(false);
            }
            return false;
        },
    };
    match registry.resolve_index(id) {
        Ok(i) => {
            proof {
                lemma_identity_index_unique(registry@, i as int, index as int);
            }
            i == index
        },
        Err(_) => {
            proof {
                assert(registry@.contains(registry@[index as int]));
                assert(false);
            }
            false
        },
    }
}

/// A participant as the ordering engine sees it: a full authority identity
/// together with its dense index for the epoch.
#[derive(Debug)]
pub struct NodeId {
    pub auth: AuthorityId,
    pub index: u64,
}

impl NodeId {
    /// The engine-facing index of this participant.
    pub fn my_index(&self) -> (r: Option<u64>)
        ensures
            r == Some(self.index),
    {
        Some(self.index)
    }
}

} // verus!
