use vstd::prelude::*;

use crate::crypto::{copy_bytes, eq_bytes};
use crate::error::Error;

verus! {

/// A reference to one block of the host chain: its height and its hash.
#[derive(Debug)]
pub struct BlockRef {
    pub number: u64,
    pub hash: Vec<u8>,
}

impl View for BlockRef {
    type V = (u64, Seq<u8>);

    open spec fn view(&self) -> (u64, Seq<u8>) {
        (self.number, self.hash@)
    }
}

impl BlockRef {
    /// An owned copy of this reference.
    pub fn duplicate(&self) -> (r: BlockRef)
        ensures
            r@ == self@,
    {
        BlockRef { number: self.number, hash: copy_bytes(self.hash.as_slice()) }
    }
}

/// Whether two references name the same block.
pub fn ref_eq(a: &BlockRef, b: &BlockRef) -> (r: bool)
    ensures
        r == (a@ == b@),
{
    a.number == b.number && eq_bytes(a.hash.as_slice(), b.hash.as_slice())
}

/// Whether a block finalized as the chain's chosen head was newly committed
/// or had been committed already through another path.
#[derive(Clone, Copy, Debug, PartialEq, Eq, Structural)]
pub enum FinalizeOutcome {
    Applied,
    AlreadyFinalized,
}

/// The capabilities this layer needs from a host chain backend: committing a
/// block as final, a small auxiliary store for the resume marker, and reads
/// of the finalized state. Any backend that keeps the stated duties can be
/// plugged in; `ChainModel` below is the verified in-memory one.
pub trait ClientForAleph: Sized {
    /// The finalized blocks, in finalization order.
    spec fn finalized_refs(&self) -> Seq<(u64, Seq<u8>)>;

    /// The persisted resume marker, if one was ever written.
    spec fn checkpoint(&self) -> Option<u64>;

    /// Commits `r` as final. A block already final is a no-op, not an error;
    /// a rejected block leaves the finalized state unchanged.
    fn finalize_block(&mut self, r: &BlockRef) -> (res: Result<FinalizeOutcome, Error>)
        ensures
            final(self).checkpoint() == old(self).checkpoint(),
            match res {
                Ok(FinalizeOutcome::Applied) => !old(self).finalized_refs().contains(r@) && final(self).finalized_refs() == old(self).finalized_refs().push(r@),
                Ok(FinalizeOutcome::AlreadyFinalized) => old(self).finalized_refs().contains(r@)
                    && final(self).finalized_refs() == old(self).finalized_refs(),
                Err(_) => final(self).finalized_refs() == old(self).finalized_refs(),
            },
    ;

    /// Reads the persisted resume marker.
    fn read_checkpoint(&self) -> (r: Option<u64>)
        ensures
            r == self.checkpoint(),
    ;

    /// Persists the resume marker.
    fn write_checkpoint(&mut self, position: u64) -> (res: Result<(), Error>)
        ensures
            final(self).finalized_refs() == old(self).finalized_refs(),
            match res {
                Ok(()) => final(self).checkpoint() == Some(position),
                Err(_) => final(self).checkpoint() == old(self).checkpoint(),
            },
    ;

    /// The most recently finalized block, if any.
    fn finalized_tip(&self) -> (r: Option<BlockRef>)
        ensures
            match r {
                Some(b) => self.finalized_refs().len() > 0 && b@ == self.finalized_refs().last(),
                None => self.finalized_refs().len() == 0,
            },
    ;

    /// The chain's current fork-choice head. Nothing is promised of the
    /// choice itself; a transiently unavailable backend answers
    /// `ChainUnavailable`, which callers treat as "no candidate this round",
    /// never as an epoch failure.
    fn best_block(&self) -> (r: Result<BlockRef, Error>)
        ensures
            r matches Err(e) ==> e == Error::ChainUnavailable,
    ;
}

/// A verified in-memory chain backend: the finalized blocks in order, the
/// fork-choice head the embedding sets, and the persisted resume marker.
pub struct ChainModel {
    finalized: Vec<BlockRef>,
    best: Option<BlockRef>,
    saved_position: Option<u64>,
}

impl ChainModel {
    #[verifier::type_invariant]
    spec fn wf(self) -> bool {
        forall|i: int, j: int|
            0 <= i < j < self.finalized@.len() ==> self.finalized@[i]@ != self.finalized@[j]@
    }

    /// The fork-choice head the model currently reports.
    pub closed spec fn best_spec(&self) -> Option<(u64, Seq<u8>)> {
        match self.best {
            Some(b) => Some(b@),
            None => None,
        }
    }

    /// An empty chain: nothing finalized, no head, no marker.
    pub fn new() -> (c: ChainModel)
        ensures
            c.finalized_refs().len() == 0,
            c.checkpoint() is None,
            c.best_spec() is None,
    {
        ChainModel { finalized: Vec::new(), best: None, saved_position: None }
    }

    /// Sets the fork-choice head the model reports.
    pub fn set_best(&mut self, b: BlockRef)
        ensures
            final(self).best_spec() == Some(b@),
            final(self).finalized_refs() == old(self).finalized_refs(),
            final(self).checkpoint() == old(self).checkpoint(),
    {
        proof {
            use_type_invariant(&*self);
        }
        self.best = Some(b);
    }

    /// Where `r` stands in the finalization order, if it is finalized.
    fn position_of(&self, r: &BlockRef) -> (p: Option<usize>)
        ensures
            match p {
                Some(i) => i < self.finalized_refs().len() && self.finalized_refs()[i as int]
                    == r@,
                None => !self.finalized_refs().contains(r@),
            },
    {
        let n = self.finalized.len();
        let mut i: usize = 0;
        while i < n
            invariant
                i <= n,
                n == self.finalized@.len(),
                n == self.finalized_refs().len(),
                forall|j: int| 0 <= j < i ==> self.finalized_refs()[j] != r@,
            decreases n - i,
        {
            if ref_eq(&self.finalized[i], r) {
                return Some(i);
            }
            i += 1;
        }
        None
    }

    /// Whether both blocks are finalized with `ancestor` at or below
    /// `descendant` in the finalization order: the ancestry this model can
    /// answer. Richer block trees live in the embedding backend.
    pub fn is_ancestor(&self, ancestor: &BlockRef, descendant: &BlockRef) -> (r: bool)
        ensures
            r == exists|i: int, j: int|
                0 <= i <= j < self.finalized_refs().len() && self.finalized_refs()[i] == ancestor@
                    && self.finalized_refs()[j] == descendant@,
    {
        proof {
            use_type_invariant(&*self);
        }
        match (self.position_of(ancestor), self.position_of(descendant)) {
            (Some(i), Some(j)) => {
                if i <= j {
                    true
                } else {
                    proof {
                        assert forall|a: int, b: int|
                            0 <= a <= b < self.finalized_refs().len() implies !(
                        self.finalized_refs()[a] == ancestor@ && self.finalized_refs()[b]
                            == descendant@) by {
                            if self.finalized_refs()[a] == ancestor@ && self.finalized_refs()[b]
                                == descendant@ {
                                assert(a == i as int);
                                assert(b == j as int);
                            }
                        }
                    }
                    false
                }
            },
            _ => false,
        }
    }

    /// The fork-choice head, or `ChainUnavailable` while the model has none.
    pub fn best_candidate(&self) -> (r: Result<BlockRef, Error>)
        ensures
            match r {
                Ok(b) => self.best_spec() == Some(b@),
                Err(e) => e == Error::ChainUnavailable && self.best_spec() is None,
            },
    {
        match &self.best {
            Some(b) => Ok(b.duplicate()),
            None => Err(Error::ChainUnavailable),
        }
    }
}

impl ClientForAleph for ChainModel {
    closed spec fn finalized_refs(&self) -> Seq<(u64, Seq<u8>)> {
        Seq::new(self.finalized@.len(), |i: int| self.finalized@[i]@)
    }

    closed spec fn checkpoint(&self) -> Option<u64> {
        self.saved_position
    }

    fn finalize_block(&mut self, r: &BlockRef) -> (res: Result<FinalizeOutcome, Error>) {
        proof {
            use_type_invariant(&*self);
        }
        match self.position_of(r) {
            Some(_) => {
                proof {
                    assert(self.finalized_refs().contains(r@));
                }
                Ok(FinalizeOutcome::AlreadyFinalized)
            },
            None => {
                let ghost prev = self.finalized_refs();
                let ghost old_list = self.finalized@;
                let dup = r.duplicate();
                let mut list: Vec<BlockRef> = Vec::new();
                std::mem::swap(&mut list, &mut self.finalized);
                list.push(dup);
                proof {
                    assert forall|a: int, b: int|
                        0 <= a < b < list@.len() implies list@[a]@ != list@[b]@ by {
                        if b == old_list.len() as int {
                            if old_list[a]@ == r@ {
                                assert(prev[a] == r@);
                                assert(prev.contains(r@));
                            }
                        }
                    }
                }
                std::mem::swap(&mut list, &mut self.finalized);
                proof {
                    assert(self.finalized_refs() =~= prev.push(r@));
                }
                Ok(FinalizeOutcome::Applied)
            },
        }
    }

    fn read_checkpoint(&self) -> (r: Option<u64>) {
        self.saved_position
    }

    fn write_checkpoint(&mut self, position: u64) -> (res: Result<(), Error>) {
        proof {
            use_type_invariant(&*self);
        }
        self.saved_position = Some(position);
        Ok(())
    }

    fn finalized_tip(&self) -> (r: Option<BlockRef>) {
        proof {
            use_type_invariant(&*self);
        }
        let n = self.finalized.len();
        if n == 0 {
            None
        } else {
            Some(self.finalized[n - 1].duplicate())
        }
    }

    fn best_block(&self) -> (r: Result<BlockRef, Error>) {
        self.best_candidate()
    }
}

/// The block references of `batch` between two positions, as views.
pub open spec fn refs_view(batch: Seq<BlockRef>, from: int, to: int) -> Seq<(u64, Seq<u8>)> {
    Seq::new((to - from) as nat, |i: int| batch[from + i]@)
}

/// How many leading items of a batch starting at order position `start` were
/// already applied when the adapter stands at `position`.
pub open spec fn skip_count(position: u64, start: u64, len: nat) -> int {
    if position - start > len {
        len as int
    } else {
        position - start
    }
}

/// The batch suffix from `from` on is new to the chain and free of internal
/// duplicates.
pub open spec fn batch_fresh(chain: Seq<(u64, Seq<u8>)>, batch: Seq<BlockRef>, from: int) -> bool {
    (forall|k: int| from <= k < batch.len() ==> !chain.contains(batch[k]@)) && (forall|
        k: int,
        l: int,
    | from <= k < l < batch.len() ==> batch[k]@ != batch[l]@)
}

/// Applies the ordering engine's output to the chain, strictly in order. The
/// adapter remembers how many order positions it has applied; a batch whose
/// positions were already applied (a replay after restart) is skipped rather
/// than re-finalized, and a failed chain call halts the adapter for good
/// rather than let a later block overtake an earlier one.
pub struct Finalizer {
    position: u64,
    halted: bool,
}

impl Finalizer {
    /// How many order positions have been applied.
    pub closed spec fn position_spec(&self) -> u64 {
        self.position
    }

    /// Whether a fatal finalization failure has stopped the adapter.
    pub closed spec fn is_halted(&self) -> bool {
        self.halted
    }

    /// An adapter resuming from a persisted marker, or starting fresh.
    pub fn new(checkpoint: Option<u64>) -> (f: Finalizer)
        ensures
            f.position_spec() == (match checkpoint {
                Some(p) => p,
                None => 0u64,
            }),
            !f.is_halted(),
    {
        match checkpoint {
            Some(p) => Finalizer { position: p, halted: false },
            None => Finalizer { position: 0, halted: false },
        }
    }

    /// Reads the persisted marker from the chain and resumes from it, so a
    /// restart neither re-finalizes nor skips order positions.
    pub fn resume<C: ClientForAleph>(client: &C) -> (f: Finalizer)
        ensures
            f.position_spec() == (match client.checkpoint() {
                Some(p) => p,
                None => 0u64,
            }),
            !f.is_halted(),
    {
        Finalizer::new(client.read_checkpoint())
    }

    /// How many order positions have been applied.
    pub fn position(&self) -> (p: u64)
        ensures
            p == self.position_spec(),
    {
        self.position
    }

    /// Whether a fatal finalization failure has stopped the adapter.
    pub fn halted(&self) -> (h: bool)
        ensures
            h == self.is_halted(),
    {
        self.halted
    }

    /// Applies one batch of the engine's finalized order, whose first item
    /// stands at order position `start`. Already-applied positions are
    /// skipped; each remaining reference is committed in batch order and
    /// acknowledged in the persisted marker; on the first failed chain call
    /// the adapter halts with `FinalizationFailed`, leaving the chain
    /// extended by exactly the prefix that succeeded.
    pub fn on_finalized_order<C: ClientForAleph>(
        &mut self,
        client: &mut C,
        start: u64,
        batch: &Vec<BlockRef>,
    ) -> (res: Result<(), Error>)
        requires
            start <= old(self).position_spec(),
            start + batch@.len() <= u64::MAX,
        ensures
            old(self).is_halted() ==> res is Err && final(self).position_spec() == old(self).position_spec() && final(client).finalized_refs() == old(client).finalized_refs()
                && final(client).checkpoint() == old(client).checkpoint(),
            (!old(self).is_halted() && start + batch@.len() <= old(self).position_spec())
                ==> res is Ok,
            match res {
                Ok(()) => {
                    &&& !old(self).is_halted()
                    &&& !final(self).is_halted()
                    &&& final(self).position_spec() == if start + batch@.len() > old(self).position_spec() {
                        (start + batch@.len()) as u64
                    } else {
                        old(self).position_spec()
                    }
                    &&& (start + batch@.len() <= old(self).position_spec() ==> final(client).finalized_refs() == old(client).finalized_refs() && final(client).checkpoint()
                        == old(client).checkpoint())
                    &&& (start + batch@.len() > old(self).position_spec() ==> final(client).checkpoint() == Some(final(self).position_spec()))
                    &&& forall|k: int|
                        skip_count(old(self).position_spec(), start, batch@.len()) <= k
                            < batch@.len() ==> final(client).finalized_refs().contains(batch@[k]@)
                    &&& (batch_fresh(
                        old(client).finalized_refs(),
                        batch@,
                        skip_count(old(self).position_spec(), start, batch@.len()),
                    ) ==> final(client).finalized_refs() == old(client).finalized_refs()
                        + refs_view(
                        batch@,
                        skip_count(old(self).position_spec(), start, batch@.len()),
                        batch@.len() as int,
                    ))
                },
                Err(e) => {
                    &&& e == Error::FinalizationFailed
                    &&& final(self).is_halted()
                    &&& (!old(self).is_halted() ==> {
                        &&& final(self).position_spec() >= old(self).position_spec()
                        &&& final(self).position_spec() <= start + batch@.len()
                        &&& (batch_fresh(
                            old(client).finalized_refs(),
                            batch@,
                            skip_count(old(self).position_spec(), start, batch@.len()),
                        ) ==> final(client).finalized_refs() == old(client).finalized_refs()
                            + refs_view(
                            batch@,
                            skip_count(old(self).position_spec(), start, batch@.len()),
                            final(self).position_spec() - start,
                        ))
                    })
                },
            },
    {
        if self.halted {
            return Err(Error::FinalizationFailed);
        }
        let len = batch.len();
        let ghost old_pos = self.position;
        let ghost old_refs = client.finalized_refs();
        let ghost skip = skip_count(old_pos, start, batch@.len());
        let offset: u64 = self.position - start;
        if offset >= len as u64 {
            proof {
                assert(refs_view(batch@, skip, batch@.len() as int) =~= Seq::<(
                    u64,
                    Seq<u8>,
                )>::empty());
                assert(old_refs + refs_view(batch@, skip, batch@.len() as int) =~= old_refs);
            }
            return Ok(());
        }
        let mut i: usize = offset as usize;
        while i < len
            invariant
                skip <= i <= len,
                len == batch@.len(),
                start + len <= u64::MAX,
                !old(self).is_halted(),
                old(self).position_spec() == old_pos,
                start <= old_pos,
                old_pos < start + len,
                old_refs == old(client).finalized_refs(),
                skip == skip_count(old_pos, start, batch@.len()),
                !self.halted,
                self.position == start + i,
                client.checkpoint() == if i == skip {
                    old(client).checkpoint()
                } else {
                    Some(self.position)
                },
                forall|k: int| skip <= k < i ==> client.finalized_refs().contains(batch@[k]@),
                batch_fresh(old_refs, batch@, skip) ==> client.finalized_refs() == old_refs
                    + refs_view(batch@, skip, i as int),
            decreases len - i,
        {
            let r = &batch[i];
            let ghost prev = client.finalized_refs();
            let outcome = match client.finalize_block(r) {
                Ok(o) => o,
                Err(_) => {
                    self.halted = true;
                    proof {
                        if batch_fresh(old_refs, batch@, skip) {
                            assert(client.finalized_refs() == old_refs + refs_view(
                                batch@,
                                skip,
                                self.position - start,
                            ));
                        }
                    }
                    return Err(Error::FinalizationFailed);
                },
            };
            self.position = self.position + 1;
            proof {
                assert forall|k: int|
                    skip <= k < i + 1 implies client.finalized_refs().contains(batch@[k]@) by {
                    if k < i {
                        let idx = choose|idx: int|
                            0 <= idx < prev.len() && prev[idx] == batch@[k]@;
                        assert(client.finalized_refs()[idx] == batch@[k]@);
                    } else {
                        match outcome {
                            FinalizeOutcome::Applied => {
                                assert(client.finalized_refs()[prev.len() as int] == batch@[k]@);
                            },
                            FinalizeOutcome::AlreadyFinalized => {},
                        }
                    }
                }
                if batch_fresh(old_refs, batch@, skip) {
                    assert(!prev.contains(batch@[i as int]@)) by {
                        if prev.contains(batch@[i as int]@) {
                            let idx = choose|idx: int|
                                0 <= idx < prev.len() && prev[idx] == batch@[i as int]@;
                            if idx < old_refs.len() {
                                assert(old_refs.contains(batch@[i as int]@));
                            } else {
                                assert(batch@[skip + (idx - old_refs.len())]@ == batch@[
                                i as int]@);
                            }
                        }
                    }
                    assert(outcome == FinalizeOutcome::Applied);
                    assert(client.finalized_refs() =~= old_refs + refs_view(
                        batch@,
                        skip,
                        i + 1 as int,
                    ));
                }
            }
            match client.write_checkpoint(self.position) {
                Ok(()) => {},
                Err(_) => {
                    self.halted = true;
                    return Err(Error::FinalizationFailed);
                },
            }
            i += 1;
        }
        Ok(())
    }
}

} // verus!
