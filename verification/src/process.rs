//! Process identifiers and the idempotency ledger.
//!
//! Every multi-step asynchronous operation is keyed by a process identifier
//! derived from the block time and the identifying bytes of the transaction
//! that started it. A ledger maps process identifiers to completion states
//! so that a duplicated or out-of-order callback can be recognised and
//! applied at most once.

use vstd::prelude::*;
use vstd::bytes::{spec_u64_from_le_bytes, u64_from_le_bytes};
use vstd::slice::slice_subrange;
use crate::addr::ContractContext;

verus! {

/// Unique token correlating an asynchronous operation's request with its
/// later callback or event: the block time of the request and a tag read
/// little-endian from the first eight transaction bytes.
#[derive(Clone, Copy, Debug, PartialEq, Eq, Structural)]
pub struct ProcessId {
    pub time: u64,
    pub tx_tag: u64,
}

/// Completion state of an event delivered to a ballot.
#[derive(Clone, Copy, Debug, PartialEq, Eq, Structural)]
pub enum ProcessState {
    Received,
    Complete,
    Ignored,
}

/// Lifecycle of a ballot deployment tracked by its organization.
#[derive(Clone, Copy, Debug, PartialEq, Eq, Structural)]
pub enum BallotProcessState {
    Created,
    Deployed,
    Active,
    Tallying,
    Completed,
    Cancelled,
}

/// Lifecycle of an organization deployment tracked by the factory.
#[derive(Clone, Copy, Debug, PartialEq, Eq, Structural)]
pub enum OrganizationProcessState {
    Created,
    Deployed,
    Active,
    Deleted,
}

/// The process identifier that a call context determines.
pub open spec fn spec_process_id(ctx: &ContractContext) -> ProcessId {
    ProcessId {
        time: ctx.block_time,
        tx_tag: spec_u64_from_le_bytes(ctx.tx_bytes@.subrange(0, 8)),
    }
}

/// Generates the unique process identifier for the operation this call
/// starts, from the block time and the first eight transaction bytes.
pub fn generate_process_id(ctx: &ContractContext) -> (r: ProcessId)
    requires
        ctx.tx_bytes@.len() >= 8,
    ensures
        r == spec_process_id(ctx),
{
    let tag = u64_from_le_bytes(slice_subrange(ctx.tx_bytes.as_slice(), 0, 8));
    ProcessId { time: ctx.block_time, tx_tag: tag }
}

/// A ledger from process identifiers to a completion state, kept as a vector
/// of entries with pairwise distinct keys.
#[derive(Debug)]
pub struct ProcessLedger<S> {
    pub entries: Vec<(ProcessId, S)>,
}

impl<S: Copy> ProcessLedger<S> {
    /// The entries hold pairwise distinct keys.
    pub open spec fn wf(&self) -> bool {
        forall|i: int, j: int|
            0 <= i < j < self.entries@.len() ==> (#[trigger] self.entries@[i]).0 != (
            #[trigger] self.entries@[j]).0
    }

    /// The mathematical map this ledger represents.
    pub open spec fn as_map(&self) -> Map<ProcessId, S> {
        Self::entries_map(self.entries@)
    }

    pub open spec fn entries_map(entries: Seq<(ProcessId, S)>) -> Map<ProcessId, S>
        decreases entries.len(),
    {
        if entries.len() == 0 {
            Map::empty()
        } else {
            Self::entries_map(entries.drop_last()).insert(
                entries.last().0,
                entries.last().1,
            )
        }
    }

    /// In a well-formed ledger, an entry is in the map exactly at its key.
    proof fn lemma_entries_map_index(entries: Seq<(ProcessId, S)>, p: ProcessId)
        requires
            forall|a: int, b: int|
                0 <= a < b < entries.len() ==> (#[trigger] entries[a]).0 != (
                #[trigger] entries[b]).0,
        ensures
            Self::entries_map(entries).dom().contains(p) <==> (exists|i: int|
                0 <= i < entries.len() && (#[trigger] entries[i]).0 == p),
            forall|i: int|
                0 <= i < entries.len() && (#[trigger] entries[i]).0 == p
                    ==> Self::entries_map(entries)[p] == entries[i].1,
        decreases entries.len(),
    {
        if entries.len() > 0 {
            Self::lemma_entries_map_index(entries.drop_last(), p);
            assert(forall|i: int|
                0 <= i < entries.len() - 1 ==> #[trigger] entries.drop_last()[i] == entries[i]);
            if entries.last().0 == p {
                assert(entries[entries.len() - 1].0 == p);
            } else {
                if exists|i: int| 0 <= i < entries.len() && (#[trigger] entries[i]).0 == p {
                    let i = choose|i: int|
                        0 <= i < entries.len() && (#[trigger] entries[i]).0 == p;
                    assert(entries.drop_last()[i] == entries[i]);
                }
            }
        }
    }

    /// Creates an empty ledger.
    pub fn new() -> (r: Self)
        ensures
            r.wf(),
            r.as_map() == Map::<ProcessId, S>::empty(),
    {
        ProcessLedger { entries: Vec::new() }
    }

    /// Looks a process identifier up.
    pub fn get(&self, p: &ProcessId) -> (r: Option<S>)
        requires
            self.wf(),
        ensures
            r == if self.as_map().dom().contains(*p) {
                Some(self.as_map()[*p])
            } else {
                None::<S>
            },
    {
        let n = self.entries.len();
        let mut i: usize = 0;
        while i < n
            invariant
                n == self.entries@.len(),
                0 <= i <= n,
                forall|k: int| 0 <= k < i ==> (#[trigger] self.entries@[k]).0 != *p,
                self.wf(),
            decreases n - i,
        {
            if self.entries[i].0 == *p {
                proof {
                    Self::lemma_entries_map_index(self.entries@, *p);
                    assert(self.entries@[i as int].0 == *p);
                }
                return Some(self.entries[i].1);
            }
            i += 1;
        }
        proof {
            Self::lemma_entries_map_index(self.entries@, *p);
        }
        None
    }

    /// Records a state for a process identifier, replacing any earlier entry.
    pub fn put(&mut self, p: ProcessId, s: S)
        requires
            old(self).wf(),
        ensures
            final(self).wf(),
            final(self).as_map() == old(self).as_map().insert(p, s),
    {
        let n = self.entries.len();
        let mut i: usize = 0;
        while i < n
            invariant
                n == self.entries@.len(),
                0 <= i <= n,
                forall|k: int| 0 <= k < i ==> (#[trigger] self.entries@[k]).0 != p,
                self.wf(),
                *self == *old(self),
            decreases n - i,
        {
            if self.entries[i].0 == p {
                let ghost pre = self.entries@;
                self.entries[i] = (p, s);
                proof {
                    assert(self.entries@ =~= pre.update(i as int, (p, s)));
                    assert(pre[i as int].0 == p);
                    Self::lemma_update_at(pre, self.entries@, i as int, p, s);
                    assert(forall|k: int|
                        0 <= k < self.entries@.len() ==> (#[trigger] self.entries@[k]).0 == pre[
                        k].0);
                }
                return;
            }
            i += 1;
        }
        let ghost pre = self.entries@;
        self.entries.push((p, s));
        proof {
            assert(self.entries@.drop_last() =~= pre);
        }
    }

    /// Replacing the sole entry holding a key updates the map at that key.
    proof fn lemma_update_at(
        pre: Seq<(ProcessId, S)>,
        post: Seq<(ProcessId, S)>,
        i: int,
        p: ProcessId,
        s: S,
    )
        requires
            0 <= i < pre.len(),
            post == pre.update(i, (p, s)),
            pre[i].0 == p,
            forall|a: int, b: int|
                0 <= a < b < pre.len() ==> (#[trigger] pre[a]).0 != (#[trigger] pre[b]).0,
        ensures
            Self::entries_map(post) == Self::entries_map(pre).insert(p, s),
        decreases pre.len(),
    {
        if i == pre.len() - 1 {
            assert(post.drop_last() =~= pre.drop_last());
            assert(Self::entries_map(post) =~= Self::entries_map(pre).insert(p, s));
        } else {
            assert(post.drop_last() =~= pre.drop_last().update(i, (p, s)));
            Self::lemma_update_at(pre.drop_last(), post.drop_last(), i, p, s);
            assert(post.last() == pre.last());
            assert(pre[i].0 == p && pre[pre.len() - 1].0 != p);
            assert(Self::entries_map(post) =~= Self::entries_map(pre).insert(p, s));
        }
    }
}

} // verus!
