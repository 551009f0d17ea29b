//! The secret tally protocol and the model of the confidential computation
//! engine.
//!
//! Votes are committed as secret variables tagged `Vote`, each holding one
//! scalar: the index of the chosen option. The tally program runs inside
//! the engine over all committed variables and accumulates one counter per
//! option; its only output is tagged `TallyResult` and is declassified as a
//! whole. The contract never sees a single vote.

use vstd::prelude::*;
use vstd::bytes::{spec_u32_to_le_bytes, u32_to_le_bytes};
use crate::addr::Address;
use crate::codec::read_u32;

verus! {

/// Kind tag of a secret variable.
#[derive(Clone, Copy, Debug, PartialEq, Eq, Structural)]
pub enum SecretVarType {
    Vote,
    TallyResult,
}

/// The published tally: one count per option and their sum.
#[derive(Clone, Copy, Debug, PartialEq, Eq, Structural)]
pub struct Tally {
    pub option_0: u32,
    pub option_1: u32,
    pub option_2: u32,
    pub option_3: u32,
    pub option_4: u32,
    pub total: u32,
}

/// The declassified output of the tally program: one count per option.
#[derive(Clone, Copy, Debug, PartialEq, Eq, Structural)]
pub struct TallyResult {
    pub option_0: u32,
    pub option_1: u32,
    pub option_2: u32,
    pub option_3: u32,
    pub option_4: u32,
}

/// Output structure of the confidential tally program.
#[derive(Clone, Copy, Debug, PartialEq, Eq, Structural)]
pub struct TallyOutput {
    pub option_0: u32,
    pub option_1: u32,
    pub option_2: u32,
    pub option_3: u32,
    pub option_4: u32,
}

/// One secret variable as the engine holds it: its kind tag and the secret
/// scalar a voter bound to it.
#[derive(Clone, Copy, Debug, PartialEq, Eq, Structural)]
pub struct SecretVar {
    pub metadata: SecretVarType,
    pub value: i8,
}

/// How many variables are votes for one option index.
pub open spec fn count_votes(vars: Seq<SecretVar>, opt: int) -> nat
    decreases vars.len(),
{
    if vars.len() == 0 {
        0
    } else {
        count_votes(vars.drop_last(), opt) + if vars.last().metadata == SecretVarType::Vote
            && vars.last().value == opt {
            1nat
        } else {
            0nat
        }
    }
}

/// How many variables are votes at all.
pub open spec fn count_vote_vars(vars: Seq<SecretVar>) -> nat
    decreases vars.len(),
{
    if vars.len() == 0 {
        0
    } else {
        count_vote_vars(vars.drop_last()) + if vars.last().metadata == SecretVarType::Vote {
            1nat
        } else {
            0nat
        }
    }
}

/// A count never exceeds the number of variables.
pub proof fn lemma_count_votes_bound(vars: Seq<SecretVar>, opt: int)
    ensures
        count_votes(vars, opt) <= vars.len(),
    decreases vars.len(),
{
    if vars.len() > 0 {
        lemma_count_votes_bound(vars.drop_last(), opt);
    }
}

/// The confidential tally program: counts, over every committed secret
/// variable tagged `Vote`, how many chose each option index. A vote outside
/// the five option slots counts for none of them.
pub fn tally_votes(vars: &Vec<SecretVar>) -> (r: TallyOutput)
    requires
        vars@.len() <= u32::MAX,
    ensures
        r.option_0 == count_votes(vars@, 0),
        r.option_1 == count_votes(vars@, 1),
        r.option_2 == count_votes(vars@, 2),
        r.option_3 == count_votes(vars@, 3),
        r.option_4 == count_votes(vars@, 4),
{
    let mut tally = TallyOutput {
        option_0: 0,
        option_1: 0,
        option_2: 0,
        option_3: 0,
        option_4: 0,
    };
    let n = vars.len();
    let mut i: usize = 0;
    while i < n
        invariant
            n == vars@.len(),
            n <= u32::MAX,
            0 <= i <= n,
            tally.option_0 == count_votes(vars@.subrange(0, i as int), 0),
            tally.option_1 == count_votes(vars@.subrange(0, i as int), 1),
            tally.option_2 == count_votes(vars@.subrange(0, i as int), 2),
            tally.option_3 == count_votes(vars@.subrange(0, i as int), 3),
            tally.option_4 == count_votes(vars@.subrange(0, i as int), 4),
        decreases n - i,
    {
        proof {
            lemma_count_votes_bound(vars@.subrange(0, i as int), 0);
            lemma_count_votes_bound(vars@.subrange(0, i as int), 1);
            lemma_count_votes_bound(vars@.subrange(0, i as int), 2);
            lemma_count_votes_bound(vars@.subrange(0, i as int), 3);
            lemma_count_votes_bound(vars@.subrange(0, i as int), 4);
        }
        let v = vars[i];
        if matches!(v.metadata, SecretVarType::Vote) {
            if v.value == 0 {
                tally.option_0 = tally.option_0 + 1;
            } else if v.value == 1 {
                tally.option_1 = tally.option_1 + 1;
            } else if v.value == 2 {
                tally.option_2 = tally.option_2 + 1;
            } else if v.value == 3 {
                tally.option_3 = tally.option_3 + 1;
            } else if v.value == 4 {
                tally.option_4 = tally.option_4 + 1;
            }
        }
        proof {
            let pre = vars@.subrange(0, i as int);
            let post = vars@.subrange(0, i + 1 as int);
            assert(post.drop_last() =~= pre);
            assert(post.last() == vars@[i as int]);
        }
        i += 1;
    }
    proof {
        assert(vars@.subrange(0, n as int) =~= vars@);
    }
    tally
}

/// The five per-option counts sum to the number of vote variables, as long
/// as every vote chose one of the five option slots.
pub proof fn lemma_counts_cover_votes(vars: Seq<SecretVar>)
    requires
        forall|i: int|
            0 <= i < vars.len() && (#[trigger] vars[i]).metadata == SecretVarType::Vote ==> 0
                <= vars[i].value < 5,
    ensures
        count_votes(vars, 0) + count_votes(vars, 1) + count_votes(vars, 2) + count_votes(vars, 3)
            + count_votes(vars, 4) == count_vote_vars(vars),
    decreases vars.len(),
{
    if vars.len() > 0 {
        assert(forall|i: int|
            0 <= i < vars.drop_last().len() ==> #[trigger] vars.drop_last()[i] == vars[i]);
        lemma_counts_cover_votes(vars.drop_last());
        assert(vars[vars.len() - 1] == vars.last());
    }
}

/// Encoding of a declassified tally result: five `u32` counts,
/// little-endian.
pub open spec fn enc_tally_result(t: TallyResult) -> Seq<u8> {
    spec_u32_to_le_bytes(t.option_0) + spec_u32_to_le_bytes(t.option_1) + spec_u32_to_le_bytes(
        t.option_2,
    ) + spec_u32_to_le_bytes(t.option_3) + spec_u32_to_le_bytes(t.option_4)
}

/// Encodes a tally result as the engine publishes it.
pub fn encode_tally_result(t: &TallyResult) -> (r: Vec<u8>)
    ensures
        r@ == enc_tally_result(*t),
{
    let mut out: Vec<u8> = Vec::new();
    let mut b = u32_to_le_bytes(t.option_0);
    out.append(&mut b);
    let mut b = u32_to_le_bytes(t.option_1);
    out.append(&mut b);
    let mut b = u32_to_le_bytes(t.option_2);
    out.append(&mut b);
    let mut b = u32_to_le_bytes(t.option_3);
    out.append(&mut b);
    let mut b = u32_to_le_bytes(t.option_4);
    out.append(&mut b);
    proof {
        assert(out@ =~= enc_tally_result(*t));
    }
    out
}

/// Decodes a declassified tally result: exactly twenty bytes, five counts.
pub fn decode_tally_result(v: &Vec<u8>) -> (r: Option<TallyResult>)
    ensures
        r is Some <==> v@.len() == 20,
        r matches Some(t) ==> v@ == enc_tally_result(t),
{
    if v.len() != 20 {
        return None;
    }
    let (option_0, p1) = match read_u32(v, 0) {
        Some(x) => x,
        None => { return None; },
    };
    let (option_1, p2) = match read_u32(v, p1) {
        Some(x) => x,
        None => { return None; },
    };
    let (option_2, p3) = match read_u32(v, p2) {
        Some(x) => x,
        None => { return None; },
    };
    let (option_3, p4) = match read_u32(v, p3) {
        Some(x) => x,
        None => { return None; },
    };
    let (option_4, _p5) = match read_u32(v, p4) {
        Some(x) => x,
        None => { return None; },
    };
    let t = TallyResult { option_0, option_1, option_2, option_3, option_4 };
    proof {
        vstd::bytes::lemma_auto_spec_u32_to_from_le_bytes();
        assert(v@.subrange(0, 4) =~= spec_u32_to_le_bytes(t.option_0));
        assert(v@.subrange(4, 8) =~= spec_u32_to_le_bytes(t.option_1));
        assert(v@.subrange(8, 12) =~= spec_u32_to_le_bytes(t.option_2));
        assert(v@.subrange(12, 16) =~= spec_u32_to_le_bytes(t.option_3));
        assert(v@.subrange(16, 20) =~= spec_u32_to_le_bytes(t.option_4));
        assert(v@ =~= enc_tally_result(t));
    }
    Some(t)
}

/// The five counts of a result fit their 32-bit sum.
pub open spec fn spec_tally_sum_ok(t: TallyResult) -> bool {
    t.option_0 + t.option_1 + t.option_2 + t.option_3 + t.option_4 <= u32::MAX
}

/// The published tally a declassified result determines: the five counts
/// and their sum.
pub open spec fn spec_tally_of(t: TallyResult) -> Tally {
    Tally {
        option_0: t.option_0,
        option_1: t.option_1,
        option_2: t.option_2,
        option_3: t.option_3,
        option_4: t.option_4,
        total: (t.option_0 + t.option_1 + t.option_2 + t.option_3 + t.option_4) as u32,
    }
}

/// A tally result always encodes to exactly twenty bytes.
pub proof fn lemma_enc_tally_result_len(t: TallyResult)
    ensures
        enc_tally_result(t).len() == 20,
{
    vstd::bytes::lemma_auto_spec_u32_to_from_le_bytes();
    assert(spec_u32_to_le_bytes(t.option_0).len() == 4);
    assert(spec_u32_to_le_bytes(t.option_1).len() == 4);
    assert(spec_u32_to_le_bytes(t.option_2).len() == 4);
    assert(spec_u32_to_le_bytes(t.option_3).len() == 4);
    assert(spec_u32_to_le_bytes(t.option_4).len() == 4);
}

/// No two distinct tally results share an encoding.
pub proof fn lemma_enc_tally_result_injective(t1: TallyResult, t2: TallyResult)
    requires
        enc_tally_result(t1) == enc_tally_result(t2),
    ensures
        t1 == t2,
{
    vstd::bytes::lemma_auto_spec_u32_to_from_le_bytes();
    lemma_enc_tally_result_len(t1);
    lemma_enc_tally_result_len(t2);
    let b1 = enc_tally_result(t1);
    let b2 = enc_tally_result(t2);
    assert(b1.subrange(0, 4) =~= spec_u32_to_le_bytes(t1.option_0));
    assert(b1.subrange(4, 8) =~= spec_u32_to_le_bytes(t1.option_1));
    assert(b1.subrange(8, 12) =~= spec_u32_to_le_bytes(t1.option_2));
    assert(b1.subrange(12, 16) =~= spec_u32_to_le_bytes(t1.option_3));
    assert(b1.subrange(16, 20) =~= spec_u32_to_le_bytes(t1.option_4));
    assert(b2.subrange(0, 4) =~= spec_u32_to_le_bytes(t2.option_0));
    assert(b2.subrange(4, 8) =~= spec_u32_to_le_bytes(t2.option_1));
    assert(b2.subrange(8, 12) =~= spec_u32_to_le_bytes(t2.option_2));
    assert(b2.subrange(12, 16) =~= spec_u32_to_le_bytes(t2.option_3));
    assert(b2.subrange(16, 20) =~= spec_u32_to_le_bytes(t2.option_4));
}

/// Builds the published tally from a declassified result; fails when the
/// five counts do not fit their 32-bit sum.
pub fn make_tally(t: &TallyResult) -> (r: Option<Tally>)
    ensures
        r is Some <==> spec_tally_sum_ok(*t),
        r matches Some(ta) ==> ta == spec_tally_of(*t),
{
    let sum: u64 = t.option_0 as u64 + t.option_1 as u64 + t.option_2 as u64 + t.option_3 as u64
        + t.option_4 as u64;
    if sum > u32::MAX as u64 {
        return None;
    }
    Some(
        Tally {
            option_0: t.option_0,
            option_1: t.option_1,
            option_2: t.option_2,
            option_3: t.option_3,
            option_4: t.option_4,
            total: sum as u32,
        },
    )
}

/// Status of the confidential computation engine attached to a ballot.
#[derive(Clone, Copy, Debug, PartialEq, Eq, Structural)]
pub enum CalculationStatus {
    Waiting,
    Calculating,
    Output,
    Done,
}

/// One secret variable as the contract sees it: its owner, its kind tag,
/// and, once declassified, its public bytes.
#[derive(Debug)]
pub struct ZkVariable {
    pub id: u32,
    pub owner: Address,
    pub metadata: SecretVarType,
    pub data: Option<Vec<u8>>,
}

/// The engine-held state the contract can read: the computation status and
/// the committed and pending secret variables.
#[derive(Debug)]
pub struct ZkState {
    pub calculation_state: CalculationStatus,
    pub secret_variables: Vec<ZkVariable>,
    pub pending_inputs: Vec<ZkVariable>,
}

/// A request for one secret input slot, bound later by the engine.
#[derive(Debug)]
pub struct ZkInputDef {
    pub callback_shortname: u32,
    pub metadata: SecretVarType,
}

/// A state change the contract asks of the engine.
#[derive(Debug)]
pub enum ZkStateChange {
    StartComputation { callback_shortname: u32, output_kinds: Vec<SecretVarType> },
    OpenVariables { variables: Vec<u32> },
    ContractDone,
}

impl ZkState {
    /// No two committed variables share an identifier.
    pub open spec fn wf(&self) -> bool {
        forall|i: int, j: int|
            0 <= i < j < self.secret_variables@.len() ==> (
            #[trigger] self.secret_variables@[i]).id != (
            #[trigger] self.secret_variables@[j]).id
    }

    /// The index of the variable with an identifier, if any.
    pub open spec fn spec_find(&self, id: u32) -> Option<int> {
        if exists|i: int|
            0 <= i < self.secret_variables@.len() && (#[trigger] self.secret_variables@[i]).id
                == id {
            Some(
                choose|i: int|
                    0 <= i < self.secret_variables@.len() && (
                    #[trigger] self.secret_variables@[i]).id == id,
            )
        } else {
            None
        }
    }

    /// Finds the first committed variable with an identifier.
    pub fn find_variable(&self, id: u32) -> (r: Option<usize>)
        ensures
            match r {
                Some(i) => i < self.secret_variables@.len() && self.secret_variables@[
                    i as int].id == id,
                None => self.spec_find(id) is None,
            },
    {
        let n = self.secret_variables.len();
        let mut i: usize = 0;
        while i < n
            invariant
                n == self.secret_variables@.len(),
                0 <= i <= n,
                forall|k: int| 0 <= k < i ==> (#[trigger] self.secret_variables@[k]).id != id,
            decreases n - i,
        {
            if self.secret_variables[i].id == id {
                return Some(i);
            }
            i += 1;
        }
        None
    }
}


/// The published total counts exactly the accepted votes: when every vote
/// chose one of the five option slots and the per-option counts are those
/// of the committed variables, the tally's total is the number of votes.
pub proof fn lemma_total_counts_all_votes(vars: Seq<SecretVar>, t: TallyResult)
    requires
        forall|i: int|
            0 <= i < vars.len() && (#[trigger] vars[i]).metadata == SecretVarType::Vote ==> 0
                <= vars[i].value < 5,
        t.option_0 == count_votes(vars, 0),
        t.option_1 == count_votes(vars, 1),
        t.option_2 == count_votes(vars, 2),
        t.option_3 == count_votes(vars, 3),
        t.option_4 == count_votes(vars, 4),
        spec_tally_sum_ok(t),
    ensures
        spec_tally_of(t).total == count_vote_vars(vars),
{
    lemma_counts_cover_votes(vars);
}


} // verus!
