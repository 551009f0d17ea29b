//! The ballot state machine.
//!
//! A ballot owns its lifecycle, its eligible-voter set, the vote intake and
//! the published tally. Its handlers are pure reducers: each takes the
//! persisted state and the call context and returns the new state and any
//! requests to the confidential computation engine, or an error when the
//! call must abort with no state change.
//!
//! Lifecycle: `Created -> Active -> Tallying -> Completed`, with
//! `Cancelled` reachable from every non-terminal status. `Completed` and
//! `Cancelled` are terminal: no handler changes the status, the tally, the
//! eligible voters or the voted set afterwards.

use vstd::prelude::*;
use vstd::assert_by_contradiction;
use crate::addr::{Address, ContractContext};
use crate::events::{BallotEvent, OrganizationEvent, OrganizationEventView};
use crate::members::AddressSet;
use crate::process::{
    generate_process_id, spec_process_id, BallotProcessState, ProcessId, ProcessLedger,
    ProcessState,
};
use crate::tally::{
    decode_tally_result, make_tally, CalculationStatus, SecretVarType, Tally, ZkInputDef, ZkState,
    ZkStateChange,
};

verus! {

/// Lifecycle status of a ballot; exactly one holds at any time.
#[derive(Clone, Copy, Debug, PartialEq, Eq, Structural)]
pub enum BallotStatus {
    Created,
    Active,
    Tallying,
    Completed,
    Cancelled,
}

/// Shortname of the callback bound to each secret vote input.
pub const VOTE_INPUTTED_SHORTNAME: u32 = 0x61;

/// Shortname of the callback run when the tally computation completes.
pub const TALLY_COMPUTE_COMPLETE_SHORTNAME: u32 = 0x62;

/// Longest allowed voting period, in seconds: thirty days.
pub const MAX_DURATION_SECONDS: u64 = 2592000;

/// Why a ballot call was aborted with no state change.
#[derive(Clone, Copy, Debug, PartialEq, Eq, Structural)]
pub enum BallotError {
    TooFewOptions,
    TooManyOptions,
    ZeroDuration,
    DurationTooLong,
    AdministratorIsOrganization,
    NotAdministrator,
    NotOrganization,
    NotAuthorized,
    WrongStatus,
    VotingClosed,
    NotEligible,
    AlreadyVoted,
    EngineBusy,
    UnexpectedOpenCount,
    UnknownVariable,
    MissingData,
    MalformedResult,
    TallyOverflow,
}

/// Persisted state of one ballot contract.
#[derive(Debug)]
pub struct BallotState {
    pub organization: Address,
    pub administrator: Address,
    pub title: String,
    pub description: String,
    pub options: Vec<String>,
    pub start_time: u64,
    pub end_time: u64,
    pub status: BallotStatus,
    pub tally: Option<Tally>,
    pub eligible_voters: AddressSet,
    pub already_voted: AddressSet,
    pub process_state: BallotProcessState,
    pub process_id: ProcessId,
    pub event_processes: ProcessLedger<ProcessState>,
}

/// Mathematical view of a ballot's state.
#[verifier::ext_equal]
pub struct BallotView {
    pub organization: Address,
    pub administrator: Address,
    pub title: Seq<char>,
    pub description: Seq<char>,
    pub options: Seq<Seq<char>>,
    pub start_time: u64,
    pub end_time: u64,
    pub status: BallotStatus,
    pub tally: Option<Tally>,
    pub eligible_voters: Set<Address>,
    pub already_voted: Set<Address>,
    pub process_state: BallotProcessState,
    pub process_id: ProcessId,
    pub event_processes: Map<ProcessId, ProcessState>,
}

impl View for BallotState {
    type V = BallotView;

    open spec fn view(&self) -> BallotView {
        BallotView {
            organization: self.organization,
            administrator: self.administrator,
            title: self.title@,
            description: self.description@,
            options: self.options@.map_values(|s: String| s@),
            start_time: self.start_time,
            end_time: self.end_time,
            status: self.status,
            tally: self.tally,
            eligible_voters: self.eligible_voters@,
            already_voted: self.already_voted@,
            process_state: self.process_state,
            process_id: self.process_id,
            event_processes: self.event_processes.as_map(),
        }
    }
}

impl BallotState {
    /// Structural well-formedness: the option count is within bounds, the
    /// voting window is ordered, the sets and the ledger are well formed,
    /// and the tally is present exactly on a completed ballot.
    pub open spec fn wf(&self) -> bool {
        &&& 2 <= self.options@.len() <= 5
        &&& self.start_time <= self.end_time
        &&& self.eligible_voters.wf()
        &&& self.already_voted.wf()
        &&& self.event_processes.wf()
        &&& (self.tally is Some <==> self.status == BallotStatus::Completed)
    }
}

/// Whether a status is terminal: no transition ever leaves it.
pub open spec fn is_terminal(s: BallotStatus) -> bool {
    s == BallotStatus::Completed || s == BallotStatus::Cancelled
}

/// The legal status transitions of one handler call.
pub open spec fn status_step_ok(pre: BallotStatus, post: BallotStatus) -> bool {
    ||| post == pre
    ||| (pre == BallotStatus::Created && post == BallotStatus::Active)
    ||| (pre == BallotStatus::Active && post == BallotStatus::Tallying)
    ||| (pre == BallotStatus::Tallying && post == BallotStatus::Completed)
    ||| (!is_terminal(pre) && post == BallotStatus::Cancelled)
}

/// The fields frozen by a terminal status are unchanged.
pub open spec fn core_frozen(pre: BallotView, post: BallotView) -> bool {
    &&& post.status == pre.status
    &&& post.tally == pre.tally
    &&& post.eligible_voters == pre.eligible_voters
    &&& post.already_voted == pre.already_voted
}

/// Once a terminal status is reached, a step changes none of the frozen
/// fields.
pub open spec fn respects_finality(pre: BallotView, post: BallotView) -> bool {
    is_terminal(pre.status) ==> core_frozen(pre, post)
}

/// A terminal status never changes again under legal transitions.
pub proof fn lemma_terminal_is_final(pre: BallotStatus, post: BallotStatus)
    requires
        is_terminal(pre),
        status_step_ok(pre, post),
    ensures
        post == pre,
{
}

/// Along any trace of legal status transitions, a terminal status persists
/// for ever; in particular at most one of `Completed` and `Cancelled` is
/// ever reached.
pub proof fn lemma_at_most_one_terminal(trace: Seq<BallotStatus>, i: int, j: int)
    requires
        forall|k: int| 0 <= k < trace.len() - 1 ==> status_step_ok(
            #[trigger] trace[k],
            trace[k + 1],
        ),
        0 <= i <= j < trace.len(),
        is_terminal(trace[i]),
    ensures
        trace[j] == trace[i],
    decreases j - i,
{
    if i < j {
        lemma_terminal_is_final(trace[i], trace[i + 1]);
        lemma_at_most_one_terminal(trace, i + 1, j);
    }
}

/// Creates a new ballot in status `Created`.
///
/// Fails, leaving nothing behind, when the option count is outside two to
/// five, the duration is zero or exceeds thirty days, or the administrator
/// is the organization itself.
pub fn initialize(
    ctx: &ContractContext,
    options: Vec<String>,
    title: String,
    description: String,
    organization: Address,
    administrator: Address,
    eligible_voters: Vec<Address>,
    duration_seconds: u64,
) -> (r: Result<BallotState, BallotError>)
    requires
        ctx.tx_bytes@.len() >= 8,
        ctx.block_time + MAX_DURATION_SECONDS <= u64::MAX,
    ensures
        r matches Err(e) ==> e == (if options@.len() > 5 {
            BallotError::TooManyOptions
        } else if options@.len() < 2 {
            BallotError::TooFewOptions
        } else if duration_seconds == 0 {
            BallotError::ZeroDuration
        } else if duration_seconds > MAX_DURATION_SECONDS {
            BallotError::DurationTooLong
        } else {
            BallotError::AdministratorIsOrganization
        }),
        r is Err <==> !(2 <= options@.len() <= 5) || duration_seconds == 0 || duration_seconds
            > MAX_DURATION_SECONDS || administrator == organization,
        r matches Ok(s) ==> s.wf() && s@ == (BallotView {
            organization,
            administrator,
            title: title@,
            description: description@,
            options: options@.map_values(|t: String| t@),
            start_time: ctx.block_time,
            end_time: (ctx.block_time + duration_seconds) as u64,
            status: BallotStatus::Created,
            tally: None,
            eligible_voters: eligible_voters@.to_set(),
            already_voted: Set::empty(),
            process_state: BallotProcessState::Created,
            process_id: spec_process_id(ctx),
            event_processes: Map::empty(),
        }),
{
    if options.len() > 5 {
        return Err(BallotError::TooManyOptions);
    }
    if options.len() < 2 {
        return Err(BallotError::TooFewOptions);
    }
    if duration_seconds == 0 {
        return Err(BallotError::ZeroDuration);
    }
    if duration_seconds > MAX_DURATION_SECONDS {
        return Err(BallotError::DurationTooLong);
    }
    if administrator == organization {
        return Err(BallotError::AdministratorIsOrganization);
    }
    let process_id = generate_process_id(ctx);
    let start_time = ctx.block_time;
    let end_time = start_time + duration_seconds;
    let s = BallotState {
        organization,
        administrator,
        title,
        description,
        options,
        start_time,
        end_time,
        status: BallotStatus::Created,
        tally: None,
        eligible_voters: AddressSet::from_vec(&eligible_voters),
        already_voted: AddressSet::new(),
        process_state: BallotProcessState::Created,
        process_id,
        event_processes: ProcessLedger::new(),
    };
    proof {
        assert(s@ =~= (BallotView {
            organization,
            administrator,
            title: s.title@,
            description: s.description@,
            options: s.options@.map_values(|t: String| t@),
            start_time: ctx.block_time,
            end_time: (ctx.block_time + duration_seconds) as u64,
            status: BallotStatus::Created,
            tally: None,
            eligible_voters: eligible_voters@.to_set(),
            already_voted: Set::empty(),
            process_state: BallotProcessState::Created,
            process_id: spec_process_id(ctx),
            event_processes: Map::empty(),
        }));
    }
    Ok(s)
}

/// The administrator opens the voting period: `Created -> Active`.
pub fn set_vote_active(ctx: &ContractContext, state: BallotState) -> (r: Result<
    BallotState,
    BallotError,
>)
    requires
        state.wf(),
    ensures
        r is Err <==> ctx.sender != state.administrator || state.status != BallotStatus::Created,
        r matches Err(e) ==> e == (if ctx.sender != state.administrator {
            BallotError::NotAdministrator
        } else {
            BallotError::WrongStatus
        }),
        r matches Ok(s) ==> s.wf() && status_step_ok(state.status, s.status)
            && respects_finality(state@, s@) && s@ == (BallotView {
            status: BallotStatus::Active,
            process_state: BallotProcessState::Active,
            ..state@
        }),
{
    if ctx.sender != state.administrator {
        return Err(BallotError::NotAdministrator);
    }
    if !matches!(state.status, BallotStatus::Created) {
        return Err(BallotError::WrongStatus);
    }
    let s = BallotState {
        status: BallotStatus::Active,
        process_state: BallotProcessState::Active,
        ..state
    };
    proof {
        assert(s@ =~= (BallotView {
            status: BallotStatus::Active,
            process_state: BallotProcessState::Active,
            ..state@
        }));
    }
    Ok(s)
}

/// The view a ballot has after an organization event is applied to it.
pub open spec fn spec_handle_org_event(
    pre: BallotView,
    event: OrganizationEventView,
) -> BallotView {
    let pid = event.process_id();
    if pre.status == BallotStatus::Active || pre.status == BallotStatus::Created {
        match event {
            OrganizationEventView::MembersAdded { members, .. } => BallotView {
                eligible_voters: pre.eligible_voters.union(members.to_set()),
                event_processes: pre.event_processes.insert(pid, ProcessState::Complete),
                ..pre
            },
            OrganizationEventView::MembersRemoved { members, .. } => BallotView {
                eligible_voters: pre.eligible_voters.difference(members.to_set()),
                event_processes: pre.event_processes.insert(pid, ProcessState::Complete),
                ..pre
            },
            _ => BallotView {
                event_processes: pre.event_processes.insert(pid, ProcessState::Ignored),
                ..pre
            },
        }
    } else {
        BallotView {
            event_processes: pre.event_processes.insert(pid, ProcessState::Ignored),
            ..pre
        }
    }
}

/// Merges a membership change from the parent organization into the
/// eligible voters, but only while the ballot is `Created` or `Active`;
/// in any other status the event is recorded as ignored and nothing else
/// changes. Only the parent organization may deliver events.
pub fn handle_org_event(
    ctx: &ContractContext,
    state: BallotState,
    event: &OrganizationEvent,
) -> (r: Result<BallotState, BallotError>)
    requires
        state.wf(),
    ensures
        r is Err <==> ctx.sender != state.organization,
        r matches Err(e) ==> e == BallotError::NotOrganization,
        r matches Ok(s) ==> s.wf() && s@ == spec_handle_org_event(state@, event@)
            && respects_finality(state@, s@) && status_step_ok(state.status, s.status)
            && s.status == state.status,
{
    if ctx.sender != state.organization {
        return Err(BallotError::NotOrganization);
    }
    let process_id = event.extract_process_id();
    let mut s = state;
    let active_or_created = matches!(s.status, BallotStatus::Active | BallotStatus::Created);
    if active_or_created {
        match event {
            OrganizationEvent::MembersAdded { members, .. } => {
                s.eligible_voters.add_all(members);
                s.event_processes.put(process_id, ProcessState::Complete);
            },
            OrganizationEvent::MembersRemoved { members, .. } => {
                s.eligible_voters.remove_all(members);
                s.event_processes.put(process_id, ProcessState::Complete);
            },
            _ => {
                s.event_processes.put(process_id, ProcessState::Ignored);
            },
        }
    } else {
        s.event_processes.put(process_id, ProcessState::Ignored);
    }
    proof {
        assert(s@ =~= spec_handle_org_event(state@, event@));
    }
    Ok(s)
}

/// A cast is accepted exactly when the ballot is active, the voting window
/// is open, the sender is eligible, and the sender has not voted yet.
pub open spec fn spec_cast_allowed(pre: BallotView, sender: Address, now: u64) -> bool {
    &&& pre.status == BallotStatus::Active
    &&& now <= pre.end_time
    &&& pre.eligible_voters.contains(sender)
    &&& !pre.already_voted.contains(sender)
}

/// The ballot view after an accepted cast: the sender is recorded as having
/// voted and the operation is logged complete.
pub open spec fn spec_cast(pre: BallotView, sender: Address, pid: ProcessId) -> BallotView {
    BallotView {
        already_voted: pre.already_voted.insert(sender),
        event_processes: pre.event_processes.insert(pid, ProcessState::Complete),
        ..pre
    }
}

/// The ballot view after a whole sequence of cast attempts: an accepted
/// cast records its sender, a rejected one changes nothing.
pub open spec fn spec_apply_casts(
    pre: BallotView,
    casts: Seq<(Address, u64, ProcessId)>,
) -> BallotView
    decreases casts.len(),
{
    if casts.len() == 0 {
        pre
    } else {
        let c = casts.first();
        let post = if spec_cast_allowed(pre, c.0, c.1) {
            spec_cast(pre, c.0, c.2)
        } else {
            pre
        };
        spec_apply_casts(post, casts.drop_first())
    }
}

/// Cast attempts never change the eligible voters and never remove a
/// recorded voter.
pub proof fn lemma_casts_monotone(pre: BallotView, casts: Seq<(Address, u64, ProcessId)>)
    ensures
        spec_apply_casts(pre, casts).eligible_voters == pre.eligible_voters,
        pre.already_voted.subset_of(spec_apply_casts(pre, casts).already_voted),
    decreases casts.len(),
{
    if casts.len() > 0 {
        let c = casts.first();
        let post = if spec_cast_allowed(pre, c.0, c.1) {
            spec_cast(pre, c.0, c.2)
        } else {
            pre
        };
        lemma_casts_monotone(post, casts.drop_first());
    }
}

/// An address recorded as having voted is never accepted again, whatever
/// casts come in between: no address votes twice.
pub proof fn lemma_no_second_cast(
    pre: BallotView,
    casts: Seq<(Address, u64, ProcessId)>,
    sender: Address,
    now: u64,
)
    requires
        pre.already_voted.contains(sender),
    ensures
        !spec_cast_allowed(spec_apply_casts(pre, casts), sender, now),
{
    lemma_casts_monotone(pre, casts);
}

/// An address outside the eligible voters is rejected, whatever casts come
/// in between.
pub proof fn lemma_non_eligible_always_rejected(
    pre: BallotView,
    casts: Seq<(Address, u64, ProcessId)>,
    sender: Address,
    now: u64,
)
    requires
        !pre.eligible_voters.contains(sender),
    ensures
        !spec_cast_allowed(spec_apply_casts(pre, casts), sender, now),
{
    lemma_casts_monotone(pre, casts);
}

/// Phase one of casting a vote: checks eligibility and non-replay, records
/// the voter, and registers one secret input slot tagged `Vote` for the
/// engine to bind the encrypted choice to. The vote's content never touches
/// the contract.
pub fn cast_vote(ctx: &ContractContext, state: BallotState) -> (r: Result<
    (BallotState, ZkInputDef),
    BallotError,
>)
    requires
        state.wf(),
        ctx.tx_bytes@.len() >= 8,
    ensures
        r is Err <==> !spec_cast_allowed(state@, ctx.sender, ctx.block_time),
        r matches Err(e) ==> e == (if state.status != BallotStatus::Active {
            BallotError::WrongStatus
        } else if ctx.block_time > state.end_time {
            BallotError::VotingClosed
        } else if !state@.eligible_voters.contains(ctx.sender) {
            BallotError::NotEligible
        } else {
            BallotError::AlreadyVoted
        }),
        r matches Ok((s, def)) ==> s.wf() && status_step_ok(state.status, s.status)
            && respects_finality(state@, s@) && s@ == spec_cast(
            state@,
            ctx.sender,
            spec_process_id(ctx),
        ) && def.metadata == SecretVarType::Vote && def.callback_shortname
            == VOTE_INPUTTED_SHORTNAME,
{
    if !matches!(state.status, BallotStatus::Active) {
        return Err(BallotError::WrongStatus);
    }
    if ctx.block_time > state.end_time {
        return Err(BallotError::VotingClosed);
    }
    if !state.eligible_voters.contains(&ctx.sender) {
        return Err(BallotError::NotEligible);
    }
    if state.already_voted.contains(&ctx.sender) {
        return Err(BallotError::AlreadyVoted);
    }
    let process_id = generate_process_id(ctx);
    let mut s = state;
    s.already_voted.insert(ctx.sender);
    s.event_processes.put(process_id, ProcessState::Complete);
    let def = ZkInputDef {
        callback_shortname: VOTE_INPUTTED_SHORTNAME,
        metadata: SecretVarType::Vote,
    };
    proof {
        assert(s@ =~= spec_cast(state@, ctx.sender, spec_process_id(ctx)));
    }
    Ok((s, def))
}

/// Phase two of casting a vote: the engine has bound the encrypted scalar.
/// The handler only re-checks that the ballot is still active; the state is
/// returned unchanged.
pub fn vote_inputted(
    ctx: &ContractContext,
    state: BallotState,
    inputted_variable: u32,
) -> (r: Result<BallotState, BallotError>)
    requires
        state.wf(),
    ensures
        r is Err <==> state.status != BallotStatus::Active,
        r matches Err(e) ==> e == BallotError::WrongStatus,
        r matches Ok(s) ==> s.wf() && s@ == state@ && respects_finality(state@, s@),
{
    if !matches!(state.status, BallotStatus::Active) {
        return Err(BallotError::WrongStatus);
    }
    Ok(state)
}

/// The administrator starts the tally computation: `Active -> Tallying`,
/// and only while the engine is idle, so the computation can be started at
/// most once.
pub fn compute_tally(ctx: &ContractContext, state: BallotState, zk_state: &ZkState) -> (r: Result<
    (BallotState, Vec<ZkStateChange>),
    BallotError,
>)
    requires
        state.wf(),
        ctx.tx_bytes@.len() >= 8,
    ensures
        r is Err <==> ctx.sender != state.administrator || zk_state.calculation_state
            != CalculationStatus::Waiting || state.status != BallotStatus::Active,
        r matches Err(e) ==> e == (if ctx.sender != state.administrator {
            BallotError::NotAdministrator
        } else if zk_state.calculation_state != CalculationStatus::Waiting {
            BallotError::EngineBusy
        } else {
            BallotError::WrongStatus
        }),
        r matches Ok((s, changes)) ==> s.wf() && status_step_ok(state.status, s.status)
            && respects_finality(state@, s@) && s@ == (BallotView {
            status: BallotStatus::Tallying,
            process_state: BallotProcessState::Tallying,
            event_processes: state@.event_processes.insert(
                spec_process_id(ctx),
                ProcessState::Complete,
            ),
            ..state@
        }) && changes@.len() == 1 && (changes@[0] matches ZkStateChange::StartComputation {
            callback_shortname,
            output_kinds,
        } && callback_shortname == TALLY_COMPUTE_COMPLETE_SHORTNAME && output_kinds@ == seq![
            SecretVarType::TallyResult,
        ]),
{
    if ctx.sender != state.administrator {
        return Err(BallotError::NotAdministrator);
    }
    if !matches!(zk_state.calculation_state, CalculationStatus::Waiting) {
        return Err(BallotError::EngineBusy);
    }
    if !matches!(state.status, BallotStatus::Active) {
        return Err(BallotError::WrongStatus);
    }
    let process_id = generate_process_id(ctx);
    let mut s = state;
    s.status = BallotStatus::Tallying;
    s.process_state = BallotProcessState::Tallying;
    s.event_processes.put(process_id, ProcessState::Complete);
    let mut output_kinds: Vec<SecretVarType> = Vec::new();
    output_kinds.push(SecretVarType::TallyResult);
    let mut changes: Vec<ZkStateChange> = Vec::new();
    changes.push(
        ZkStateChange::StartComputation {
            callback_shortname: TALLY_COMPUTE_COMPLETE_SHORTNAME,
            output_kinds,
        },
    );
    proof {
        assert(s@ =~= (BallotView {
            status: BallotStatus::Tallying,
            process_state: BallotProcessState::Tallying,
            event_processes: state@.event_processes.insert(
                spec_process_id(ctx),
                ProcessState::Complete,
            ),
            ..state@
        }));
    }
    Ok((s, changes))
}

/// The engine reports the computation finished: the ballot immediately
/// requests declassification of all output variables, changing nothing
/// else.
pub fn tally_compute_complete(
    ctx: &ContractContext,
    state: BallotState,
    output_variables: Vec<u32>,
) -> (r: (BallotState, Vec<ZkStateChange>))
    requires
        state.wf(),
    ensures
        r.0.wf() && r.0@ == state@ && respects_finality(state@, r.0@),
        r.1@.len() == 1 && (r.1@[0] matches ZkStateChange::OpenVariables { variables }
            && variables@ == output_variables@),
{
    let mut changes: Vec<ZkStateChange> = Vec::new();
    changes.push(ZkStateChange::OpenVariables { variables: output_variables });
    (state, changes)
}

/// The declassified tally as the completed ballot publishes it, given the
/// bytes the engine opened.
pub open spec fn spec_completed_view(pre: BallotView, t: Tally, pid: ProcessId) -> BallotView {
    BallotView {
        status: BallotStatus::Completed,
        process_state: BallotProcessState::Completed,
        tally: Some(t),
        eligible_voters: Set::empty(),
        already_voted: Set::empty(),
        event_processes: pre.event_processes.insert(pid, ProcessState::Complete),
        ..pre
    }
}

/// The opened-variable callback: reads the single declassified output,
/// reconstructs the five counts and their sum, stores them as the immutable
/// tally and completes the ballot.
///
/// More than one opened variable is a protocol violation and fails fast; a
/// variable whose tag is not `TallyResult` is silently discarded with no
/// state change, as it may belong to an unrelated session.
pub fn open_tally_result(
    ctx: &ContractContext,
    state: BallotState,
    zk_state: &ZkState,
    opened_variables: Vec<u32>,
) -> (r: Result<(BallotState, Vec<ZkStateChange>), BallotError>)
    requires
        state.wf(),
        zk_state.wf(),
        ctx.tx_bytes@.len() >= 8,
    ensures
        r is Ok <==> opened_variables@.len() == 1 && state.status == BallotStatus::Tallying && (
        zk_state.spec_find(opened_variables@[0]) matches Some(i) && (
        zk_state.secret_variables@[i].metadata != SecretVarType::TallyResult || (
        zk_state.secret_variables@[i].data matches Some(d) && (exists|t: crate::tally::TallyResult|
            d@ == crate::tally::enc_tally_result(t) && crate::tally::spec_tally_sum_ok(t))))),
        r matches Ok((s, changes)) ==> ({
            &&& s.wf()
            &&& respects_finality(state@, s@)
            &&& status_step_ok(state.status, s.status)
            &&& zk_state.spec_find(opened_variables@[0]) matches Some(i) && ({
                let v = zk_state.secret_variables@[i];
                &&& (v.metadata != SecretVarType::TallyResult ==> s@ == state@ && changes@.len()
                    == 0)
                &&& (v.metadata == SecretVarType::TallyResult ==> (v.data matches Some(d) && (
                forall|t: crate::tally::TallyResult|
                    d@ == #[trigger] crate::tally::enc_tally_result(t) ==> s@
                        == spec_completed_view(
                        state@,
                        crate::tally::spec_tally_of(t),
                        spec_process_id(ctx),
                    ))) && changes@.len() == 1 && changes@[0] is ContractDone)
            })
        }),
        r matches Err(e) ==> e == (if opened_variables@.len() != 1 {
            BallotError::UnexpectedOpenCount
        } else if state.status != BallotStatus::Tallying {
            BallotError::WrongStatus
        } else if zk_state.spec_find(opened_variables@[0]) is None {
            BallotError::UnknownVariable
        } else if zk_state.secret_variables@[zk_state.spec_find(opened_variables@[0])->Some_0].data
            is None {
            BallotError::MissingData
        } else if zk_state.secret_variables@[zk_state.spec_find(
            opened_variables@[0],
        )->Some_0].data->Some_0@.len() != 20 {
            BallotError::MalformedResult
        } else {
            BallotError::TallyOverflow
        }),
{
    if opened_variables.len() != 1 {
        return Err(BallotError::UnexpectedOpenCount);
    }
    if !matches!(state.status, BallotStatus::Tallying) {
        return Err(BallotError::WrongStatus);
    }
    let var_id = opened_variables[0];
    let idx = match zk_state.find_variable(var_id) {
        Some(i) => i,
        None => { return Err(BallotError::UnknownVariable); },
    };
    proof {
        assert(zk_state.secret_variables@[idx as int].id == var_id);
        let j = choose|j: int|
            0 <= j < zk_state.secret_variables@.len() && (
            #[trigger] zk_state.secret_variables@[j]).id == var_id;
        assert(j == idx as int);
        assert(zk_state.spec_find(var_id) == Some(idx as int));
    }
    if !matches!(zk_state.secret_variables[idx].metadata, SecretVarType::TallyResult) {
        // A declassification that does not carry a tally result may come
        // from an unrelated session: drop it with no state change.
        let changes: Vec<ZkStateChange> = Vec::new();
        return Ok((state, changes));
    }
    let data = match &zk_state.secret_variables[idx].data {
        Some(d) => d,
        None => { return Err(BallotError::MissingData); },
    };
    let tally_result = match decode_tally_result(data) {
        Some(t) => t,
        None => {
            proof {
                assert_by_contradiction!(
                    !(exists|t: crate::tally::TallyResult|
                        data@ == crate::tally::enc_tally_result(t)
                            && crate::tally::spec_tally_sum_ok(t)),
                    {
                        let t = choose|t: crate::tally::TallyResult|
                            data@ == crate::tally::enc_tally_result(t)
                                && crate::tally::spec_tally_sum_ok(t);
                        crate::tally::lemma_enc_tally_result_len(t);
                    }
                );
            }
            return Err(BallotError::MalformedResult);
        },
    };
    let new_tally = match make_tally(&tally_result) {
        Some(t) => t,
        None => {
            proof {
                assert_by_contradiction!(
                    !(exists|t: crate::tally::TallyResult|
                        data@ == crate::tally::enc_tally_result(t)
                            && crate::tally::spec_tally_sum_ok(t)),
                    {
                        let t = choose|t: crate::tally::TallyResult|
                            data@ == crate::tally::enc_tally_result(t)
                                && crate::tally::spec_tally_sum_ok(t);
                        crate::tally::lemma_enc_tally_result_injective(t, tally_result);
                    }
                );
            }
            return Err(BallotError::TallyOverflow);
        },
    };
    let process_id = generate_process_id(ctx);
    let mut s = state;
    s.tally = Some(new_tally);
    s.eligible_voters = AddressSet::new();
    s.already_voted = AddressSet::new();
    s.status = BallotStatus::Completed;
    s.process_state = BallotProcessState::Completed;
    s.event_processes.put(process_id, ProcessState::Complete);
    let mut changes: Vec<ZkStateChange> = Vec::new();
    changes.push(ZkStateChange::ContractDone);
    proof {
        assert(s@ =~= spec_completed_view(state@, new_tally, spec_process_id(ctx)));
        assert(s@ == spec_completed_view(
            state@,
            crate::tally::spec_tally_of(tally_result),
            spec_process_id(ctx),
        ));
        assert forall|t: crate::tally::TallyResult|
            data@ == #[trigger] crate::tally::enc_tally_result(t) implies s@
            == spec_completed_view(
            state@,
            crate::tally::spec_tally_of(t),
            spec_process_id(ctx),
        ) by {
            crate::tally::lemma_enc_tally_result_injective(t, tally_result);
        }
    }
    Ok((s, changes))
}

/// The administrator cancels the ballot. A terminal ballot cannot be
/// cancelled: `Completed` and `Cancelled` are final.
pub fn cancel_ballot(ctx: &ContractContext, state: BallotState) -> (r: Result<
    BallotState,
    BallotError,
>)
    requires
        state.wf(),
        ctx.tx_bytes@.len() >= 8,
    ensures
        r is Err <==> ctx.sender != state.administrator || is_terminal(state.status),
        r matches Err(e) ==> e == (if ctx.sender != state.administrator {
            BallotError::NotAdministrator
        } else {
            BallotError::WrongStatus
        }),
        r matches Ok(s) ==> s.wf() && respects_finality(state@, s@) && status_step_ok(
            state.status,
            s.status,
        ) && s@ == (BallotView {
            status: BallotStatus::Cancelled,
            process_state: BallotProcessState::Cancelled,
            event_processes: state@.event_processes.insert(
                spec_process_id(ctx),
                ProcessState::Complete,
            ),
            ..state@
        }),
{
    if ctx.sender != state.administrator {
        return Err(BallotError::NotAdministrator);
    }
    if matches!(state.status, BallotStatus::Completed | BallotStatus::Cancelled) {
        return Err(BallotError::WrongStatus);
    }
    let process_id = generate_process_id(ctx);
    let mut s = state;
    s.status = BallotStatus::Cancelled;
    s.process_state = BallotProcessState::Cancelled;
    s.event_processes.put(process_id, ProcessState::Complete);
    proof {
        assert(s@ =~= (BallotView {
            status: BallotStatus::Cancelled,
            process_state: BallotProcessState::Cancelled,
            event_processes: state@.event_processes.insert(
                spec_process_id(ctx),
                ProcessState::Complete,
            ),
            ..state@
        }));
    }
    Ok(s)
}

/// Records the process identifier of a status-change or members-update
/// event in the idempotency ledger; every other event is ignored. Nothing
/// else changes.
pub fn status_changed(ctx: &ContractContext, state: BallotState, event: &BallotEvent) -> (s:
    BallotState)
    requires
        state.wf(),
    ensures
        s.wf(),
        respects_finality(state@, s@),
        s@ == (match event@ {
            crate::events::BallotEventView::StatusChanged { process_id, .. } => (BallotView {
                event_processes: state@.event_processes.insert(process_id, ProcessState::Complete),
                ..state@
            }),
            crate::events::BallotEventView::MembersUpdated { process_id, .. } => (BallotView {
                event_processes: state@.event_processes.insert(process_id, ProcessState::Complete),
                ..state@
            }),
            _ => state@,
        }),
{
    let mut s = state;
    match event {
        BallotEvent::StatusChanged { process_id, .. } => {
            s.event_processes.put(*process_id, ProcessState::Complete);
        },
        BallotEvent::MembersUpdated { process_id, .. } => {
            s.event_processes.put(*process_id, ProcessState::Complete);
        },
        _ => {},
    }
    proof {
        assert(s@ =~= (match event@ {
            crate::events::BallotEventView::StatusChanged { process_id, .. } => (BallotView {
                event_processes: state@.event_processes.insert(process_id, ProcessState::Complete),
                ..state@
            }),
            crate::events::BallotEventView::MembersUpdated { process_id, .. } => (BallotView {
                event_processes: state@.event_processes.insert(process_id, ProcessState::Complete),
                ..state@
            }),
            _ => state@,
        }));
    }
    s
}

/// Replaces the eligible voters with a fresh snapshot from the
/// organization: the manual fallback when event delivery cannot be
/// guaranteed. Restricted to the administrator or the organization, and
/// only while the ballot is active.
pub fn sync_voters(
    ctx: &ContractContext,
    state: BallotState,
    new_eligible_voters: Vec<Address>,
) -> (r: Result<BallotState, BallotError>)
    requires
        state.wf(),
        ctx.tx_bytes@.len() >= 8,
    ensures
        r is Err <==> (ctx.sender != state.administrator && ctx.sender != state.organization)
            || state.status != BallotStatus::Active,
        r matches Err(e) ==> e == (if ctx.sender != state.administrator && ctx.sender
            != state.organization {
            BallotError::NotAuthorized
        } else {
            BallotError::WrongStatus
        }),
        r matches Ok(s) ==> s.wf() && status_step_ok(state.status, s.status)
            && respects_finality(state@, s@) && s@ == (BallotView {
            eligible_voters: new_eligible_voters@.to_set(),
            event_processes: state@.event_processes.insert(
                spec_process_id(ctx),
                ProcessState::Complete,
            ),
            ..state@
        }),
{
    if !(ctx.sender == state.administrator || ctx.sender == state.organization) {
        return Err(BallotError::NotAuthorized);
    }
    if !matches!(state.status, BallotStatus::Active) {
        return Err(BallotError::WrongStatus);
    }
    let process_id = generate_process_id(ctx);
    let mut s = state;
    s.eligible_voters = AddressSet::from_vec(&new_eligible_voters);
    s.event_processes.put(process_id, ProcessState::Complete);
    proof {
        assert(s@ =~= (BallotView {
            eligible_voters: new_eligible_voters@.to_set(),
            event_processes: state@.event_processes.insert(
                spec_process_id(ctx),
                ProcessState::Complete,
            ),
            ..state@
        }));
    }
    Ok(s)
}

} // verus!
