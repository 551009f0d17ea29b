use sekiva::addr::{Address, AddressKind, ContractContext};
use sekiva::ballot::{
    cancel_ballot, cast_vote, compute_tally, handle_org_event, initialize, open_tally_result,
    set_vote_active, status_changed, sync_voters, tally_compute_complete, vote_inputted,
    BallotError, BallotState, BallotStatus,
};
use sekiva::events::{BallotEvent, OrganizationEvent};
use sekiva::process::{generate_process_id, ProcessId, ProcessState};
use sekiva::tally::{
    encode_tally_result, CalculationStatus, SecretVarType, TallyResult, ZkState, ZkStateChange,
    ZkVariable,
};

fn account(n: u8) -> Address {
    Address { kind: AddressKind::Account, id_a: n as u64, id_b: 0, id_c: 0 }
}

fn org_address() -> Address {
    Address { kind: AddressKind::PublicContract, id_a: 900, id_b: 1, id_c: 2 }
}

fn ctx_at(sender: Address, block_time: u64, tag: u8) -> ContractContext {
    let mut tx_bytes = vec![0u8; 32];
    tx_bytes[0] = tag;
    tx_bytes[31] = 0xaa;
    ContractContext { sender, contract_address: org_address(), block_time, tx_bytes }
}

fn admin() -> Address {
    account(1)
}

fn fresh_ballot(eligible: Vec<Address>) -> BallotState {
    let ctx = ctx_at(org_address(), 1000, 1);
    initialize(
        &ctx,
        vec![String::from("Yes"), String::from("No")],
        String::from("Raise dues"),
        String::from("Shall the dues be raised?"),
        org_address(),
        admin(),
        eligible,
        86400,
    )
    .unwrap()
}

fn active_ballot(eligible: Vec<Address>) -> BallotState {
    let s = fresh_ballot(eligible);
    set_vote_active(&ctx_at(admin(), 1001, 2), s).unwrap()
}

fn idle_engine() -> ZkState {
    ZkState {
        calculation_state: CalculationStatus::Waiting,
        secret_variables: Vec::new(),
        pending_inputs: Vec::new(),
    }
}

#[test]
fn initialize_rejects_bad_option_counts() {
    let ctx = ctx_at(org_address(), 1000, 1);
    let one = initialize(
        &ctx,
        vec![String::from("Yes")],
        String::from("t"),
        String::from("d"),
        org_address(),
        admin(),
        vec![],
        10,
    );
    assert_eq!(one.unwrap_err(), BallotError::TooFewOptions);
    let six = initialize(
        &ctx,
        vec![
            String::from("a"),
            String::from("b"),
            String::from("c"),
            String::from("d"),
            String::from("e"),
            String::from("f"),
        ],
        String::from("t"),
        String::from("d"),
        org_address(),
        admin(),
        vec![],
        10,
    );
    assert_eq!(six.unwrap_err(), BallotError::TooManyOptions);
}

#[test]
fn initialize_rejects_bad_durations_and_admin() {
    let ctx = ctx_at(org_address(), 1000, 1);
    let zero = initialize(
        &ctx,
        vec![String::from("Yes"), String::from("No")],
        String::from("t"),
        String::from("d"),
        org_address(),
        admin(),
        vec![],
        0,
    );
    assert_eq!(zero.unwrap_err(), BallotError::ZeroDuration);
    let long = initialize(
        &ctx,
        vec![String::from("Yes"), String::from("No")],
        String::from("t"),
        String::from("d"),
        org_address(),
        admin(),
        vec![],
        2592001,
    );
    assert_eq!(long.unwrap_err(), BallotError::DurationTooLong);
    let same = initialize(
        &ctx,
        vec![String::from("Yes"), String::from("No")],
        String::from("t"),
        String::from("d"),
        org_address(),
        org_address(),
        vec![],
        10,
    );
    assert_eq!(same.unwrap_err(), BallotError::AdministratorIsOrganization);
}

#[test]
fn initialize_sets_window_and_created_status() {
    let s = fresh_ballot(vec![account(2)]);
    assert!(matches!(s.status, BallotStatus::Created));
    assert_eq!(s.start_time, 1000);
    assert_eq!(s.end_time, 1000 + 86400);
    assert!(s.tally.is_none());
    assert_eq!(s.eligible_voters.len(), 1);
}

#[test]
fn set_vote_active_requires_admin_and_created() {
    let s = fresh_ballot(vec![account(2)]);
    let wrong = set_vote_active(&ctx_at(account(9), 1001, 2), s);
    assert_eq!(wrong.unwrap_err(), BallotError::NotAdministrator);
    let s = active_ballot(vec![account(2)]);
    let again = set_vote_active(&ctx_at(admin(), 1002, 3), s);
    assert_eq!(again.unwrap_err(), BallotError::WrongStatus);
}

#[test]
fn cast_vote_accepts_an_eligible_voter_once() {
    let voter = account(2);
    let s = active_ballot(vec![voter]);
    let (s, def) = cast_vote(&ctx_at(voter, 1500, 4), s).unwrap();
    assert!(matches!(def.metadata, SecretVarType::Vote));
    assert_eq!(def.callback_shortname, 0x61);
    let second = cast_vote(&ctx_at(voter, 1600, 5), s);
    assert_eq!(second.unwrap_err(), BallotError::AlreadyVoted);
}

#[test]
fn cast_vote_rejects_outsiders_and_late_votes() {
    let voter = account(2);
    let s = active_ballot(vec![voter]);
    let late = cast_vote(&ctx_at(voter, 1000 + 86401, 4), s);
    assert_eq!(late.unwrap_err(), BallotError::VotingClosed);
    let s = active_ballot(vec![voter]);
    let outsider = cast_vote(&ctx_at(account(3), 1500, 4), s);
    assert_eq!(outsider.unwrap_err(), BallotError::NotEligible);
    let s = fresh_ballot(vec![voter]);
    let not_active = cast_vote(&ctx_at(voter, 1500, 4), s);
    assert_eq!(not_active.unwrap_err(), BallotError::WrongStatus);
}

#[test]
fn vote_inputted_only_rechecks_status() {
    let voter = account(2);
    let s = active_ballot(vec![voter]);
    let s = vote_inputted(&ctx_at(voter, 1500, 4), s, 7).unwrap();
    let s = cancel_ballot(&ctx_at(admin(), 1600, 5), s).unwrap();
    let r = vote_inputted(&ctx_at(voter, 1700, 6), s, 7);
    assert_eq!(r.unwrap_err(), BallotError::WrongStatus);
}

#[test]
fn compute_tally_requires_admin_idle_engine_and_active_status() {
    let s = active_ballot(vec![account(2)]);
    let r = compute_tally(&ctx_at(account(9), 1500, 4), s, &idle_engine());
    assert_eq!(r.unwrap_err(), BallotError::NotAdministrator);
    let s = active_ballot(vec![account(2)]);
    let mut busy = idle_engine();
    busy.calculation_state = CalculationStatus::Calculating;
    let r = compute_tally(&ctx_at(admin(), 1500, 4), s, &busy);
    assert_eq!(r.unwrap_err(), BallotError::EngineBusy);
    let s = fresh_ballot(vec![account(2)]);
    let r = compute_tally(&ctx_at(admin(), 1500, 4), s, &idle_engine());
    assert_eq!(r.unwrap_err(), BallotError::WrongStatus);
}

#[test]
fn compute_tally_twice_fails_on_busy_engine() {
    // The engine leaves its idle state as soon as the first computation is
    // started, so an immediate second call must be refused.
    let s = active_ballot(vec![account(2)]);
    let (s, changes) = compute_tally(&ctx_at(admin(), 1500, 4), s, &idle_engine()).unwrap();
    assert_eq!(changes.len(), 1);
    assert!(matches!(&changes[0], ZkStateChange::StartComputation { .. }));
    assert!(matches!(s.status, BallotStatus::Tallying));
    let mut engine = idle_engine();
    engine.calculation_state = CalculationStatus::Calculating;
    let second = compute_tally(&ctx_at(admin(), 1501, 5), s, &engine);
    assert_eq!(second.unwrap_err(), BallotError::EngineBusy);
}

#[test]
fn tally_compute_complete_opens_the_outputs() {
    let s = active_ballot(vec![account(2)]);
    let (s, changes) = tally_compute_complete(&ctx_at(admin(), 1500, 4), s, vec![11, 12]);
    assert!(matches!(s.status, BallotStatus::Active));
    assert_eq!(changes.len(), 1);
    match &changes[0] {
        ZkStateChange::OpenVariables { variables } => assert_eq!(variables, &vec![11, 12]),
        _ => panic!("expected an open-variables request"),
    }
}

fn engine_with_result(id: u32, metadata: SecretVarType, data: Option<Vec<u8>>) -> ZkState {
    ZkState {
        calculation_state: CalculationStatus::Calculating,
        secret_variables: vec![ZkVariable { id, owner: account(50), metadata, data }],
        pending_inputs: Vec::new(),
    }
}

fn tallying_ballot(voters: Vec<Address>) -> BallotState {
    let mut s = active_ballot(voters.clone());
    let mut t: u8 = 10;
    for v in voters {
        let (s2, _def) = cast_vote(&ctx_at(v, 1500 + t as u64, t), s).unwrap();
        s = s2;
        t += 1;
    }
    let (s, _changes) = compute_tally(&ctx_at(admin(), 1600, 9), s, &idle_engine()).unwrap();
    s
}

#[test]
fn full_vote_and_tally_scenario() {
    // Two Yes votes and one No vote from three eligible voters.
    let voters = vec![account(2), account(3), account(4)];
    let s = tallying_ballot(voters);
    let votes = vec![
        sekiva::tally::SecretVar { metadata: SecretVarType::Vote, value: 0 },
        sekiva::tally::SecretVar { metadata: SecretVarType::Vote, value: 0 },
        sekiva::tally::SecretVar { metadata: SecretVarType::Vote, value: 1 },
    ];
    let out = sekiva::tally::tally_votes(&votes);
    let result = TallyResult {
        option_0: out.option_0,
        option_1: out.option_1,
        option_2: out.option_2,
        option_3: out.option_3,
        option_4: out.option_4,
    };
    let engine = engine_with_result(
        77,
        SecretVarType::TallyResult,
        Some(encode_tally_result(&result)),
    );
    let (s, changes) =
        open_tally_result(&ctx_at(admin(), 1700, 20), s, &engine, vec![77]).unwrap();
    assert!(matches!(s.status, BallotStatus::Completed));
    let tally = s.tally.unwrap();
    assert_eq!(tally.option_0, 2);
    assert_eq!(tally.option_1, 1);
    assert_eq!(tally.option_2, 0);
    assert_eq!(tally.option_3, 0);
    assert_eq!(tally.option_4, 0);
    assert_eq!(tally.total, 3);
    assert_eq!(s.eligible_voters.len(), 0);
    assert_eq!(s.already_voted.len(), 0);
    assert_eq!(changes.len(), 1);
    assert!(matches!(changes[0], ZkStateChange::ContractDone));
}

#[test]
fn open_tally_result_fails_fast_on_protocol_violations() {
    let s = tallying_ballot(vec![account(2)]);
    let engine = engine_with_result(77, SecretVarType::TallyResult, Some(vec![0u8; 20]));
    let r = open_tally_result(&ctx_at(admin(), 1700, 20), s, &engine, vec![77, 78]);
    assert_eq!(r.unwrap_err(), BallotError::UnexpectedOpenCount);
    let s = tallying_ballot(vec![account(2)]);
    let r = open_tally_result(&ctx_at(admin(), 1700, 20), s, &engine, vec![99]);
    assert_eq!(r.unwrap_err(), BallotError::UnknownVariable);
    let s = tallying_ballot(vec![account(2)]);
    let none = engine_with_result(77, SecretVarType::TallyResult, None);
    let r = open_tally_result(&ctx_at(admin(), 1700, 20), s, &none, vec![77]);
    assert_eq!(r.unwrap_err(), BallotError::MissingData);
    let s = tallying_ballot(vec![account(2)]);
    let short = engine_with_result(77, SecretVarType::TallyResult, Some(vec![1, 2, 3]));
    let r = open_tally_result(&ctx_at(admin(), 1700, 20), s, &short, vec![77]);
    assert_eq!(r.unwrap_err(), BallotError::MalformedResult);
}

#[test]
fn open_tally_result_rejects_an_overflowing_sum() {
    let s = tallying_ballot(vec![account(2)]);
    let result = TallyResult {
        option_0: u32::MAX,
        option_1: 1,
        option_2: 0,
        option_3: 0,
        option_4: 0,
    };
    let engine = engine_with_result(
        77,
        SecretVarType::TallyResult,
        Some(encode_tally_result(&result)),
    );
    let r = open_tally_result(&ctx_at(admin(), 1700, 20), s, &engine, vec![77]);
    assert_eq!(r.unwrap_err(), BallotError::TallyOverflow);
}

#[test]
fn open_tally_result_discards_a_foreign_variable() {
    // A declassified variable that is not tagged as a tally result may come
    // from an unrelated session and is dropped with no state change.
    let s = tallying_ballot(vec![account(2)]);
    let engine = engine_with_result(77, SecretVarType::Vote, Some(vec![0u8; 20]));
    let (s, changes) =
        open_tally_result(&ctx_at(admin(), 1700, 20), s, &engine, vec![77]).unwrap();
    assert!(matches!(s.status, BallotStatus::Tallying));
    assert!(s.tally.is_none());
    assert_eq!(changes.len(), 0);
}

#[test]
fn cancel_is_refused_after_completion() {
    let voters = vec![account(2)];
    let s = tallying_ballot(voters);
    let result = TallyResult { option_0: 1, option_1: 0, option_2: 0, option_3: 0, option_4: 0 };
    let engine = engine_with_result(
        77,
        SecretVarType::TallyResult,
        Some(encode_tally_result(&result)),
    );
    let (s, _changes) =
        open_tally_result(&ctx_at(admin(), 1700, 20), s, &engine, vec![77]).unwrap();
    let r = cancel_ballot(&ctx_at(admin(), 1800, 21), s);
    assert_eq!(r.unwrap_err(), BallotError::WrongStatus);
}

#[test]
fn cancel_marks_the_ballot_cancelled_once() {
    let s = active_ballot(vec![account(2)]);
    let r = cancel_ballot(&ctx_at(account(9), 1500, 4), s);
    assert_eq!(r.unwrap_err(), BallotError::NotAdministrator);
    let s = active_ballot(vec![account(2)]);
    let s = cancel_ballot(&ctx_at(admin(), 1500, 4), s).unwrap();
    assert!(matches!(s.status, BallotStatus::Cancelled));
    // Cancelled is terminal: neither voting nor a second cancellation works.
    let again = cancel_ballot(&ctx_at(admin(), 1550, 6), s);
    assert_eq!(again.unwrap_err(), BallotError::WrongStatus);
    let s = active_ballot(vec![account(2)]);
    let s = cancel_ballot(&ctx_at(admin(), 1500, 4), s).unwrap();
    let r = cast_vote(&ctx_at(account(2), 1600, 5), s);
    assert_eq!(r.unwrap_err(), BallotError::WrongStatus);
}

#[test]
fn membership_events_adjust_eligible_voters_while_active() {
    let s = active_ballot(vec![account(2)]);
    let ctx = ctx_at(org_address(), 2000, 6);
    let pid = generate_process_id(&ctx);
    let event = OrganizationEvent::MembersAdded {
        members: vec![account(3)],
        organization: org_address(),
        timestamp: 2000,
        process_id: pid,
        nonce: 1,
    };
    let s = handle_org_event(&ctx, s, &event).unwrap();
    assert_eq!(s.eligible_voters.len(), 2);
    let ctx2 = ctx_at(org_address(), 2001, 7);
    let pid2 = generate_process_id(&ctx2);
    let event2 = OrganizationEvent::MembersRemoved {
        members: vec![account(2)],
        organization: org_address(),
        timestamp: 2001,
        process_id: pid2,
        nonce: 2,
    };
    let s = handle_org_event(&ctx2, s, &event2).unwrap();
    assert_eq!(s.eligible_voters.len(), 1);
    assert_eq!(s.event_processes.get(&pid), Some(ProcessState::Complete));
    assert_eq!(s.event_processes.get(&pid2), Some(ProcessState::Complete));
}

#[test]
fn membership_events_are_ignored_once_terminal() {
    let s = active_ballot(vec![account(2)]);
    let s = cancel_ballot(&ctx_at(admin(), 1500, 4), s).unwrap();
    let ctx = ctx_at(org_address(), 2000, 6);
    let pid = generate_process_id(&ctx);
    let event = OrganizationEvent::MembersAdded {
        members: vec![account(3)],
        organization: org_address(),
        timestamp: 2000,
        process_id: pid,
        nonce: 1,
    };
    let s = handle_org_event(&ctx, s, &event).unwrap();
    assert_eq!(s.eligible_voters.len(), 1);
    assert_eq!(s.event_processes.get(&pid), Some(ProcessState::Ignored));
}

#[test]
fn only_the_parent_organization_may_deliver_events() {
    let s = active_ballot(vec![account(2)]);
    let ctx = ctx_at(account(9), 2000, 6);
    let pid = generate_process_id(&ctx);
    let event = OrganizationEvent::MembersAdded {
        members: vec![account(3)],
        organization: org_address(),
        timestamp: 2000,
        process_id: pid,
        nonce: 1,
    };
    let r = handle_org_event(&ctx, s, &event);
    assert_eq!(r.unwrap_err(), BallotError::NotOrganization);
}

#[test]
fn sync_voters_replaces_the_snapshot() {
    let s = active_ballot(vec![account(2)]);
    let r = sync_voters(&ctx_at(account(9), 2000, 6), s, vec![account(5)]);
    assert_eq!(r.unwrap_err(), BallotError::NotAuthorized);
    let s = active_ballot(vec![account(2)]);
    let s = sync_voters(
        &ctx_at(admin(), 2000, 6),
        s,
        vec![account(5), account(6), account(5)],
    )
    .unwrap();
    assert_eq!(s.eligible_voters.len(), 2);
    let s = cancel_ballot(&ctx_at(admin(), 2100, 7), s).unwrap();
    let r = sync_voters(&ctx_at(admin(), 2200, 8), s, vec![account(5)]);
    assert_eq!(r.unwrap_err(), BallotError::WrongStatus);
}

#[test]
fn status_changed_records_the_process() {
    let s = active_ballot(vec![account(2)]);
    let pid = ProcessId { time: 9, tx_tag: 9 };
    let event = BallotEvent::StatusChanged {
        status: BallotStatus::Active,
        timestamp: 9,
        process_id: pid,
    };
    let s = status_changed(&ctx_at(account(9), 2000, 6), s, &event);
    assert_eq!(s.event_processes.get(&pid), Some(ProcessState::Complete));
    let other = BallotEvent::TallyStarted { timestamp: 10, process_id: ProcessId { time: 10, tx_tag: 1 } };
    let s = status_changed(&ctx_at(account(9), 2001, 7), s, &other);
    assert_eq!(s.event_processes.get(&ProcessId { time: 10, tx_tag: 1 }), None);
}
