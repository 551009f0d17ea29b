use sekiva::addr::{predicted_address, Address, AddressKind, CallbackContext, ContractContext};
use sekiva::events::{OrganizationEvent, OutgoingMessage};
use sekiva::factory::{
    deploy_ballot, deploy_ballot_callback, deploy_organization, deploy_organization_callback,
    handle_organization_deployed_event, handle_organization_event, initialize, SekivaFactoryState,
};
use sekiva::process::{generate_process_id, OrganizationProcessState, ProcessId};

fn person(n: u8) -> Address {
    Address { kind: AddressKind::Account, id_a: n as u64, id_b: 3, id_c: 0 }
}

fn factory_self() -> Address {
    Address { kind: AddressKind::PublicContract, id_a: 100, id_b: 0, id_c: 0 }
}

fn fct_ctx(sender: Address, block_time: u64, tag: u8) -> ContractContext {
    let mut tx_bytes = vec![0u8; 32];
    tx_bytes[0] = tag;
    tx_bytes[12] = tag;
    tx_bytes[13] = 0x55;
    ContractContext { sender, contract_address: factory_self(), block_time, tx_bytes }
}

fn fresh_factory() -> SekivaFactoryState {
    let (s, out) = initialize(
        &fct_ctx(person(1), 50, 1),
        vec![9, 9, 9],
        vec![8, 8],
        vec![7, 7, 7, 7],
        vec![6],
    );
    assert_eq!(out.len(), 0);
    s
}

#[test]
fn initialize_remembers_the_deployer_and_binaries() {
    let s = fresh_factory();
    assert_eq!(s.admin, person(1));
    assert_eq!(s.ballot_contract_zkwa, vec![9, 9, 9]);
    assert_eq!(s.organization_contract_wasm, vec![7, 7, 7, 7]);
    assert_eq!(s.event_nonce, 0);
}

#[test]
fn deploy_organization_emits_one_request_with_a_callback() {
    let s = fresh_factory();
    let ctx = fct_ctx(person(1), 60, 2);
    let pid = generate_process_id(&ctx);
    let predicted = predicted_address(AddressKind::PublicContract, &ctx.tx_bytes);
    let (s, out) = deploy_organization(
        &ctx,
        s,
        String::from("Garden club"),
        String::from("We grow things"),
        String::from("p.png"),
        String::from("b.png"),
        String::from("@garden"),
        String::from("discord.example"),
        String::from("https://example.org"),
        person(2),
    );
    assert_eq!(s.organization_processes.get(&pid), Some(OrganizationProcessState::Created));
    assert_eq!(s.event_nonce, 1);
    assert_eq!(out.len(), 1);
    match &out[0] {
        OutgoingMessage::DeployPublicContract { code, abi, binder_id, callback, .. } => {
            assert_eq!(code, &vec![7, 7, 7, 7]);
            assert_eq!(abi, &vec![6]);
            assert_eq!(*binder_id, 9);
            match callback {
                sekiva::events::DeployCallback::OrganizationByFactory {
                    organization,
                    process_id,
                    ..
                } => {
                    assert_eq!(*organization, predicted);
                    assert_eq!(*process_id, pid);
                },
                _ => panic!("expected an organization deployment callback"),
            }
        },
        _ => panic!("expected a public deployment request"),
    }
}

#[test]
fn deploy_organization_callback_success_records_everything() {
    let s = fresh_factory();
    let ctx = fct_ctx(person(1), 60, 2);
    let pid = generate_process_id(&ctx);
    let org = predicted_address(AddressKind::PublicContract, &ctx.tx_bytes);
    let (s, _out) = deploy_organization(
        &ctx,
        s,
        String::from("n"),
        String::from("d"),
        String::new(),
        String::new(),
        String::new(),
        String::new(),
        String::new(),
        person(2),
    );
    let ok = CallbackContext { success: true };
    let (s, out) = deploy_organization_callback(&fct_ctx(person(1), 61, 3), &ok, s, org, pid);
    assert!(s.organizations.contains(&org));
    assert!(s.user_org_memberships.contains_in(&person(1), &org));
    assert!(s.organization_ballots.has_key(&org));
    assert_eq!(s.organization_processes.get(&pid), Some(OrganizationProcessState::Deployed));
    assert_eq!(out.len(), 1);
    match &out[0] {
        OutgoingMessage::Invoke { dest, shortname, event } => {
            assert_eq!(*dest, factory_self());
            assert_eq!(*shortname, 0x45);
            assert!(matches!(event, OrganizationEvent::OrganizationDeployed { .. }));
        },
        _ => panic!("expected an invoke message"),
    }
    // A duplicate delivery changes nothing at all.
    let nonce_before = s.event_nonce;
    let orgs_before = s.organizations.len();
    let (s, out) = deploy_organization_callback(&fct_ctx(person(1), 62, 4), &ok, s, org, pid);
    assert_eq!(out.len(), 0);
    assert_eq!(s.event_nonce, nonce_before);
    assert_eq!(s.organizations.len(), orgs_before);
}

#[test]
fn deploy_organization_callback_failure_marks_deleted() {
    let s = fresh_factory();
    let ctx = fct_ctx(person(1), 60, 2);
    let pid = generate_process_id(&ctx);
    let org = predicted_address(AddressKind::PublicContract, &ctx.tx_bytes);
    let (s, _out) = deploy_organization(
        &ctx,
        s,
        String::from("n"),
        String::from("d"),
        String::new(),
        String::new(),
        String::new(),
        String::new(),
        String::new(),
        person(2),
    );
    let fail = CallbackContext { success: false };
    let (s, out) = deploy_organization_callback(&fct_ctx(person(1), 61, 3), &fail, s, org, pid);
    assert_eq!(out.len(), 0);
    assert!(!s.organizations.contains(&org));
    assert_eq!(s.organization_processes.get(&pid), Some(OrganizationProcessState::Deleted));
}

#[test]
fn deploy_ballot_requests_a_deployment_without_state_change() {
    let s = fresh_factory();
    let ctx = fct_ctx(person(1), 70, 5);
    let nonce_before = s.event_nonce;
    let (s, out) = deploy_ballot(
        &ctx,
        s,
        String::from("Raise dues"),
        String::from("Shall we?"),
        vec![String::from("Yes"), String::from("No")],
        person(9),
    );
    assert_eq!(s.event_nonce, nonce_before);
    assert_eq!(out.len(), 1);
    match &out[0] {
        OutgoingMessage::DeployPublicContract { code, callback, .. } => {
            assert_eq!(code, &vec![9, 9, 9]);
            assert!(matches!(
                callback,
                sekiva::events::DeployCallback::BallotByFactory { .. }
            ));
        },
        _ => panic!("expected a public deployment request"),
    }
}

#[test]
fn factory_ballot_callback_is_idempotent() {
    let s = fresh_factory();
    let ballot = Address { kind: AddressKind::PublicContract, id_a: 42, id_b: 0, id_c: 0 };
    let org = Address { kind: AddressKind::PublicContract, id_a: 43, id_b: 0, id_c: 0 };
    let ok = CallbackContext { success: true };
    let (s, out) = deploy_ballot_callback(&fct_ctx(person(1), 71, 6), &ok, s, ballot, org);
    assert_eq!(out.len(), 0);
    assert!(s.ballots.contains(&ballot));
    assert!(s.organization_ballots.contains_in(&org, &ballot));
    let size_before = s.ballots.len();
    let (s, _out) = deploy_ballot_callback(&fct_ctx(person(1), 72, 7), &ok, s, ballot, org);
    assert_eq!(s.ballots.len(), size_before);
    let fail = CallbackContext { success: false };
    let other = Address { kind: AddressKind::PublicContract, id_a: 44, id_b: 0, id_c: 0 };
    let (s, _out) = deploy_ballot_callback(&fct_ctx(person(1), 73, 8), &fail, s, other, org);
    assert!(!s.ballots.contains(&other));
}

#[test]
fn organization_events_mirror_memberships() {
    let s = fresh_factory();
    let org = Address { kind: AddressKind::PublicContract, id_a: 43, id_b: 0, id_c: 0 };
    let pid = ProcessId { time: 80, tx_tag: 1 };
    let added = OrganizationEvent::MembersAdded {
        members: vec![person(2), person(3)],
        organization: org,
        timestamp: 80,
        process_id: pid,
        nonce: 1,
    };
    let (s, out) = handle_organization_event(&fct_ctx(org, 80, 9), s, &added);
    assert_eq!(out.len(), 0);
    assert_eq!(s.event_nonce, 1);
    assert!(s.user_org_memberships.contains_in(&person(2), &org));
    assert!(s.user_org_memberships.contains_in(&person(3), &org));
    let removed = OrganizationEvent::MembersRemoved {
        members: vec![person(2), person(9)],
        organization: org,
        timestamp: 81,
        process_id: ProcessId { time: 81, tx_tag: 1 },
        nonce: 2,
    };
    let (s, _out) = handle_organization_event(&fct_ctx(org, 81, 10), s, &removed);
    assert!(!s.user_org_memberships.contains_in(&person(2), &org));
    assert!(s.user_org_memberships.contains_in(&person(3), &org));
    assert!(!s.user_org_memberships.has_key(&person(9)));
}

#[test]
fn ballot_deployed_event_advances_a_deployed_process() {
    let s = fresh_factory();
    let ctx = fct_ctx(person(1), 60, 2);
    let pid = generate_process_id(&ctx);
    let org = predicted_address(AddressKind::PublicContract, &ctx.tx_bytes);
    let (s, _out) = deploy_organization(
        &ctx,
        s,
        String::from("n"),
        String::from("d"),
        String::new(),
        String::new(),
        String::new(),
        String::new(),
        String::new(),
        person(2),
    );
    let ok = CallbackContext { success: true };
    let (s, _out) = deploy_organization_callback(&fct_ctx(person(1), 61, 3), &ok, s, org, pid);
    let ballot = Address { kind: AddressKind::ZkContract, id_a: 42, id_b: 0, id_c: 0 };
    let event = OrganizationEvent::BallotDeployed {
        organization: org,
        ballot,
        title: String::from("Raise dues"),
        timestamp: 90,
        process_id: pid,
    };
    let (s, _out) = handle_organization_event(&fct_ctx(org, 90, 11), s, &event);
    assert!(s.ballots.contains(&ballot));
    assert_eq!(s.organization_processes.get(&pid), Some(OrganizationProcessState::Active));
}

#[test]
fn organization_deployed_notifications_mark_the_process_active() {
    let s = fresh_factory();
    let org = Address { kind: AddressKind::PublicContract, id_a: 43, id_b: 0, id_c: 0 };
    let pid = ProcessId { time: 95, tx_tag: 5 };
    let event = OrganizationEvent::OrganizationDeployed {
        factory: factory_self(),
        organization: org,
        timestamp: 95,
        process_id: pid,
    };
    let (s, out) = handle_organization_deployed_event(&fct_ctx(factory_self(), 95, 12), s, &event);
    assert_eq!(out.len(), 0);
    assert_eq!(s.organization_processes.get(&pid), Some(OrganizationProcessState::Active));
    let failed = OrganizationEvent::BallotDeployFailed {
        organization: org,
        reason: String::from("no gas"),
        timestamp: 96,
        process_id: ProcessId { time: 96, tx_tag: 5 },
    };
    let (s, _out) =
        handle_organization_deployed_event(&fct_ctx(factory_self(), 96, 13), s, &failed);
    assert_eq!(s.organization_processes.get(&ProcessId { time: 96, tx_tag: 5 }), None);
}
