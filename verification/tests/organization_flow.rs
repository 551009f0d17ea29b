use sekiva::addr::{Address, AddressKind, CallbackContext, ContractContext};
use sekiva::events::{OrganizationEvent, OutgoingMessage};
use sekiva::organization::{
    add_administrator, add_ballot, add_member, add_members, deploy_ballot, deploy_ballot_callback,
    handle_ballot_deployed_event, initialize, remove_administrator, remove_member, remove_members,
    update_metadata, BallotInit, OrgError, OrganizationState,
};
use sekiva::process::{generate_process_id, BallotProcessState, ProcessId};

fn user(n: u8) -> Address {
    Address { kind: AddressKind::Account, id_a: n as u64, id_b: 7, id_c: 0 }
}

fn factory() -> Address {
    Address { kind: AddressKind::PublicContract, id_a: 500, id_b: 0, id_c: 0 }
}

fn org_self() -> Address {
    Address { kind: AddressKind::PublicContract, id_a: 600, id_b: 0, id_c: 0 }
}

fn org_ctx(sender: Address, block_time: u64, tag: u8) -> ContractContext {
    let mut tx_bytes = vec![0u8; 32];
    tx_bytes[0] = tag;
    tx_bytes[12] = tag;
    ContractContext { sender, contract_address: org_self(), block_time, tx_bytes }
}

fn owner() -> Address {
    user(1)
}

fn fresh_org() -> OrganizationState {
    initialize(
        &org_ctx(factory(), 100, 1),
        String::from("Garden club"),
        String::from("We grow things"),
        String::from("p.png"),
        String::from("b.png"),
        String::from("https://example.org"),
        String::from("@garden"),
        String::from("discord.example"),
        owner(),
        vec![1, 2, 3],
        vec![4, 5],
        factory(),
    )
    .unwrap()
}

#[test]
fn initialize_validates_its_arguments() {
    let ctx = org_ctx(factory(), 100, 1);
    let e = initialize(
        &ctx,
        String::new(),
        String::from("d"),
        String::new(),
        String::new(),
        String::new(),
        String::new(),
        String::new(),
        owner(),
        vec![1],
        vec![1],
        factory(),
    );
    assert_eq!(e.unwrap_err(), OrgError::EmptyName);
    let e = initialize(
        &ctx,
        String::from("n"),
        String::new(),
        String::new(),
        String::new(),
        String::new(),
        String::new(),
        String::new(),
        owner(),
        vec![1],
        vec![1],
        factory(),
    );
    assert_eq!(e.unwrap_err(), OrgError::EmptyDescription);
    let e = initialize(
        &ctx,
        String::from("n"),
        String::from("d"),
        String::new(),
        String::new(),
        String::new(),
        String::new(),
        String::new(),
        factory(),
        vec![1],
        vec![1],
        factory(),
    );
    assert_eq!(e.unwrap_err(), OrgError::AdministratorIsFactory);
    let e = initialize(
        &ctx,
        String::from("n"),
        String::from("d"),
        String::new(),
        String::new(),
        String::new(),
        String::new(),
        String::new(),
        owner(),
        vec![],
        vec![1],
        factory(),
    );
    assert_eq!(e.unwrap_err(), OrgError::MissingBinary);
    let e = initialize(
        &ctx,
        String::from("n"),
        String::from("d"),
        String::new(),
        String::new(),
        String::new(),
        String::new(),
        String::new(),
        owner(),
        vec![1],
        vec![],
        factory(),
    );
    assert_eq!(e.unwrap_err(), OrgError::MissingAbi);
}

#[test]
fn membership_scenario_owner_members_administrators() {
    // The owner A adds member B, then promotes B; promoting C before C is a
    // member fails; the owner is never removable.
    let s = fresh_org();
    assert!(s.members.contains(&owner()));
    assert!(s.administrators.contains(&owner()));
    let before_member = add_administrator(&org_ctx(owner(), 110, 2), s, user(2));
    let s = match before_member {
        Err(e) => {
            assert_eq!(e, OrgError::NotMember);
            fresh_org()
        },
        Ok(_) => panic!("an address must be a member before becoming an administrator"),
    };
    let (s, _out) = add_member(&org_ctx(owner(), 111, 3), s, user(2)).unwrap();
    assert!(s.members.contains(&user(2)));
    let s = add_administrator(&org_ctx(owner(), 112, 4), s, user(2)).unwrap();
    assert!(s.administrators.contains(&user(2)));
    let r = remove_member(&org_ctx(owner(), 113, 5), s, owner());
    assert_eq!(r.unwrap_err(), OrgError::CannotRemoveOwner);
    let s = fresh_org();
    let r = remove_administrator(&org_ctx(owner(), 114, 6), s, owner());
    assert_eq!(r.unwrap_err(), OrgError::CannotRemoveOwner);
}

#[test]
fn add_member_emits_one_factory_event() {
    let s = fresh_org();
    let ctx = org_ctx(owner(), 120, 2);
    let pid = generate_process_id(&ctx);
    let (s, out) = add_member(&ctx, s, user(2)).unwrap();
    assert_eq!(s.event_nonce, 1);
    assert_eq!(out.len(), 1);
    match &out[0] {
        OutgoingMessage::Invoke { dest, shortname, event } => {
            assert_eq!(*dest, factory());
            assert_eq!(*shortname, 0x11);
            match event {
                OrganizationEvent::MembersAdded { members, organization, process_id, nonce, .. } => {
                    assert_eq!(members, &vec![user(2)]);
                    assert_eq!(*organization, org_self());
                    assert_eq!(*process_id, pid);
                    assert_eq!(*nonce, 1);
                },
                _ => panic!("expected a members-added event"),
            }
        },
        _ => panic!("expected an invoke message"),
    }
}

#[test]
fn add_member_checks_sender_and_duplicates() {
    let s = fresh_org();
    let r = add_member(&org_ctx(user(9), 120, 2), s, user(2));
    assert_eq!(r.unwrap_err(), OrgError::NotAdministrator);
    let s = fresh_org();
    let r = add_member(&org_ctx(owner(), 120, 2), s, owner());
    assert_eq!(r.unwrap_err(), OrgError::AlreadyMember);
}

#[test]
fn add_members_skips_known_addresses() {
    let s = fresh_org();
    let (s, out) = add_members(
        &org_ctx(owner(), 120, 2),
        s,
        vec![user(2), owner(), user(3), user(2)],
    )
    .unwrap();
    assert!(s.members.contains(&user(2)));
    assert!(s.members.contains(&user(3)));
    assert_eq!(s.members.len(), 3);
    assert_eq!(out.len(), 1);
    match &out[0] {
        OutgoingMessage::Invoke { event, .. } => match event {
            OrganizationEvent::MembersAdded { members, .. } => {
                assert_eq!(members, &vec![user(2), user(3)]);
            },
            _ => panic!("expected a members-added event"),
        },
        _ => panic!("expected an invoke message"),
    }
    // A second identical batch adds nothing and stays silent.
    let nonce_before = s.event_nonce;
    let (s, out) = add_members(&org_ctx(owner(), 121, 3), s, vec![user(2), user(3)]).unwrap();
    assert_eq!(out.len(), 0);
    assert_eq!(s.event_nonce, nonce_before);
    assert_eq!(s.members.len(), 3);
}

#[test]
fn remove_member_refuses_admins_and_strangers() {
    let s = fresh_org();
    let (s, _out) = add_member(&org_ctx(owner(), 120, 2), s, user(2)).unwrap();
    let s = add_administrator(&org_ctx(owner(), 121, 3), s, user(2)).unwrap();
    let r = remove_member(&org_ctx(owner(), 122, 4), s, user(2));
    assert_eq!(r.unwrap_err(), OrgError::CannotRemoveAdministrator);
    let s = fresh_org();
    let r = remove_member(&org_ctx(owner(), 123, 5), s, user(9));
    assert_eq!(r.unwrap_err(), OrgError::NotMember);
}

#[test]
fn remove_member_emits_one_factory_event() {
    let s = fresh_org();
    let (s, _out) = add_member(&org_ctx(owner(), 120, 2), s, user(2)).unwrap();
    let (s, out) = remove_member(&org_ctx(owner(), 121, 3), s, user(2)).unwrap();
    assert!(!s.members.contains(&user(2)));
    assert_eq!(out.len(), 1);
    match &out[0] {
        OutgoingMessage::Invoke { event, .. } => {
            assert!(matches!(event, OrganizationEvent::MembersRemoved { .. }));
        },
        _ => panic!("expected an invoke message"),
    }
}

#[test]
fn remove_members_refuses_the_whole_bad_batch() {
    let s = fresh_org();
    let (s, _out) = add_member(&org_ctx(owner(), 120, 2), s, user(2)).unwrap();
    let r = remove_members(&org_ctx(owner(), 121, 3), s, vec![user(2), user(9)]);
    assert_eq!(r.unwrap_err(), OrgError::NotMember);
    let s = fresh_org();
    let (s, _out) = add_member(&org_ctx(owner(), 120, 2), s, user(2)).unwrap();
    let r = remove_members(&org_ctx(owner(), 121, 3), s, vec![user(2), owner()]);
    assert_eq!(r.unwrap_err(), OrgError::CannotRemoveOwner);
    let s = fresh_org();
    let (s, _out) = add_member(&org_ctx(owner(), 120, 2), s, user(2)).unwrap();
    let (s, _out) = add_member(&org_ctx(owner(), 121, 3), s, user(3)).unwrap();
    let s = add_administrator(&org_ctx(owner(), 122, 4), s, user(2)).unwrap();
    let r = remove_members(&org_ctx(owner(), 123, 5), s, vec![user(3), user(2)]);
    assert_eq!(r.unwrap_err(), OrgError::CannotRemoveAdministrator);
    let s = fresh_org();
    let (s, _out) = add_member(&org_ctx(owner(), 120, 2), s, user(2)).unwrap();
    let (s, _out) = add_member(&org_ctx(owner(), 121, 3), s, user(3)).unwrap();
    let nonce_before = s.event_nonce;
    let (s, out) = remove_members(&org_ctx(owner(), 124, 6), s, vec![user(2), user(3)]).unwrap();
    assert_eq!(s.members.len(), 1);
    assert_eq!(s.event_nonce, nonce_before + 1);
    assert_eq!(out.len(), 1);
    match &out[0] {
        OutgoingMessage::Invoke { event, .. } => match event {
            OrganizationEvent::MembersRemoved { members, .. } => {
                assert_eq!(members, &vec![user(2), user(3)]);
            },
            _ => panic!("expected a members-removed event"),
        },
        _ => panic!("expected an invoke message"),
    }
}

#[test]
fn update_metadata_replaces_only_provided_fields() {
    let s = fresh_org();
    let r = update_metadata(
        &org_ctx(user(9), 130, 2),
        s,
        None,
        None,
        None,
        None,
        None,
        None,
        None,
    );
    assert_eq!(r.unwrap_err(), OrgError::NotAdministrator);
    let s = fresh_org();
    let r = update_metadata(
        &org_ctx(owner(), 130, 2),
        s,
        Some(String::new()),
        None,
        None,
        None,
        None,
        None,
        None,
    );
    assert_eq!(r.unwrap_err(), OrgError::EmptyName);
    let s = fresh_org();
    let s = update_metadata(
        &org_ctx(owner(), 130, 2),
        s,
        Some(String::from("New name")),
        None,
        None,
        None,
        Some(String::from("https://new.example")),
        None,
        None,
    )
    .unwrap();
    assert_eq!(s.name, String::from("New name"));
    assert_eq!(s.description, String::from("We grow things"));
    assert_eq!(s.website, String::from("https://new.example"));
}

#[test]
fn update_metadata_rejects_each_empty_field() {
    let cases: Vec<(usize, OrgError)> = vec![
        (1, OrgError::EmptyDescription),
        (2, OrgError::EmptyProfileImage),
        (3, OrgError::EmptyBannerImage),
        (4, OrgError::EmptyWebsite),
        (5, OrgError::EmptyXAccount),
        (6, OrgError::EmptyDiscordServer),
    ];
    for (slot, expected) in cases {
        let s = fresh_org();
        let field = |k: usize| if k == slot { Some(String::new()) } else { None };
        let r = update_metadata(
            &org_ctx(owner(), 130, 2),
            s,
            field(0),
            field(1),
            field(2),
            field(3),
            field(4),
            field(5),
            field(6),
        );
        assert_eq!(r.unwrap_err(), expected);
    }
}

#[test]
fn add_ballot_records_a_new_address_once() {
    let ballot = Address { kind: AddressKind::ZkContract, id_a: 42, id_b: 0, id_c: 0 };
    let s = fresh_org();
    let r = add_ballot(&org_ctx(user(9), 140, 2), s, ballot);
    assert_eq!(r.unwrap_err(), OrgError::NotAdministrator);
    let s = fresh_org();
    let s = add_ballot(&org_ctx(owner(), 140, 2), s, ballot).unwrap();
    assert!(s.ballots.contains(&ballot));
    let r = add_ballot(&org_ctx(owner(), 141, 3), s, ballot);
    assert_eq!(r.unwrap_err(), OrgError::AlreadyBallot);
}

fn some_ballot_init() -> BallotInit {
    BallotInit {
        options: vec![String::from("Yes"), String::from("No")],
        title: String::from("Raise dues"),
        description: String::from("Shall the dues be raised?"),
        administrator: owner(),
        duration_seconds: 86400,
    }
}

#[test]
fn deploy_ballot_opens_a_created_process_and_one_request() {
    let s = fresh_org();
    let mut init = some_ballot_init();
    init.administrator = user(9);
    let r = deploy_ballot(&org_ctx(owner(), 150, 2), s, init);
    assert_eq!(r.unwrap_err(), OrgError::NotAnAdministrator);
    let s = fresh_org();
    let ctx = org_ctx(owner(), 150, 2);
    let pid = generate_process_id(&ctx);
    let (s, out) = deploy_ballot(&ctx, s, some_ballot_init()).unwrap();
    assert_eq!(s.ballot_processes.get(&pid), Some(BallotProcessState::Created));
    assert_eq!(s.event_nonce, 1);
    assert_eq!(out.len(), 1);
    match &out[0] {
        OutgoingMessage::DeployZkContract { code, abi, required_stakes, binder_id, .. } => {
            assert_eq!(code, &vec![1, 2, 3]);
            assert_eq!(abi, &vec![4, 5]);
            assert_eq!(*required_stakes, 20000000);
            assert_eq!(*binder_id, 11);
        },
        _ => panic!("expected a zero-knowledge deployment request"),
    }
}

#[test]
fn deploy_ballot_callback_is_idempotent() {
    // Delivering the same success callback twice leaves the same final
    // state as delivering it once.
    let ballot = Address { kind: AddressKind::ZkContract, id_a: 42, id_b: 0, id_c: 0 };
    let s = fresh_org();
    let ctx = org_ctx(owner(), 150, 2);
    let pid = generate_process_id(&ctx);
    let (s, _out) = deploy_ballot(&ctx, s, some_ballot_init()).unwrap();
    let ok = CallbackContext { success: true };
    let (s, out) = deploy_ballot_callback(
        &org_ctx(factory(), 151, 3),
        &ok,
        s,
        ballot,
        String::from("Raise dues"),
        pid,
    );
    assert_eq!(out.len(), 2);
    assert!(s.ballots.contains(&ballot));
    assert_eq!(s.ballot_processes.get(&pid), Some(BallotProcessState::Deployed));
    let ballots_before = s.ballots.len();
    let nonce_before = s.event_nonce;
    let (s, out) = deploy_ballot_callback(
        &org_ctx(factory(), 152, 4),
        &ok,
        s,
        ballot,
        String::from("Raise dues"),
        pid,
    );
    assert_eq!(out.len(), 0);
    assert_eq!(s.ballots.len(), ballots_before);
    assert_eq!(s.event_nonce, nonce_before);
    assert_eq!(s.ballot_processes.get(&pid), Some(BallotProcessState::Deployed));
}

#[test]
fn deploy_ballot_callback_records_a_failure() {
    let ballot = Address { kind: AddressKind::ZkContract, id_a: 42, id_b: 0, id_c: 0 };
    let s = fresh_org();
    let ctx = org_ctx(owner(), 150, 2);
    let pid = generate_process_id(&ctx);
    let (s, _out) = deploy_ballot(&ctx, s, some_ballot_init()).unwrap();
    let fail = CallbackContext { success: false };
    let (s, out) = deploy_ballot_callback(
        &org_ctx(factory(), 151, 3),
        &fail,
        s,
        ballot,
        String::from("Raise dues"),
        pid,
    );
    assert_eq!(out.len(), 2);
    assert!(!s.ballots.contains(&ballot));
    assert_eq!(s.ballot_processes.get(&pid), Some(BallotProcessState::Cancelled));
    match &out[0] {
        OutgoingMessage::Invoke { shortname, event, .. } => {
            assert_eq!(*shortname, 0x43);
            assert!(matches!(event, OrganizationEvent::BallotDeployFailed { .. }));
        },
        _ => panic!("expected an invoke message"),
    }
}

#[test]
fn ballot_deployed_event_marks_the_process_active() {
    let ballot = Address { kind: AddressKind::ZkContract, id_a: 42, id_b: 0, id_c: 0 };
    let s = fresh_org();
    let pid = ProcessId { time: 150, tx_tag: 2 };
    let event = OrganizationEvent::BallotDeployed {
        organization: org_self(),
        ballot,
        title: String::from("Raise dues"),
        timestamp: 151,
        process_id: pid,
    };
    let s = handle_ballot_deployed_event(&org_ctx(org_self(), 151, 3), s, &event).unwrap();
    assert!(s.ballots.contains(&ballot));
    assert_eq!(s.ballot_processes.get(&pid), Some(BallotProcessState::Active));
    let s = fresh_org();
    let other = OrganizationEvent::OrganizationDeployed {
        factory: factory(),
        organization: org_self(),
        timestamp: 151,
        process_id: pid,
    };
    let r = handle_ballot_deployed_event(&org_ctx(org_self(), 151, 3), s, &other);
    assert_eq!(r.unwrap_err(), OrgError::UnexpectedEvent);
}

#[test]
fn administrator_changes_are_owner_only() {
    let s = fresh_org();
    let (s, _out) = add_member(&org_ctx(owner(), 120, 2), s, user(2)).unwrap();
    let s = add_administrator(&org_ctx(owner(), 121, 3), s, user(2)).unwrap();
    // Another administrator is still not the owner.
    let r = add_administrator(&org_ctx(user(2), 122, 4), s, user(3));
    assert_eq!(r.unwrap_err(), OrgError::NotOwner);
    let s = fresh_org();
    let (s, _out) = add_member(&org_ctx(owner(), 120, 2), s, user(2)).unwrap();
    let s = add_administrator(&org_ctx(owner(), 121, 3), s, user(2)).unwrap();
    let r = remove_administrator(&org_ctx(user(2), 122, 4), s, owner());
    assert_eq!(r.unwrap_err(), OrgError::NotOwner);
}

#[test]
fn add_administrator_refuses_a_repeat() {
    let s = fresh_org();
    let (s, _out) = add_member(&org_ctx(owner(), 120, 2), s, user(2)).unwrap();
    let s = add_administrator(&org_ctx(owner(), 121, 3), s, user(2)).unwrap();
    let r = add_administrator(&org_ctx(owner(), 122, 4), s, user(2));
    assert_eq!(r.unwrap_err(), OrgError::AlreadyAdministrator);
}

#[test]
fn remove_administrator_needs_an_administrator() {
    let s = fresh_org();
    let (s, _out) = add_member(&org_ctx(owner(), 120, 2), s, user(2)).unwrap();
    let r = remove_administrator(&org_ctx(owner(), 121, 3), s, user(2));
    assert_eq!(r.unwrap_err(), OrgError::NotAnAdministrator);
    let s = fresh_org();
    let (s, _out) = add_member(&org_ctx(owner(), 120, 2), s, user(2)).unwrap();
    let s = add_administrator(&org_ctx(owner(), 121, 3), s, user(2)).unwrap();
    let s = remove_administrator(&org_ctx(owner(), 122, 4), s, user(2)).unwrap();
    assert!(!s.administrators.contains(&user(2)));
    assert!(s.members.contains(&user(2)));
}
