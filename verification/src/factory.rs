//! The factory: deploys organizations and ballots and tracks what exists.
//!
//! Each deployment is a two-step asynchronous protocol: the factory
//! predicts the future contract address, opens a `Created` ledger entry,
//! and emits a deployment request with a chained callback; the callback
//! later reconciles success or failure, ignoring duplicates.

use vstd::prelude::*;
use vstd::slice::slice_to_vec;
use crate::addr::{
    predicted_address, spec_predicted_address, Address, AddressKind, CallbackContext,
    ContractContext,
};
use crate::codec::{
    all_strs_encodable, blob_encodable, enc_ballot_request, enc_org_init, encode_ballot_request,
    encode_org_init, str_encodable, OrgInitData, OrgInitView,
};
use crate::events::{
    DeployCallback, OrganizationEvent, OrganizationEventView, OutgoingMessage,
    CALLBACK_COST, DEPLOY_BALLOT_CALLBACK_SHORTNAME,
    DEPLOY_ORGANIZATION_CALLBACK_SHORTNAME, DEPLOY_SHORTNAME, ORGANIZATION_DEPLOYED_SHORTNAME,
    WASM_BINDER_ID,
};
use crate::members::{AddressSet, AddressSetMap};
use crate::process::{
    generate_process_id, spec_process_id, OrganizationProcessState, ProcessId, ProcessLedger,
};

verus! {

/// The system contract that deploys public contracts.
pub open spec fn spec_deploy_public_address() -> Address {
    Address {
        kind: AddressKind::SystemContract,
        id_a: 0x5b0224e938e2a097,
        id_b: 0x463e91c4a04a14ad,
        id_c: 0x4d9a8f30,
    }
}

/// The address of the system contract that deploys public contracts.
pub fn deploy_public_address() -> (r: Address)
    ensures
        r == spec_deploy_public_address(),
{
    Address {
        kind: AddressKind::SystemContract,
        id_a: 0x5b0224e938e2a097,
        id_b: 0x463e91c4a04a14ad,
        id_c: 0x4d9a8f30,
    }
}

/// Persisted state of the factory contract.
#[derive(Debug)]
pub struct SekivaFactoryState {
    pub admin: Address,
    pub organizations: AddressSet,
    pub ballots: AddressSet,
    pub user_org_memberships: AddressSetMap,
    pub organization_ballots: AddressSetMap,
    pub ballot_contract_zkwa: Vec<u8>,
    pub ballot_contract_abi: Vec<u8>,
    pub organization_contract_wasm: Vec<u8>,
    pub organization_contract_abi: Vec<u8>,
    pub event_nonce: u64,
    pub organization_processes: ProcessLedger<OrganizationProcessState>,
}

/// Mathematical view of the factory's state.
#[verifier::ext_equal]
pub struct FactoryView {
    pub admin: Address,
    pub organizations: Set<Address>,
    pub ballots: Set<Address>,
    pub user_org_memberships: Map<Address, Set<Address>>,
    pub organization_ballots: Map<Address, Set<Address>>,
    pub ballot_contract_zkwa: Seq<u8>,
    pub ballot_contract_abi: Seq<u8>,
    pub organization_contract_wasm: Seq<u8>,
    pub organization_contract_abi: Seq<u8>,
    pub event_nonce: u64,
    pub organization_processes: Map<ProcessId, OrganizationProcessState>,
}

impl View for SekivaFactoryState {
    type V = FactoryView;

    open spec fn view(&self) -> FactoryView {
        FactoryView {
            admin: self.admin,
            organizations: self.organizations@,
            ballots: self.ballots@,
            user_org_memberships: self.user_org_memberships@,
            organization_ballots: self.organization_ballots@,
            ballot_contract_zkwa: self.ballot_contract_zkwa@,
            ballot_contract_abi: self.ballot_contract_abi@,
            organization_contract_wasm: self.organization_contract_wasm@,
            organization_contract_abi: self.organization_contract_abi@,
            event_nonce: self.event_nonce,
            organization_processes: self.organization_processes.as_map(),
        }
    }
}

impl SekivaFactoryState {
    /// Structural well-formedness of the sets, the maps and the ledger.
    pub open spec fn wf(&self) -> bool {
        &&& self.organizations.wf()
        &&& self.ballots.wf()
        &&& self.user_org_memberships.wf()
        &&& self.organization_ballots.wf()
        &&& self.organization_processes.wf()
    }
}

/// Creates the factory, remembering the deployer and the contract binaries
/// it will hand to each deployment request.
pub fn initialize(
    ctx: &ContractContext,
    ballot_contract_zkwa: Vec<u8>,
    ballot_contract_abi: Vec<u8>,
    organization_contract_wasm: Vec<u8>,
    organization_contract_abi: Vec<u8>,
) -> (r: (SekivaFactoryState, Vec<OutgoingMessage>))
    ensures
        r.0.wf(),
        r.0@ == (FactoryView {
            admin: ctx.sender,
            organizations: Set::empty(),
            ballots: Set::empty(),
            user_org_memberships: Map::empty(),
            organization_ballots: Map::empty(),
            ballot_contract_zkwa: ballot_contract_zkwa@,
            ballot_contract_abi: ballot_contract_abi@,
            organization_contract_wasm: organization_contract_wasm@,
            organization_contract_abi: organization_contract_abi@,
            event_nonce: 0,
            organization_processes: Map::empty(),
        }),
        r.1@.len() == 0,
{
    let s = SekivaFactoryState {
        admin: ctx.sender,
        organizations: AddressSet::new(),
        ballots: AddressSet::new(),
        user_org_memberships: AddressSetMap::new(),
        organization_ballots: AddressSetMap::new(),
        ballot_contract_zkwa,
        ballot_contract_abi,
        organization_contract_wasm,
        organization_contract_abi,
        event_nonce: 0,
        organization_processes: ProcessLedger::new(),
    };
    let out: Vec<OutgoingMessage> = Vec::new();
    proof {
        assert(s@ =~= (FactoryView {
            admin: ctx.sender,
            organizations: Set::empty(),
            ballots: Set::empty(),
            user_org_memberships: Map::empty(),
            organization_ballots: Map::empty(),
            ballot_contract_zkwa: s.ballot_contract_zkwa@,
            ballot_contract_abi: s.ballot_contract_abi@,
            organization_contract_wasm: s.organization_contract_wasm@,
            organization_contract_abi: s.organization_contract_abi@,
            event_nonce: 0,
            organization_processes: Map::empty(),
        }));
    }
    (s, out)
}

/// Deploys a new organization: predicts its address, opens a `Created`
/// ledger entry, and emits one deployment request with a chained callback
/// carrying the predicted address and the process identifier.
pub fn deploy_organization(
    ctx: &ContractContext,
    state: SekivaFactoryState,
    name: String,
    description: String,
    profile_image: String,
    banner_image: String,
    x_url: String,
    discord_url: String,
    website_url: String,
    administrator: Address,
) -> (r: (SekivaFactoryState, Vec<OutgoingMessage>))
    requires
        state.wf(),
        ctx.tx_bytes@.len() >= 32,
        state.event_nonce < u64::MAX,
        str_encodable(name@),
        str_encodable(description@),
        str_encodable(profile_image@),
        str_encodable(banner_image@),
        str_encodable(x_url@),
        str_encodable(discord_url@),
        str_encodable(website_url@),
        blob_encodable(state.ballot_contract_zkwa@),
        blob_encodable(state.ballot_contract_abi@),
    ensures
        r.0.wf(),
        r.0@ == (FactoryView {
            organization_processes: state@.organization_processes.insert(
                spec_process_id(ctx),
                OrganizationProcessState::Created,
            ),
            event_nonce: (state.event_nonce + 1) as u64,
            ..state@
        }),
        r.1@.len() == 1 && (r.1@[0] matches OutgoingMessage::DeployPublicContract {
            dest,
            shortname,
            code,
            abi,
            init_data,
            binder_id,
            callback,
        } && dest == spec_deploy_public_address() && shortname == DEPLOY_SHORTNAME && code@
            == state@.organization_contract_wasm && abi@ == state@.organization_contract_abi
            && init_data@ == enc_org_init(
            OrgInitView {
                name: name@,
                description: description@,
                profile_image: profile_image@,
                banner_image: banner_image@,
                website: website_url@,
                x_account: x_url@,
                discord_server: discord_url@,
                administrator,
                ballot_contract_zkwa: state@.ballot_contract_zkwa,
                ballot_contract_abi: state@.ballot_contract_abi,
                factory_address: ctx.contract_address,
            },
        ) && binder_id == WASM_BINDER_ID && (
        callback matches DeployCallback::OrganizationByFactory {
            shortname: cbs,
            cost,
            organization,
            process_id,
        } && cbs == DEPLOY_ORGANIZATION_CALLBACK_SHORTNAME && cost == CALLBACK_COST
            && organization == spec_predicted_address(AddressKind::PublicContract, ctx.tx_bytes@)
            && process_id == spec_process_id(ctx))),
{
    let org_contract_address = predicted_address(AddressKind::PublicContract, &ctx.tx_bytes);
    let process_id = generate_process_id(ctx);
    let event_nonce = state.event_nonce + 1;
    let mut s = state;
    s.organization_processes.put(process_id, OrganizationProcessState::Created);
    s.event_nonce = event_nonce;
    let init = OrgInitData {
        name,
        description,
        profile_image,
        banner_image,
        website: website_url,
        x_account: x_url,
        discord_server: discord_url,
        administrator,
        ballot_contract_zkwa: slice_to_vec(s.ballot_contract_zkwa.as_slice()),
        ballot_contract_abi: slice_to_vec(s.ballot_contract_abi.as_slice()),
        factory_address: ctx.contract_address,
    };
    let init_data = encode_org_init(&init);
    let code = slice_to_vec(s.organization_contract_wasm.as_slice());
    let abi = slice_to_vec(s.organization_contract_abi.as_slice());
    let callback = DeployCallback::OrganizationByFactory {
        shortname: DEPLOY_ORGANIZATION_CALLBACK_SHORTNAME,
        cost: CALLBACK_COST,
        organization: org_contract_address,
        process_id,
    };
    let mut out: Vec<OutgoingMessage> = Vec::new();
    out.push(
        OutgoingMessage::DeployPublicContract {
            dest: deploy_public_address(),
            shortname: DEPLOY_SHORTNAME,
            code,
            abi,
            init_data,
            binder_id: WASM_BINDER_ID,
            callback,
        },
    );
    proof {
        assert(s@ =~= (FactoryView {
            organization_processes: state@.organization_processes.insert(
                spec_process_id(ctx),
                OrganizationProcessState::Created,
            ),
            event_nonce: (state.event_nonce + 1) as u64,
            ..state@
        }));
    }
    (s, out)
}

/// The factory state after an organization deployment callback: a process
/// no longer `Created` marks a duplicate and is ignored; a success records
/// the organization, credits it to the deploying user and marks the process
/// `Deployed`; a failure marks it `Deleted`.
pub open spec fn spec_deploy_organization_callback(
    pre: FactoryView,
    org: Address,
    sender: Address,
    pid: ProcessId,
    success: bool,
) -> FactoryView {
    if pre.organization_processes.contains_key(pid) && pre.organization_processes[pid]
        != OrganizationProcessState::Created {
        pre
    } else if success {
        FactoryView {
            organization_processes: pre.organization_processes.insert(
                pid,
                OrganizationProcessState::Deployed,
            ),
            organizations: pre.organizations.insert(org),
            user_org_memberships: pre.user_org_memberships.insert(
                sender,
                if pre.user_org_memberships.contains_key(sender) {
                    pre.user_org_memberships[sender].insert(org)
                } else {
                    Set::<Address>::empty().insert(org)
                },
            ),
            organization_ballots: pre.organization_ballots.insert(org, Set::empty()),
            event_nonce: (pre.event_nonce + 1) as u64,
            ..pre
        }
    } else {
        FactoryView {
            organization_processes: pre.organization_processes.insert(
                pid,
                OrganizationProcessState::Deleted,
            ),
            event_nonce: (pre.event_nonce + 1) as u64,
            ..pre
        }
    }
}

/// Idempotence: delivering the same organization deployment callback a
/// second time leaves the state exactly as the first delivery left it.
pub proof fn lemma_deploy_organization_callback_idempotent(
    pre: FactoryView,
    org: Address,
    sender: Address,
    pid: ProcessId,
    success: bool,
)
    ensures
        spec_deploy_organization_callback(
            spec_deploy_organization_callback(pre, org, sender, pid, success),
            org,
            sender,
            pid,
            success,
        ) == spec_deploy_organization_callback(pre, org, sender, pid, success),
{
}

/// Handles the outcome of an organization deployment. A duplicate delivery
/// is recognised by the ledger and ignored; a success records the new
/// organization and notifies the factory itself; a failure only marks the
/// ledger entry.
pub fn deploy_organization_callback(
    ctx: &ContractContext,
    callback_ctx: &CallbackContext,
    state: SekivaFactoryState,
    org_contract_address: Address,
    process_id: ProcessId,
) -> (r: (SekivaFactoryState, Vec<OutgoingMessage>))
    requires
        state.wf(),
        state.event_nonce < u64::MAX,
    ensures
        r.0.wf(),
        r.0@ == spec_deploy_organization_callback(
            state@,
            org_contract_address,
            ctx.sender,
            process_id,
            callback_ctx.success,
        ),
        !(state@.organization_processes.contains_key(process_id)
            && state@.organization_processes[process_id] != OrganizationProcessState::Created)
            && callback_ctx.success ==> r.1@.len() == 1 && (
        r.1@[0] matches OutgoingMessage::Invoke { dest, shortname, event } && dest
            == ctx.contract_address && shortname == ORGANIZATION_DEPLOYED_SHORTNAME && event@
            == (OrganizationEventView::OrganizationDeployed {
            factory: ctx.contract_address,
            organization: org_contract_address,
            timestamp: ctx.block_time,
            process_id,
        })),
        state@.organization_processes.contains_key(process_id)
            && state@.organization_processes[process_id] != OrganizationProcessState::Created
            ==> r.1@.len() == 0,
        !callback_ctx.success ==> r.1@.len() == 0,
{
    let replay = match state.organization_processes.get(&process_id) {
        Some(existing) => !matches!(existing, OrganizationProcessState::Created),
        None => false,
    };
    if replay {
        let out: Vec<OutgoingMessage> = Vec::new();
        return (state, out);
    }
    let event_nonce = state.event_nonce + 1;
    let mut s = state;
    s.event_nonce = event_nonce;
    if callback_ctx.success {
        s.organization_processes.put(process_id, OrganizationProcessState::Deployed);
        s.organizations.insert(org_contract_address);
        s.user_org_memberships.add_to(ctx.sender, org_contract_address);
        s.organization_ballots.put_empty(org_contract_address);
        let mut out: Vec<OutgoingMessage> = Vec::new();
        out.push(
            OutgoingMessage::Invoke {
                dest: ctx.contract_address,
                shortname: ORGANIZATION_DEPLOYED_SHORTNAME,
                event: OrganizationEvent::OrganizationDeployed {
                    factory: ctx.contract_address,
                    organization: org_contract_address,
                    timestamp: ctx.block_time,
                    process_id,
                },
            },
        );
        proof {
            assert(s@ =~= spec_deploy_organization_callback(
                state@,
                org_contract_address,
                ctx.sender,
                process_id,
                true,
            ));
        }
        (s, out)
    } else {
        s.organization_processes.put(process_id, OrganizationProcessState::Deleted);
        let out: Vec<OutgoingMessage> = Vec::new();
        proof {
            assert(s@ =~= spec_deploy_organization_callback(
                state@,
                org_contract_address,
                ctx.sender,
                process_id,
                false,
            ));
        }
        (s, out)
    }
}

/// Deploys a new ballot contract on behalf of an organization: emits one
/// deployment request with a chained callback carrying the predicted ballot
/// address and the organization.
pub fn deploy_ballot(
    ctx: &ContractContext,
    state: SekivaFactoryState,
    title: String,
    description: String,
    options: Vec<String>,
    organization: Address,
) -> (r: (SekivaFactoryState, Vec<OutgoingMessage>))
    requires
        state.wf(),
        ctx.tx_bytes@.len() >= 32,
        options@.len() <= u32::MAX,
        all_strs_encodable(options@.map_values(|t: String| t@)),
        str_encodable(title@),
        str_encodable(description@),
    ensures
        r.0.wf(),
        r.0@ == state@,
        r.1@.len() == 1 && (r.1@[0] matches OutgoingMessage::DeployPublicContract {
            dest,
            shortname,
            code,
            abi,
            init_data,
            binder_id,
            callback,
        } && dest == spec_deploy_public_address() && shortname == DEPLOY_SHORTNAME && code@
            == state@.ballot_contract_zkwa && abi@ == state@.ballot_contract_abi && init_data@
            == enc_ballot_request(options@.map_values(|t: String| t@), title@, description@)
            && binder_id == WASM_BINDER_ID && (callback matches DeployCallback::BallotByFactory {
            shortname: cbs,
            cost,
            ballot,
            organization: cborg,
        } && cbs == DEPLOY_BALLOT_CALLBACK_SHORTNAME && cost == CALLBACK_COST && ballot
            == spec_predicted_address(AddressKind::PublicContract, ctx.tx_bytes@) && cborg
            == organization)),
{
    let ballot_contract_address = predicted_address(AddressKind::PublicContract, &ctx.tx_bytes);
    let init_data = encode_ballot_request(&options, &title, &description);
    let code = slice_to_vec(state.ballot_contract_zkwa.as_slice());
    let abi = slice_to_vec(state.ballot_contract_abi.as_slice());
    let callback = DeployCallback::BallotByFactory {
        shortname: DEPLOY_BALLOT_CALLBACK_SHORTNAME,
        cost: CALLBACK_COST,
        ballot: ballot_contract_address,
        organization,
    };
    let mut out: Vec<OutgoingMessage> = Vec::new();
    out.push(
        OutgoingMessage::DeployPublicContract {
            dest: deploy_public_address(),
            shortname: DEPLOY_SHORTNAME,
            code,
            abi,
            init_data,
            binder_id: WASM_BINDER_ID,
            callback,
        },
    );
    (state, out)
}

/// The factory state after a ballot deployment callback: a success records
/// the ballot and credits it to its organization; a failure changes
/// nothing.
pub open spec fn spec_factory_ballot_callback(
    pre: FactoryView,
    ballot: Address,
    org: Address,
    success: bool,
) -> FactoryView {
    if success {
        FactoryView {
            ballots: pre.ballots.insert(ballot),
            organization_ballots: pre.organization_ballots.insert(
                org,
                if pre.organization_ballots.contains_key(org) {
                    pre.organization_ballots[org].insert(ballot)
                } else {
                    Set::<Address>::empty().insert(ballot)
                },
            ),
            ..pre
        }
    } else {
        pre
    }
}

/// Idempotence: delivering the same ballot deployment callback a second
/// time leaves the state exactly as the first delivery left it.
pub proof fn lemma_factory_ballot_callback_idempotent(
    pre: FactoryView,
    ballot: Address,
    org: Address,
    success: bool,
)
    ensures
        spec_factory_ballot_callback(
            spec_factory_ballot_callback(pre, ballot, org, success),
            ballot,
            org,
            success,
        ) == spec_factory_ballot_callback(pre, ballot, org, success),
{
    assert(spec_factory_ballot_callback(
        spec_factory_ballot_callback(pre, ballot, org, success),
        ballot,
        org,
        success,
    ) =~~= spec_factory_ballot_callback(pre, ballot, org, success));
}

/// Handles the outcome of a ballot deployment: on success the ballot is
/// recorded and credited to its organization; on failure nothing changes.
pub fn deploy_ballot_callback(
    ctx: &ContractContext,
    callback_ctx: &CallbackContext,
    state: SekivaFactoryState,
    ballot_contract_address: Address,
    organization: Address,
) -> (r: (SekivaFactoryState, Vec<OutgoingMessage>))
    requires
        state.wf(),
    ensures
        r.0.wf(),
        r.0@ == spec_factory_ballot_callback(
            state@,
            ballot_contract_address,
            organization,
            callback_ctx.success,
        ),
        r.1@.len() == 0,
{
    if callback_ctx.success {
        let mut s = state;
        s.ballots.insert(ballot_contract_address);
        s.organization_ballots.add_to(organization, ballot_contract_address);
        let out: Vec<OutgoingMessage> = Vec::new();
        proof {
            assert(s@ =~= spec_factory_ballot_callback(
                state@,
                ballot_contract_address,
                organization,
                true,
            ));
        }
        (s, out)
    } else {
        let out: Vec<OutgoingMessage> = Vec::new();
        (state, out)
    }
}


/// Credits an organization to each listed user's membership set, in order.
pub open spec fn spec_add_memberships(
    m: Map<Address, Set<Address>>,
    members: Seq<Address>,
    org: Address,
) -> Map<Address, Set<Address>>
    decreases members.len(),
{
    if members.len() == 0 {
        m
    } else {
        let m1 = m.insert(
            members.first(),
            if m.contains_key(members.first()) {
                m[members.first()].insert(org)
            } else {
                Set::<Address>::empty().insert(org)
            },
        );
        spec_add_memberships(m1, members.drop_first(), org)
    }
}

/// Removes an organization from each listed user's membership set; a user
/// without an entry is left without one.
pub open spec fn spec_remove_memberships(
    m: Map<Address, Set<Address>>,
    members: Seq<Address>,
    org: Address,
) -> Map<Address, Set<Address>>
    decreases members.len(),
{
    if members.len() == 0 {
        m
    } else {
        let m1 = if m.contains_key(members.first()) {
            m.insert(members.first(), m[members.first()].remove(org))
        } else {
            m
        };
        spec_remove_memberships(m1, members.drop_first(), org)
    }
}

/// The factory state after an organization event: a ballot deployment is
/// recorded, membership changes are mirrored into the per-user sets, a
/// deployed organization's process becomes active, and the event nonce
/// always advances.
pub open spec fn spec_handle_organization_event(
    pre: FactoryView,
    ev: OrganizationEventView,
) -> FactoryView {
    let bumped = FactoryView { event_nonce: (pre.event_nonce + 1) as u64, ..pre };
    match ev {
        OrganizationEventView::BallotDeployed { ballot, process_id, .. } => FactoryView {
            ballots: bumped.ballots.insert(ballot),
            organization_processes: if bumped.organization_processes.contains_key(process_id)
                && bumped.organization_processes[process_id]
                == OrganizationProcessState::Deployed {
                bumped.organization_processes.insert(
                    process_id,
                    OrganizationProcessState::Active,
                )
            } else {
                bumped.organization_processes
            },
            ..bumped
        },
        OrganizationEventView::MembersAdded { members, organization, .. } => FactoryView {
            user_org_memberships: spec_add_memberships(
                bumped.user_org_memberships,
                members,
                organization,
            ),
            ..bumped
        },
        OrganizationEventView::MembersRemoved { members, organization, .. } => FactoryView {
            user_org_memberships: spec_remove_memberships(
                bumped.user_org_memberships,
                members,
                organization,
            ),
            ..bumped
        },
        OrganizationEventView::OrganizationDeployed { organization, process_id, .. } => (
        FactoryView {
            organization_processes: bumped.organization_processes.insert(
                process_id,
                OrganizationProcessState::Active,
            ),
            ..bumped
        }),
        OrganizationEventView::BallotDeployFailed { .. } => bumped,
    }
}

/// Handles an event an organization sent to the factory, mirroring its
/// effect into the factory's records.
pub fn handle_organization_event(
    ctx: &ContractContext,
    state: SekivaFactoryState,
    event: &OrganizationEvent,
) -> (r: (SekivaFactoryState, Vec<OutgoingMessage>))
    requires
        state.wf(),
        state.event_nonce < u64::MAX,
    ensures
        r.0.wf(),
        r.0@ == spec_handle_organization_event(state@, event@),
        r.1@.len() == 0,
{
    let event_nonce = state.event_nonce + 1;
    let mut s = state;
    s.event_nonce = event_nonce;
    let ghost bumped = s@;
    let out: Vec<OutgoingMessage> = Vec::new();
    match event {
        OrganizationEvent::BallotDeployed { ballot, process_id, .. } => {
            s.ballots.insert(*ballot);
            let advance = match s.organization_processes.get(process_id) {
                Some(existing) => matches!(existing, OrganizationProcessState::Deployed),
                None => false,
            };
            if advance {
                s.organization_processes.put(*process_id, OrganizationProcessState::Active);
            }
            proof {
                assert(s@ =~= spec_handle_organization_event(state@, event@));
            }
            (s, out)
        },
        OrganizationEvent::MembersAdded { members, organization, .. } => {
            let n = members.len();
            let mut i: usize = 0;
            proof {
                assert(members@.subrange(0, n as int) =~= members@);
            }
            while i < n
                invariant
                    n == members@.len(),
                    0 <= i <= n,
                    s.wf(),
                    s@ == (FactoryView { user_org_memberships: s@.user_org_memberships, ..bumped }),
                    spec_add_memberships(bumped.user_org_memberships, members@, *organization)
                        == spec_add_memberships(
                        s@.user_org_memberships,
                        members@.subrange(i as int, n as int),
                        *organization,
                    ),
                decreases n - i,
            {
                let ghost rest = members@.subrange(i as int, n as int);
                proof {
                    assert(rest.first() == members@[i as int]);
                    assert(rest.drop_first() =~= members@.subrange(i + 1 as int, n as int));
                }
                s.user_org_memberships.add_to(members[i], *organization);
                i += 1;
            }
            proof {
                assert(members@.subrange(n as int, n as int) =~= Seq::<Address>::empty());
                assert(s@ =~= spec_handle_organization_event(state@, event@));
            }
            (s, out)
        },
        OrganizationEvent::MembersRemoved { members, organization, .. } => {
            let n = members.len();
            let mut i: usize = 0;
            proof {
                assert(members@.subrange(0, n as int) =~= members@);
            }
            while i < n
                invariant
                    n == members@.len(),
                    0 <= i <= n,
                    s.wf(),
                    s@ == (FactoryView { user_org_memberships: s@.user_org_memberships, ..bumped }),
                    spec_remove_memberships(bumped.user_org_memberships, members@, *organization)
                        == spec_remove_memberships(
                        s@.user_org_memberships,
                        members@.subrange(i as int, n as int),
                        *organization,
                    ),
                decreases n - i,
            {
                let ghost rest = members@.subrange(i as int, n as int);
                proof {
                    assert(rest.first() == members@[i as int]);
                    assert(rest.drop_first() =~= members@.subrange(i + 1 as int, n as int));
                }
                s.user_org_memberships.remove_from(&members[i], organization);
                i += 1;
            }
            proof {
                assert(members@.subrange(n as int, n as int) =~= Seq::<Address>::empty());
                assert(s@ =~= spec_handle_organization_event(state@, event@));
            }
            (s, out)
        },
        OrganizationEvent::OrganizationDeployed { organization, process_id, .. } => {
            s.organization_processes.put(*process_id, OrganizationProcessState::Active);
            proof {
                assert(s@ =~= spec_handle_organization_event(state@, event@));
            }
            (s, out)
        },
        OrganizationEvent::BallotDeployFailed { .. } => {
            proof {
                assert(s@ =~= spec_handle_organization_event(state@, event@));
            }
            (s, out)
        },
    }
}

/// Handles the factory's own organization-deployed notification: marks the
/// deployment process active; any other event kind changes nothing.
pub fn handle_organization_deployed_event(
    ctx: &ContractContext,
    state: SekivaFactoryState,
    event: &OrganizationEvent,
) -> (r: (SekivaFactoryState, Vec<OutgoingMessage>))
    requires
        state.wf(),
    ensures
        r.0.wf(),
        r.0@ == (match event@ {
            OrganizationEventView::OrganizationDeployed { process_id, .. } => (FactoryView {
                organization_processes: state@.organization_processes.insert(
                    process_id,
                    OrganizationProcessState::Active,
                ),
                ..state@
            }),
            _ => state@,
        }),
        r.1@.len() == 0,
{
    let out: Vec<OutgoingMessage> = Vec::new();
    match event {
        OrganizationEvent::OrganizationDeployed { process_id, .. } => {
            let mut s = state;
            s.organization_processes.put(*process_id, OrganizationProcessState::Active);
            proof {
                assert(s@ =~= (FactoryView {
                    organization_processes: state@.organization_processes.insert(
                        event@->OrganizationDeployed_process_id,
                        OrganizationProcessState::Active,
                    ),
                    ..state@
                }));
            }
            (s, out)
        },
        _ => (state, out),
    }
}


} // verus!
