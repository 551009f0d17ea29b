//! The organization: membership, administrators, metadata, and the
//! deployment of ballots.
//!
//! Invariants: the owner is always an administrator, and every
//! administrator is a member. An address must be a member before it can
//! become an administrator, and the owner can never be removed.

use vstd::prelude::*;
use vstd::slice::slice_to_vec;
use crate::addr::{
    predicted_address, spec_predicted_address, Address, AddressKind, CallbackContext,
    ContractContext,
};
use crate::codec::{
    all_strs_encodable, enc_ballot_init, encode_ballot_init, str_encodable, BallotInitData,
    BallotInitView,
};
use crate::events::{
    DeployCallback, OrganizationEvent, OrganizationEventView, OutgoingMessage,
    BALLOT_DEPLOYED_SHORTNAME, BALLOT_DEPLOY_FAILED_SHORTNAME,
    CALLBACK_COST, DEPLOY_BALLOT_CALLBACK_SHORTNAME, DEPLOY_ZK_SHORTNAME,
    HANDLE_ORG_EVENT_SHORTNAME, ZK_BINDER_ID, ZK_REQUIRED_STAKES,
};
use crate::members::AddressSet;
use crate::process::{
    generate_process_id, spec_process_id, BallotProcessState, ProcessId, ProcessLedger,
};

verus! {

/// Why an organization call was aborted with no state change.
#[derive(Clone, Copy, Debug, PartialEq, Eq, Structural)]
pub enum OrgError {
    EmptyName,
    EmptyDescription,
    EmptyProfileImage,
    EmptyBannerImage,
    EmptyWebsite,
    EmptyXAccount,
    EmptyDiscordServer,
    AdministratorIsFactory,
    MissingBinary,
    MissingAbi,
    NotOwner,
    NotAdministrator,
    AlreadyAdministrator,
    NotAnAdministrator,
    NotMember,
    AlreadyMember,
    CannotRemoveOwner,
    CannotRemoveAdministrator,
    AlreadyBallot,
    UnexpectedEvent,
}

/// Persisted state of one organization contract.
#[derive(Debug)]
pub struct OrganizationState {
    pub owner: Address,
    pub administrators: AddressSet,
    pub members: AddressSet,
    pub name: String,
    pub description: String,
    pub profile_image: String,
    pub banner_image: String,
    pub website: String,
    pub x_account: String,
    pub discord_server: String,
    pub ballot_contract_zkwa: Vec<u8>,
    pub ballot_contract_abi: Vec<u8>,
    pub ballots: AddressSet,
    pub event_nonce: u64,
    pub ballot_processes: ProcessLedger<BallotProcessState>,
    pub factory_address: Address,
}

/// Mathematical view of an organization's state.
#[verifier::ext_equal]
pub struct OrganizationView {
    pub owner: Address,
    pub administrators: Set<Address>,
    pub members: Set<Address>,
    pub name: Seq<char>,
    pub description: Seq<char>,
    pub profile_image: Seq<char>,
    pub banner_image: Seq<char>,
    pub website: Seq<char>,
    pub x_account: Seq<char>,
    pub discord_server: Seq<char>,
    pub ballot_contract_zkwa: Seq<u8>,
    pub ballot_contract_abi: Seq<u8>,
    pub ballots: Set<Address>,
    pub event_nonce: u64,
    pub ballot_processes: Map<ProcessId, BallotProcessState>,
    pub factory_address: Address,
}

impl View for OrganizationState {
    type V = OrganizationView;

    open spec fn view(&self) -> OrganizationView {
        OrganizationView {
            owner: self.owner,
            administrators: self.administrators@,
            members: self.members@,
            name: self.name@,
            description: self.description@,
            profile_image: self.profile_image@,
            banner_image: self.banner_image@,
            website: self.website@,
            x_account: self.x_account@,
            discord_server: self.discord_server@,
            ballot_contract_zkwa: self.ballot_contract_zkwa@,
            ballot_contract_abi: self.ballot_contract_abi@,
            ballots: self.ballots@,
            event_nonce: self.event_nonce,
            ballot_processes: self.ballot_processes.as_map(),
            factory_address: self.factory_address,
        }
    }
}

impl OrganizationState {
    /// Structural well-formedness, and the membership invariant: the owner
    /// is an administrator and every administrator is a member.
    pub open spec fn wf(&self) -> bool {
        &&& self.administrators.wf()
        &&& self.members.wf()
        &&& self.ballots.wf()
        &&& self.ballot_processes.wf()
        &&& self.administrators@.contains(self.owner)
        &&& self.administrators@.subset_of(self.members@)
    }
}

/// Creates a new organization whose owner, sole administrator and sole
/// member is the given administrator.
///
/// Fails when the name or description is empty, the administrator is the
/// calling factory itself, or the ballot contract binary or ABI is missing.
pub fn initialize(
    ctx: &ContractContext,
    name: String,
    description: String,
    profile_image: String,
    banner_image: String,
    website: String,
    x_account: String,
    discord_server: String,
    administrator: Address,
    ballot_contract_zkwa: Vec<u8>,
    ballot_contract_abi: Vec<u8>,
    factory_address: Address,
) -> (r: Result<OrganizationState, OrgError>)
    ensures
        r is Err <==> name@.len() == 0 || description@.len() == 0 || administrator == ctx.sender
            || ballot_contract_zkwa@.len() == 0 || ballot_contract_abi@.len() == 0,
        r matches Err(e) ==> e == (if name@.len() == 0 {
            OrgError::EmptyName
        } else if description@.len() == 0 {
            OrgError::EmptyDescription
        } else if administrator == ctx.sender {
            OrgError::AdministratorIsFactory
        } else if ballot_contract_zkwa@.len() == 0 {
            OrgError::MissingBinary
        } else {
            OrgError::MissingAbi
        }),
        r matches Ok(s) ==> s.wf() && s@ == (OrganizationView {
            owner: administrator,
            administrators: Set::empty().insert(administrator),
            members: Set::empty().insert(administrator),
            name: name@,
            description: description@,
            profile_image: profile_image@,
            banner_image: banner_image@,
            website: website@,
            x_account: x_account@,
            discord_server: discord_server@,
            ballot_contract_zkwa: ballot_contract_zkwa@,
            ballot_contract_abi: ballot_contract_abi@,
            ballots: Set::empty(),
            event_nonce: 0,
            ballot_processes: Map::empty(),
            factory_address,
        }),
{
    if name.as_str().is_empty() {
        return Err(OrgError::EmptyName);
    }
    if description.as_str().is_empty() {
        return Err(OrgError::EmptyDescription);
    }
    if administrator == ctx.sender {
        return Err(OrgError::AdministratorIsFactory);
    }
    if ballot_contract_zkwa.len() == 0 {
        return Err(OrgError::MissingBinary);
    }
    if ballot_contract_abi.len() == 0 {
        return Err(OrgError::MissingAbi);
    }
    let mut members = AddressSet::new();
    members.insert(administrator);
    let mut administrators = AddressSet::new();
    administrators.insert(administrator);
    let s = OrganizationState {
        owner: administrator,
        administrators,
        members,
        name,
        description,
        profile_image,
        banner_image,
        website,
        x_account,
        discord_server,
        ballot_contract_zkwa,
        ballot_contract_abi,
        ballots: AddressSet::new(),
        event_nonce: 0,
        ballot_processes: ProcessLedger::new(),
        factory_address,
    };
    proof {
        assert(s@ =~= (OrganizationView {
            owner: administrator,
            administrators: Set::empty().insert(administrator),
            members: Set::empty().insert(administrator),
            name: s.name@,
            description: s.description@,
            profile_image: s.profile_image@,
            banner_image: s.banner_image@,
            website: s.website@,
            x_account: s.x_account@,
            discord_server: s.discord_server@,
            ballot_contract_zkwa: s.ballot_contract_zkwa@,
            ballot_contract_abi: s.ballot_contract_abi@,
            ballots: Set::empty(),
            event_nonce: 0,
            ballot_processes: Map::empty(),
            factory_address,
        }));
    }
    Ok(s)
}

/// The owner promotes an existing member to administrator; an address must
/// be added as a member first.
pub fn add_administrator(
    ctx: &ContractContext,
    state: OrganizationState,
    address: Address,
) -> (r: Result<OrganizationState, OrgError>)
    requires
        state.wf(),
    ensures
        r is Err <==> ctx.sender != state.owner || state@.administrators.contains(address)
            || !state@.members.contains(address),
        r matches Err(e) ==> e == (if ctx.sender != state.owner {
            OrgError::NotOwner
        } else if state@.administrators.contains(address) {
            OrgError::AlreadyAdministrator
        } else {
            OrgError::NotMember
        }),
        r matches Ok(s) ==> s.wf() && s@ == (OrganizationView {
            administrators: state@.administrators.insert(address),
            ..state@
        }),
{
    if ctx.sender != state.owner {
        return Err(OrgError::NotOwner);
    }
    if state.administrators.contains(&address) {
        return Err(OrgError::AlreadyAdministrator);
    }
    if !state.members.contains(&address) {
        return Err(OrgError::NotMember);
    }
    let mut s = state;
    s.administrators.insert(address);
    proof {
        assert(s@ =~= (OrganizationView { administrators: state@.administrators.insert(address), ..state@ }));
    }
    Ok(s)
}

/// The owner demotes an administrator; the owner itself cannot be removed.
pub fn remove_administrator(
    ctx: &ContractContext,
    state: OrganizationState,
    address: Address,
) -> (r: Result<OrganizationState, OrgError>)
    requires
        state.wf(),
    ensures
        r is Err <==> ctx.sender != state.owner || !state@.administrators.contains(address)
            || !state@.members.contains(address) || address == state.owner,
        r matches Err(e) ==> e == (if ctx.sender != state.owner {
            OrgError::NotOwner
        } else if !state@.administrators.contains(address) {
            OrgError::NotAnAdministrator
        } else if !state@.members.contains(address) {
            OrgError::NotMember
        } else {
            OrgError::CannotRemoveOwner
        }),
        r matches Ok(s) ==> s.wf() && s@ == (OrganizationView {
            administrators: state@.administrators.remove(address),
            ..state@
        }),
{
    if ctx.sender != state.owner {
        return Err(OrgError::NotOwner);
    }
    if !state.administrators.contains(&address) {
        return Err(OrgError::NotAnAdministrator);
    }
    if !state.members.contains(&address) {
        return Err(OrgError::NotMember);
    }
    if state.owner == address {
        return Err(OrgError::CannotRemoveOwner);
    }
    let mut s = state;
    s.administrators.remove(&address);
    proof {
        assert(s@ =~= (OrganizationView { administrators: state@.administrators.remove(address), ..state@ }));
    }
    Ok(s)
}

/// The new value of one optional metadata field.
pub open spec fn spec_updated(field: Option<String>, current: Seq<char>) -> Seq<char> {
    match field {
        Some(v) => v@,
        None => current,
    }
}

/// An administrator updates any of the metadata fields at once; a provided
/// field must not be empty.
pub fn update_metadata(
    ctx: &ContractContext,
    state: OrganizationState,
    name: Option<String>,
    description: Option<String>,
    profile_image: Option<String>,
    banner_image: Option<String>,
    website: Option<String>,
    x_account: Option<String>,
    discord_server: Option<String>,
) -> (r: Result<OrganizationState, OrgError>)
    requires
        state.wf(),
    ensures
        r is Err <==> !state@.administrators.contains(ctx.sender) || (name matches Some(v)
            && v@.len() == 0) || (description matches Some(v) && v@.len() == 0) || (
        profile_image matches Some(v) && v@.len() == 0) || (banner_image matches Some(v)
            && v@.len() == 0) || (website matches Some(v) && v@.len() == 0) || (
        x_account matches Some(v) && v@.len() == 0) || (discord_server matches Some(v)
            && v@.len() == 0),
        r matches Err(e) ==> e == (if !state@.administrators.contains(ctx.sender) {
            OrgError::NotAdministrator
        } else if name matches Some(v) && v@.len() == 0 {
            OrgError::EmptyName
        } else if description matches Some(v) && v@.len() == 0 {
            OrgError::EmptyDescription
        } else if profile_image matches Some(v) && v@.len() == 0 {
            OrgError::EmptyProfileImage
        } else if banner_image matches Some(v) && v@.len() == 0 {
            OrgError::EmptyBannerImage
        } else if website matches Some(v) && v@.len() == 0 {
            OrgError::EmptyWebsite
        } else if x_account matches Some(v) && v@.len() == 0 {
            OrgError::EmptyXAccount
        } else {
            OrgError::EmptyDiscordServer
        }),
        r matches Ok(s) ==> s.wf() && s@ == (OrganizationView {
            name: spec_updated(name, state@.name),
            description: spec_updated(description, state@.description),
            profile_image: spec_updated(profile_image, state@.profile_image),
            banner_image: spec_updated(banner_image, state@.banner_image),
            website: spec_updated(website, state@.website),
            x_account: spec_updated(x_account, state@.x_account),
            discord_server: spec_updated(discord_server, state@.discord_server),
            ..state@
        }),
{
    if !state.administrators.contains(&ctx.sender) {
        return Err(OrgError::NotAdministrator);
    }
    if check_provided_empty(&name) {
        return Err(OrgError::EmptyName);
    }
    if check_provided_empty(&description) {
        return Err(OrgError::EmptyDescription);
    }
    if check_provided_empty(&profile_image) {
        return Err(OrgError::EmptyProfileImage);
    }
    if check_provided_empty(&banner_image) {
        return Err(OrgError::EmptyBannerImage);
    }
    if check_provided_empty(&website) {
        return Err(OrgError::EmptyWebsite);
    }
    if check_provided_empty(&x_account) {
        return Err(OrgError::EmptyXAccount);
    }
    if check_provided_empty(&discord_server) {
        return Err(OrgError::EmptyDiscordServer);
    }
    let mut s = state;
    s.name = unwrap_or_keep(name, s.name);
    s.description = unwrap_or_keep(description, s.description);
    s.profile_image = unwrap_or_keep(profile_image, s.profile_image);
    s.banner_image = unwrap_or_keep(banner_image, s.banner_image);
    s.website = unwrap_or_keep(website, s.website);
    s.x_account = unwrap_or_keep(x_account, s.x_account);
    s.discord_server = unwrap_or_keep(discord_server, s.discord_server);
    proof {
        assert(s@ =~= (OrganizationView {
            name: spec_updated(name, state@.name),
            description: spec_updated(description, state@.description),
            profile_image: spec_updated(profile_image, state@.profile_image),
            banner_image: spec_updated(banner_image, state@.banner_image),
            website: spec_updated(website, state@.website),
            x_account: spec_updated(x_account, state@.x_account),
            discord_server: spec_updated(discord_server, state@.discord_server),
            ..state@
        }));
    }
    Ok(s)
}

/// Whether an optional metadata field was provided and is empty.
fn check_provided_empty(field: &Option<String>) -> (r: bool)
    ensures
        r == (field matches Some(v) && v@.len() == 0),
{
    match field {
        Some(v) => v.as_str().is_empty(),
        None => false,
    }
}

/// The provided value, or the current one when the field was not provided.
fn unwrap_or_keep(field: Option<String>, current: String) -> (r: String)
    ensures
        r@ == spec_updated(field, current@),
{
    match field {
        Some(v) => v,
        None => current,
    }
}


/// The system contract that deploys zero-knowledge contracts.
pub open spec fn spec_deploy_zk_address() -> Address {
    Address {
        kind: AddressKind::SystemContract,
        id_a: 0x71872b67bbccc18b,
        id_b: 0x0432d4973c712703,
        id_c: 0xcb825090,
    }
}

/// The address of the system contract that deploys zero-knowledge
/// contracts.
pub fn deploy_zk_address() -> (r: Address)
    ensures
        r == spec_deploy_zk_address(),
{
    Address {
        kind: AddressKind::SystemContract,
        id_a: 0x71872b67bbccc18b,
        id_b: 0x0432d4973c712703,
        id_c: 0xcb825090,
    }
}

/// An administrator adds one member.
pub fn add_member(ctx: &ContractContext, state: OrganizationState, address: Address) -> (r: Result<
    (OrganizationState, Vec<OutgoingMessage>),
    OrgError,
>)
    requires
        state.wf(),
        ctx.tx_bytes@.len() >= 8,
        state.event_nonce < u64::MAX,
    ensures
        r is Err <==> !state@.administrators.contains(ctx.sender) || state@.members.contains(
            address,
        ),
        r matches Err(e) ==> e == (if !state@.administrators.contains(ctx.sender) {
            OrgError::NotAdministrator
        } else {
            OrgError::AlreadyMember
        }),
        r matches Ok((s, out)) ==> s.wf() && s@ == (OrganizationView {
            members: state@.members.insert(address),
            event_nonce: (state.event_nonce + 1) as u64,
            ..state@
        }) && out@.len() == 1 && (out@[0] matches OutgoingMessage::Invoke {
            dest,
            shortname,
            event,
        } && dest == state.factory_address && shortname == HANDLE_ORG_EVENT_SHORTNAME && event@
            == (OrganizationEventView::MembersAdded {
            members: seq![address],
            organization: ctx.contract_address,
            timestamp: ctx.block_time,
            process_id: spec_process_id(ctx),
            nonce: (state.event_nonce + 1) as u64,
        })),
{
    if !state.administrators.contains(&ctx.sender) {
        return Err(OrgError::NotAdministrator);
    }
    if state.members.contains(&address) {
        return Err(OrgError::AlreadyMember);
    }
    let process_id = generate_process_id(ctx);
    let event_nonce = state.event_nonce + 1;
    let mut s = state;
    s.members.insert(address);
    s.event_nonce = event_nonce;
    let mut added: Vec<Address> = Vec::new();
    added.push(address);
    proof {
        assert(added@ =~= seq![address]);
    }
    let event = OrganizationEvent::MembersAdded {
        members: added,
        organization: ctx.contract_address,
        timestamp: ctx.block_time,
        process_id,
        nonce: event_nonce,
    };
    let mut out: Vec<OutgoingMessage> = Vec::new();
    out.push(
        OutgoingMessage::Invoke {
            dest: s.factory_address,
            shortname: HANDLE_ORG_EVENT_SHORTNAME,
            event,
        },
    );
    proof {
        assert(s@ =~= (OrganizationView {
            members: state@.members.insert(address),
            event_nonce: (state.event_nonce + 1) as u64,
            ..state@
        }));
    }
    Ok((s, out))
}

/// The members a batch addition actually adds: those not yet members, in
/// order, first occurrence only.
pub open spec fn spec_added_members(members: Set<Address>, addrs: Seq<Address>) -> Seq<Address>
    decreases addrs.len(),
{
    if addrs.len() == 0 {
        Seq::empty()
    } else if members.contains(addrs.first()) {
        spec_added_members(members, addrs.drop_first())
    } else {
        seq![addrs.first()] + spec_added_members(members.insert(addrs.first()), addrs.drop_first())
    }
}

/// A batch addition that adds nobody found every address already a member.
pub proof fn lemma_added_members_empty(members: Set<Address>, addrs: Seq<Address>)
    requires
        spec_added_members(members, addrs).len() == 0,
    ensures
        addrs.to_set().subset_of(members),
    decreases addrs.len(),
{
    if addrs.len() > 0 {
        assert(members.contains(addrs.first()));
        lemma_added_members_empty(members, addrs.drop_first());
        assert forall|a: Address| addrs.to_set().contains(a) implies members.contains(a) by {
            let i = choose|i: int| 0 <= i < addrs.len() && addrs[i] == a;
            if i > 0 {
                assert(addrs.drop_first()[i - 1] == a);
                assert(addrs.drop_first().to_set().contains(a));
            }
        }
    }
}

/// An administrator adds several members at once; an address already
/// present is skipped. When nothing is new, the state is unchanged and no
/// event is emitted.
pub fn add_members(
    ctx: &ContractContext,
    state: OrganizationState,
    addresses: Vec<Address>,
) -> (r: Result<(OrganizationState, Vec<OutgoingMessage>), OrgError>)
    requires
        state.wf(),
        ctx.tx_bytes@.len() >= 8,
        state.event_nonce < u64::MAX,
    ensures
        r is Err <==> !state@.administrators.contains(ctx.sender),
        r matches Err(e) ==> e == OrgError::NotAdministrator,
        r matches Ok((s, out)) ==> s.wf() && (if spec_added_members(
            state@.members,
            addresses@,
        ).len() == 0 {
            s@ == state@ && out@.len() == 0
        } else {
            s@ == (OrganizationView {
                members: state@.members.union(addresses@.to_set()),
                event_nonce: (state.event_nonce + 1) as u64,
                ..state@
            }) && out@.len() == 1 && (out@[0] matches OutgoingMessage::Invoke {
                dest,
                shortname,
                event,
            } && dest == state.factory_address && shortname == HANDLE_ORG_EVENT_SHORTNAME
                && event@ == (OrganizationEventView::MembersAdded {
                members: spec_added_members(state@.members, addresses@),
                organization: ctx.contract_address,
                timestamp: ctx.block_time,
                process_id: spec_process_id(ctx),
                nonce: (state.event_nonce + 1) as u64,
            }))
        }),
{
    if !state.administrators.contains(&ctx.sender) {
        return Err(OrgError::NotAdministrator);
    }
    let ghost pre = state@;
    let mut s = state;
    let mut added: Vec<Address> = Vec::new();
    let n = addresses.len();
    let mut i: usize = 0;
    proof {
        assert(addresses@.subrange(0, 0).to_set() =~= Set::<Address>::empty());
        assert(pre.members.union(Set::<Address>::empty()) =~= pre.members);
        assert(addresses@.subrange(0, n as int) =~= addresses@);
        assert(added@ + spec_added_members(s.members@, addresses@.subrange(0, n as int)) =~= (
        spec_added_members(pre.members, addresses@)));
        assert(s@ =~= (OrganizationView { members: s.members@, ..pre }));
    }
    while i < n
        invariant
            n == addresses@.len(),
            0 <= i <= n,
            s.wf(),
            s.members@ == pre.members.union(addresses@.subrange(0, i as int).to_set()),
            added@ + spec_added_members(s.members@, addresses@.subrange(i as int, n as int))
                == spec_added_members(pre.members, addresses@),
            s@ == (OrganizationView { members: s.members@, ..pre }),
        decreases n - i,
    {
        let ghost mcur = s.members@;
        let ghost rest = addresses@.subrange(i as int, n as int);
        proof {
            assert(rest.first() == addresses@[i as int]);
            assert(rest.drop_first() =~= addresses@.subrange(i + 1 as int, n as int));
        }
        let newly = s.members.insert(addresses[i]);
        if newly {
            added.push(addresses[i]);
            proof {
                assert(added@.drop_last() + (seq![rest.first()] + spec_added_members(
                    mcur.insert(rest.first()),
                    rest.drop_first(),
                )) =~= added@ + spec_added_members(s.members@, rest.drop_first()));
            }
        }
        proof {
            assert(addresses@.subrange(0, i + 1 as int) =~= addresses@.subrange(0, i as int).push(
                addresses@[i as int]));
            crate::members::lemma_to_set_push(
                addresses@.subrange(0, i as int),
                addresses@[i as int],
            );
            assert(s.members@ =~= pre.members.union(
                addresses@.subrange(0, i + 1 as int).to_set()));
        }
        i += 1;
    }
    proof {
        assert(addresses@.subrange(0, n as int) =~= addresses@);
        assert(addresses@.subrange(n as int, n as int) =~= Seq::<Address>::empty());
        assert(spec_added_members(s.members@, Seq::<Address>::empty()) =~= Seq::<Address>::empty());
        assert(added@ =~= spec_added_members(pre.members, addresses@));
    }
    if added.len() == 0 {
        proof {
            lemma_added_members_empty(pre.members, addresses@);
            assert(s.members@ =~= pre.members);
            assert(s@ =~= pre);
        }
        let out: Vec<OutgoingMessage> = Vec::new();
        return Ok((s, out));
    }
    let process_id = generate_process_id(ctx);
    let event_nonce = s.event_nonce + 1;
    let mut s2 = s;
    s2.event_nonce = event_nonce;
    let event = OrganizationEvent::MembersAdded {
        members: added,
        organization: ctx.contract_address,
        timestamp: ctx.block_time,
        process_id,
        nonce: event_nonce,
    };
    let mut out: Vec<OutgoingMessage> = Vec::new();
    out.push(
        OutgoingMessage::Invoke {
            dest: s2.factory_address,
            shortname: HANDLE_ORG_EVENT_SHORTNAME,
            event,
        },
    );
    proof {
        assert(s2@ =~= (OrganizationView {
            members: pre.members.union(addresses@.to_set()),
            event_nonce: (pre.event_nonce + 1) as u64,
            ..pre
        }));
    }
    Ok((s2, out))
}

/// An administrator removes one member; neither the owner nor an
/// administrator can be removed this way.
pub fn remove_member(
    ctx: &ContractContext,
    state: OrganizationState,
    address: Address,
) -> (r: Result<(OrganizationState, Vec<OutgoingMessage>), OrgError>)
    requires
        state.wf(),
        ctx.tx_bytes@.len() >= 8,
        state.event_nonce < u64::MAX,
    ensures
        r is Err <==> !state@.administrators.contains(ctx.sender) || !state@.members.contains(
            address,
        ) || address == state.owner || state@.administrators.contains(address),
        r matches Err(e) ==> e == (if !state@.administrators.contains(ctx.sender) {
            OrgError::NotAdministrator
        } else if !state@.members.contains(address) {
            OrgError::NotMember
        } else if address == state.owner {
            OrgError::CannotRemoveOwner
        } else {
            OrgError::CannotRemoveAdministrator
        }),
        r matches Ok((s, out)) ==> s.wf() && s@ == (OrganizationView {
            members: state@.members.remove(address),
            event_nonce: (state.event_nonce + 1) as u64,
            ..state@
        }) && out@.len() == 1 && (out@[0] matches OutgoingMessage::Invoke {
            dest,
            shortname,
            event,
        } && dest == state.factory_address && shortname == HANDLE_ORG_EVENT_SHORTNAME && event@
            == (OrganizationEventView::MembersRemoved {
            members: seq![address],
            organization: ctx.contract_address,
            timestamp: ctx.block_time,
            process_id: spec_process_id(ctx),
            nonce: (state.event_nonce + 1) as u64,
        })),
{
    if !state.administrators.contains(&ctx.sender) {
        return Err(OrgError::NotAdministrator);
    }
    if !state.members.contains(&address) {
        return Err(OrgError::NotMember);
    }
    if state.owner == address {
        return Err(OrgError::CannotRemoveOwner);
    }
    if state.administrators.contains(&address) {
        return Err(OrgError::CannotRemoveAdministrator);
    }
    let process_id = generate_process_id(ctx);
    let event_nonce = state.event_nonce + 1;
    let mut s = state;
    s.members.remove(&address);
    s.event_nonce = event_nonce;
    let mut removed: Vec<Address> = Vec::new();
    removed.push(address);
    proof {
        assert(removed@ =~= seq![address]);
    }
    let event = OrganizationEvent::MembersRemoved {
        members: removed,
        organization: ctx.contract_address,
        timestamp: ctx.block_time,
        process_id,
        nonce: event_nonce,
    };
    let mut out: Vec<OutgoingMessage> = Vec::new();
    out.push(
        OutgoingMessage::Invoke {
            dest: s.factory_address,
            shortname: HANDLE_ORG_EVENT_SHORTNAME,
            event,
        },
    );
    proof {
        assert(s@ =~= (OrganizationView {
            members: state@.members.remove(address),
            event_nonce: (state.event_nonce + 1) as u64,
            ..state@
        }));
    }
    Ok((s, out))
}

/// An administrator removes several members at once; the whole batch is
/// refused if any address is not a member, is the owner, or is an
/// administrator. A non-empty removal advances the nonce and notifies the
/// factory; an empty one changes nothing.
pub fn remove_members(
    ctx: &ContractContext,
    state: OrganizationState,
    addresses: Vec<Address>,
) -> (r: Result<(OrganizationState, Vec<OutgoingMessage>), OrgError>)
    requires
        state.wf(),
        ctx.tx_bytes@.len() >= 8,
        state.event_nonce < u64::MAX,
    ensures
        r is Err <==> !state@.administrators.contains(ctx.sender) || (exists|i: int|
            0 <= i < addresses@.len() && !state@.members.contains(#[trigger] addresses@[i])) || (
        exists|i: int| 0 <= i < addresses@.len() && #[trigger] addresses@[i] == state.owner) || (
        exists|i: int|
            0 <= i < addresses@.len() && state@.administrators.contains(#[trigger] addresses@[i])),
        r matches Err(e) ==> e == (if !state@.administrators.contains(ctx.sender) {
            OrgError::NotAdministrator
        } else if exists|i: int|
            0 <= i < addresses@.len() && !state@.members.contains(#[trigger] addresses@[i]) {
            OrgError::NotMember
        } else if exists|i: int|
            0 <= i < addresses@.len() && #[trigger] addresses@[i] == state.owner {
            OrgError::CannotRemoveOwner
        } else {
            OrgError::CannotRemoveAdministrator
        }),
        r matches Ok((s, out)) ==> s.wf() && (if addresses@.len() == 0 {
            s@ == state@ && out@.len() == 0
        } else {
            s@ == (OrganizationView {
                members: state@.members.difference(addresses@.to_set()),
                event_nonce: (state.event_nonce + 1) as u64,
                ..state@
            }) && out@.len() == 1 && (out@[0] matches OutgoingMessage::Invoke {
                dest,
                shortname,
                event,
            } && dest == state.factory_address && shortname == HANDLE_ORG_EVENT_SHORTNAME
                && event@ == (OrganizationEventView::MembersRemoved {
                members: addresses@,
                organization: ctx.contract_address,
                timestamp: ctx.block_time,
                process_id: spec_process_id(ctx),
                nonce: (state.event_nonce + 1) as u64,
            }))
        }),
{
    if !state.administrators.contains(&ctx.sender) {
        return Err(OrgError::NotAdministrator);
    }
    let n = addresses.len();
    let mut i: usize = 0;
    while i < n
        invariant
            n == addresses@.len(),
            0 <= i <= n,
            state@.administrators.contains(ctx.sender),
            forall|k: int| 0 <= k < i ==> state@.members.contains(#[trigger] addresses@[k]),
            state.wf(),
        decreases n - i,
    {
        if !state.members.contains(&addresses[i]) {
            return Err(OrgError::NotMember);
        }
        i += 1;
    }
    let mut i: usize = 0;
    while i < n
        invariant
            n == addresses@.len(),
            0 <= i <= n,
            state@.administrators.contains(ctx.sender),
            forall|k: int| 0 <= k < n ==> state@.members.contains(#[trigger] addresses@[k]),
            forall|k: int| 0 <= k < i ==> #[trigger] addresses@[k] != state.owner,
            state.wf(),
        decreases n - i,
    {
        if state.owner == addresses[i] {
            return Err(OrgError::CannotRemoveOwner);
        }
        i += 1;
    }
    let mut i: usize = 0;
    while i < n
        invariant
            n == addresses@.len(),
            0 <= i <= n,
            state@.administrators.contains(ctx.sender),
            forall|k: int| 0 <= k < n ==> state@.members.contains(#[trigger] addresses@[k]),
            forall|k: int| 0 <= k < n ==> #[trigger] addresses@[k] != state.owner,
            forall|k: int|
                0 <= k < i ==> !state@.administrators.contains(#[trigger] addresses@[k]),
            state.wf(),
        decreases n - i,
    {
        if state.administrators.contains(&addresses[i]) {
            return Err(OrgError::CannotRemoveAdministrator);
        }
        i += 1;
    }
    if addresses.len() == 0 {
        let out: Vec<OutgoingMessage> = Vec::new();
        return Ok((state, out));
    }
    let process_id = generate_process_id(ctx);
    let event_nonce = state.event_nonce + 1;
    let mut s = state;
    s.members.remove_all(&addresses);
    s.event_nonce = event_nonce;
    proof {
        assert(s@ =~= (OrganizationView {
            members: state@.members.difference(addresses@.to_set()),
            event_nonce: (state.event_nonce + 1) as u64,
            ..state@
        }));
        assert forall|a: Address| s.administrators@.contains(a) implies s.members@.contains(
            a,
        ) by {
            if addresses@.to_set().contains(a) {
                let i = choose|i: int| 0 <= i < addresses@.len() && addresses@[i] == a;
                assert(!state@.administrators.contains(addresses@[i]));
            }
        }
    }
    let event = OrganizationEvent::MembersRemoved {
        members: addresses,
        organization: ctx.contract_address,
        timestamp: ctx.block_time,
        process_id,
        nonce: event_nonce,
    };
    let mut out: Vec<OutgoingMessage> = Vec::new();
    out.push(
        OutgoingMessage::Invoke {
            dest: s.factory_address,
            shortname: HANDLE_ORG_EVENT_SHORTNAME,
            event,
        },
    );
    Ok((s, out))
}

/// An administrator records a ballot address in the organization's set.
pub fn add_ballot(ctx: &ContractContext, state: OrganizationState, address: Address) -> (r: Result<
    OrganizationState,
    OrgError,
>)
    requires
        state.wf(),
    ensures
        r is Err <==> !state@.administrators.contains(ctx.sender) || state@.ballots.contains(
            address,
        ),
        r matches Err(e) ==> e == (if !state@.administrators.contains(ctx.sender) {
            OrgError::NotAdministrator
        } else {
            OrgError::AlreadyBallot
        }),
        r matches Ok(s) ==> s.wf() && s@ == (OrganizationView {
            ballots: state@.ballots.insert(address),
            ..state@
        }),
{
    if !state.administrators.contains(&ctx.sender) {
        return Err(OrgError::NotAdministrator);
    }
    if state.ballots.contains(&address) {
        return Err(OrgError::AlreadyBallot);
    }
    let mut s = state;
    s.ballots.insert(address);
    proof {
        assert(s@ =~= (OrganizationView { ballots: state@.ballots.insert(address), ..state@ }));
    }
    Ok(s)
}



/// The client-supplied part of a ballot deployment request.
#[derive(Debug)]
pub struct BallotInit {
    pub options: Vec<String>,
    pub title: String,
    pub description: String,
    pub administrator: Address,
    pub duration_seconds: u64,
}

/// Deploys a new ballot contract: predicts its address from the current
/// transaction, opens a `Created` ledger entry, and emits one deployment
/// request with a chained callback carrying the predicted address, the
/// title and the process identifier. The eligible voters are a snapshot of
/// the current members.
pub fn deploy_ballot(ctx: &ContractContext, state: OrganizationState, ballot_init: BallotInit) -> (
    r: Result<(OrganizationState, Vec<OutgoingMessage>), OrgError>)
    requires
        state.wf(),
        ctx.tx_bytes@.len() >= 32,
        state.event_nonce < u64::MAX,
        ballot_init.options@.len() <= u32::MAX,
        all_strs_encodable(ballot_init.options@.map_values(|t: String| t@)),
        str_encodable(ballot_init.title@),
        str_encodable(ballot_init.description@),
        state.members.addrs().len() <= u32::MAX,
    ensures
        r is Err <==> !state@.administrators.contains(ballot_init.administrator),
        r matches Err(e) ==> e == OrgError::NotAnAdministrator,
        r matches Ok((s, out)) ==> s.wf() && s@ == (OrganizationView {
            ballot_processes: state@.ballot_processes.insert(
                spec_process_id(ctx),
                BallotProcessState::Created,
            ),
            event_nonce: (state.event_nonce + 1) as u64,
            ..state@
        }) && out@.len() == 1 && (out@[0] matches OutgoingMessage::DeployZkContract {
            dest,
            shortname,
            code,
            init_data,
            abi,
            required_stakes,
            binder_id,
            callback,
        } && dest == spec_deploy_zk_address() && shortname == DEPLOY_ZK_SHORTNAME && code@
            == state@.ballot_contract_zkwa && abi@ == state@.ballot_contract_abi && init_data@
            == enc_ballot_init(
            BallotInitView {
                options: ballot_init.options@.map_values(|t: String| t@),
                title: ballot_init.title@,
                description: ballot_init.description@,
                organization: ctx.contract_address,
                administrator: ballot_init.administrator,
                eligible_voters: state.members.addrs(),
                duration_seconds: ballot_init.duration_seconds,
            },
        ) && required_stakes == ZK_REQUIRED_STAKES && binder_id == ZK_BINDER_ID && (
        callback matches DeployCallback::BallotByOrganization {
            shortname: cbs,
            cost,
            ballot,
            title,
            process_id,
        } && cbs == DEPLOY_BALLOT_CALLBACK_SHORTNAME && cost == CALLBACK_COST && ballot
            == spec_predicted_address(AddressKind::ZkContract, ctx.tx_bytes@) && title@
            == ballot_init.title@ && process_id == spec_process_id(ctx))),
{
    if !state.administrators.contains(&ballot_init.administrator) {
        return Err(OrgError::NotAnAdministrator);
    }
    let ballot_contract_address = predicted_address(AddressKind::ZkContract, &ctx.tx_bytes);
    let process_id = generate_process_id(ctx);
    let event_nonce = state.event_nonce + 1;
    let mut s = state;
    s.ballot_processes.put(process_id, BallotProcessState::Created);
    s.event_nonce = event_nonce;
    let eligible_voters = s.members.to_vec();
    let init = BallotInitData {
        options: ballot_init.options,
        title: ballot_init.title.clone(),
        description: ballot_init.description,
        organization: ctx.contract_address,
        administrator: ballot_init.administrator,
        eligible_voters,
        duration_seconds: ballot_init.duration_seconds,
    };
    let init_data = encode_ballot_init(&init);
    let code = slice_to_vec(s.ballot_contract_zkwa.as_slice());
    let abi = slice_to_vec(s.ballot_contract_abi.as_slice());
    let callback = DeployCallback::BallotByOrganization {
        shortname: DEPLOY_BALLOT_CALLBACK_SHORTNAME,
        cost: CALLBACK_COST,
        ballot: ballot_contract_address,
        title: ballot_init.title,
        process_id,
    };
    let mut out: Vec<OutgoingMessage> = Vec::new();
    out.push(
        OutgoingMessage::DeployZkContract {
            dest: deploy_zk_address(),
            shortname: DEPLOY_ZK_SHORTNAME,
            code,
            init_data,
            abi,
            required_stakes: ZK_REQUIRED_STAKES,
            binder_id: ZK_BINDER_ID,
            callback,
        },
    );
    proof {
        assert(s@ =~= (OrganizationView {
            ballot_processes: state@.ballot_processes.insert(
                spec_process_id(ctx),
                BallotProcessState::Created,
            ),
            event_nonce: (state.event_nonce + 1) as u64,
            ..state@
        }));
    }
    Ok((s, out))
}

/// The organization state after a ballot deployment callback: a process no
/// longer `Created` marks a duplicate and is ignored; a success records the
/// ballot and marks the process `Deployed`; a failure marks it `Cancelled`.
pub open spec fn spec_deploy_ballot_callback(
    pre: OrganizationView,
    ballot: Address,
    pid: ProcessId,
    success: bool,
) -> OrganizationView {
    if pre.ballot_processes.contains_key(pid) && pre.ballot_processes[pid]
        != BallotProcessState::Created {
        pre
    } else if success {
        OrganizationView {
            ballot_processes: pre.ballot_processes.insert(pid, BallotProcessState::Deployed),
            ballots: pre.ballots.insert(ballot),
            event_nonce: (pre.event_nonce + 1) as u64,
            ..pre
        }
    } else {
        OrganizationView {
            ballot_processes: pre.ballot_processes.insert(pid, BallotProcessState::Cancelled),
            event_nonce: (pre.event_nonce + 1) as u64,
            ..pre
        }
    }
}

/// Idempotence: delivering the same deployment callback a second time
/// leaves the state exactly as the first delivery left it.
pub proof fn lemma_deploy_ballot_callback_idempotent(
    pre: OrganizationView,
    ballot: Address,
    pid: ProcessId,
    success: bool,
)
    ensures
        spec_deploy_ballot_callback(
            spec_deploy_ballot_callback(pre, ballot, pid, success),
            ballot,
            pid,
            success,
        ) == spec_deploy_ballot_callback(pre, ballot, pid, success),
{
}

/// Handles the outcome of a ballot deployment. A duplicate delivery is
/// recognised by the ledger and ignored with no effect; a success records
/// the ballot and notifies the organization itself and the factory; a
/// failure marks the process cancelled and emits failure notices instead.
pub fn deploy_ballot_callback(
    ctx: &ContractContext,
    callback_ctx: &CallbackContext,
    state: OrganizationState,
    ballot_contract_address: Address,
    ballot_title: String,
    process_id: ProcessId,
) -> (r: (OrganizationState, Vec<OutgoingMessage>))
    requires
        state.wf(),
        state.event_nonce < u64::MAX,
    ensures
        r.0.wf(),
        r.0@ == spec_deploy_ballot_callback(
            state@,
            ballot_contract_address,
            process_id,
            callback_ctx.success,
        ),
        state@.ballot_processes.contains_key(process_id) && state@.ballot_processes[process_id]
            != BallotProcessState::Created ==> r.1@.len() == 0,
        !(state@.ballot_processes.contains_key(process_id) && state@.ballot_processes[process_id]
            != BallotProcessState::Created) && callback_ctx.success ==> r.1@.len() == 2 && (
        r.1@[0] matches OutgoingMessage::Invoke { dest, shortname, event } && dest
            == ctx.contract_address && shortname == BALLOT_DEPLOYED_SHORTNAME && event@ == (
        OrganizationEventView::BallotDeployed {
            organization: ctx.contract_address,
            ballot: ballot_contract_address,
            title: ballot_title@,
            timestamp: ctx.block_time,
            process_id,
        })) && (r.1@[1] matches OutgoingMessage::Invoke { dest, shortname, event } && dest
            == state.factory_address && shortname == HANDLE_ORG_EVENT_SHORTNAME && event@ == (
        OrganizationEventView::BallotDeployed {
            organization: ctx.contract_address,
            ballot: ballot_contract_address,
            title: ballot_title@,
            timestamp: ctx.block_time,
            process_id,
        })),
        !(state@.ballot_processes.contains_key(process_id) && state@.ballot_processes[process_id]
            != BallotProcessState::Created) && !callback_ctx.success ==> r.1@.len() == 2 && (
        r.1@[0] matches OutgoingMessage::Invoke { dest, shortname, event } && dest
            == ctx.contract_address && shortname == BALLOT_DEPLOY_FAILED_SHORTNAME && (event@
             matches OrganizationEventView::BallotDeployFailed {
            organization,
            reason,
            timestamp,
            process_id: epid,
        } && organization == ctx.contract_address && timestamp == ctx.block_time && epid
            == process_id)) && (r.1@[1] matches OutgoingMessage::Invoke {
            dest,
            shortname,
            event,
        } && dest == state.factory_address && shortname == HANDLE_ORG_EVENT_SHORTNAME && (event@
             matches OrganizationEventView::BallotDeployFailed {
            organization,
            reason,
            timestamp,
            process_id: epid,
        } && organization == ctx.contract_address && timestamp == ctx.block_time && epid
            == process_id)),
{
    let replay = match state.ballot_processes.get(&process_id) {
        Some(existing) => !matches!(existing, BallotProcessState::Created),
        None => false,
    };
    if replay {
        let out: Vec<OutgoingMessage> = Vec::new();
        return (state, out);
    }
    let event_nonce = state.event_nonce + 1;
    let mut s = state;
    s.event_nonce = event_nonce;
    if callback_ctx.success {
        s.ballot_processes.put(process_id, BallotProcessState::Deployed);
        s.ballots.insert(ballot_contract_address);
        let mut out: Vec<OutgoingMessage> = Vec::new();
        out.push(
            OutgoingMessage::Invoke {
                dest: ctx.contract_address,
                shortname: BALLOT_DEPLOYED_SHORTNAME,
                event: OrganizationEvent::BallotDeployed {
                    organization: ctx.contract_address,
                    ballot: ballot_contract_address,
                    title: ballot_title.clone(),
                    timestamp: ctx.block_time,
                    process_id,
                },
            },
        );
        out.push(
            OutgoingMessage::Invoke {
                dest: s.factory_address,
                shortname: HANDLE_ORG_EVENT_SHORTNAME,
                event: OrganizationEvent::BallotDeployed {
                    organization: ctx.contract_address,
                    ballot: ballot_contract_address,
                    title: ballot_title,
                    timestamp: ctx.block_time,
                    process_id,
                },
            },
        );
        proof {
            assert(s@ =~= spec_deploy_ballot_callback(
                state@,
                ballot_contract_address,
                process_id,
                true,
            ));
        }
        (s, out)
    } else {
        s.ballot_processes.put(process_id, BallotProcessState::Cancelled);
        let reason = failure_reason();
        let mut out: Vec<OutgoingMessage> = Vec::new();
        out.push(
            OutgoingMessage::Invoke {
                dest: ctx.contract_address,
                shortname: BALLOT_DEPLOY_FAILED_SHORTNAME,
                event: OrganizationEvent::BallotDeployFailed {
                    organization: ctx.contract_address,
                    reason: reason.clone(),
                    timestamp: ctx.block_time,
                    process_id,
                },
            },
        );
        out.push(
            OutgoingMessage::Invoke {
                dest: s.factory_address,
                shortname: HANDLE_ORG_EVENT_SHORTNAME,
                event: OrganizationEvent::BallotDeployFailed {
                    organization: ctx.contract_address,
                    reason,
                    timestamp: ctx.block_time,
                    process_id,
                },
            },
        );
        proof {
            assert(s@ =~= spec_deploy_ballot_callback(
                state@,
                ballot_contract_address,
                process_id,
                false,
            ));
        }
        (s, out)
    }
}

/// The explanation attached to a failed deployment; the callback context
/// carries no detailed error.
fn failure_reason() -> (r: String)
    ensures
        r@ == "Deployment callback failed"@,
{
    String::from_str("Deployment callback failed")
}

/// Handles the organization's own ballot-deployed notification: records the
/// ballot address and marks the deployment process active. Every other
/// event kind is refused.
pub fn handle_ballot_deployed_event(
    ctx: &ContractContext,
    state: OrganizationState,
    event: &OrganizationEvent,
) -> (r: Result<OrganizationState, OrgError>)
    requires
        state.wf(),
    ensures
        r is Err <==> !(event@ is BallotDeployed),
        r matches Err(e) ==> e == OrgError::UnexpectedEvent,
        r matches Ok(s) ==> s.wf() && (event@ matches OrganizationEventView::BallotDeployed {
            ballot,
            process_id,
            ..
        } && s@ == (OrganizationView {
            ballots: state@.ballots.insert(ballot),
            ballot_processes: state@.ballot_processes.insert(
                process_id,
                BallotProcessState::Active,
            ),
            ..state@
        })),
{
    match event {
        OrganizationEvent::BallotDeployed { ballot, process_id, .. } => {
            let mut s = state;
            s.ballots.insert(*ballot);
            s.ballot_processes.put(*process_id, BallotProcessState::Active);
            proof {
                assert(s@ =~= (OrganizationView {
                    ballots: state@.ballots.insert(event@->BallotDeployed_ballot),
                    ballot_processes: state@.ballot_processes.insert(
                        event@->BallotDeployed_process_id,
                        BallotProcessState::Active,
                    ),
                    ..state@
                }));
            }
            Ok(s)
        },
        _ => Err(OrgError::UnexpectedEvent),
    }
}


} // verus!
