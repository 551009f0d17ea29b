//! Cross-contract events and outgoing messages.
//!
//! A handler never performs an outside call itself: it returns the new state
//! together with a list of outgoing messages, and the host chain dispatches
//! each message exactly once. Every event carries a timestamp and a process
//! identifier for idempotency correlation.

use vstd::prelude::*;
use crate::addr::Address;
use crate::ballot::BallotStatus;
use crate::process::ProcessId;

verus! {

/// Action shortname under which organizations and the factory receive
/// organization events.
pub const HANDLE_ORG_EVENT_SHORTNAME: u32 = 0x11;

/// Action shortname under which an organization receives its own
/// ballot-deployed notification.
pub const BALLOT_DEPLOYED_SHORTNAME: u32 = 0x40;

/// Action shortname under which an organization receives its own
/// ballot-deploy-failed notification.
pub const BALLOT_DEPLOY_FAILED_SHORTNAME: u32 = 0x43;

/// Action shortname under which the factory receives its own
/// organization-deployed notification.
pub const ORGANIZATION_DEPLOYED_SHORTNAME: u32 = 0x45;

/// Invocation shortname of the system contract deploying public contracts.
pub const DEPLOY_SHORTNAME: u32 = 4;

/// Invocation shortname of the system contract deploying zero-knowledge
/// contracts.
pub const DEPLOY_ZK_SHORTNAME: u32 = 2;

/// Callback shortname of an organization's ballot deployment callback.
pub const DEPLOY_BALLOT_CALLBACK_SHORTNAME: u32 = 0x20;

/// Callback shortname of the factory's organization deployment callback.
pub const DEPLOY_ORGANIZATION_CALLBACK_SHORTNAME: u32 = 0x10;

/// Binder group id for deployed zero-knowledge contracts.
pub const ZK_BINDER_ID: i32 = 11;

/// Binder group id for deployed public contracts.
pub const WASM_BINDER_ID: i32 = 9;

/// Stake that a deployed zero-knowledge contract must be funded with.
pub const ZK_REQUIRED_STAKES: i64 = 20000000;

/// Gas budget handed to a deployment callback.
pub const CALLBACK_COST: u64 = 10000;

/// An event an organization or the factory emits about its own lifecycle.
#[derive(Debug)]
pub enum OrganizationEvent {
    BallotDeployed {
        organization: Address,
        ballot: Address,
        title: String,
        timestamp: u64,
        process_id: ProcessId,
    },
    MembersAdded {
        members: Vec<Address>,
        organization: Address,
        timestamp: u64,
        process_id: ProcessId,
        nonce: u64,
    },
    MembersRemoved {
        members: Vec<Address>,
        organization: Address,
        timestamp: u64,
        process_id: ProcessId,
        nonce: u64,
    },
    BallotDeployFailed {
        organization: Address,
        reason: String,
        timestamp: u64,
        process_id: ProcessId,
    },
    OrganizationDeployed {
        factory: Address,
        organization: Address,
        timestamp: u64,
        process_id: ProcessId,
    },
}

/// Mathematical view of an [`OrganizationEvent`].
pub enum OrganizationEventView {
    BallotDeployed {
        organization: Address,
        ballot: Address,
        title: Seq<char>,
        timestamp: u64,
        process_id: ProcessId,
    },
    MembersAdded {
        members: Seq<Address>,
        organization: Address,
        timestamp: u64,
        process_id: ProcessId,
        nonce: u64,
    },
    MembersRemoved {
        members: Seq<Address>,
        organization: Address,
        timestamp: u64,
        process_id: ProcessId,
        nonce: u64,
    },
    BallotDeployFailed {
        organization: Address,
        reason: Seq<char>,
        timestamp: u64,
        process_id: ProcessId,
    },
    OrganizationDeployed {
        factory: Address,
        organization: Address,
        timestamp: u64,
        process_id: ProcessId,
    },
}

impl View for OrganizationEvent {
    type V = OrganizationEventView;

    open spec fn view(&self) -> OrganizationEventView {
        match self {
            OrganizationEvent::BallotDeployed {
                organization,
                ballot,
                title,
                timestamp,
                process_id,
            } => OrganizationEventView::BallotDeployed {
                organization: *organization,
                ballot: *ballot,
                title: title@,
                timestamp: *timestamp,
                process_id: *process_id,
            },
            OrganizationEvent::MembersAdded {
                members,
                organization,
                timestamp,
                process_id,
                nonce,
            } => OrganizationEventView::MembersAdded {
                members: members@,
                organization: *organization,
                timestamp: *timestamp,
                process_id: *process_id,
                nonce: *nonce,
            },
            OrganizationEvent::MembersRemoved {
                members,
                organization,
                timestamp,
                process_id,
                nonce,
            } => OrganizationEventView::MembersRemoved {
                members: members@,
                organization: *organization,
                timestamp: *timestamp,
                process_id: *process_id,
                nonce: *nonce,
            },
            OrganizationEvent::BallotDeployFailed {
                organization,
                reason,
                timestamp,
                process_id,
            } => OrganizationEventView::BallotDeployFailed {
                organization: *organization,
                reason: reason@,
                timestamp: *timestamp,
                process_id: *process_id,
            },
            OrganizationEvent::OrganizationDeployed {
                factory,
                organization,
                timestamp,
                process_id,
            } => OrganizationEventView::OrganizationDeployed {
                factory: *factory,
                organization: *organization,
                timestamp: *timestamp,
                process_id: *process_id,
            },
        }
    }
}

impl OrganizationEventView {
    /// The process identifier the event carries.
    pub open spec fn process_id(&self) -> ProcessId {
        match self {
            OrganizationEventView::BallotDeployed { process_id, .. } => *process_id,
            OrganizationEventView::MembersAdded { process_id, .. } => *process_id,
            OrganizationEventView::MembersRemoved { process_id, .. } => *process_id,
            OrganizationEventView::BallotDeployFailed { process_id, .. } => *process_id,
            OrganizationEventView::OrganizationDeployed { process_id, .. } => *process_id,
        }
    }
}

impl OrganizationEvent {
    /// Extracts the process identifier the event carries.
    pub fn extract_process_id(&self) -> (r: ProcessId)
        ensures
            r == self@.process_id(),
    {
        match self {
            OrganizationEvent::BallotDeployed { process_id, .. } => *process_id,
            OrganizationEvent::MembersAdded { process_id, .. } => *process_id,
            OrganizationEvent::MembersRemoved { process_id, .. } => *process_id,
            OrganizationEvent::BallotDeployFailed { process_id, .. } => *process_id,
            OrganizationEvent::OrganizationDeployed { process_id, .. } => *process_id,
        }
    }
}

/// An event a ballot receives about its own lifecycle.
#[derive(Debug)]
pub enum BallotEvent {
    MembersUpdated {
        added: Vec<Address>,
        removed: Vec<Address>,
        timestamp: u64,
        process_id: ProcessId,
    },
    VoteCast { voter: Address, timestamp: u64, process_id: ProcessId },
    TallyStarted { timestamp: u64, process_id: ProcessId },
    TallyCompleted { timestamp: u64, process_id: ProcessId },
    StatusChanged { status: BallotStatus, timestamp: u64, process_id: ProcessId },
}

/// Mathematical view of a [`BallotEvent`].
pub enum BallotEventView {
    MembersUpdated {
        added: Seq<Address>,
        removed: Seq<Address>,
        timestamp: u64,
        process_id: ProcessId,
    },
    VoteCast { voter: Address, timestamp: u64, process_id: ProcessId },
    TallyStarted { timestamp: u64, process_id: ProcessId },
    TallyCompleted { timestamp: u64, process_id: ProcessId },
    StatusChanged { status: BallotStatus, timestamp: u64, process_id: ProcessId },
}

impl View for BallotEvent {
    type V = BallotEventView;

    open spec fn view(&self) -> BallotEventView {
        match self {
            BallotEvent::MembersUpdated { added, removed, timestamp, process_id } => (
            BallotEventView::MembersUpdated {
                added: added@,
                removed: removed@,
                timestamp: *timestamp,
                process_id: *process_id,
            }),
            BallotEvent::VoteCast { voter, timestamp, process_id } => (
            BallotEventView::VoteCast {
                voter: *voter,
                timestamp: *timestamp,
                process_id: *process_id,
            }),
            BallotEvent::TallyStarted { timestamp, process_id } => (
            BallotEventView::TallyStarted {
                timestamp: *timestamp,
                process_id: *process_id,
            }),
            BallotEvent::TallyCompleted { timestamp, process_id } => (
            BallotEventView::TallyCompleted {
                timestamp: *timestamp,
                process_id: *process_id,
            }),
            BallotEvent::StatusChanged { status, timestamp, process_id } => (
            BallotEventView::StatusChanged {
                status: *status,
                timestamp: *timestamp,
                process_id: *process_id,
            }),
        }
    }
}

/// Callback arguments echoed back with a deployment's outcome.
#[derive(Debug)]
pub enum DeployCallback {
    BallotByOrganization {
        shortname: u32,
        cost: u64,
        ballot: Address,
        title: String,
        process_id: ProcessId,
    },
    OrganizationByFactory { shortname: u32, cost: u64, organization: Address, process_id: ProcessId },
    BallotByFactory { shortname: u32, cost: u64, ballot: Address, organization: Address },
}

/// Mathematical view of a [`DeployCallback`].
pub enum DeployCallbackView {
    BallotByOrganization {
        shortname: u32,
        cost: u64,
        ballot: Address,
        title: Seq<char>,
        process_id: ProcessId,
    },
    OrganizationByFactory { shortname: u32, cost: u64, organization: Address, process_id: ProcessId },
    BallotByFactory { shortname: u32, cost: u64, ballot: Address, organization: Address },
}

impl View for DeployCallback {
    type V = DeployCallbackView;

    open spec fn view(&self) -> DeployCallbackView {
        match self {
            DeployCallback::BallotByOrganization { shortname, cost, ballot, title, process_id } => (
            DeployCallbackView::BallotByOrganization {
                shortname: *shortname,
                cost: *cost,
                ballot: *ballot,
                title: title@,
                process_id: *process_id,
            }),
            DeployCallback::OrganizationByFactory { shortname, cost, organization, process_id } => (
            DeployCallbackView::OrganizationByFactory {
                shortname: *shortname,
                cost: *cost,
                organization: *organization,
                process_id: *process_id,
            }),
            DeployCallback::BallotByFactory { shortname, cost, ballot, organization } => (
            DeployCallbackView::BallotByFactory {
                shortname: *shortname,
                cost: *cost,
                ballot: *ballot,
                organization: *organization,
            }),
        }
    }
}

/// One outgoing message, dispatched by the host after the handler returns.
#[derive(Debug)]
pub enum OutgoingMessage {
    /// A plain action call carrying an organization event.
    Invoke { dest: Address, shortname: u32, event: OrganizationEvent },
    /// A deployment request to the public-contract deployment system
    /// contract, chained with a callback to the sender.
    DeployPublicContract {
        dest: Address,
        shortname: u32,
        code: Vec<u8>,
        abi: Vec<u8>,
        init_data: Vec<u8>,
        binder_id: i32,
        callback: DeployCallback,
    },
    /// A deployment request to the zero-knowledge deployment system
    /// contract, chained with a callback to the sender.
    DeployZkContract {
        dest: Address,
        shortname: u32,
        code: Vec<u8>,
        init_data: Vec<u8>,
        abi: Vec<u8>,
        required_stakes: i64,
        binder_id: i32,
        callback: DeployCallback,
    },
}

/// Mathematical view of an [`OutgoingMessage`].
pub enum OutgoingMessageView {
    Invoke { dest: Address, shortname: u32, event: OrganizationEventView },
    DeployPublicContract {
        dest: Address,
        shortname: u32,
        code: Seq<u8>,
        abi: Seq<u8>,
        init_data: Seq<u8>,
        binder_id: i32,
        callback: DeployCallbackView,
    },
    DeployZkContract {
        dest: Address,
        shortname: u32,
        code: Seq<u8>,
        init_data: Seq<u8>,
        abi: Seq<u8>,
        required_stakes: i64,
        binder_id: i32,
        callback: DeployCallbackView,
    },
}

impl View for OutgoingMessage {
    type V = OutgoingMessageView;

    open spec fn view(&self) -> OutgoingMessageView {
        match self {
            OutgoingMessage::Invoke { dest, shortname, event } => (OutgoingMessageView::Invoke {
                dest: *dest,
                shortname: *shortname,
                event: event@,
            }),
            OutgoingMessage::DeployPublicContract {
                dest,
                shortname,
                code,
                abi,
                init_data,
                binder_id,
                callback,
            } => OutgoingMessageView::DeployPublicContract {
                dest: *dest,
                shortname: *shortname,
                code: code@,
                abi: abi@,
                init_data: init_data@,
                binder_id: *binder_id,
                callback: callback@,
            },
            OutgoingMessage::DeployZkContract {
                dest,
                shortname,
                code,
                init_data,
                abi,
                required_stakes,
                binder_id,
                callback,
            } => OutgoingMessageView::DeployZkContract {
                dest: *dest,
                shortname: *shortname,
                code: code@,
                init_data: init_data@,
                abi: abi@,
                required_stakes: *required_stakes,
                binder_id: *binder_id,
                callback: callback@,
            },
        }
    }
}

} // verus!
