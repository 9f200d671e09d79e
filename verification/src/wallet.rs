//! Getting a wallet ready on the node, as a machine in the manner of the
//! resolver: each step takes the outcome of the last call and names the next
//! call. A wallet that the node has loaded is used as it is, one on disk is
//! loaded, and one that the node does not find on disk is created. Any other
//! failure of a call ends the attempt at once.

use vstd::prelude::*;
use vstd::string::*;
use crate::model::texts;
use crate::text::lists;

verus! {

/// Below this balance, in base units, the paying wallet is funded first.
pub const FUNDING_THRESHOLD: u64 = 5_000_000_000;

/// Blocks to mine to fund a wallet: one reward and the hundred blocks that
/// let it mature.
pub const FUNDING_BLOCKS: u64 = 101;

/// The code with which the node answers a call that names a wallet it does
/// not have.
pub const WALLET_NOT_FOUND: i32 = -18;

/// How a wallet became ready.
#[derive(Clone, Copy, Debug, PartialEq, Eq, Structural)]
pub enum Readiness {
    AlreadyLoaded,
    LoadedFromDisk,
    Created,
}

/// The call that is under way.
#[derive(Clone, Copy, Debug, PartialEq, Eq, Structural)]
pub enum WalletState {
    Listing,
    Loading,
    Creating,
    Settled,
}

/// What to do next.
#[derive(Clone, Copy, Debug, PartialEq, Eq, Structural)]
pub enum WalletStep {
    /// Ask the node for the names of the wallets it has loaded.
    ListLoaded,
    /// Ask the node to load the wallet.
    Load,
    /// Ask the node to create the wallet.
    Create,
    /// The wallet is ready.
    Ready(Readiness),
    /// The last call failed and nothing is left to try: its failure is the
    /// failure of the whole, and no further call is made.
    GiveUp,
}

/// Model of a [`WalletEvent`].
pub enum WalletEventModel {
    Listed(Seq<Seq<char>>),
    Succeeded,
    Missing,
    Failed,
}

/// The outcome of a call.
#[derive(Debug, PartialEq, Eq)]
pub enum WalletEvent {
    /// The names of the loaded wallets.
    Listed(Vec<String>),
    /// A load or a creation succeeded.
    Succeeded,
    /// The node answered that it has no wallet of that name.
    Missing,
    /// The call failed in any other way: the node was not reached, refused
    /// the credentials, or answered with another error.
    Failed,
}

impl View for WalletEvent {
    type V = WalletEventModel;

    open spec fn view(&self) -> WalletEventModel {
        match self {
            WalletEvent::Listed(names) => WalletEventModel::Listed(texts(names@)),
            WalletEvent::Succeeded => WalletEventModel::Succeeded,
            WalletEvent::Missing => WalletEventModel::Missing,
            WalletEvent::Failed => WalletEventModel::Failed,
        }
    }
}

/// One step towards a ready wallet named `name`.
///
/// - A list that holds the name: the wallet is ready.
/// - A list without it: load the wallet.
/// - A load that succeeded: the wallet is ready.
/// - A load that the node answered with "no such wallet": create it.
/// - A creation that succeeded: the wallet is ready.
/// - Every other failure, of any call, and an outcome that does not belong
///   to the call under way: the attempt ends, and nothing more is called.
pub open spec fn provision_model(state: WalletState, event: WalletEventModel, name: Seq<char>)
    -> (WalletState, WalletStep) {
    match (state, event) {
        (WalletState::Listing, WalletEventModel::Listed(names)) => if names.contains(name) {
            (WalletState::Settled, WalletStep::Ready(Readiness::AlreadyLoaded))
        } else {
            (WalletState::Loading, WalletStep::Load)
        },
        (WalletState::Loading, WalletEventModel::Succeeded) => (
            WalletState::Settled,
            WalletStep::Ready(Readiness::LoadedFromDisk),
        ),
        (WalletState::Loading, WalletEventModel::Missing) => (
            WalletState::Creating,
            WalletStep::Create,
        ),
        (WalletState::Creating, WalletEventModel::Succeeded) => (
            WalletState::Settled,
            WalletStep::Ready(Readiness::Created),
        ),
        _ => (WalletState::Settled, WalletStep::GiveUp),
    }
}

/// The outcome of a call that failed: `Missing` where the node answered with
/// the code `WALLET_NOT_FOUND`, `Failed` where it answered with another code
/// or gave no answer that carries one (`None`).
pub fn failure_event(code: Option<i32>) -> (r: WalletEvent)
    ensures
        r@ == if code == Some(WALLET_NOT_FOUND) {
            WalletEventModel::Missing
        } else {
            WalletEventModel::Failed
        },
{
    match code {
        Some(c) => if c == WALLET_NOT_FOUND {
            WalletEvent::Missing
        } else {
            WalletEvent::Failed
        },
        None => WalletEvent::Failed,
    }
}

/// A failed load leads to a creation only where the node found no such
/// wallet; after any other failure of any call nothing more is called.
pub proof fn lemma_failure_is_final(state: WalletState, name: Seq<char>)
    ensures
        provision_model(state, WalletEventModel::Failed, name) == (
            WalletState::Settled,
            WalletStep::GiveUp,
        ),
        provision_model(state, WalletEventModel::Missing, name).1 == if state
            == WalletState::Loading {
            WalletStep::Create
        } else {
            WalletStep::GiveUp
        },
{
}

/// The first state and the first call.
pub fn provision_begin() -> (r: (WalletState, WalletStep))
    ensures
        r == (WalletState::Listing, WalletStep::ListLoaded),
{
    (WalletState::Listing, WalletStep::ListLoaded)
}

/// Takes the outcome of the call that the last step named and makes the next
/// step towards a ready wallet named `name`.
pub fn provision_advance(state: WalletState, event: &WalletEvent, name: &str) -> (r: (
    WalletState,
    WalletStep,
))
    ensures
        r == provision_model(state, event@, name@),
{
    match state {
        WalletState::Listing => match event {
            WalletEvent::Listed(names) => {
                let wanted = String::from_str(name);
                if lists(names, &wanted) {
                    (WalletState::Settled, WalletStep::Ready(Readiness::AlreadyLoaded))
                } else {
                    (WalletState::Loading, WalletStep::Load)
                }
            },
            _ => (WalletState::Settled, WalletStep::GiveUp),
        },
        WalletState::Loading => match event {
            WalletEvent::Succeeded => (
                WalletState::Settled,
                WalletStep::Ready(Readiness::LoadedFromDisk),
            ),
            WalletEvent::Missing => (WalletState::Creating, WalletStep::Create),
            _ => (WalletState::Settled, WalletStep::GiveUp),
        },
        WalletState::Creating => match event {
            WalletEvent::Succeeded => (WalletState::Settled, WalletStep::Ready(Readiness::Created)),
            _ => (WalletState::Settled, WalletStep::GiveUp),
        },
        WalletState::Settled => (WalletState::Settled, WalletStep::GiveUp),
    }
}

/// How many blocks to mine before paying from a wallet that holds `balance`
/// base units: `FUNDING_BLOCKS` below the threshold, none at or above it.
pub fn blocks_to_mine(balance: u64) -> (r: u64)
    ensures
        r == if balance < FUNDING_THRESHOLD {
            FUNDING_BLOCKS
        } else {
            0
        },
{
    if balance < FUNDING_THRESHOLD {
        FUNDING_BLOCKS
    } else {
        0
    }
}

} // verus!
