//! The resolver as a machine that never talks to a node itself: each step
//! takes the answer to the last lookup and says which lookup comes next, or
//! how the resolution ended. Whoever drives it performs the lookups.

use vstd::prelude::*;
use vstd::string::*;
use crate::accounting::{summarize, summary_of};
use crate::model::{
    EconomicSummary, InputRefModel, OutputModel, ResolutionError, ResolvedOutput, SummaryModel,
    TransactionModel, TransactionView, input_models, source_models, text_model,
};

verus! {

/// Model of a [`Lookup`].
pub enum LookupModel {
    Transaction { txid: Seq<char>, block: Option<Seq<char>> },
    BlockHeader { hash: Seq<char> },
}

/// Model of a [`Reply`].
pub enum ReplyModel {
    Transaction(TransactionModel),
    BlockHeader(Option<nat>),
    Failed(ResolutionError),
}

/// Model of a [`Step`].
pub enum StepModel {
    Ask(LookupModel),
    Done(SummaryModel),
    Failed(ResolutionError),
}

/// Model of a [`ResolverState`].
pub enum StateModel {
    AwaitingTransaction { block: Seq<char>, recipient: Seq<char> },
    AwaitingHeader { tx: TransactionModel, recipient: Seq<char> },
    AwaitingSource {
        tx: TransactionModel,
        height: nat,
        recipient: Seq<char>,
        sources: Seq<Option<OutputModel>>,
    },
    Closed,
}

/// A question to the node.
#[derive(Debug, PartialEq, Eq)]
pub enum Lookup {
    /// The transaction `txid`; with a block hash, as confirmed in that block.
    Transaction { txid: String, block_hash: Option<String> },
    /// The header of the block `hash`.
    BlockHeader { hash: String },
}

/// The node's answer to a lookup.
#[derive(Debug, PartialEq, Eq)]
pub enum Reply {
    Transaction(TransactionView),
    /// A block header; `height` is `None` where the node gave none.
    BlockHeader { height: Option<u64> },
    /// The lookup failed.
    Failed(ResolutionError),
}

/// What a step of the resolver leads to.
#[derive(Debug, PartialEq, Eq)]
pub enum Step {
    /// Perform this lookup and come back with its answer.
    Ask(Lookup),
    /// The resolution succeeded.
    Done(EconomicSummary),
    /// The resolution failed; there is no partial summary.
    Failed(ResolutionError),
}

/// What the resolver holds between two lookups.
#[derive(Debug, PartialEq, Eq)]
pub enum ResolverState {
    /// Waiting for the transaction to summarize, as confirmed in `block`.
    AwaitingTransaction { block: String, recipient: String },
    /// Waiting for the header of the confirming block.
    AwaitingHeader { tx: TransactionView, recipient: String },
    /// Waiting for the transaction that holds the output which the input at
    /// position `sources.len()` spends; `sources` holds what the inputs
    /// before it spend.
    AwaitingSource {
        tx: TransactionView,
        height: u64,
        recipient: String,
        sources: Vec<Option<ResolvedOutput>>,
    },
    /// The resolution has ended.
    Closed,
}

impl View for Lookup {
    type V = LookupModel;

    open spec fn view(&self) -> LookupModel {
        match self {
            Lookup::Transaction { txid, block_hash } => LookupModel::Transaction {
                txid: txid@,
                block: text_model(*block_hash),
            },
            Lookup::BlockHeader { hash } => LookupModel::BlockHeader { hash: hash@ },
        }
    }
}

impl View for Reply {
    type V = ReplyModel;

    open spec fn view(&self) -> ReplyModel {
        match self {
            Reply::Transaction(tx) => ReplyModel::Transaction(tx@),
            Reply::BlockHeader { height } => ReplyModel::BlockHeader(
                match height {
                    Some(h) => Some(*h as nat),
                    None => None,
                },
            ),
            Reply::Failed(e) => ReplyModel::Failed(*e),
        }
    }
}

impl View for Step {
    type V = StepModel;

    open spec fn view(&self) -> StepModel {
        match self {
            Step::Ask(q) => StepModel::Ask(q@),
            Step::Done(s) => StepModel::Done(s@),
            Step::Failed(e) => StepModel::Failed(*e),
        }
    }
}

impl View for ResolverState {
    type V = StateModel;

    open spec fn view(&self) -> StateModel {
        match self {
            ResolverState::AwaitingTransaction {
                block,
                recipient,
            } => StateModel::AwaitingTransaction { block: block@, recipient: recipient@ },
            ResolverState::AwaitingHeader { tx, recipient } => StateModel::AwaitingHeader {
                tx: tx@,
                recipient: recipient@,
            },
            ResolverState::AwaitingSource {
                tx,
                height,
                recipient,
                sources,
            } => StateModel::AwaitingSource {
                tx: tx@,
                height: *height as nat,
                recipient: recipient@,
                sources: source_models(sources@),
            },
            ResolverState::Closed => StateModel::Closed,
        }
    }
}

/// The end of a resolution that failed with `e`.
pub open spec fn failed(e: ResolutionError) -> (StateModel, StepModel) {
    (StateModel::Closed, StepModel::Failed(e))
}

/// `sources` followed by a `None` for each input that spends nothing, up to
/// the next input that spends an output.
pub open spec fn skip_unspent(
    inputs: Seq<Option<InputRefModel>>,
    sources: Seq<Option<OutputModel>>,
) -> Seq<Option<OutputModel>>
    decreases inputs.len() - sources.len(),
{
    if sources.len() < inputs.len() && inputs[sources.len() as int] is None {
        skip_unspent(inputs, sources.push(None))
    } else {
        sources
    }
}

/// Where the resolver goes once the inputs before position `sources.len()`
/// are resolved: to the lookup of the next spent output, or, when every
/// input is accounted for, to the end with the summary or its failure.
pub open spec fn proceed_model(
    tx: TransactionModel,
    height: nat,
    recipient: Seq<char>,
    sources: Seq<Option<OutputModel>>,
) -> (StateModel, StepModel) {
    let settled = skip_unspent(tx.inputs, sources);
    if settled.len() < tx.inputs.len() {
        (
            StateModel::AwaitingSource { tx, height, recipient, sources: settled },
            StepModel::Ask(
                LookupModel::Transaction {
                    txid: tx.inputs[settled.len() as int].unwrap().txid,
                    block: None,
                },
            ),
        )
    } else {
        (
            StateModel::Closed,
            match summary_of(tx, height, settled, recipient) {
                Ok(s) => StepModel::Done(s),
                Err(e) => StepModel::Failed(e),
            },
        )
    }
}

/// The first state and the first lookup: the transaction `txid` as confirmed
/// in `block`.
pub open spec fn begin_model(txid: Seq<char>, block: Seq<char>, recipient: Seq<char>) -> (
    StateModel,
    LookupModel,
) {
    (
        StateModel::AwaitingTransaction { block, recipient },
        LookupModel::Transaction { txid, block: Some(block) },
    )
}

/// One step of the resolver.
///
/// - The transaction must name the block that was asked for as the block
///   that confirms it; the header of that block is asked for next.
/// - The header must give a height; the spent outputs are asked for next,
///   input by input, in order.
/// - The transaction of a spent output must have an output at the position
///   that the input names, else the resolution fails with `NotFound`.
/// - A failed lookup ends the resolution with the failure of the lookup.
/// - An answer of the wrong kind, or a state that no step leads to, ends it
///   with `InvariantViolation`.
pub open spec fn advance_model(state: StateModel, reply: ReplyModel) -> (StateModel, StepModel) {
    match state {
        StateModel::AwaitingTransaction { block, recipient } => match reply {
            ReplyModel::Transaction(tx) => if tx.block == Some(block) {
                (
                    StateModel::AwaitingHeader { tx, recipient },
                    StepModel::Ask(LookupModel::BlockHeader { hash: block }),
                )
            } else {
                failed(ResolutionError::InvariantViolation)
            },
            ReplyModel::Failed(e) => failed(e),
            ReplyModel::BlockHeader(_) => failed(ResolutionError::InvariantViolation),
        },
        StateModel::AwaitingHeader { tx, recipient } => match reply {
            ReplyModel::BlockHeader(Some(height)) => proceed_model(
                tx,
                height,
                recipient,
                Seq::empty(),
            ),
            ReplyModel::BlockHeader(None) => failed(ResolutionError::InvariantViolation),
            ReplyModel::Failed(e) => failed(e),
            ReplyModel::Transaction(_) => failed(ResolutionError::InvariantViolation),
        },
        StateModel::AwaitingSource { tx, height, recipient, sources } => match reply {
            ReplyModel::Transaction(prev) => {
                if sources.len() < tx.inputs.len() && tx.inputs[sources.len() as int] is Some {
                    let index = tx.inputs[sources.len() as int].unwrap().index;
                    if index < prev.outputs.len() {
                        proceed_model(
                            tx,
                            height,
                            recipient,
                            sources.push(Some(prev.outputs[index as int])),
                        )
                    } else {
                        failed(ResolutionError::NotFound)
                    }
                } else {
                    failed(ResolutionError::InvariantViolation)
                }
            },
            ReplyModel::Failed(e) => failed(e),
            ReplyModel::BlockHeader(_) => failed(ResolutionError::InvariantViolation),
        },
        StateModel::Closed => failed(ResolutionError::InvariantViolation),
    }
}

/// Starts the resolution of the transaction `txid`, confirmed in the block
/// `block_hash`, with `recipient` as the known recipient address.
pub fn begin(txid: &str, block_hash: &str, recipient: &str) -> (r: (ResolverState, Lookup))
    ensures
        (r.0@, r.1@) == begin_model(txid@, block_hash@, recipient@),
{
    (
        ResolverState::AwaitingTransaction {
            block: String::from_str(block_hash),
            recipient: String::from_str(recipient),
        },
        Lookup::Transaction {
            txid: String::from_str(txid),
            block_hash: Some(String::from_str(block_hash)),
        },
    )
}

fn proceed(
    tx: TransactionView,
    height: u64,
    recipient: String,
    sources: Vec<Option<ResolvedOutput>>,
) -> (r: (ResolverState, Step))
    ensures
        (r.0@, r.1@) == proceed_model(tx@, height as nat, recipient@, source_models(sources@)),
        r.1 matches Step::Done(s) ==> s@.consistent(),
{
    let ghost inputs = input_models(tx.inputs@);
    let ghost start = source_models(sources@);
    let mut sources = sources;
    while sources.len() < tx.inputs.len() && tx.inputs[sources.len()].is_none()
        invariant
            inputs == input_models(tx.inputs@),
            skip_unspent(inputs, source_models(sources@)) == skip_unspent(inputs, start),
        decreases tx.inputs.len() - sources.len(),
    {
        let ghost before = source_models(sources@);
        sources.push(None);
        assert(source_models(sources@) =~= before.push(None));
    }
    assert(skip_unspent(inputs, start) == source_models(sources@));
    if sources.len() < tx.inputs.len() {
        let txid = match &tx.inputs[sources.len()] {
            Some(r) => r.txid.clone(),
            None => String::new(),
        };
        (
            ResolverState::AwaitingSource { tx, height, recipient, sources },
            Step::Ask(Lookup::Transaction { txid, block_hash: None }),
        )
    } else {
        let step = match summarize(&tx, height, &sources, recipient.as_str()) {
            Ok(s) => Step::Done(s),
            Err(e) => Step::Failed(e),
        };
        (ResolverState::Closed, step)
    }
}

/// Takes the answer to the lookup that the last step asked for and makes the
/// next step.
pub fn advance(state: ResolverState, reply: Reply) -> (r: (ResolverState, Step))
    ensures
        (r.0@, r.1@) == advance_model(state@, reply@),
        r.1 matches Step::Done(s) ==> s@.consistent(),
{
    let violation = ResolutionError::InvariantViolation;
    match state {
        ResolverState::AwaitingTransaction { block, recipient } => match reply {
            Reply::Transaction(tx) => {
                let confirmed = match &tx.block_hash {
                    Some(b) => *b == block,
                    None => false,
                };
                if confirmed {
                    (
                        ResolverState::AwaitingHeader { tx, recipient },
                        Step::Ask(Lookup::BlockHeader { hash: block }),
                    )
                } else {
                    (ResolverState::Closed, Step::Failed(violation))
                }
            },
            Reply::Failed(e) => (ResolverState::Closed, Step::Failed(e)),
            Reply::BlockHeader { height: _ } => (ResolverState::Closed, Step::Failed(violation)),
        },
        ResolverState::AwaitingHeader { tx, recipient } => match reply {
            Reply::BlockHeader { height: Some(height) } => {
                let sources: Vec<Option<ResolvedOutput>> = Vec::new();
                assert(source_models(sources@) =~= Seq::empty());
                proceed(tx, height, recipient, sources)
            },
            Reply::BlockHeader { height: None } => (ResolverState::Closed, Step::Failed(violation)),
            Reply::Failed(e) => (ResolverState::Closed, Step::Failed(e)),
            Reply::Transaction(_) => (ResolverState::Closed, Step::Failed(violation)),
        },
        ResolverState::AwaitingSource { tx, height, recipient, sources } => match reply {
            Reply::Transaction(prev) => {
                let position: Option<u32> = if sources.len() < tx.inputs.len() {
                    match &tx.inputs[sources.len()] {
                        Some(r) => Some(r.vout),
                        None => None,
                    }
                } else {
                    None
                };
                match position {
                    Some(vout) => {
                        if (vout as usize) < prev.outputs.len() {
                            let ghost before = source_models(sources@);
                            let mut sources = sources;
                            sources.push(Some(prev.outputs[vout as usize].clone()));
                            assert(source_models(sources@) =~= before.push(
                                Some(prev@.outputs[vout as int]),
                            ));
                            proceed(tx, height, recipient, sources)
                        } else {
                            (ResolverState::Closed, Step::Failed(ResolutionError::NotFound))
                        }
                    },
                    None => (ResolverState::Closed, Step::Failed(violation)),
                }
            },
            Reply::Failed(e) => (ResolverState::Closed, Step::Failed(e)),
            Reply::BlockHeader { height: _ } => (ResolverState::Closed, Step::Failed(violation)),
        },
        ResolverState::Closed => (ResolverState::Closed, Step::Failed(violation)),
    }
}

} // verus!
