//! What a resolution amounts to, stated without the machine: the summary
//! that belongs to a transaction on a node that answers every lookup in a
//! fixed way, and the proof that driving the machine with those answers
//! arrives at exactly that.

use vstd::prelude::*;
use crate::accounting::{
    in_step, lemma_summary_consistent, lemma_unspent_adds_nothing, summary_of,
};
use crate::model::{InputRefModel, OutputModel, ResolutionError, SummaryModel, TransactionModel};
use crate::resolver::{
    LookupModel, ReplyModel, StateModel, StepModel, advance_model, begin_model, failed,
    proceed_model, skip_unspent,
};

verus! {

/// A node as far as the resolver can tell: its answer to each lookup.
pub type Node = spec_fn(LookupModel) -> ReplyModel;

/// The output that `input` spends on `node`: none for an input that spends
/// nothing, `NotFound` where the transaction it names has no output at the
/// position it names.
pub open spec fn source_of(node: Node, input: Option<InputRefModel>) -> Result<
    Option<OutputModel>,
    ResolutionError,
> {
    match input {
        None => Ok(None),
        Some(r) => match node(LookupModel::Transaction { txid: r.txid, block: None }) {
            ReplyModel::Transaction(prev) => if r.index < prev.outputs.len() {
                Ok(Some(prev.outputs[r.index as int]))
            } else {
                Err(ResolutionError::NotFound)
            },
            ReplyModel::Failed(e) => Err(e),
            ReplyModel::BlockHeader(_) => Err(ResolutionError::InvariantViolation),
        },
    }
}

/// The outputs that `inputs` spend, in order; the failure of the first input
/// that cannot be resolved, if there is one.
pub open spec fn sources_of(node: Node, inputs: Seq<Option<InputRefModel>>) -> Result<
    Seq<Option<OutputModel>>,
    ResolutionError,
>
    decreases inputs.len(),
{
    if inputs.len() == 0 {
        Ok(Seq::empty())
    } else {
        match sources_of(node, inputs.drop_last()) {
            Err(e) => Err(e),
            Ok(sources) => match source_of(node, inputs.last()) {
                Err(e) => Err(e),
                Ok(s) => Ok(sources.push(s)),
            },
        }
    }
}

/// The summary of `tx`, confirmed at `height`, once its inputs are resolved
/// on `node`.
pub open spec fn settlement(node: Node, tx: TransactionModel, height: nat, recipient: Seq<char>)
    -> Result<SummaryModel, ResolutionError> {
    match sources_of(node, tx.inputs) {
        Err(e) => Err(e),
        Ok(sources) => summary_of(tx, height, sources, recipient),
    }
}

/// The result of resolving the transaction `txid`, confirmed in `block`, on
/// `node`:
///
/// - the failure of the node where it fails to give the transaction, the
///   header of its block, or a transaction that an input names;
/// - `NotFound` where an input names an output position that its
///   transaction does not have;
/// - `InvariantViolation` where the transaction does not name `block` as the
///   block that confirms it, the header gives no height, an answer is of the
///   wrong kind, a total does not fit an amount, or the outputs hold more
///   than the inputs;
/// - else the summary.
///
/// Of several failures the one met first counts: transaction, header, inputs
/// in order, totals.
pub open spec fn resolution(node: Node, txid: Seq<char>, block: Seq<char>, recipient: Seq<char>)
    -> Result<SummaryModel, ResolutionError> {
    match node(LookupModel::Transaction { txid, block: Some(block) }) {
        ReplyModel::Failed(e) => Err(e),
        ReplyModel::BlockHeader(_) => Err(ResolutionError::InvariantViolation),
        ReplyModel::Transaction(tx) => if tx.block != Some(block) {
            Err(ResolutionError::InvariantViolation)
        } else {
            match node(LookupModel::BlockHeader { hash: block }) {
                ReplyModel::Failed(e) => Err(e),
                ReplyModel::Transaction(_) => Err(ResolutionError::InvariantViolation),
                ReplyModel::BlockHeader(None) => Err(ResolutionError::InvariantViolation),
                ReplyModel::BlockHeader(Some(height)) => settlement(node, tx, height, recipient),
            }
        },
    }
}

/// Where the machine ends when each lookup it asks for is answered by
/// `node`, if it ends within `fuel` lookups.
pub open spec fn run(node: Node, state: StateModel, step: StepModel, fuel: nat) -> Option<
    Result<SummaryModel, ResolutionError>,
>
    decreases fuel,
{
    match step {
        StepModel::Done(s) => Some(Ok(s)),
        StepModel::Failed(e) => Some(Err(e)),
        StepModel::Ask(q) => if fuel == 0 {
            None
        } else {
            let next = advance_model(state, node(q));
            run(node, next.0, next.1, (fuel - 1) as nat)
        },
    }
}

/// How many lookups the resolution of a transaction with `inputs` inputs
/// takes at most: the transaction, the header, and one per input.
pub open spec fn lookups_needed(inputs: nat) -> nat {
    inputs + 2
}

/// Skipping the inputs that spend nothing keeps the resolved sources in step
/// with the inputs, and stops at the end or at an input that spends.
pub proof fn lemma_skip_unspent(
    node: Node,
    inputs: Seq<Option<InputRefModel>>,
    sources: Seq<Option<OutputModel>>,
)
    requires
        sources.len() <= inputs.len(),
        sources_of(node, inputs.take(sources.len() as int)) == Ok::<_, ResolutionError>(sources),
    ensures
        ({
            let settled = skip_unspent(inputs, sources);
            &&& sources.len() <= settled.len() <= inputs.len()
            &&& sources_of(node, inputs.take(settled.len() as int)) == Ok::<_, ResolutionError>(
                settled,
            )
            &&& settled.len() < inputs.len() ==> inputs[settled.len() as int] is Some
        }),
    decreases inputs.len() - sources.len(),
{
    if sources.len() < inputs.len() && inputs[sources.len() as int] is None {
        let k = sources.len() as int;
        assert(inputs.take(k + 1).drop_last() =~= inputs.take(k));
        assert(inputs.take(k + 1).last() == inputs[k]);
        lemma_skip_unspent(node, inputs, sources.push(None));
    }
}

/// An input that cannot be resolved fails the whole list, whatever follows.
pub proof fn lemma_failure_persists(
    node: Node,
    inputs: Seq<Option<InputRefModel>>,
    k: int,
    e: ResolutionError,
)
    requires
        0 <= k <= inputs.len(),
        sources_of(node, inputs.take(k)) == Err::<Seq<Option<OutputModel>>, _>(e),
    ensures
        sources_of(node, inputs) == Err::<Seq<Option<OutputModel>>, _>(e),
    decreases inputs.len() - k,
{
    if k == inputs.len() {
        assert(inputs.take(k) =~= inputs);
    } else {
        assert(inputs.take(k + 1).drop_last() =~= inputs.take(k));
        lemma_failure_persists(node, inputs, k + 1, e);
    }
}

/// From any point at which the inputs so far are resolved, the machine
/// arrives at the settlement of the transaction.
pub proof fn lemma_proceed_settles(
    node: Node,
    tx: TransactionModel,
    height: nat,
    recipient: Seq<char>,
    sources: Seq<Option<OutputModel>>,
    fuel: nat,
)
    requires
        sources.len() <= tx.inputs.len(),
        sources_of(node, tx.inputs.take(sources.len() as int)) == Ok::<_, ResolutionError>(
            sources,
        ),
        fuel >= tx.inputs.len() - sources.len(),
    ensures
        ({
            let next = proceed_model(tx, height, recipient, sources);
            run(node, next.0, next.1, fuel) == Some(settlement(node, tx, height, recipient))
        }),
    decreases tx.inputs.len() - sources.len(),
{
    let inputs = tx.inputs;
    let settled = skip_unspent(inputs, sources);
    let goal = settlement(node, tx, height, recipient);
    let next = proceed_model(tx, height, recipient, sources);
    lemma_skip_unspent(node, inputs, sources);
    let k = settled.len() as int;
    if k == inputs.len() {
        assert(inputs.take(k) =~= inputs);
        assert(goal == summary_of(tx, height, settled, recipient));
        assert(run(node, next.0, next.1, fuel) == Some(goal));
    } else {
        let r = inputs[k].unwrap();
        let q = LookupModel::Transaction { txid: r.txid, block: None };
        let state = StateModel::AwaitingSource { tx, height, recipient, sources: settled };
        assert(next == (state, StepModel::Ask(q)));
        let after = advance_model(state, node(q));
        assert(run(node, next.0, next.1, fuel) == run(node, after.0, after.1, (fuel - 1) as nat));
        assert(inputs.take(k + 1).drop_last() =~= inputs.take(k));
        assert(inputs.take(k + 1).last() == inputs[k]);
        match source_of(node, inputs[k]) {
            Ok(s) => {
                let more = settled.push(s);
                assert(sources_of(node, inputs.take(k + 1)) == Ok::<_, ResolutionError>(more));
                assert(after == proceed_model(tx, height, recipient, more));
                lemma_proceed_settles(node, tx, height, recipient, more, (fuel - 1) as nat);
            },
            Err(e) => {
                assert(sources_of(node, inputs.take(k + 1)) == Err::<
                    Seq<Option<OutputModel>>,
                    _,
                >(e));
                lemma_failure_persists(node, inputs, k + 1, e);
                assert(after == failed(e));
                assert(run(node, after.0, after.1, (fuel - 1) as nat) == Some(goal));
            },
        }
    }
}

/// Driving the machine from its first state with the answers of `node` ends,
/// within the lookups that the transaction needs, in the resolution of the
/// transaction on `node`.
pub proof fn lemma_machine_resolves(
    node: Node,
    txid: Seq<char>,
    block: Seq<char>,
    recipient: Seq<char>,
    fuel: nat,
)
    requires
        node(LookupModel::Transaction { txid, block: Some(block) }) matches ReplyModel::Transaction(
            tx,
        ) ==> fuel >= lookups_needed(tx.inputs.len()),
        fuel >= lookups_needed(0),
    ensures
        ({
            let first = begin_model(txid, block, recipient);
            run(node, first.0, StepModel::Ask(first.1), fuel) == Some(
                resolution(node, txid, block, recipient),
            )
        }),
{
    let first = begin_model(txid, block, recipient);
    let second = advance_model(first.0, node(first.1));
    assert(run(node, first.0, StepModel::Ask(first.1), fuel) == run(
        node,
        second.0,
        second.1,
        (fuel - 1) as nat,
    ));
    match node(first.1) {
        ReplyModel::Transaction(tx) => {
            if tx.block == Some(block) {
                let q = LookupModel::BlockHeader { hash: block };
                let third = advance_model(second.0, node(q));
                assert(run(node, second.0, second.1, (fuel - 1) as nat) == run(
                    node,
                    third.0,
                    third.1,
                    (fuel - 2) as nat,
                ));
                match node(q) {
                    ReplyModel::BlockHeader(Some(height)) => {
                        let none = Seq::<Option<OutputModel>>::empty();
                        assert(tx.inputs.take(0) =~= Seq::empty());
                        lemma_proceed_settles(node, tx, height, recipient, none, (fuel - 2) as nat);
                    },
                    _ => {},
                }
            }
        },
        _ => {},
    }
}

/// Every transaction that resolves has a fee of zero or more: its inputs
/// hold at least what its outputs hold, and the fee is the difference.
pub proof fn lemma_resolved_fee(node: Node, txid: Seq<char>, block: Seq<char>, recipient: Seq<char>)
    ensures
        resolution(node, txid, block, recipient) matches Ok(s) ==> {
            &&& s.total_input >= s.total_output
            &&& s.fee == s.total_input - s.total_output
            &&& s.consistent()
        },
{
    match node(LookupModel::Transaction { txid, block: Some(block) }) {
        ReplyModel::Transaction(tx) => match node(LookupModel::BlockHeader { hash: block }) {
            ReplyModel::BlockHeader(Some(height)) => match sources_of(node, tx.inputs) {
                Ok(sources) => {
                    lemma_summary_consistent(tx, height, sources, recipient);
                },
                Err(_) => {},
            },
            _ => {},
        },
        _ => {},
    }
}

/// An input that spends nothing resolves to nothing, wherever it stands
/// among the inputs, and leaves the other inputs as they resolve without it.
pub proof fn lemma_unspent_input_resolves_to_nothing(
    node: Node,
    inputs: Seq<Option<InputRefModel>>,
    i: int,
)
    requires
        0 <= i <= inputs.len(),
    ensures
        sources_of(node, inputs.insert(i, None)) == match sources_of(node, inputs) {
            Ok(sources) => Ok(sources.insert(i, None)),
            Err(e) => Err(e),
        },
    decreases inputs.len(),
{
    let more = inputs.insert(i, None);
    if i == inputs.len() {
        assert(more.drop_last() =~= inputs);
        lemma_sources_in_step(node, inputs);
        match sources_of(node, inputs) {
            Ok(sources) => {
                assert(sources.insert(i, None) =~= sources.push(None));
            },
            Err(_) => {},
        }
    } else {
        let rest = inputs.drop_last();
        assert(more.drop_last() =~= rest.insert(i, None));
        assert(more.last() == inputs.last());
        lemma_unspent_input_resolves_to_nothing(node, rest, i);
        lemma_sources_in_step(node, rest);
        match sources_of(node, rest) {
            Ok(sources) => match source_of(node, inputs.last()) {
                Ok(s) => {
                    assert(sources.insert(i, None).push(s) =~= sources.push(s).insert(i, None));
                },
                Err(_) => {},
            },
            Err(_) => {},
        }
    }
}

/// The sources that the inputs resolve to stand one for one beside them, so
/// that no settlement fails for want of that.
pub proof fn lemma_sources_in_step(node: Node, inputs: Seq<Option<InputRefModel>>)
    ensures
        sources_of(node, inputs) matches Ok(sources) ==> in_step(inputs, sources),
    decreases inputs.len(),
{
    if inputs.len() > 0 {
        let rest = inputs.drop_last();
        lemma_sources_in_step(node, rest);
        match sources_of(node, inputs) {
            Ok(sources) => {
                let before = sources_of(node, rest).unwrap();
                assert forall|i: int| 0 <= i < inputs.len() implies ((#[trigger] sources[i])
                    is None <==> inputs[i] is None) by {
                    if i < rest.len() {
                        assert(sources[i] == before[i]);
                        assert(inputs[i] == rest[i]);
                    }
                }
            },
            Err(_) => {},
        }
    }
}

/// A transaction with one more input that spends nothing settles as it does
/// without that input: the same failure, or the same summary, with the same
/// value spent and the same input addresses.
pub proof fn lemma_unspent_input_changes_nothing(
    node: Node,
    tx: TransactionModel,
    height: nat,
    recipient: Seq<char>,
    i: int,
)
    requires
        0 <= i <= tx.inputs.len(),
    ensures
        settlement(
            node,
            TransactionModel { inputs: tx.inputs.insert(i, None), ..tx },
            height,
            recipient,
        ) == settlement(node, tx, height, recipient),
{
    lemma_unspent_input_resolves_to_nothing(node, tx.inputs, i);
    lemma_sources_in_step(node, tx.inputs);
    match sources_of(node, tx.inputs) {
        Ok(sources) => {
            lemma_unspent_adds_nothing(tx, height, sources, recipient, i);
        },
        Err(_) => {},
    }
}

} // verus!
