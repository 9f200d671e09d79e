//! What a transaction spent, paid and left as fee, computed from its outputs
//! and from the outputs that its inputs spend.

use vstd::prelude::*;
use vstd::string::*;
use crate::text::{lemma_take_next, lists};
use crate::model::{
    EconomicSummary, InputRefModel, OutputModel, Payment, PaymentModel, ResolutionError,
    ResolvedOutput, SummaryModel, TransactionModel, TransactionView, TxInputRef, input_models,
    output_models, payment_model, source_models, texts,
};

verus! {

/// The largest amount a summary can hold.
pub const MAX_AMOUNT: u64 = 0xffff_ffff_ffff_ffff;

/// Sum of the values of `outputs`.
pub open spec fn total_value(outputs: Seq<OutputModel>) -> nat
    decreases outputs.len(),
{
    if outputs.len() == 0 {
        0
    } else {
        total_value(outputs.drop_last()) + outputs.last().value
    }
}

/// Sum of the values of the spent outputs; an input that spends nothing
/// (`None`) adds nothing.
pub open spec fn spent_value(sources: Seq<Option<OutputModel>>) -> nat
    decreases sources.len(),
{
    if sources.len() == 0 {
        0
    } else {
        spent_value(sources.drop_last()) + match sources.last() {
            Some(o) => o.value,
            None => 0,
        }
    }
}

/// `owners` with the owner of one more spent output: added at the end if it
/// is known and not yet listed.
pub open spec fn with_owner(owners: Seq<Seq<char>>, source: Option<OutputModel>) -> Seq<Seq<char>> {
    match source {
        Some(o) => match o.owner {
            Some(a) => if owners.contains(a) {
                owners
            } else {
                owners.push(a)
            },
            None => owners,
        },
        None => owners,
    }
}

/// The owners of the spent outputs, each once, in order of first appearance.
pub open spec fn spent_owners(sources: Seq<Option<OutputModel>>) -> Seq<Seq<char>>
    decreases sources.len(),
{
    if sources.len() == 0 {
        Seq::empty()
    } else {
        with_owner(spent_owners(sources.drop_last()), sources.last())
    }
}

/// Whether `output` belongs to `recipient`.
pub open spec fn pays(output: OutputModel, recipient: Seq<char>) -> bool {
    output.owner == Some(recipient)
}

/// Whether `output` has an owner other than `recipient`.
pub open spec fn returns_change(output: OutputModel, recipient: Seq<char>) -> bool {
    output.owner is Some && output.owner != Some(recipient)
}

/// An output with a known owner as a payment.
pub open spec fn payment_of(output: OutputModel) -> PaymentModel {
    PaymentModel { value: output.value, address: output.owner.unwrap() }
}

/// The first output that belongs to `recipient`, if any.
pub open spec fn recipient_payment(outputs: Seq<OutputModel>, recipient: Seq<char>) -> Option<
    PaymentModel,
>
    decreases outputs.len(),
{
    if outputs.len() == 0 {
        None
    } else {
        match recipient_payment(outputs.drop_last(), recipient) {
            Some(p) => Some(p),
            None => if pays(outputs.last(), recipient) {
                Some(payment_of(outputs.last()))
            } else {
                None
            },
        }
    }
}

/// The last output with an owner other than `recipient`, if any.
pub open spec fn change_payment(outputs: Seq<OutputModel>, recipient: Seq<char>) -> Option<
    PaymentModel,
>
    decreases outputs.len(),
{
    if outputs.len() == 0 {
        None
    } else if returns_change(outputs.last(), recipient) {
        Some(payment_of(outputs.last()))
    } else {
        change_payment(outputs.drop_last(), recipient)
    }
}

/// How many outputs have an owner other than `recipient`.
pub open spec fn change_count(outputs: Seq<OutputModel>, recipient: Seq<char>) -> nat
    decreases outputs.len(),
{
    if outputs.len() == 0 {
        0
    } else {
        change_count(outputs.drop_last(), recipient) + if returns_change(
            outputs.last(),
            recipient,
        ) {
            1nat
        } else {
            0nat
        }
    }
}

/// Whether `sources` stand one for one beside `inputs`: as many entries, and
/// `None` exactly where the input spends nothing.
pub open spec fn in_step(inputs: Seq<Option<InputRefModel>>, sources: Seq<Option<OutputModel>>)
    -> bool {
    &&& sources.len() == inputs.len()
    &&& forall|i: int|
        0 <= i < inputs.len() ==> ((#[trigger] sources[i]) is None <==> inputs[i] is None)
}

/// The summary of a transaction confirmed at `height`, whose inputs spend
/// `sources` (one entry per input, `None` where the input spends nothing).
///
/// There is none where the transaction names no block, where the sources do
/// not stand one for one beside the inputs, where a total does not fit an
/// amount, or where the outputs hold more than the inputs.
pub open spec fn summary_of(
    tx: TransactionModel,
    height: nat,
    sources: Seq<Option<OutputModel>>,
    recipient: Seq<char>,
) -> Result<SummaryModel, ResolutionError> {
    let spent = spent_value(sources);
    let paid = total_value(tx.outputs);
    if tx.block is None || !in_step(tx.inputs, sources) || spent > MAX_AMOUNT || paid
        > MAX_AMOUNT || spent < paid {
        Err(ResolutionError::InvariantViolation)
    } else {
        Ok(
            SummaryModel {
                txid: tx.txid,
                total_input: spent,
                total_output: paid,
                fee: (spent - paid) as nat,
                input_addresses: spent_owners(sources),
                recipient: recipient_payment(tx.outputs, recipient),
                change: change_payment(tx.outputs, recipient),
                ambiguous_change: change_count(tx.outputs, recipient) > 1,
                block_height: height,
                block_hash: tx.block.unwrap(),
            },
        )
    }
}

/// The model of the result of a summary.
pub open spec fn outcome_model(r: Result<EconomicSummary, ResolutionError>) -> Result<
    SummaryModel,
    ResolutionError,
> {
    match r {
        Ok(s) => Ok(s@),
        Err(e) => Err(e),
    }
}


/// An amount that fits, or none.
pub open spec fn fitting(total: nat) -> Option<u64> {
    if total <= MAX_AMOUNT {
        Some(total as u64)
    } else {
        None
    }
}

/// Sums the values of `outputs`; `None` where the sum does not fit.
pub fn output_total(outputs: &Vec<ResolvedOutput>) -> (r: Option<u64>)
    ensures
        r == fitting(total_value(output_models(outputs@))),
{
    let ghost all = output_models(outputs@);
    let mut sum: u128 = 0;
    let mut i: usize = 0;
    while i < outputs.len()
        invariant
            i <= outputs.len(),
            all == output_models(outputs@),
            sum == total_value(all.take(i as int)),
            sum <= i * 0xffff_ffff_ffff_ffff,
        decreases outputs.len() - i,
    {
        proof {
            lemma_take_next(all, i as int);
        }
        sum = sum + outputs[i].value as u128;
        i = i + 1;
    }
    assert(all.take(i as int) =~= all);
    if sum <= MAX_AMOUNT as u128 {
        Some(sum as u64)
    } else {
        None
    }
}

/// Sums the values of the spent outputs; `None` where the sum does not fit.
pub fn source_total(sources: &Vec<Option<ResolvedOutput>>) -> (r: Option<u64>)
    ensures
        r == fitting(spent_value(source_models(sources@))),
{
    let ghost all = source_models(sources@);
    let mut sum: u128 = 0;
    let mut i: usize = 0;
    while i < sources.len()
        invariant
            i <= sources.len(),
            all == source_models(sources@),
            sum == spent_value(all.take(i as int)),
            sum <= i * 0xffff_ffff_ffff_ffff,
        decreases sources.len() - i,
    {
        proof {
            lemma_take_next(all, i as int);
        }
        match &sources[i] {
            Some(o) => {
                sum = sum + o.value as u128;
            },
            None => {},
        }
        i = i + 1;
    }
    assert(all.take(i as int) =~= all);
    if sum <= MAX_AMOUNT as u128 {
        Some(sum as u64)
    } else {
        None
    }
}

/// Whether `sources` stand one for one beside `inputs`.
pub fn sources_in_step(inputs: &Vec<Option<TxInputRef>>, sources: &Vec<Option<ResolvedOutput>>)
    -> (r: bool)
    ensures
        r == in_step(input_models(inputs@), source_models(sources@)),
{
    if inputs.len() != sources.len() {
        return false;
    }
    let mut i: usize = 0;
    while i < inputs.len()
        invariant
            i <= inputs.len(),
            inputs.len() == sources.len(),
            forall|j: int|
                0 <= j < i ==> ((#[trigger] source_models(sources@)[j]) is None <==> input_models(
                    inputs@,
                )[j] is None),
        decreases inputs.len() - i,
    {
        if inputs[i].is_none() != sources[i].is_none() {
            assert(source_models(sources@)[i as int] is None != input_models(
                inputs@,
            )[i as int] is None);
            return false;
        }
        i = i + 1;
    }
    true
}

/// Lists the owners of the spent outputs, each once, in order of first
/// appearance.
pub fn source_owners(sources: &Vec<Option<ResolvedOutput>>) -> (r: Vec<String>)
    ensures
        texts(r@) == spent_owners(source_models(sources@)),
{
    let ghost all = source_models(sources@);
    let mut owners: Vec<String> = Vec::new();
    let mut i: usize = 0;
    assert(texts(owners@) =~= spent_owners(all.take(0)));
    while i < sources.len()
        invariant
            i <= sources.len(),
            all == source_models(sources@),
            texts(owners@) == spent_owners(all.take(i as int)),
        decreases sources.len() - i,
    {
        proof {
            lemma_take_next(all, i as int);
        }
        let ghost before = texts(owners@);
        match &sources[i] {
            Some(o) => match &o.address {
                Some(a) => {
                    if !lists(&owners, a) {
                        owners.push(a.clone());
                        assert(texts(owners@) =~= before.push(a@));
                    }
                },
                None => {},
            },
            None => {},
        }
        i = i + 1;
    }
    assert(all.take(i as int) =~= all);
    owners
}

/// Finds the first output that belongs to `recipient`.
pub fn find_recipient(outputs: &Vec<ResolvedOutput>, recipient: &String) -> (r: Option<Payment>)
    ensures
        payment_model(r) == recipient_payment(output_models(outputs@), recipient@),
{
    let ghost all = output_models(outputs@);
    let mut found: Option<Payment> = None;
    let mut i: usize = 0;
    while i < outputs.len()
        invariant
            i <= outputs.len(),
            all == output_models(outputs@),
            payment_model(found) == recipient_payment(all.take(i as int), recipient@),
        decreases outputs.len() - i,
    {
        proof {
            lemma_take_next(all, i as int);
        }
        if found.is_none() {
            match &outputs[i].address {
                Some(a) => {
                    if *a == *recipient {
                        found = Some(Payment { value: outputs[i].value, address: a.clone() });
                    }
                },
                None => {},
            }
        }
        i = i + 1;
    }
    assert(all.take(i as int) =~= all);
    found
}

/// Finds the last output with an owner other than `recipient`.
pub fn find_change(outputs: &Vec<ResolvedOutput>, recipient: &String) -> (r: Option<Payment>)
    ensures
        payment_model(r) == change_payment(output_models(outputs@), recipient@),
{
    let ghost all = output_models(outputs@);
    let mut found: Option<Payment> = None;
    let mut i: usize = 0;
    while i < outputs.len()
        invariant
            i <= outputs.len(),
            all == output_models(outputs@),
            payment_model(found) == change_payment(all.take(i as int), recipient@),
        decreases outputs.len() - i,
    {
        proof {
            lemma_take_next(all, i as int);
        }
        match &outputs[i].address {
            Some(a) => {
                if !(*a == *recipient) {
                    found = Some(Payment { value: outputs[i].value, address: a.clone() });
                }
            },
            None => {},
        }
        i = i + 1;
    }
    assert(all.take(i as int) =~= all);
    found
}

/// Whether more than one output has an owner other than `recipient`.
pub fn change_is_ambiguous(outputs: &Vec<ResolvedOutput>, recipient: &String) -> (r: bool)
    ensures
        r == (change_count(output_models(outputs@), recipient@) > 1),
{
    let ghost all = output_models(outputs@);
    let mut seen: bool = false;
    let mut again: bool = false;
    let mut i: usize = 0;
    while i < outputs.len()
        invariant
            i <= outputs.len(),
            all == output_models(outputs@),
            seen == (change_count(all.take(i as int), recipient@) > 0),
            again == (change_count(all.take(i as int), recipient@) > 1),
        decreases outputs.len() - i,
    {
        proof {
            lemma_take_next(all, i as int);
        }
        match &outputs[i].address {
            Some(a) => {
                if !(*a == *recipient) {
                    if seen {
                        again = true;
                    }
                    seen = true;
                }
            },
            None => {},
        }
        i = i + 1;
    }
    assert(all.take(i as int) =~= all);
    again
}

/// Draws up the summary of `tx`, confirmed at `height`, from the outputs
/// that its inputs spend: `sources` holds one entry per input, `None` where
/// the input spends nothing.
///
/// Fails with `InvariantViolation`, and only then, where `tx` names no block,
/// where `sources` do not stand one for one beside the inputs of `tx`, where
/// the inputs or the outputs add up to more than an amount can hold, or where
/// the outputs hold more than the inputs.
pub fn summarize(
    tx: &TransactionView,
    height: u64,
    sources: &Vec<Option<ResolvedOutput>>,
    recipient: &str,
) -> (r: Result<EconomicSummary, ResolutionError>)
    ensures
        outcome_model(r) == summary_of(tx@, height as nat, source_models(sources@), recipient@),
        r matches Ok(s) ==> s@.consistent(),
{
    let known = String::from_str(recipient);
    let block_hash = match &tx.block_hash {
        Some(b) => b.clone(),
        None => {
            return Err(ResolutionError::InvariantViolation);
        },
    };
    if !sources_in_step(&tx.inputs, sources) {
        return Err(ResolutionError::InvariantViolation);
    }
    let spent = match source_total(sources) {
        Some(v) => v,
        None => {
            return Err(ResolutionError::InvariantViolation);
        },
    };
    let paid = match output_total(&tx.outputs) {
        Some(v) => v,
        None => {
            return Err(ResolutionError::InvariantViolation);
        },
    };
    if spent < paid {
        return Err(ResolutionError::InvariantViolation);
    }
    let input_addresses = source_owners(sources);
    proof {
        lemma_owners_distinct(source_models(sources@));
    }
    Ok(
        EconomicSummary {
            txid: tx.txid.clone(),
            total_input_value: spent,
            total_output_value: paid,
            fee: spent - paid,
            input_addresses,
            recipient_output: find_recipient(&tx.outputs, &known),
            change_output: find_change(&tx.outputs, &known),
            ambiguous_change: change_is_ambiguous(&tx.outputs, &known),
            block_height: height,
            block_hash,
        },
    )
}

/// A summary never holds a fee below zero: its inputs hold at least what its
/// outputs hold, the fee is the difference, and no input address is listed
/// twice.
pub proof fn lemma_summary_consistent(
    tx: TransactionModel,
    height: nat,
    sources: Seq<Option<OutputModel>>,
    recipient: Seq<char>,
)
    ensures
        summary_of(tx, height, sources, recipient) matches Ok(s) ==> {
            &&& s.total_input >= s.total_output
            &&& s.fee == s.total_input - s.total_output
            &&& s.consistent()
        },
{
    lemma_owners_distinct(sources);
}

/// No owner is listed twice, however many spent outputs share it.
pub proof fn lemma_owners_distinct(sources: Seq<Option<OutputModel>>)
    ensures
        spent_owners(sources).no_duplicates(),
    decreases sources.len(),
{
    if sources.len() > 0 {
        lemma_owners_distinct(sources.drop_last());
    }
}

/// Whether the spent output at position `i` is owned by `owner`.
pub open spec fn owned_at(sources: Seq<Option<OutputModel>>, i: int, owner: Seq<char>) -> bool {
    &&& 0 <= i < sources.len()
    &&& sources[i] matches Some(o)
    &&& o.owner == Some(owner)
}

/// The listed owners are exactly the owners of the spent outputs.
pub proof fn lemma_owners_exact(sources: Seq<Option<OutputModel>>, owner: Seq<char>)
    ensures
        spent_owners(sources).contains(owner) <==> exists|i: int| owned_at(sources, i, owner),
    decreases sources.len(),
{
    if sources.len() > 0 {
        let rest = sources.drop_last();
        let last = sources.len() - 1;
        lemma_owners_exact(rest, owner);
        if spent_owners(sources).contains(owner) {
            if spent_owners(rest).contains(owner) {
                let i = choose|i: int| owned_at(rest, i, owner);
                assert(owned_at(sources, i, owner));
            } else {
                assert(owned_at(sources, last, owner));
            }
        }
        if exists|i: int| owned_at(sources, i, owner) {
            let i = choose|i: int| owned_at(sources, i, owner);
            if i < last {
                assert(owned_at(rest, i, owner));
                assert(spent_owners(rest).contains(owner));
                let k = choose|k: int|
                    0 <= k < spent_owners(rest).len() && spent_owners(rest)[k] == owner;
                assert(spent_owners(sources)[k] == owner);
            } else {
                let listed = spent_owners(rest);
                if !listed.contains(owner) {
                    assert(spent_owners(sources) == listed.push(owner));
                    assert(spent_owners(sources)[listed.len() as int] == owner);
                } else {
                    let k = choose|k: int| 0 <= k < listed.len() && listed[k] == owner;
                    assert(spent_owners(sources)[k] == owner);
                }
            }
        }
    }
}

/// Two inputs that spend outputs of one owner put that owner on the list
/// once: it stands at one position and at no other.
pub proof fn lemma_shared_owner_listed_once(
    sources: Seq<Option<OutputModel>>,
    i: int,
    j: int,
    owner: Seq<char>,
)
    requires
        i != j,
        owned_at(sources, i, owner),
        owned_at(sources, j, owner),
    ensures
        exists|k: int|
            0 <= k < spent_owners(sources).len() && spent_owners(sources)[k] == owner && forall|
                m: int,
            |
                0 <= m < spent_owners(sources).len() && m != k ==> spent_owners(sources)[m]
                    != owner,
{
    lemma_owners_exact(sources, owner);
    lemma_owners_distinct(sources);
    let listed = spent_owners(sources);
    assert(listed.contains(owner));
    let k = choose|k: int| 0 <= k < listed.len() && listed[k] == owner;
    assert(forall|m: int| 0 <= m < listed.len() && m != k ==> listed[m] != owner);
}

/// An input that spends nothing, wherever it stands among the inputs, adds
/// nothing to the value spent and no entry to the owners.
pub proof fn lemma_unspent_adds_no_value(sources: Seq<Option<OutputModel>>, i: int)
    requires
        0 <= i <= sources.len(),
    ensures
        spent_value(sources.insert(i, None)) == spent_value(sources),
        spent_owners(sources.insert(i, None)) == spent_owners(sources),
    decreases sources.len(),
{
    let more = sources.insert(i, None);
    if i == sources.len() {
        assert(more.drop_last() =~= sources);
    } else {
        assert(more.drop_last() =~= sources.drop_last().insert(i, None));
        assert(more.last() == sources.last());
        lemma_unspent_adds_no_value(sources.drop_last(), i);
    }
}

/// With an input that spends nothing put in at one position, and `None` put
/// in beside it, the sources stand beside the inputs as they did before.
pub proof fn lemma_unspent_keeps_step(
    inputs: Seq<Option<InputRefModel>>,
    sources: Seq<Option<OutputModel>>,
    i: int,
)
    requires
        0 <= i <= sources.len(),
        0 <= i <= inputs.len(),
    ensures
        in_step(inputs.insert(i, None), sources.insert(i, None)) == in_step(inputs, sources),
{
    let a = inputs.insert(i, None);
    let b = sources.insert(i, None);
    if in_step(inputs, sources) {
        assert forall|j: int| 0 <= j < a.len() implies ((#[trigger] b[j]) is None <==> a[j]
            is None) by {
            if j > i {
                assert(b[j] == sources[j - 1]);
                assert(a[j] == inputs[j - 1]);
            }
        }
    }
    if in_step(a, b) {
        assert forall|j: int| 0 <= j < inputs.len() implies ((#[trigger] sources[j]) is None
            <==> inputs[j] is None) by {
            if j < i {
                assert(b[j] == sources[j]);
                assert(a[j] == inputs[j]);
            } else {
                assert(b[j + 1] == sources[j]);
                assert(a[j + 1] == inputs[j]);
            }
        }
    }
}

/// A transaction with one more input that spends nothing, wherever it stands
/// among the inputs, has the summary that it has without that input.
pub proof fn lemma_unspent_adds_nothing(
    tx: TransactionModel,
    height: nat,
    sources: Seq<Option<OutputModel>>,
    recipient: Seq<char>,
    i: int,
)
    requires
        0 <= i <= sources.len(),
        0 <= i <= tx.inputs.len(),
    ensures
        summary_of(
            TransactionModel { inputs: tx.inputs.insert(i, None), ..tx },
            height,
            sources.insert(i, None),
            recipient,
        ) == summary_of(tx, height, sources, recipient),
{
    lemma_unspent_adds_no_value(sources, i);
    lemma_unspent_keeps_step(tx.inputs, sources, i);
}

/// Whether the output at position `i` is the first that belongs to
/// `recipient`.
pub open spec fn first_paying(outputs: Seq<OutputModel>, recipient: Seq<char>, i: int) -> bool {
    &&& 0 <= i < outputs.len()
    &&& pays(outputs[i], recipient)
    &&& forall|j: int| 0 <= j < i ==> !pays(#[trigger] outputs[j], recipient)
}

/// Whether the output at position `i` is the last with an owner other than
/// `recipient`.
pub open spec fn last_change(outputs: Seq<OutputModel>, recipient: Seq<char>, i: int) -> bool {
    &&& 0 <= i < outputs.len()
    &&& returns_change(outputs[i], recipient)
    &&& forall|j: int| i < j < outputs.len() ==> !returns_change(#[trigger] outputs[j], recipient)
}

/// Of several outputs that belong to the recipient the first is designated;
/// none is designated only where none belongs to the recipient.
pub proof fn lemma_recipient_is_first(outputs: Seq<OutputModel>, recipient: Seq<char>)
    ensures
        match recipient_payment(outputs, recipient) {
            Some(p) => exists|i: int|
                first_paying(outputs, recipient, i) && p == payment_of(outputs[i]),
            None => forall|i: int| 0 <= i < outputs.len() ==> !pays(outputs[i], recipient),
        },
    decreases outputs.len(),
{
    if outputs.len() > 0 {
        let rest = outputs.drop_last();
        lemma_recipient_is_first(rest, recipient);
        match recipient_payment(rest, recipient) {
            Some(p) => {
                let i = choose|i: int|
                    first_paying(rest, recipient, i) && p == payment_of(rest[i]);
                assert(forall|j: int| 0 <= j < i ==> rest[j] == outputs[j]);
                assert(first_paying(outputs, recipient, i));
            },
            None => {
                assert(forall|j: int| 0 <= j < rest.len() ==> rest[j] == outputs[j]);
                if pays(outputs.last(), recipient) {
                    assert(first_paying(outputs, recipient, outputs.len() - 1));
                }
            },
        }
    }
}

/// Of several outputs with an owner other than the recipient the last is
/// designated; none is designated only where there is no such output.
pub proof fn lemma_change_is_last(outputs: Seq<OutputModel>, recipient: Seq<char>)
    ensures
        match change_payment(outputs, recipient) {
            Some(p) => exists|i: int|
                last_change(outputs, recipient, i) && p == payment_of(outputs[i]),
            None => forall|i: int|
                0 <= i < outputs.len() ==> !returns_change(outputs[i], recipient),
        },
    decreases outputs.len(),
{
    if outputs.len() > 0 {
        let rest = outputs.drop_last();
        if returns_change(outputs.last(), recipient) {
            assert(last_change(outputs, recipient, outputs.len() - 1));
        } else {
            lemma_change_is_last(rest, recipient);
            assert(forall|j: int| 0 <= j < rest.len() ==> rest[j] == outputs[j]);
            match change_payment(rest, recipient) {
                Some(p) => {
                    let i = choose|i: int|
                        last_change(rest, recipient, i) && p == payment_of(rest[i]);
                    assert(last_change(outputs, recipient, i));
                },
                None => {},
            }
        }
    }
}

/// The change is ambiguous exactly where two outputs at different positions
/// each have an owner other than the recipient.
pub proof fn lemma_ambiguity(outputs: Seq<OutputModel>, recipient: Seq<char>)
    ensures
        change_count(outputs, recipient) > 0 <==> exists|i: int|
            0 <= i < outputs.len() && returns_change(outputs[i], recipient),
        change_count(outputs, recipient) > 1 <==> exists|i: int, j: int|
            0 <= i < j < outputs.len() && returns_change(outputs[i], recipient) && returns_change(
                outputs[j],
                recipient,
            ),
    decreases outputs.len(),
{
    if outputs.len() > 0 {
        let rest = outputs.drop_last();
        let last = outputs.len() - 1;
        lemma_ambiguity(rest, recipient);
        assert(forall|j: int| 0 <= j < rest.len() ==> rest[j] == outputs[j]);
        if change_count(rest, recipient) > 0 {
            let i = choose|i: int| 0 <= i < rest.len() && returns_change(rest[i], recipient);
            assert(returns_change(outputs[i], recipient));
            if returns_change(outputs[last], recipient) {
                assert(0 <= i < last < outputs.len() && returns_change(outputs[i], recipient)
                    && returns_change(outputs[last], recipient));
            }
        }
        if change_count(rest, recipient) > 1 {
            let (i, j) = choose|i: int, j: int|
                0 <= i < j < rest.len() && returns_change(rest[i], recipient) && returns_change(
                    rest[j],
                    recipient,
                );
            assert(0 <= i < j < outputs.len() && returns_change(outputs[i], recipient)
                && returns_change(outputs[j], recipient));
        }
        if exists|i: int| 0 <= i < outputs.len() && returns_change(outputs[i], recipient) {
            let i = choose|i: int| 0 <= i < outputs.len() && returns_change(outputs[i], recipient);
            if i < last {
                assert(returns_change(rest[i], recipient));
            }
        }
        if exists|i: int, j: int|
            0 <= i < j < outputs.len() && returns_change(outputs[i], recipient) && returns_change(
                outputs[j],
                recipient,
            ) {
            let (i, j) = choose|i: int, j: int|
                0 <= i < j < outputs.len() && returns_change(outputs[i], recipient)
                    && returns_change(outputs[j], recipient);
            assert(returns_change(rest[i], recipient));
            if j < last {
                assert(0 <= i < j < rest.len() && returns_change(rest[i], recipient)
                    && returns_change(rest[j], recipient));
            }
        }
    }
}

} // verus!
