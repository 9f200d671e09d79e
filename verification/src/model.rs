//! The values the resolver reads and produces, each with its mathematical
//! model: text as a sequence of characters, amounts as natural numbers of
//! base units, lists as sequences.

use vstd::prelude::*;

verus! {

/// Why a resolution ended without a summary.
#[derive(Clone, Copy, Debug, PartialEq, Eq, Structural)]
pub enum ResolutionError {
    /// The node could not be reached or refused the credentials.
    Transport,
    /// A referenced transaction, output position or block header is missing.
    NotFound,
    /// The data contradicts itself: a fee below zero, a confirmed
    /// transaction without its block or height, an amount out of range.
    InvariantViolation,
}

/// Model of a [`TxInputRef`].
pub struct InputRefModel {
    pub txid: Seq<char>,
    pub index: nat,
}

/// Model of a [`ResolvedOutput`].
pub struct OutputModel {
    pub value: nat,
    pub owner: Option<Seq<char>>,
}

/// Model of a [`TransactionView`].
pub struct TransactionModel {
    pub txid: Seq<char>,
    pub block: Option<Seq<char>>,
    pub inputs: Seq<Option<InputRefModel>>,
    pub outputs: Seq<OutputModel>,
}

/// Model of a [`Payment`].
pub struct PaymentModel {
    pub value: nat,
    pub address: Seq<char>,
}

/// Model of an [`EconomicSummary`].
pub struct SummaryModel {
    pub txid: Seq<char>,
    pub total_input: nat,
    pub total_output: nat,
    pub fee: nat,
    pub input_addresses: Seq<Seq<char>>,
    pub recipient: Option<PaymentModel>,
    pub change: Option<PaymentModel>,
    pub ambiguous_change: bool,
    pub block_height: nat,
    pub block_hash: Seq<char>,
}

impl SummaryModel {
    /// The fee is what the inputs hold beyond the outputs, and no input
    /// address is listed twice.
    pub open spec fn consistent(self) -> bool {
        &&& self.total_input == self.total_output + self.fee
        &&& self.input_addresses.no_duplicates()
    }
}

/// Reference to an output of an earlier transaction that an input spends.
#[derive(Debug, PartialEq, Eq)]
pub struct TxInputRef {
    pub txid: String,
    pub vout: u32,
}

/// An output: its value in base units and, where its script names one, the
/// address that owns it.
#[derive(Debug, PartialEq, Eq)]
pub struct ResolvedOutput {
    pub value: u64,
    pub address: Option<String>,
}

/// A transaction as the node reports it. An input that spends nothing
/// (the reward input of a block) is `None`.
#[derive(Debug, PartialEq, Eq)]
pub struct TransactionView {
    pub txid: String,
    pub block_hash: Option<String>,
    pub inputs: Vec<Option<TxInputRef>>,
    pub outputs: Vec<ResolvedOutput>,
}

/// An output singled out in a summary: its value and its owner.
#[derive(Debug, PartialEq, Eq)]
pub struct Payment {
    pub value: u64,
    pub address: String,
}

/// The economics of one confirmed transaction.
#[derive(Debug, PartialEq, Eq)]
pub struct EconomicSummary {
    pub txid: String,
    pub total_input_value: u64,
    pub total_output_value: u64,
    pub fee: u64,
    /// Owners of the spent outputs, each once, in the order in which the
    /// inputs first name them.
    pub input_addresses: Vec<String>,
    /// The first output owned by the known recipient.
    pub recipient_output: Option<Payment>,
    /// The last output owned by an address other than the recipient.
    pub change_output: Option<Payment>,
    /// Whether more than one output could have been the change output.
    pub ambiguous_change: bool,
    pub block_height: u64,
    pub block_hash: String,
}

/// The texts that a list of strings holds.
pub open spec fn texts(v: Seq<String>) -> Seq<Seq<char>> {
    v.map_values(|s: String| s@)
}

/// The model of an optional text.
pub open spec fn text_model(s: Option<String>) -> Option<Seq<char>> {
    match s {
        Some(t) => Some(t@),
        None => None,
    }
}

/// The model of an input: `None` where it spends nothing.
pub open spec fn input_model(r: Option<TxInputRef>) -> Option<InputRefModel> {
    match r {
        Some(x) => Some(x@),
        None => None,
    }
}

/// The models of a list of inputs.
pub open spec fn input_models(v: Seq<Option<TxInputRef>>) -> Seq<Option<InputRefModel>> {
    v.map_values(|r: Option<TxInputRef>| input_model(r))
}

/// The models of a list of outputs.
pub open spec fn output_models(v: Seq<ResolvedOutput>) -> Seq<OutputModel> {
    v.map_values(|o: ResolvedOutput| o@)
}

/// The model of a spent output: `None` for an input that spends nothing.
pub open spec fn source_model(s: Option<ResolvedOutput>) -> Option<OutputModel> {
    match s {
        Some(o) => Some(o@),
        None => None,
    }
}

/// The models of a list of spent outputs.
pub open spec fn source_models(v: Seq<Option<ResolvedOutput>>) -> Seq<Option<OutputModel>> {
    v.map_values(|s: Option<ResolvedOutput>| source_model(s))
}

/// The model of an optional payment.
pub open spec fn payment_model(p: Option<Payment>) -> Option<PaymentModel> {
    match p {
        Some(x) => Some(x@),
        None => None,
    }
}

impl View for TxInputRef {
    type V = InputRefModel;

    open spec fn view(&self) -> InputRefModel {
        InputRefModel { txid: self.txid@, index: self.vout as nat }
    }
}

impl View for ResolvedOutput {
    type V = OutputModel;

    open spec fn view(&self) -> OutputModel {
        OutputModel { value: self.value as nat, owner: text_model(self.address) }
    }
}

impl View for TransactionView {
    type V = TransactionModel;

    open spec fn view(&self) -> TransactionModel {
        TransactionModel {
            txid: self.txid@,
            block: text_model(self.block_hash),
            inputs: input_models(self.inputs@),
            outputs: output_models(self.outputs@),
        }
    }
}

impl View for Payment {
    type V = PaymentModel;

    open spec fn view(&self) -> PaymentModel {
        PaymentModel { value: self.value as nat, address: self.address@ }
    }
}

impl View for EconomicSummary {
    type V = SummaryModel;

    open spec fn view(&self) -> SummaryModel {
        SummaryModel {
            txid: self.txid@,
            total_input: self.total_input_value as nat,
            total_output: self.total_output_value as nat,
            fee: self.fee as nat,
            input_addresses: texts(self.input_addresses@),
            recipient: payment_model(self.recipient_output),
            change: payment_model(self.change_output),
            ambiguous_change: self.ambiguous_change,
            block_height: self.block_height as nat,
            block_hash: self.block_hash@,
        }
    }
}

impl Clone for TxInputRef {
    fn clone(&self) -> (r: Self)
        ensures
            r == *self,
    {
        TxInputRef { txid: self.txid.clone(), vout: self.vout }
    }
}

impl Clone for ResolvedOutput {
    fn clone(&self) -> (r: Self)
        ensures
            r == *self,
    {
        ResolvedOutput { value: self.value, address: self.address.clone() }
    }
}

impl Clone for TransactionView {
    fn clone(&self) -> (r: Self)
        ensures
            r@ == self@,
    {
        TransactionView {
            txid: self.txid.clone(),
            block_hash: self.block_hash.clone(),
            inputs: self.inputs.clone(),
            outputs: self.outputs.clone(),
        }
    }
}

impl Clone for Payment {
    fn clone(&self) -> (r: Self)
        ensures
            r == *self,
    {
        Payment { value: self.value, address: self.address.clone() }
    }
}

impl Clone for EconomicSummary {
    fn clone(&self) -> (r: Self)
        ensures
            r@ == self@,
    {
        EconomicSummary {
            txid: self.txid.clone(),
            total_input_value: self.total_input_value,
            total_output_value: self.total_output_value,
            fee: self.fee,
            input_addresses: self.input_addresses.clone(),
            recipient_output: self.recipient_output.clone(),
            change_output: self.change_output.clone(),
            ambiguous_change: self.ambiguous_change,
            block_height: self.block_height,
            block_hash: self.block_hash.clone(),
        }
    }
}

} // verus!
