//! A ledger held in memory: transactions and block headers that answer the
//! resolver's lookups as a node would, and the resolution of a transaction
//! against it from the first lookup to the summary.

use vstd::prelude::*;
use vstd::string::*;
use crate::accounting::outcome_model;
use crate::model::{
    EconomicSummary, ResolutionError, SummaryModel, TransactionModel, TransactionView, text_model,
};
use crate::report::report_text;
use crate::resolution::{
    Node, lemma_machine_resolves, lemma_resolved_fee, lookups_needed, resolution, run,
};
use crate::text::lemma_take_next;
use crate::resolver::{Lookup, LookupModel, Reply, ReplyModel, Step, advance, begin, begin_model};

verus! {

/// Model of a [`BlockHeader`].
pub struct HeaderModel {
    pub hash: Seq<char>,
    pub height: nat,
}

/// Model of a [`Ledger`].
pub struct LedgerModel {
    pub transactions: Seq<TransactionModel>,
    pub headers: Seq<HeaderModel>,
}

/// A block header, as far as the resolver needs it.
#[derive(Debug, PartialEq, Eq)]
pub struct BlockHeader {
    pub hash: String,
    pub height: u64,
}

/// Transactions and block headers, in the order in which they were added.
#[derive(Debug, PartialEq, Eq)]
pub struct Ledger {
    pub transactions: Vec<TransactionView>,
    pub headers: Vec<BlockHeader>,
}

/// Whether `tx` is what a lookup of `txid` asks for: in any block where
/// `block` is `None`, else confirmed in that block.
pub open spec fn answers_to(tx: TransactionModel, txid: Seq<char>, block: Option<Seq<char>>)
    -> bool {
    tx.txid == txid && (block is None || tx.block == block)
}

/// The first of `transactions` that a lookup of `txid` asks for.
pub open spec fn first_transaction(
    transactions: Seq<TransactionModel>,
    txid: Seq<char>,
    block: Option<Seq<char>>,
) -> Option<TransactionModel>
    decreases transactions.len(),
{
    if transactions.len() == 0 {
        None
    } else {
        match first_transaction(transactions.drop_last(), txid, block) {
            Some(t) => Some(t),
            None => if answers_to(transactions.last(), txid, block) {
                Some(transactions.last())
            } else {
                None
            },
        }
    }
}

/// The first of `headers` with the hash `hash`.
pub open spec fn first_header(headers: Seq<HeaderModel>, hash: Seq<char>) -> Option<HeaderModel>
    decreases headers.len(),
{
    if headers.len() == 0 {
        None
    } else {
        match first_header(headers.drop_last(), hash) {
            Some(h) => Some(h),
            None => if headers.last().hash == hash {
                Some(headers.last())
            } else {
                None
            },
        }
    }
}

impl LedgerModel {
    /// The ledger's answer to a lookup: what it holds, or `NotFound`.
    pub open spec fn answer(self, q: LookupModel) -> ReplyModel {
        match q {
            LookupModel::Transaction { txid, block } => match first_transaction(
                self.transactions,
                txid,
                block,
            ) {
                Some(t) => ReplyModel::Transaction(t),
                None => ReplyModel::Failed(ResolutionError::NotFound),
            },
            LookupModel::BlockHeader { hash } => match first_header(self.headers, hash) {
                Some(h) => ReplyModel::BlockHeader(Some(h.height)),
                None => ReplyModel::Failed(ResolutionError::NotFound),
            },
        }
    }

    /// The ledger as a node.
    pub open spec fn node(self) -> Node {
        |q: LookupModel| self.answer(q)
    }
}

impl View for BlockHeader {
    type V = HeaderModel;

    open spec fn view(&self) -> HeaderModel {
        HeaderModel { hash: self.hash@, height: self.height as nat }
    }
}

impl View for Ledger {
    type V = LedgerModel;

    open spec fn view(&self) -> LedgerModel {
        LedgerModel {
            transactions: self.transactions@.map_values(|t: TransactionView| t@),
            headers: self.headers@.map_values(|h: BlockHeader| h@),
        }
    }
}

fn same_text(a: &Option<String>, b: &Option<String>) -> (r: bool)
    ensures
        r == (text_model(*a) == text_model(*b)),
{
    match (a, b) {
        (Some(x), Some(y)) => *x == *y,
        (None, None) => true,
        _ => false,
    }
}

impl Ledger {
    /// A ledger that holds nothing.
    pub fn new() -> (r: Ledger)
        ensures
            r@.transactions == Seq::<TransactionModel>::empty(),
            r@.headers == Seq::<HeaderModel>::empty(),
    {
        let r = Ledger { transactions: Vec::new(), headers: Vec::new() };
        assert(r@.transactions =~= Seq::empty());
        assert(r@.headers =~= Seq::empty());
        r
    }

    /// Adds a transaction after those that the ledger holds.
    pub fn add_transaction(&mut self, tx: TransactionView)
        ensures
            final(self)@.transactions == old(self)@.transactions.push(tx@),
            final(self)@.headers == old(self)@.headers,
    {
        self.transactions.push(tx);
        assert(self@.transactions =~= old(self)@.transactions.push(tx@));
    }

    /// Adds the header of the block `hash` after those that the ledger holds.
    pub fn add_header(&mut self, hash: &str, height: u64)
        ensures
            final(self)@.transactions == old(self)@.transactions,
            final(self)@.headers == old(self)@.headers.push(
                HeaderModel { hash: hash@, height: height as nat },
            ),
    {
        self.headers.push(BlockHeader { hash: String::from_str(hash), height });
        assert(self@.headers =~= old(self)@.headers.push(
            HeaderModel { hash: hash@, height: height as nat },
        ));
    }

    fn find_transaction(&self, txid: &String, block: &Option<String>) -> (r: Option<usize>)
        ensures
            match r {
                Some(k) => k < self.transactions.len() && first_transaction(
                    self@.transactions,
                    txid@,
                    text_model(*block),
                ) == Some(self.transactions[k as int]@),
                None => first_transaction(self@.transactions, txid@, text_model(*block)) is None,
            },
    {
        let ghost all = self@.transactions;
        let ghost wanted = text_model(*block);
        let mut found: Option<usize> = None;
        let mut i: usize = 0;
        while i < self.transactions.len()
            invariant
                i <= self.transactions.len(),
                all == self@.transactions,
                wanted == text_model(*block),
                match found {
                    Some(k) => k < i && first_transaction(all.take(i as int), txid@, wanted)
                        == Some(all[k as int]),
                    None => first_transaction(all.take(i as int), txid@, wanted) is None,
                },
            decreases self.transactions.len() - i,
        {
            proof {
                lemma_take_next(all, i as int);
            }
            if found.is_none() {
                let tx = &self.transactions[i];
                let in_block = match block {
                    Some(_) => same_text(&tx.block_hash, block),
                    None => true,
                };
                if tx.txid == *txid && in_block {
                    found = Some(i);
                }
            }
            i = i + 1;
        }
        assert(all.take(i as int) =~= all);
        found
    }

    fn find_header(&self, hash: &String) -> (r: Option<u64>)
        ensures
            match r {
                Some(height) => first_header(self@.headers, hash@) matches Some(h) && h.height
                    == height,
                None => first_header(self@.headers, hash@) is None,
            },
    {
        let ghost all = self@.headers;
        let mut found: Option<u64> = None;
        let mut i: usize = 0;
        while i < self.headers.len()
            invariant
                i <= self.headers.len(),
                all == self@.headers,
                match found {
                    Some(height) => first_header(all.take(i as int), hash@) matches Some(h)
                        && h.height == height,
                    None => first_header(all.take(i as int), hash@) is None,
                },
            decreases self.headers.len() - i,
        {
            proof {
                lemma_take_next(all, i as int);
            }
            if found.is_none() && self.headers[i].hash == *hash {
                found = Some(self.headers[i].height);
            }
            i = i + 1;
        }
        assert(all.take(i as int) =~= all);
        found
    }

    /// Answers a lookup as a node would that holds exactly this ledger.
    pub fn answer(&self, q: &Lookup) -> (r: Reply)
        ensures
            r@ == self@.answer(q@),
    {
        match q {
            Lookup::Transaction { txid, block_hash } => match self.find_transaction(
                txid,
                block_hash,
            ) {
                Some(k) => Reply::Transaction(self.transactions[k].clone()),
                None => Reply::Failed(ResolutionError::NotFound),
            },
            Lookup::BlockHeader { hash } => match self.find_header(hash) {
                Some(height) => Reply::BlockHeader { height: Some(height) },
                None => Reply::Failed(ResolutionError::NotFound),
            },
        }
    }

    /// Resolves the transaction `txid`, confirmed in the block `block_hash`,
    /// against this ledger, with `recipient` as the known recipient address.
    ///
    /// The result is a function of the ledger and the three arguments alone.
    pub fn resolve(&self, txid: &str, block_hash: &str, recipient: &str) -> (r: Result<
        EconomicSummary,
        ResolutionError,
    >)
        ensures
            outcome_model(r) == resolution(self@.node(), txid@, block_hash@, recipient@),
            r matches Ok(s) ==> s@.consistent(),
    {
        let ghost node = self@.node();
        let ghost goal = resolution(node, txid@, block_hash@, recipient@);
        let ghost first = begin_model(txid@, block_hash@, recipient@);
        let ghost mut fuel: nat = match node(first.1) {
            ReplyModel::Transaction(tx) => lookups_needed(tx.inputs.len()),
            _ => lookups_needed(0),
        };
        proof {
            lemma_machine_resolves(node, txid@, block_hash@, recipient@, fuel);
            lemma_resolved_fee(node, txid@, block_hash@, recipient@);
        }
        let start = begin(txid, block_hash, recipient);
        let mut state = start.0;
        let mut step = Step::Ask(start.1);
        loop
            invariant
                node == self@.node(),
                goal == resolution(node, txid@, block_hash@, recipient@),
                goal matches Ok(s) ==> s.consistent(),
                run(node, state@, step@, fuel) == Some(goal),
            decreases fuel,
        {
            match step {
                Step::Ask(q) => {
                    let reply = self.answer(&q);
                    let next = advance(state, reply);
                    state = next.0;
                    step = next.1;
                    proof {
                        fuel = (fuel - 1) as nat;
                    }
                },
                Step::Done(s) => {
                    return Ok(s);
                },
                Step::Failed(e) => {
                    return Err(e);
                },
            }
        }
    }
}

/// Resolving the same transaction, block and recipient twice against a
/// ledger that has not changed gives the same outcome: the same failure, or
/// the same summary in every field and the same report in every character.
pub proof fn lemma_resolution_repeatable(
    ledger: LedgerModel,
    txid: Seq<char>,
    block: Seq<char>,
    recipient: Seq<char>,
    first: Result<SummaryModel, ResolutionError>,
    second: Result<SummaryModel, ResolutionError>,
)
    requires
        first == resolution(ledger.node(), txid, block, recipient),
        second == resolution(ledger.node(), txid, block, recipient),
    ensures
        first == second,
        first matches Ok(a) ==> second matches Ok(b) && report_text(a) == report_text(b),
{
}

} // verus!
