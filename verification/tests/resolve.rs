use tx_resolver::ledger::Ledger;
use tx_resolver::model::{
    EconomicSummary, Payment, ResolutionError, ResolvedOutput, TransactionView, TxInputRef,
};
use tx_resolver::report::format_report;
use tx_resolver::resolver::{advance, begin, Lookup, Reply, ResolverState, Step};

fn output(value: u64, address: Option<&str>) -> ResolvedOutput {
    ResolvedOutput { value, address: address.map(|a| a.to_string()) }
}

fn spend(txid: &str, vout: u32) -> Option<TxInputRef> {
    Some(TxInputRef { txid: txid.to_string(), vout })
}

fn transaction(
    txid: &str,
    block: Option<&str>,
    inputs: Vec<Option<TxInputRef>>,
    outputs: Vec<ResolvedOutput>,
) -> TransactionView {
    TransactionView {
        txid: txid.to_string(),
        block_hash: block.map(|b| b.to_string()),
        inputs,
        outputs,
    }
}

/// A reward of 50 coins to the miner in block `A`, and in block `B`, at
/// height 102, a payment of 20 coins to the trader with change to the miner.
fn payment_ledger() -> Ledger {
    let mut ledger = Ledger::new();
    ledger.add_transaction(transaction(
        "reward",
        Some("A"),
        vec![None],
        vec![output(5_000_000_000, Some("miner")), output(0, None)],
    ));
    ledger.add_transaction(transaction(
        "payment",
        Some("B"),
        vec![spend("reward", 0)],
        vec![output(2_000_000_000, Some("trader")), output(2_999_990_000, Some("miner-change"))],
    ));
    ledger.add_header("A", 1);
    ledger.add_header("B", 102);
    ledger
}

#[test]
fn payment_with_change_is_summarized() {
    let summary = payment_ledger().resolve("payment", "B", "trader").unwrap();
    assert_eq!(summary.txid, "payment");
    assert_eq!(summary.total_input_value, 5_000_000_000);
    assert_eq!(summary.total_output_value, 4_999_990_000);
    assert_eq!(summary.fee, 10_000);
    assert_eq!(summary.input_addresses, vec!["miner".to_string()]);
    assert_eq!(
        summary.recipient_output,
        Some(Payment { value: 2_000_000_000, address: "trader".to_string() })
    );
    assert_eq!(
        summary.change_output,
        Some(Payment { value: 2_999_990_000, address: "miner-change".to_string() })
    );
    assert!(!summary.ambiguous_change);
    assert_eq!(summary.block_height, 102);
    assert_eq!(summary.block_hash, "B");
}

#[test]
fn payment_with_change_is_reported() {
    let summary = payment_ledger().resolve("payment", "B", "trader").unwrap();
    let expected = "Transaction ID (txid): payment\n\
                    Miner's Input Address: miner\n\
                    Miner's Input Amount (in BTC): 50\n\
                    Trader's Output Address: trader\n\
                    Trader's Output Amount (in BTC): 20\n\
                    Miner's Change Address: miner-change\n\
                    Miner's Change Amount (in BTC): 29.9999\n\
                    Transaction Fees (in BTC): 0.0001\n\
                    Block height at which the transaction is confirmed: 102\n\
                    Block hash at which the transaction is confirmed: B\n";
    assert_eq!(format_report(&summary), expected);
}

#[test]
fn single_output_to_recipient_reports_no_change() {
    let mut ledger = Ledger::new();
    ledger.add_transaction(transaction(
        "reward",
        Some("A"),
        vec![None],
        vec![output(5_000_000_000, Some("miner"))],
    ));
    ledger.add_transaction(transaction(
        "sweep",
        Some("B"),
        vec![spend("reward", 0)],
        vec![output(4_999_000_000, Some("trader"))],
    ));
    ledger.add_header("B", 7);
    let summary = ledger.resolve("sweep", "B", "trader").unwrap();
    assert_eq!(summary.change_output, None);
    assert_eq!(
        summary.recipient_output,
        Some(Payment { value: 4_999_000_000, address: "trader".to_string() })
    );
    assert_eq!(summary.fee, 1_000_000);
    let report = format_report(&summary);
    let lines: Vec<&str> = report.lines().collect();
    assert_eq!(lines.len(), 10);
    assert_eq!(lines[5], "Miner's Change Address: None");
    assert_eq!(lines[6], "Miner's Change Amount (in BTC): 0.0");
    assert_eq!(lines[7], "Transaction Fees (in BTC): 0.01");
}

#[test]
fn report_without_recipient_omits_its_lines() {
    let summary = payment_ledger().resolve("payment", "B", "nobody").unwrap();
    assert_eq!(summary.recipient_output, None);
    assert!(summary.ambiguous_change);
    assert_eq!(
        summary.change_output,
        Some(Payment { value: 2_999_990_000, address: "miner-change".to_string() })
    );
    let report = format_report(&summary);
    let lines: Vec<&str> = report.lines().collect();
    assert_eq!(lines.len(), 8);
    assert_eq!(lines[2], "Miner's Input Amount (in BTC): 50");
    assert_eq!(lines[3], "Miner's Change Address: miner-change");
    assert!(!report.contains("Trader's"));
}

#[test]
fn report_without_change_has_the_two_fixed_lines() {
    let summary = EconomicSummary {
        txid: "t".to_string(),
        total_input_value: 0,
        total_output_value: 0,
        fee: 0,
        input_addresses: vec![],
        recipient_output: None,
        change_output: None,
        ambiguous_change: false,
        block_height: 0,
        block_hash: "h".to_string(),
    };
    let expected = "Transaction ID (txid): t\n\
                    Miner's Input Address: \n\
                    Miner's Input Amount (in BTC): 0\n\
                    Miner's Change Address: None\n\
                    Miner's Change Amount (in BTC): 0.0\n\
                    Transaction Fees (in BTC): 0\n\
                    Block height at which the transaction is confirmed: 0\n\
                    Block hash at which the transaction is confirmed: h\n";
    assert_eq!(format_report(&summary), expected);
}

#[test]
fn resolving_twice_gives_the_same_summary_and_report() {
    let ledger = payment_ledger();
    let first = ledger.resolve("payment", "B", "trader").unwrap();
    let second = ledger.resolve("payment", "B", "trader").unwrap();
    assert_eq!(first, second);
    assert_eq!(format_report(&first).into_bytes(), format_report(&second).into_bytes());
    assert_eq!(ledger.resolve("absent", "B", "trader"), ledger.resolve("absent", "B", "trader"));
}

fn two_input_ledger(first_owner: &str, second_owner: &str) -> Ledger {
    let mut ledger = Ledger::new();
    ledger.add_transaction(transaction(
        "a",
        Some("A"),
        vec![None],
        vec![output(300, Some(first_owner)), output(50, Some("other"))],
    ));
    ledger.add_transaction(transaction(
        "b",
        Some("A"),
        vec![None],
        vec![output(700, Some(second_owner))],
    ));
    ledger.add_transaction(transaction(
        "spend",
        Some("C"),
        vec![spend("a", 0), spend("b", 0)],
        vec![output(900, Some("trader"))],
    ));
    ledger.add_header("C", 3);
    ledger
}

#[test]
fn inputs_of_one_owner_list_the_owner_once() {
    let summary = two_input_ledger("miner", "miner").resolve("spend", "C", "trader").unwrap();
    assert_eq!(summary.input_addresses, vec!["miner".to_string()]);
    assert_eq!(summary.total_input_value, 1000);
    assert_eq!(summary.fee, 100);
    let report = format_report(&summary);
    assert_eq!(report.lines().nth(1), Some("Miner's Input Address: miner"));
}

#[test]
fn inputs_of_two_owners_are_joined_in_input_order() {
    let summary = two_input_ledger("zed", "abe").resolve("spend", "C", "trader").unwrap();
    assert_eq!(summary.input_addresses, vec!["zed".to_string(), "abe".to_string()]);
    let report = format_report(&summary);
    assert_eq!(report.lines().nth(1), Some("Miner's Input Address: zed, abe"));
}

#[test]
fn input_without_owner_counts_but_is_not_listed() {
    let mut ledger = Ledger::new();
    ledger.add_transaction(transaction("a", None, vec![], vec![output(40, None)]));
    ledger.add_transaction(transaction(
        "spend",
        Some("C"),
        vec![spend("a", 0)],
        vec![output(30, None)],
    ));
    ledger.add_header("C", 3);
    let summary = ledger.resolve("spend", "C", "trader").unwrap();
    assert_eq!(summary.total_input_value, 40);
    assert_eq!(summary.total_output_value, 30);
    assert!(summary.input_addresses.is_empty());
    assert_eq!(summary.recipient_output, None);
    assert_eq!(summary.change_output, None);
    assert!(!summary.ambiguous_change);
}

#[test]
fn reward_inputs_add_no_value_and_no_address() {
    let mut ledger = two_input_ledger("miner", "miner");
    ledger.add_transaction(transaction(
        "mixed",
        Some("C"),
        vec![None, spend("a", 0), None, spend("b", 0), None],
        vec![output(900, Some("trader"))],
    ));
    let with_rewards = ledger.resolve("mixed", "C", "trader").unwrap();
    let without = ledger.resolve("spend", "C", "trader").unwrap();
    assert_eq!(with_rewards.total_input_value, without.total_input_value);
    assert_eq!(with_rewards.input_addresses, without.input_addresses);
    assert_eq!(with_rewards.fee, 100);
}

#[test]
fn reward_transaction_alone_spends_nothing() {
    let mut ledger = Ledger::new();
    ledger.add_transaction(transaction("reward", Some("A"), vec![None], vec![]));
    ledger.add_header("A", 1);
    let summary = ledger.resolve("reward", "A", "trader").unwrap();
    assert_eq!(summary.total_input_value, 0);
    assert_eq!(summary.fee, 0);
    assert!(summary.input_addresses.is_empty());
}

#[test]
fn outputs_above_inputs_are_an_invariant_violation() {
    let mut ledger = Ledger::new();
    ledger.add_transaction(transaction(
        "reward",
        Some("A"),
        vec![None],
        vec![output(10, Some("miner"))],
    ));
    ledger.add_header("A", 1);
    assert_eq!(
        ledger.resolve("reward", "A", "miner"),
        Err(ResolutionError::InvariantViolation)
    );
}

#[test]
fn totals_beyond_an_amount_are_an_invariant_violation() {
    let mut ledger = Ledger::new();
    ledger.add_transaction(transaction(
        "a",
        None,
        vec![],
        vec![output(u64::MAX, Some("x")), output(1, Some("x"))],
    ));
    ledger.add_transaction(transaction(
        "spend",
        Some("C"),
        vec![spend("a", 0), spend("a", 1)],
        vec![output(5, Some("y"))],
    ));
    ledger.add_transaction(transaction(
        "fits",
        Some("C"),
        vec![spend("a", 0)],
        vec![output(u64::MAX - 1, Some("y"))],
    ));
    ledger.add_header("C", 3);
    assert_eq!(ledger.resolve("spend", "C", "y"), Err(ResolutionError::InvariantViolation));
    let summary = ledger.resolve("fits", "C", "y").unwrap();
    assert_eq!(summary.total_input_value, u64::MAX);
    assert_eq!(summary.fee, 1);
}

#[test]
fn missing_pieces_are_not_found() {
    let ledger = payment_ledger();
    assert_eq!(ledger.resolve("absent", "B", "trader"), Err(ResolutionError::NotFound));
    // Known transaction, but not confirmed in the block asked for.
    assert_eq!(ledger.resolve("payment", "A", "trader"), Err(ResolutionError::NotFound));

    let mut no_header = Ledger::new();
    no_header.add_transaction(transaction("t", Some("B"), vec![], vec![]));
    assert_eq!(no_header.resolve("t", "B", "trader"), Err(ResolutionError::NotFound));

    let mut no_source = Ledger::new();
    no_source.add_transaction(transaction("t", Some("B"), vec![spend("gone", 0)], vec![]));
    no_source.add_header("B", 2);
    assert_eq!(no_source.resolve("t", "B", "trader"), Err(ResolutionError::NotFound));
}

#[test]
fn output_position_out_of_range_is_not_found() {
    let mut ledger = payment_ledger();
    ledger.add_transaction(transaction(
        "bad",
        Some("B"),
        vec![spend("reward", 2)],
        vec![output(1, Some("trader"))],
    ));
    assert_eq!(ledger.resolve("bad", "B", "trader"), Err(ResolutionError::NotFound));
    ledger.add_transaction(transaction(
        "edge",
        Some("B"),
        vec![spend("reward", 1)],
        vec![],
    ));
    assert_eq!(ledger.resolve("edge", "B", "trader").unwrap().total_input_value, 0);
}

#[test]
fn first_failing_input_decides() {
    let mut ledger = payment_ledger();
    ledger.add_transaction(transaction(
        "t",
        Some("B"),
        vec![spend("reward", 0), spend("reward", 9), spend("gone", 0)],
        vec![output(u64::MAX, None), output(u64::MAX, None)],
    ));
    assert_eq!(ledger.resolve("t", "B", "trader"), Err(ResolutionError::NotFound));
}

#[test]
fn first_recipient_output_and_last_change_output_are_designated() {
    let mut ledger = Ledger::new();
    ledger.add_transaction(transaction("a", None, vec![], vec![output(100, Some("miner"))]));
    ledger.add_transaction(transaction(
        "t",
        Some("B"),
        vec![spend("a", 0)],
        vec![
            output(1, Some("c1")),
            output(10, Some("trader")),
            output(2, None),
            output(20, Some("trader")),
            output(3, Some("c2")),
            output(4, None),
        ],
    ));
    ledger.add_header("B", 9);
    let summary = ledger.resolve("t", "B", "trader").unwrap();
    assert_eq!(summary.total_output_value, 40);
    assert_eq!(summary.fee, 60);
    assert_eq!(
        summary.recipient_output,
        Some(Payment { value: 10, address: "trader".to_string() })
    );
    assert_eq!(summary.change_output, Some(Payment { value: 3, address: "c2".to_string() }));
    assert!(summary.ambiguous_change);
}

#[test]
fn earliest_matching_entry_of_the_ledger_answers() {
    let mut ledger = Ledger::new();
    ledger.add_transaction(transaction("t", Some("X"), vec![], vec![output(1, None)]));
    ledger.add_transaction(transaction("t", Some("B"), vec![], vec![]));
    ledger.add_transaction(transaction("t", Some("B"), vec![], vec![output(2, None)]));
    ledger.add_header("B", 5);
    ledger.add_header("B", 6);
    let unscoped = ledger.answer(&Lookup::Transaction { txid: "t".to_string(), block_hash: None });
    assert_eq!(
        unscoped,
        Reply::Transaction(transaction("t", Some("X"), vec![], vec![output(1, None)]))
    );
    let scoped = ledger.answer(&Lookup::Transaction {
        txid: "t".to_string(),
        block_hash: Some("B".to_string()),
    });
    assert_eq!(scoped, Reply::Transaction(transaction("t", Some("B"), vec![], vec![])));
    assert_eq!(
        ledger.answer(&Lookup::BlockHeader { hash: "B".to_string() }),
        Reply::BlockHeader { height: Some(5) }
    );
    assert_eq!(
        ledger.answer(&Lookup::BlockHeader { hash: "Z".to_string() }),
        Reply::Failed(ResolutionError::NotFound)
    );
}

#[test]
fn machine_asks_for_transaction_header_and_each_spent_output() {
    let (state, first) = begin("payment", "B", "trader");
    assert_eq!(
        first,
        Lookup::Transaction { txid: "payment".to_string(), block_hash: Some("B".to_string()) }
    );
    assert_eq!(
        state,
        ResolverState::AwaitingTransaction {
            block: "B".to_string(),
            recipient: "trader".to_string()
        }
    );

    let target = transaction(
        "payment",
        Some("B"),
        vec![None, spend("reward", 0), None, spend("other", 1)],
        vec![output(2_000_000_000, Some("trader")), output(2_999_990_000, Some("change"))],
    );
    let (state, step) = advance(state, Reply::Transaction(target));
    assert_eq!(step, Step::Ask(Lookup::BlockHeader { hash: "B".to_string() }));

    let (state, step) = advance(state, Reply::BlockHeader { height: Some(102) });
    assert_eq!(
        step,
        Step::Ask(Lookup::Transaction { txid: "reward".to_string(), block_hash: None })
    );

    let reward = transaction("reward", Some("A"), vec![None], vec![output(4_000_000_000, None)]);
    let (state, step) = advance(state, Reply::Transaction(reward));
    assert_eq!(
        step,
        Step::Ask(Lookup::Transaction { txid: "other".to_string(), block_hash: None })
    );

    let other = transaction(
        "other",
        None,
        vec![],
        vec![output(7, Some("x")), output(1_000_000_000, Some("miner"))],
    );
    let (state, step) = advance(state, Reply::Transaction(other));
    assert_eq!(state, ResolverState::Closed);
    match step {
        Step::Done(summary) => {
            assert_eq!(summary.total_input_value, 5_000_000_000);
            assert_eq!(summary.total_output_value, 4_999_990_000);
            assert_eq!(summary.fee, 10_000);
            assert_eq!(summary.input_addresses, vec!["miner".to_string()]);
            assert_eq!(summary.block_height, 102);
            assert_eq!(summary.block_hash, "B");
        }
        other => panic!("expected a summary, got {:?}", other),
    }
}

#[test]
fn failed_lookup_ends_the_resolution_with_its_failure() {
    let (state, _) = begin("t", "B", "r");
    let (state, step) = advance(state, Reply::Failed(ResolutionError::Transport));
    assert_eq!(step, Step::Failed(ResolutionError::Transport));
    assert_eq!(state, ResolverState::Closed);

    let (state, _) = begin("t", "B", "r");
    let (state, _) = advance(state, Reply::Transaction(transaction("t", Some("B"), vec![], vec![])));
    let (_, step) = advance(state, Reply::Failed(ResolutionError::NotFound));
    assert_eq!(step, Step::Failed(ResolutionError::NotFound));

    let (state, _) = begin("t", "B", "r");
    let target = transaction("t", Some("B"), vec![spend("p", 0)], vec![]);
    let (state, _) = advance(state, Reply::Transaction(target));
    let (state, _) = advance(state, Reply::BlockHeader { height: Some(1) });
    let (_, step) = advance(state, Reply::Failed(ResolutionError::Transport));
    assert_eq!(step, Step::Failed(ResolutionError::Transport));
}

#[test]
fn unconfirmed_transaction_and_missing_height_are_invariant_violations() {
    let violation = Step::Failed(ResolutionError::InvariantViolation);

    let (state, _) = begin("t", "B", "r");
    let (state, step) = advance(state, Reply::Transaction(transaction("t", None, vec![], vec![])));
    assert_eq!(step, violation);
    assert_eq!(state, ResolverState::Closed);

    let (state, _) = begin("t", "B", "r");
    let (state, _) = advance(state, Reply::Transaction(transaction("t", Some("B"), vec![], vec![])));
    let (_, step) = advance(state, Reply::BlockHeader { height: None });
    assert_eq!(step, violation);
}

#[test]
fn transaction_confirmed_in_another_block_is_an_invariant_violation() {
    let (state, _) = begin("t", "B", "r");
    let elsewhere = transaction("t", Some("C"), vec![], vec![]);
    let (state, step) = advance(state, Reply::Transaction(elsewhere));
    assert_eq!(step, Step::Failed(ResolutionError::InvariantViolation));
    assert_eq!(state, ResolverState::Closed);

    let (state, _) = begin("t", "B", "r");
    let here = transaction("t", Some("B"), vec![], vec![]);
    let (_, step) = advance(state, Reply::Transaction(here));
    assert_eq!(step, Step::Ask(Lookup::BlockHeader { hash: "B".to_string() }));
}

#[test]
fn answer_of_the_wrong_kind_is_an_invariant_violation() {
    let violation = Step::Failed(ResolutionError::InvariantViolation);

    let (state, _) = begin("t", "B", "r");
    let (_, step) = advance(state, Reply::BlockHeader { height: Some(1) });
    assert_eq!(step, violation);

    let (state, _) = begin("t", "B", "r");
    let (state, _) = advance(state, Reply::Transaction(transaction("t", Some("B"), vec![], vec![])));
    let (_, step) = advance(state, Reply::Transaction(transaction("u", None, vec![], vec![])));
    assert_eq!(step, violation);

    let (state, _) = begin("t", "B", "r");
    let target = transaction("t", Some("B"), vec![spend("p", 0)], vec![]);
    let (state, _) = advance(state, Reply::Transaction(target));
    let (state, _) = advance(state, Reply::BlockHeader { height: Some(1) });
    let (state, step) = advance(state, Reply::BlockHeader { height: Some(1) });
    assert_eq!(step, violation);

    let (state, step) = advance(state, Reply::BlockHeader { height: Some(1) });
    assert_eq!(step, violation);
    assert_eq!(state, ResolverState::Closed);
}

#[test]
fn state_that_no_step_leads_to_is_an_invariant_violation() {
    let target = transaction("t", Some("B"), vec![None], vec![]);
    let state = ResolverState::AwaitingSource {
        tx: target,
        height: 1,
        recipient: "r".to_string(),
        sources: vec![],
    };
    let reply = Reply::Transaction(transaction("p", None, vec![], vec![output(1, None)]));
    let (_, step) = advance(state, reply);
    assert_eq!(step, Step::Failed(ResolutionError::InvariantViolation));
}

#[test]
fn transaction_without_inputs_and_outputs_is_summarized_after_the_header() {
    let (state, _) = begin("t", "B", "r");
    let (state, _) = advance(state, Reply::Transaction(transaction("t", Some("B"), vec![], vec![])));
    let (_, step) = advance(state, Reply::BlockHeader { height: Some(0) });
    match step {
        Step::Done(summary) => {
            assert_eq!(summary.fee, 0);
            assert_eq!(summary.block_height, 0);
            assert_eq!(summary.txid, "t");
        }
        other => panic!("expected a summary, got {:?}", other),
    }
}
