use tx_resolver::accounting::{
    change_is_ambiguous, find_change, find_recipient, output_total, source_owners, source_total,
    sources_in_step, summarize,
};
use tx_resolver::model::{Payment, ResolutionError, ResolvedOutput, TransactionView, TxInputRef};

fn out(value: u64, address: Option<&str>) -> ResolvedOutput {
    ResolvedOutput { value, address: address.map(|a| a.to_string()) }
}

fn spend(vout: u32) -> Option<TxInputRef> {
    Some(TxInputRef { txid: "p".to_string(), vout })
}

/// A confirmed transaction with `spends` inputs that each spend an output.
fn confirmed(spends: u32, outputs: Vec<ResolvedOutput>) -> TransactionView {
    TransactionView {
        txid: "t".to_string(),
        block_hash: Some("B".to_string()),
        inputs: (0..spends).map(spend).collect(),
        outputs,
    }
}

#[test]
fn totals_add_up_or_do_not_fit() {
    assert_eq!(output_total(&vec![]), Some(0));
    assert_eq!(output_total(&vec![out(1, None), out(2, Some("a")), out(3, None)]), Some(6));
    assert_eq!(output_total(&vec![out(u64::MAX - 1, None), out(1, None)]), Some(u64::MAX));
    assert_eq!(output_total(&vec![out(u64::MAX, None), out(1, None)]), None);
    assert_eq!(output_total(&vec![out(u64::MAX, None), out(u64::MAX, None), out(2, None)]), None);

    assert_eq!(source_total(&vec![]), Some(0));
    assert_eq!(source_total(&vec![None, Some(out(5, None)), None, Some(out(6, None))]), Some(11));
    assert_eq!(source_total(&vec![Some(out(u64::MAX, None)), None, Some(out(1, None))]), None);
}

#[test]
fn owners_are_listed_once_in_order_of_first_appearance() {
    let sources = vec![
        Some(out(1, Some("b"))),
        None,
        Some(out(1, None)),
        Some(out(1, Some("a"))),
        Some(out(1, Some("b"))),
        Some(out(1, Some("c"))),
        Some(out(1, Some("a"))),
    ];
    assert_eq!(source_owners(&sources), vec!["b".to_string(), "a".to_string(), "c".to_string()]);
    assert!(source_owners(&vec![None, None]).is_empty());
}

#[test]
fn designated_outputs_follow_the_recipient() {
    let outputs = vec![
        out(1, Some("x")),
        out(2, Some("r")),
        out(3, Some("r")),
        out(4, None),
        out(5, Some("y")),
    ];
    let r = "r".to_string();
    assert_eq!(find_recipient(&outputs, &r), Some(Payment { value: 2, address: r.clone() }));
    assert_eq!(find_change(&outputs, &r), Some(Payment { value: 5, address: "y".to_string() }));
    assert!(change_is_ambiguous(&outputs, &r));

    let y = "y".to_string();
    assert_eq!(find_recipient(&outputs, &y), Some(Payment { value: 5, address: y.clone() }));
    assert_eq!(find_change(&outputs, &y), Some(Payment { value: 3, address: r.clone() }));

    let one = vec![out(4, None), out(1, Some("x")), out(2, Some("r"))];
    assert!(!change_is_ambiguous(&one, &r));
    assert!(!change_is_ambiguous(&vec![], &r));
    assert_eq!(find_recipient(&vec![out(4, None)], &r), None);
    assert_eq!(find_change(&vec![out(4, None), out(2, Some("r"))], &r), None);
}

#[test]
fn summary_holds_totals_fee_and_block() {
    let tx = confirmed(1, vec![out(2_000_000_000, Some("trader")), out(2_999_990_000, Some("c"))]);
    let sources = vec![Some(out(5_000_000_000, Some("miner")))];
    let summary = summarize(&tx, 102, &sources, "trader").unwrap();
    assert_eq!(summary.total_input_value, 5_000_000_000);
    assert_eq!(summary.total_output_value, 4_999_990_000);
    assert_eq!(summary.fee, 10_000);
    assert_eq!(summary.block_height, 102);
    assert_eq!(summary.block_hash, "B");
    assert_eq!(summary.txid, "t");
    assert_eq!(summary.input_addresses, vec!["miner".to_string()]);
}

#[test]
fn summary_fails_only_as_an_invariant_violation() {
    let violation = Err(ResolutionError::InvariantViolation);
    let spent = vec![Some(out(10, None))];

    assert_eq!(summarize(&confirmed(1, vec![out(11, None)]), 1, &spent, "r"), violation);
    assert_eq!(summarize(&confirmed(1, vec![out(10, None)]), 1, &spent, "r").unwrap().fee, 0);

    let mut unconfirmed = confirmed(1, vec![]);
    unconfirmed.block_hash = None;
    assert_eq!(summarize(&unconfirmed, 1, &spent, "r"), violation);

    let too_much = vec![Some(out(u64::MAX, None)), Some(out(1, None))];
    assert_eq!(summarize(&confirmed(2, vec![]), 1, &too_much, "r"), violation);
    let just_fits = vec![Some(out(u64::MAX - 1, None)), Some(out(1, None))];
    assert_eq!(
        summarize(&confirmed(2, vec![]), 1, &just_fits, "r").unwrap().total_input_value,
        u64::MAX
    );

    let big = confirmed(2, vec![out(u64::MAX, None), out(1, None)]);
    assert_eq!(summarize(&big, 1, &just_fits, "r"), violation);
}

#[test]
fn sources_stand_one_for_one_beside_the_inputs() {
    let inputs = vec![None, spend(0), None, spend(1)];
    let matching = vec![None, Some(out(1, None)), None, Some(out(2, Some("a")))];
    assert!(sources_in_step(&inputs, &matching));
    assert!(sources_in_step(&vec![], &vec![]));

    let short = vec![None, Some(out(1, None)), None];
    let long = vec![None, Some(out(1, None)), None, Some(out(2, None)), None];
    let spent_for_unspent = vec![Some(out(0, None)), Some(out(1, None)), None, Some(out(2, None))];
    let unspent_for_spent = vec![None, Some(out(1, None)), None, None];
    assert!(!sources_in_step(&inputs, &short));
    assert!(!sources_in_step(&inputs, &long));
    assert!(!sources_in_step(&inputs, &spent_for_unspent));
    assert!(!sources_in_step(&inputs, &unspent_for_spent));
    assert!(!sources_in_step(&vec![], &vec![None]));
}

#[test]
fn summary_of_sources_out_of_step_is_an_invariant_violation() {
    let violation = Err(ResolutionError::InvariantViolation);
    let one = vec![Some(out(10, None))];
    assert_eq!(summarize(&confirmed(0, vec![]), 1, &one, "r"), violation);
    assert_eq!(summarize(&confirmed(2, vec![]), 1, &one, "r"), violation);
    assert_eq!(summarize(&confirmed(1, vec![]), 1, &vec![None], "r"), violation);
    assert_eq!(summarize(&confirmed(1, vec![]), 1, &one, "r").unwrap().fee, 10);

    let mut reward = confirmed(0, vec![]);
    reward.inputs = vec![None];
    assert_eq!(summarize(&reward, 1, &one, "r"), violation);
    assert_eq!(summarize(&reward, 1, &vec![None], "r").unwrap().total_input_value, 0);
}
