//! The report of a summary: one field per line, in a fixed order.

use vstd::prelude::*;
use vstd::string::*;
use crate::model::{EconomicSummary, SummaryModel};
use crate::text::{coin_decimal, coin_string, decimal, decimal_string, join, joined};

verus! {

/// One line of the report: a label, a value, and the end of the line.
pub open spec fn line(label: Seq<char>, value: Seq<char>) -> Seq<char> {
    label + value + seq!['\n']
}

/// The first lines: the transaction, the addresses that paid, and what they
/// paid.
pub open spec fn report_head(s: SummaryModel) -> Seq<char> {
    line("Transaction ID (txid): "@, s.txid) + line(
        "Miner's Input Address: "@,
        joined(s.input_addresses, ", "@),
    ) + line("Miner's Input Amount (in BTC): "@, coin_decimal(s.total_input))
}

/// The lines for the recipient's output; none where the transaction has no
/// such output.
pub open spec fn recipient_lines(s: SummaryModel) -> Seq<char> {
    match s.recipient {
        Some(p) => line("Trader's Output Address: "@, p.address) + line(
            "Trader's Output Amount (in BTC): "@,
            coin_decimal(p.value),
        ),
        None => Seq::empty(),
    }
}

/// The lines for the change output; where the transaction has none, the
/// address reads `None` and the amount `0.0`.
pub open spec fn change_lines(s: SummaryModel) -> Seq<char> {
    match s.change {
        Some(p) => line("Miner's Change Address: "@, p.address) + line(
            "Miner's Change Amount (in BTC): "@,
            coin_decimal(p.value),
        ),
        None => line("Miner's Change Address: "@, "None"@) + line(
            "Miner's Change Amount (in BTC): "@,
            "0.0"@,
        ),
    }
}

/// The last lines: the fee and the confirming block.
pub open spec fn report_tail(s: SummaryModel) -> Seq<char> {
    line("Transaction Fees (in BTC): "@, coin_decimal(s.fee)) + line(
        "Block height at which the transaction is confirmed: "@,
        decimal(s.block_height),
    ) + line("Block hash at which the transaction is confirmed: "@, s.block_hash)
}

/// The whole report.
pub open spec fn report_text(s: SummaryModel) -> Seq<char> {
    report_head(s) + recipient_lines(s) + change_lines(s) + report_tail(s)
}

fn push_line(out: &mut String, label: &str, value: &str)
    ensures
        final(out)@ == old(out)@ + line(label@, value@),
{
    proof {
        reveal_strlit("\n");
    }
    out.append(label);
    out.append(value);
    out.append("\n");
    assert("\n"@ =~= seq!['\n']);
    assert(out@ =~= old(out)@ + line(label@, value@));
}

/// Writes the report of `summary`.
pub fn format_report(summary: &EconomicSummary) -> (r: String)
    ensures
        r@ == report_text(summary@),
{
    let ghost s = summary@;
    let mut out = String::new();
    push_line(&mut out, "Transaction ID (txid): ", summary.txid.as_str());
    push_line(&mut out, "Miner's Input Address: ", join(&summary.input_addresses, ", ").as_str());
    push_line(
        &mut out,
        "Miner's Input Amount (in BTC): ",
        coin_string(summary.total_input_value).as_str(),
    );
    assert(out@ =~= report_head(s));
    match &summary.recipient_output {
        Some(p) => {
            push_line(&mut out, "Trader's Output Address: ", p.address.as_str());
            push_line(&mut out, "Trader's Output Amount (in BTC): ", coin_string(p.value).as_str());
        },
        None => {},
    }
    assert(out@ =~= report_head(s) + recipient_lines(s));
    match &summary.change_output {
        Some(p) => {
            push_line(&mut out, "Miner's Change Address: ", p.address.as_str());
            push_line(&mut out, "Miner's Change Amount (in BTC): ", coin_string(p.value).as_str());
        },
        None => {
            push_line(&mut out, "Miner's Change Address: ", "None");
            push_line(&mut out, "Miner's Change Amount (in BTC): ", "0.0");
        },
    }
    assert(out@ =~= report_head(s) + recipient_lines(s) + change_lines(s));
    push_line(&mut out, "Transaction Fees (in BTC): ", coin_string(summary.fee).as_str());
    push_line(
        &mut out,
        "Block height at which the transaction is confirmed: ",
        decimal_string(summary.block_height).as_str(),
    );
    push_line(
        &mut out,
        "Block hash at which the transaction is confirmed: ",
        summary.block_hash.as_str(),
    );
    assert(out@ =~= report_text(s));
    out
}

/// Where a summary has no change output, its report holds, between the
/// recipient's lines and the fee line, exactly the two lines
/// `Miner's Change Address: None` and `Miner's Change Amount (in BTC): 0.0`.
pub proof fn lemma_report_without_change(s: SummaryModel)
    requires
        s.change is None,
    ensures
        change_lines(s) == "Miner's Change Address: None\nMiner's Change Amount (in BTC): 0.0\n"@,
        report_text(s) == report_head(s) + recipient_lines(s)
            + "Miner's Change Address: None\nMiner's Change Amount (in BTC): 0.0\n"@ + report_tail(
            s,
        ),
{
    reveal_strlit("Miner's Change Address: None\nMiner's Change Amount (in BTC): 0.0\n");
    reveal_strlit("Miner's Change Address: ");
    reveal_strlit("None");
    reveal_strlit("Miner's Change Amount (in BTC): ");
    reveal_strlit("0.0");
    assert(change_lines(s)
        =~= "Miner's Change Address: None\nMiner's Change Amount (in BTC): 0.0\n"@);
}

} // verus!
