//! What to ask the node about a confirmed block, and what to write about
//! each log that comes back.

use crate::block::BlockSummary;
use crate::errors::UniswapError;
use crate::swap_event::{
    decode_outcome, direction_name, LogRecord, SwapDetails, SwapDetailsView,
};
use vstd::prelude::*;
use vstd::string::*;

verus! {

/// The logs to ask for: those of one block, one contract and one event.
#[derive(Debug, Clone, Copy, PartialEq, Eq)]
pub struct LogQuery {
    pub block_hash: [u8; 32],
    pub contract_address: [u8; 20],
    pub event_signature: [u8; 32],
}

/// What came of one log: the lines for the output, and the error to be
/// logged where the log was skipped.
#[derive(Debug)]
pub struct LogReport {
    pub lines: Vec<String>,
    pub failure: Option<UniswapError>,
}

/// The line that opens and closes a report.
pub open spec fn rule_line() -> Seq<char> {
    "-----------------------------"@
}

/// The lines written for a decoded swap: a heading, its five fields and a
/// closing rule.
pub open spec fn swap_lines(swap: SwapDetailsView) -> Seq<Seq<char>> {
    seq![
        "Swap Event Details:"@,
        "  Direction       : "@ + direction_name(swap.direction),
        "  DAI Amount      : "@ + swap.dai_amount,
        "  USDC Amount     : "@ + swap.usdc_amount,
        "  Sender          : "@ + swap.sender,
        "  Recipient       : "@ + swap.recipient,
        rule_line(),
    ]
}

/// The lines written for a log: an opening rule, and under it the swap where
/// the log decoded.
pub open spec fn report_lines(outcome: Result<SwapDetailsView, UniswapError>) -> Seq<Seq<char>> {
    match outcome {
        Ok(swap) => seq![rule_line()] + swap_lines(swap),
        Err(_) => seq![rule_line()],
    }
}

/// The error to be logged for a log, if it was skipped.
pub open spec fn report_failure(outcome: Result<SwapDetailsView, UniswapError>) -> Option<
    UniswapError,
> {
    match outcome {
        Ok(_) => None,
        Err(e) => Some(e),
    }
}

/// Whether `report` is what is written about `log`.
pub open spec fn is_report_of(report: LogReport, log: LogRecord) -> bool {
    &&& report.lines.deep_view() == report_lines(decode_outcome(log.data@, log.topics@))
    &&& report.failure == report_failure(decode_outcome(log.data@, log.topics@))
}

fn labelled(label: &str, value: &str) -> (line: String)
    ensures
        line@ == label@ + value@,
{
    let mut line = String::from_str(label);
    line.append(value);
    line
}

impl SwapDetails {
    /// Writes the swap up, one line for the heading and one for each field.
    pub fn report(&self) -> (lines: Vec<String>)
        ensures
            lines.deep_view() == swap_lines(self@),
    {
        let mut lines: Vec<String> = Vec::new();
        lines.push(String::from_str("Swap Event Details:"));
        lines.push(labelled("  Direction       : ", self.direction.name()));
        lines.push(labelled("  DAI Amount      : ", self.dai_amount.as_str()));
        lines.push(labelled("  USDC Amount     : ", self.usdc_amount.as_str()));
        lines.push(labelled("  Sender          : ", self.sender.as_str()));
        lines.push(labelled("  Recipient       : ", self.recipient.as_str()));
        lines.push(String::from_str("-----------------------------"));
        assert(lines.deep_view() =~= swap_lines(self@));
        lines
    }
}

/// Turns confirmed blocks into log queries and logs into reports, for one
/// contract and one event.
#[derive(Debug, Clone, Copy, PartialEq, Eq)]
pub struct SwapProcessor {
    contract_address: [u8; 20],
    swap_event_signature: [u8; 32],
}

impl SwapProcessor {
    /// The contract whose logs are asked for.
    pub closed spec fn contract(&self) -> [u8; 20] {
        self.contract_address
    }

    /// The signature of the event that is asked for.
    pub closed spec fn event(&self) -> [u8; 32] {
        self.swap_event_signature
    }

    /// The query for the swap logs of `block`, which a block without a hash
    /// does not have.
    pub open spec fn query_for(&self, block: BlockSummary) -> Option<LogQuery> {
        match block.hash {
            Some(hash) => Some(
                LogQuery {
                    block_hash: hash,
                    contract_address: self.contract(),
                    event_signature: self.event(),
                },
            ),
            None => None,
        }
    }

    /// A processor for the given contract and event signature.
    pub fn new(contract_address: [u8; 20], swap_event_signature: [u8; 32]) -> (made: Result<
        Self,
        UniswapError,
    >)
        ensures
            made matches Ok(processor) && processor.contract() == contract_address
                && processor.event() == swap_event_signature,
    {
        Ok(Self { contract_address, swap_event_signature })
    }

    /// The query for the swap logs of a confirmed block. A block without a
    /// hash cannot be asked about.
    pub fn process_block(&self, block: &BlockSummary) -> (query: Option<LogQuery>)
        ensures
            query == self.query_for(*block),
    {
        match block.hash {
            Some(hash) => Some(
                LogQuery {
                    block_hash: hash,
                    contract_address: self.contract_address,
                    event_signature: self.swap_event_signature,
                },
            ),
            None => None,
        }
    }

    /// Decodes one log and writes it up. A log that does not decode is
    /// reported with its error and does not stop the others.
    pub fn process_swap_log(&self, log: &LogRecord) -> (report: LogReport)
        ensures
            is_report_of(report, *log),
    {
        match SwapDetails::from_log(log) {
            Ok(swap) => {
                let mut lines = swap.report();
                lines.insert(0, String::from_str("-----------------------------"));
                assert(lines.deep_view() =~= report_lines(
                    Ok::<SwapDetailsView, UniswapError>(swap@),
                ));
                LogReport { lines, failure: None }
            },
            Err(e) => {
                let mut lines: Vec<String> = Vec::new();
                lines.push(String::from_str("-----------------------------"));
                assert(lines.deep_view() =~= report_lines(Err::<SwapDetailsView, UniswapError>(e)));
                LogReport { lines, failure: Some(e) }
            },
        }
    }

    /// Decodes the logs of a block in their order. Every log gets its
    /// report: one that does not decode neither ends the run nor changes what
    /// is written about the others.
    pub fn process_swap_logs(&self, logs: &Vec<LogRecord>) -> (reports: Vec<LogReport>)
        ensures
            reports@.len() == logs@.len(),
            forall|i: int| 0 <= i < logs@.len() ==> is_report_of(#[trigger] reports@[i], logs@[i]),
    {
        let mut reports: Vec<LogReport> = Vec::new();
        let mut i: usize = 0;
        while i < logs.len()
            invariant
                i <= logs@.len(),
                reports@.len() == i,
                forall|j: int| 0 <= j < i ==> is_report_of(#[trigger] reports@[j], logs@[j]),
            decreases logs@.len() - i,
        {
            let report = self.process_swap_log(&logs[i]);
            reports.push(report);
            i += 1;
        }
        reports
    }
}

} // verus!
