//! The error kinds of the pipeline.

use crate::digits::{decimal_string, decimal_text};
use vstd::prelude::*;
use vstd::string::*;

verus! {

/// Why a log record could not be decoded.
#[derive(Debug, Clone, Copy, PartialEq, Eq)]
pub enum DecodeFault {
    /// The payload holds fewer than the 64 bytes of the two amounts.
    ShortData,
    /// Fewer than three topics: signature, sender, recipient.
    MissingTopics,
}

/// Everything that can go wrong between a header notification and an emitted swap.
#[derive(Debug, PartialEq, Eq)]
pub enum UniswapError {
    /// A query to the node failed; aborts the current cycle.
    Web3Error(String),
    /// The startup configuration is malformed.
    ParseError(String),
    /// The newest blocks do not link to the window; holds the reported depth.
    ReorgError(usize),
    /// A requested block is absent.
    BlockError(String),
    /// A log record is malformed; it is skipped.
    DecodeError(DecodeFault),
}

/// What is wrong with the record, in words.
pub open spec fn fault_text(fault: DecodeFault) -> Seq<char> {
    match fault {
        DecodeFault::ShortData => "log data is shorter than 64 bytes"@,
        DecodeFault::MissingTopics => "log has fewer than 3 topics"@,
    }
}

/// The error as one line of text: the kind, a colon, and the detail.
pub open spec fn message_text(error: UniswapError) -> Seq<char> {
    match error {
        UniswapError::Web3Error(detail) => "Web3Error: "@ + detail@,
        UniswapError::ParseError(detail) => "ParseError: "@ + detail@,
        UniswapError::ReorgError(depth) => "ReorgError: "@ + decimal_text(depth as nat),
        UniswapError::BlockError(detail) => "BlockError: "@ + detail@,
        UniswapError::DecodeError(fault) => "DecodeError: "@ + fault_text(fault),
    }
}

impl DecodeFault {
    /// What is wrong with the record, in words.
    pub fn describe(&self) -> (text: &'static str)
        ensures
            text@ == fault_text(*self),
    {
        match self {
            DecodeFault::ShortData => "log data is shorter than 64 bytes",
            DecodeFault::MissingTopics => "log has fewer than 3 topics",
        }
    }
}

impl UniswapError {
    /// The error as one line of text.
    pub fn message(&self) -> (text: String)
        ensures
            text@ == message_text(*self),
    {
        match self {
            UniswapError::Web3Error(detail) => {
                let mut text = String::from_str("Web3Error: ");
                text.append(detail.as_str());
                text
            },
            UniswapError::ParseError(detail) => {
                let mut text = String::from_str("ParseError: ");
                text.append(detail.as_str());
                text
            },
            UniswapError::ReorgError(depth) => {
                let mut text = String::from_str("ReorgError: ");
                let digits = decimal_string(*depth);
                text.append(digits.as_str());
                text
            },
            UniswapError::BlockError(detail) => {
                let mut text = String::from_str("BlockError: ");
                text.append(detail.as_str());
                text
            },
            UniswapError::DecodeError(fault) => {
                let mut text = String::from_str("DecodeError: ");
                text.append(fault.describe());
                text
            },
        }
    }
}

} // verus!
