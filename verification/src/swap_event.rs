//! Decoding of swap events from raw log records.

use crate::address::{address_from_topic, address_text};
use crate::amount::{
    fixed_point_string, fixed_point_text, signed_be_is_positive, signed_be_value,
};
use crate::errors::{DecodeFault, UniswapError};
use vstd::prelude::*;
use vstd::slice::slice_subrange;

verus! {

/// Fractional digits of a DAI amount.
pub const DAI_DECIMALS: u8 = 18;

/// Fractional digits of a USDC amount.
pub const USDC_DECIMALS: u8 = 6;

/// A log entry as the node returns it: `topics[0]` is the event signature,
/// `topics[1]` the sender and `topics[2]` the recipient; `data` holds the two
/// amounts in 32 bytes each.
#[derive(Debug)]
pub struct LogRecord {
    pub data: Vec<u8>,
    pub topics: Vec<[u8; 32]>,
}

/// Which token was paid in.
#[derive(Debug, Clone, Copy, PartialEq, Eq)]
pub enum SwapDirection {
    DaiToUsdc,
    UsdcToDai,
}

/// A decoded swap.
#[derive(Debug)]
pub struct SwapDetails {
    pub dai_amount: String,
    pub usdc_amount: String,
    pub direction: SwapDirection,
    pub sender: String,
    pub recipient: String,
}

/// A swap with its texts as sequences of characters.
pub struct SwapDetailsView {
    pub dai_amount: Seq<char>,
    pub usdc_amount: Seq<char>,
    pub direction: SwapDirection,
    pub sender: Seq<char>,
    pub recipient: Seq<char>,
}

impl View for SwapDetails {
    type V = SwapDetailsView;

    open spec fn view(&self) -> SwapDetailsView {
        SwapDetailsView {
            dai_amount: self.dai_amount@,
            usdc_amount: self.usdc_amount@,
            direction: self.direction,
            sender: self.sender@,
            recipient: self.recipient@,
        }
    }
}

/// The name of a direction as it is written out.
pub open spec fn direction_name(direction: SwapDirection) -> Seq<char> {
    match direction {
        SwapDirection::DaiToUsdc => "DaiToUsdc"@,
        SwapDirection::UsdcToDai => "UsdcToDai"@,
    }
}

impl SwapDirection {
    /// The direction's name.
    pub fn name(&self) -> (text: &'static str)
        ensures
            text@ == direction_name(*self),
    {
        match self {
            SwapDirection::DaiToUsdc => "DaiToUsdc",
            SwapDirection::UsdcToDai => "UsdcToDai",
        }
    }
}

/// DAI was paid in exactly when the first amount is positive; a zero amount
/// counts as a swap from USDC.
pub open spec fn direction_of(amount0_in: int) -> SwapDirection {
    if amount0_in > 0 {
        SwapDirection::DaiToUsdc
    } else {
        SwapDirection::UsdcToDai
    }
}

/// What is wrong with a record, if anything: the payload is looked at first.
pub open spec fn decode_fault(data: Seq<u8>, topics: Seq<[u8; 32]>) -> Option<DecodeFault> {
    if data.len() < 64 {
        Some(DecodeFault::ShortData)
    } else if topics.len() < 3 {
        Some(DecodeFault::MissingTopics)
    } else {
        None
    }
}

/// The swap that a well-formed record stands for.
pub open spec fn decoded_swap(data: Seq<u8>, topics: Seq<[u8; 32]>) -> SwapDetailsView {
    let amount0_in = data.subrange(0, 32);
    let amount1_out = data.subrange(32, 64);
    SwapDetailsView {
        dai_amount: fixed_point_text(amount0_in, DAI_DECIMALS),
        usdc_amount: fixed_point_text(amount1_out, USDC_DECIMALS),
        direction: direction_of(signed_be_value(amount0_in)),
        sender: address_text(topics[1]@),
        recipient: address_text(topics[2]@),
    }
}

/// What decoding a record answers.
pub open spec fn decode_outcome(data: Seq<u8>, topics: Seq<[u8; 32]>) -> Result<
    SwapDetailsView,
    UniswapError,
> {
    match decode_fault(data, topics) {
        Some(fault) => Err(UniswapError::DecodeError(fault)),
        None => Ok(decoded_swap(data, topics)),
    }
}

/// A record is refused exactly when its data is shorter than 64 bytes or it
/// has fewer than three topics.
pub proof fn lemma_malformed_records_are_refused(data: Seq<u8>, topics: Seq<[u8; 32]>)
    ensures
        decode_outcome(data, topics) is Err <==> data.len() < 64 || topics.len() < 3,
        decode_outcome(data, topics) matches Err(e) ==> e is DecodeError,
{
}

/// The direction is `DaiToUsdc` exactly when the first amount is positive;
/// in particular a first amount of zero gives `UsdcToDai`.
pub proof fn lemma_direction_follows_first_amount(data: Seq<u8>, topics: Seq<[u8; 32]>)
    ensures
        decoded_swap(data, topics).direction == SwapDirection::DaiToUsdc <==> signed_be_value(
            data.subrange(0, 32),
        ) > 0,
        signed_be_value(data.subrange(0, 32)) == 0 ==> decoded_swap(data, topics).direction
            == SwapDirection::UsdcToDai,
{
}

/// Decoding has no hidden state: two records with the same data and the same
/// topics decode to the same outcome, character for character.
pub proof fn lemma_decoding_is_deterministic(first: LogRecord, second: LogRecord)
    requires
        first.data@ == second.data@,
        first.topics@ == second.topics@,
    ensures
        decode_outcome(first.data@, first.topics@) == decode_outcome(
            second.data@,
            second.topics@,
        ),
{
}

impl SwapDetails {
    /// Decodes a swap event. A record with fewer than 64 bytes of data or
    /// fewer than three topics is refused; every other record decodes.
    pub fn from_log(log: &LogRecord) -> (decoded: Result<Self, UniswapError>)
        ensures
            match decoded {
                Ok(swap) => decode_outcome(log.data@, log.topics@) == Ok::<
                    SwapDetailsView,
                    UniswapError,
                >(swap@),
                Err(e) => decode_outcome(log.data@, log.topics@) == Err::<
                    SwapDetailsView,
                    UniswapError,
                >(e),
            },
    {
        if log.data.len() < 64 {
            return Err(UniswapError::DecodeError(DecodeFault::ShortData));
        }
        if log.topics.len() < 3 {
            return Err(UniswapError::DecodeError(DecodeFault::MissingTopics));
        }
        let data = log.data.as_slice();
        let amount0_in = slice_subrange(data, 0, 32);
        let amount1_out = slice_subrange(data, 32, 64);

        let sender = address_from_topic(&log.topics[1]);
        let recipient = address_from_topic(&log.topics[2]);

        let direction = if signed_be_is_positive(amount0_in) {
            SwapDirection::DaiToUsdc
        } else {
            SwapDirection::UsdcToDai
        };

        let dai_amount = fixed_point_string(amount0_in, DAI_DECIMALS);
        let usdc_amount = fixed_point_string(amount1_out, USDC_DECIMALS);

        Ok(SwapDetails { dai_amount, usdc_amount, direction, sender, recipient })
    }
}

} // verus!
