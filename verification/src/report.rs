//! What the node reports of a run besides its outcome.
use crate::config::NautilusDataType;
use crate::text::{append_decimal, decimal_text};
use crate::time::UnixNanos;
use vstd::prelude::*;
use vstd::string::*;

verus! {

/// Something that is worth a line in the log and does not stop a run.
#[derive(Debug, Clone, Copy, PartialEq, Eq)]
pub enum Warning {
    /// A data config found no data.
    NoData { data_type: NautilusDataType },
    /// A merged stream handed out an item from before one that it had handed out: its time,
    /// the time of the item just ahead of it, and how far it lies before the latest.
    BackwardItem {
        label: &'static str,
        count: usize,
        time: UnixNanos,
        prior: UnixNanos,
        gap: u64,
    },
    /// As many items of a merged stream went back by now.
    BackwardItemCount { label: &'static str, count: usize },
    /// A chunk holds items from before the end of the chunk ahead of it.
    BackwardChunk { chunk_index: usize, earliest: UnixNanos, boundary: UnixNanos },
    /// A chunk ends before the end of the chunk ahead of it, and the engine starts at its
    /// earliest item instead.
    ClampedStart { chunk_index: usize, latest: UnixNanos, boundary: UnixNanos, start: UnixNanos },
}

/// The name of a kind of data.
pub open spec fn data_type_name(data_type: NautilusDataType) -> Seq<char> {
    match data_type {
        NautilusDataType::QuoteTick => "QuoteTick"@,
        NautilusDataType::TradeTick => "TradeTick"@,
        NautilusDataType::Bar => "Bar"@,
        NautilusDataType::OrderBookDelta => "OrderBookDelta"@,
        NautilusDataType::OrderBookDepth10 => "OrderBookDepth10"@,
        NautilusDataType::MarkPriceUpdate => "MarkPriceUpdate"@,
        NautilusDataType::IndexPriceUpdate => "IndexPriceUpdate"@,
        NautilusDataType::InstrumentStatus => "InstrumentStatus"@,
        NautilusDataType::InstrumentClose => "InstrumentClose"@,
        NautilusDataType::OptionGreeks => "OptionGreeks"@,
    }
}

/// Returns the name of a kind of data.
fn data_type_str(data_type: NautilusDataType) -> (r: &'static str)
    ensures
        r@ == data_type_name(data_type),
{
    match data_type {
        NautilusDataType::QuoteTick => "QuoteTick",
        NautilusDataType::TradeTick => "TradeTick",
        NautilusDataType::Bar => "Bar",
        NautilusDataType::OrderBookDelta => "OrderBookDelta",
        NautilusDataType::OrderBookDepth10 => "OrderBookDepth10",
        NautilusDataType::MarkPriceUpdate => "MarkPriceUpdate",
        NautilusDataType::IndexPriceUpdate => "IndexPriceUpdate",
        NautilusDataType::InstrumentStatus => "InstrumentStatus",
        NautilusDataType::InstrumentClose => "InstrumentClose",
        NautilusDataType::OptionGreeks => "OptionGreeks",
    }
}

impl Warning {
    /// The warning in words.
    pub open spec fn text(self) -> Seq<char> {
        match self {
            Warning::NoData { data_type } => {
                "No data found for config: "@ + data_type_name(data_type)
            },
            Warning::BackwardItem { label, count, time, prior, gap } => {
                "OrderingVerifier["@ + label@ + "] backward yield #"@ + decimal_text(count as nat)
                    + ": ts="@ + decimal_text(time as nat) + " prev="@ + decimal_text(prior as nat)
                    + " gap="@ + decimal_text(gap as nat) + "ns"@
            },
            Warning::BackwardItemCount { label, count } => {
                "OrderingVerifier["@ + label@ + "] backward yield count now "@ + decimal_text(
                    count as nat,
                ) + " (further violations suppressed unless power-of-two)"@
            },
            Warning::BackwardChunk { chunk_index, earliest, boundary } => {
                "stream_chunks_resort: chunk "@ + decimal_text(chunk_index as nat) + " first ts "@
                    + decimal_text(earliest as nat) + " < previous chunk last ts "@ + decimal_text(
                    boundary as nat,
                )
                    + " (upstream merge produced backwards-going items; sorting locally to repair)"@
            },
            Warning::ClampedStart { chunk_index, latest, boundary, start } => {
                "stream_chunks_resort: chunk "@ + decimal_text(chunk_index as nat) + " max ts "@
                    + decimal_text(latest as nat) + " < previous chunk max ts "@ + decimal_text(
                    boundary as nat,
                ) + "; clamping engine start to chunk min "@ + decimal_text(start as nat)
                    + " to avoid start>end"@
            },
        }
    }

    /// Returns the warning in words.
    pub fn message(&self) -> (r: String)
        ensures
            r@ == self.text(),
    {
        let mut text = String::new();
        match self {
            Warning::NoData { data_type } => {
                text.append("No data found for config: ");
                text.append(data_type_str(*data_type));
            },
            Warning::BackwardItem { label, count, time, prior, gap } => {
                text.append("OrderingVerifier[");
                text.append(label);
                text.append("] backward yield #");
                append_decimal(&mut text, *count as u64);
                text.append(": ts=");
                append_decimal(&mut text, *time);
                text.append(" prev=");
                append_decimal(&mut text, *prior);
                text.append(" gap=");
                append_decimal(&mut text, *gap);
                text.append("ns");
            },
            Warning::BackwardItemCount { label, count } => {
                text.append("OrderingVerifier[");
                text.append(label);
                text.append("] backward yield count now ");
                append_decimal(&mut text, *count as u64);
                text.append(" (further violations suppressed unless power-of-two)");
            },
            Warning::BackwardChunk { chunk_index, earliest, boundary } => {
                text.append("stream_chunks_resort: chunk ");
                append_decimal(&mut text, *chunk_index as u64);
                text.append(" first ts ");
                append_decimal(&mut text, *earliest);
                text.append(" < previous chunk last ts ");
                append_decimal(&mut text, *boundary);
                text.append(
                    " (upstream merge produced backwards-going items; sorting locally to repair)",
                );
            },
            Warning::ClampedStart { chunk_index, latest, boundary, start } => {
                text.append("stream_chunks_resort: chunk ");
                append_decimal(&mut text, *chunk_index as u64);
                text.append(" max ts ");
                append_decimal(&mut text, *latest);
                text.append(" < previous chunk max ts ");
                append_decimal(&mut text, *boundary);
                text.append("; clamping engine start to chunk min ");
                append_decimal(&mut text, *start);
                text.append(" to avoid start>end");
            },
        }
        assert(text@ =~= self.text());
        text
    }
}

} // verus!
