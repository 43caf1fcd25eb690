//! What holds of every text that is put together, told by its parts.
use crate::config::{BookType, InstrumentId, NautilusDataType};
use crate::error::NodeError;
use crate::report::Warning;
use crate::text::{decimal_text, joined};
use vstd::prelude::*;

verus! {

/// The number that a row of decimal digits stands for.
pub open spec fn decimal_value(text: Seq<char>) -> int
    decreases text.len(),
{
    if text.len() == 0 {
        0
    } else {
        decimal_value(text.drop_last()) * 10 + (text.last() as int - '0' as int)
    }
}

/// A number in decimal notation is a row of digits that stands for it, without a zero in front
/// unless it is zero.
pub proof fn law_decimal_text_reads_as_the_number(n: nat)
    ensures
        decimal_text(n).len() > 0,
        decimal_value(decimal_text(n)) == n,
        forall|i: int| 0 <= i < decimal_text(n).len() ==> '0' <= #[trigger] decimal_text(n)[i] <= '9',
        n > 0 ==> decimal_text(n)[0] != '0',
    decreases n,
{
    let text = decimal_text(n);
    if n < 10 {
        assert(text.drop_last() =~= Seq::empty());
        assert(decimal_value(text.drop_last()) == 0);
    } else {
        law_decimal_text_reads_as_the_number(n / 10);
        assert(text.drop_last() =~= decimal_text(n / 10));
        assert(text[0] == decimal_text(n / 10)[0]);
    }
}

/// Numbers tell their decimal notations apart.
pub proof fn law_decimal_texts_differ(a: nat, b: nat)
    ensures
        decimal_text(a) == decimal_text(b) ==> a == b,
{
    law_decimal_text_reads_as_the_number(a);
    law_decimal_text_reads_as_the_number(b);
}

/// Texts are joined one after the other: none gives nothing, one gives itself, and one more
/// comes behind a separator.
pub proof fn law_joined_one_by_one(parts: Seq<Seq<char>>, next: Seq<char>, separator: Seq<char>)
    ensures
        joined(Seq::<Seq<char>>::empty(), separator) == Seq::<char>::empty(),
        joined(seq![next], separator) == next,
        parts.len() > 0 ==> joined(parts.push(next), separator) == joined(parts, separator)
            + separator + next,
{
    assert(parts.push(next).drop_last() =~= parts);
}

/// An instrument is written as its symbol, a dot and its venue.
pub proof fn law_instrument_in_writing(instrument: InstrumentId)
    ensures
        instrument.text() == instrument.symbol@ + "."@ + instrument.venue@,
{
}

/// Each error names what it is about.
pub proof fn law_error_names_its_subject(error: NodeError)
    ensures
        match error {
            NodeError::EmptyConfigs => error.text() == "At least one run config is required"@,
            NodeError::TooManyConfigs => error.text()
                == "Only one run config per BacktestNode is supported (kernel MessageBus is a thread-local singleton)"@,
            NodeError::DuplicateId { id } => error.text() == "Duplicate run config ID '"@ + id@
                + "'"@,
            NodeError::InvalidTimeRange { start, end } => error.text()
                == "Data config start_time ("@ + decimal_text(start as nat)
                + ") must be <= end_time ("@ + decimal_text(end as nat) + ")"@,
            NodeError::MissingVenue { instrument } => error.text()
                == "No venue config found for venue '"@ + instrument.venue@
                + "' (required by instrument "@ + (instrument.symbol@ + "."@ + instrument.venue@)
                + ")"@,
            NodeError::MissingBookData { venue, book_type } => error.text() == "Venue '"@ + venue@
                + "' has book_type "@ + (match book_type {
                BookType::L1_MBP => "L1_MBP"@,
                BookType::L2_MBP => "L2_MBP"@,
                BookType::L3_MBO => "L3_MBO"@,
            }) + " but no order book data configured"@,
            NodeError::InvalidBalance { message } => error.text() == "Invalid starting balance: "@
                + message@,
            NodeError::NoInstruments { listing } => error.text()
                == "No instruments found in catalog for requested IDs: ["@ + listing@ + "]"@,
            NodeError::NoSettlementInstrument { instrument } => error.text()
                == "No instrument found for settlement price configuration: "@ + (instrument.symbol@
                + "."@ + instrument.venue@),
            NodeError::EngineNotFound { id } => error.text() == "Engine not found for config '"@
                + id@ + "'. Call build() first."@,
            NodeError::ZeroChunkSize => error.text() == "chunk_size must be > 0"@,
            NodeError::NoDataConfigs { id } => error.text()
                == "No data config to stream from for config '"@ + id@ + "'"@,
            NodeError::Outside { message } => error.text() == message@,
        },
{
}

/// Each warning names what it is about.
pub proof fn law_warning_names_its_subject(warning: Warning)
    ensures
        match warning {
            Warning::NoData { data_type } => warning.text() == "No data found for config: "@ + (
            match data_type {
                NautilusDataType::QuoteTick => "QuoteTick"@,
                NautilusDataType::TradeTick => "TradeTick"@,
                NautilusDataType::Bar => "Bar"@,
                NautilusDataType::OrderBookDelta => "OrderBookDelta"@,
                NautilusDataType::OrderBookDepth10 => "OrderBookDepth10"@,
                NautilusDataType::MarkPriceUpdate => "MarkPriceUpdate"@,
                NautilusDataType::IndexPriceUpdate => "IndexPriceUpdate"@,
                NautilusDataType::InstrumentStatus => "InstrumentStatus"@,
                NautilusDataType::InstrumentClose => "InstrumentClose"@,
                NautilusDataType::OptionGreeks => "OptionGreeks"@,
            }),
            Warning::BackwardItem { label, count, time, prior, gap } => warning.text()
                == "OrderingVerifier["@ + label@ + "] backward yield #"@ + decimal_text(
                count as nat,
            ) + ": ts="@ + decimal_text(time as nat) + " prev="@ + decimal_text(prior as nat)
                + " gap="@ + decimal_text(gap as nat) + "ns"@,
            Warning::BackwardItemCount { label, count } => warning.text() == "OrderingVerifier["@
                + label@ + "] backward yield count now "@ + decimal_text(count as nat)
                + " (further violations suppressed unless power-of-two)"@,
            Warning::BackwardChunk { chunk_index, earliest, boundary } => warning.text()
                == "stream_chunks_resort: chunk "@ + decimal_text(chunk_index as nat)
                + " first ts "@ + decimal_text(earliest as nat) + " < previous chunk last ts "@
                + decimal_text(boundary as nat)
                + " (upstream merge produced backwards-going items; sorting locally to repair)"@,
            Warning::ClampedStart { chunk_index, latest, boundary, start } => warning.text()
                == "stream_chunks_resort: chunk "@ + decimal_text(chunk_index as nat) + " max ts "@
                + decimal_text(latest as nat) + " < previous chunk max ts "@ + decimal_text(
                boundary as nat,
            ) + "; clamping engine start to chunk min "@ + decimal_text(start as nat)
                + " to avoid start>end"@,
        },
{
}

} // verus!
