//! Reasons for which the node refuses a configuration or gives up a run.
use crate::config::{BookType, InstrumentId};
use crate::text::append_decimal;
use crate::time::UnixNanos;
use vstd::prelude::*;
use vstd::string::*;

verus! {

/// Why a configuration was refused, or a run given up.
#[derive(Debug)]
pub enum NodeError {
    /// There is no run config.
    EmptyConfigs,
    /// There are several run configs.
    TooManyConfigs,
    /// Two run configs have one ID.
    DuplicateId { id: String },
    /// A data config starts after its end.
    InvalidTimeRange { start: UnixNanos, end: UnixNanos },
    /// An instrument trades on a venue that is not configured.
    MissingVenue { instrument: InstrumentId },
    /// A venue keeps deep books and no config provides order book data for it.
    MissingBookData { venue: String, book_type: BookType },
    /// A starting balance could not be read.
    InvalidBalance { message: String },
    /// A catalog knows none of the instruments asked for, which are listed.
    NoInstruments { listing: String },
    /// A settlement price is configured for an instrument that was not loaded.
    NoSettlementInstrument { instrument: InstrumentId },
    /// No engine was built for a run config.
    EngineNotFound { id: String },
    /// Data is to be streamed in chunks of no items.
    ZeroChunkSize,
    /// Data is to be streamed, and no data config says which.
    NoDataConfigs { id: String },
    /// Work outside the node failed.
    Outside { message: String },
}

/// The name of a book type.
pub open spec fn book_type_name(book_type: BookType) -> Seq<char> {
    match book_type {
        BookType::L1_MBP => "L1_MBP"@,
        BookType::L2_MBP => "L2_MBP"@,
        BookType::L3_MBO => "L3_MBO"@,
    }
}

/// Returns the name of a book type.
fn book_type_str(book_type: BookType) -> (r: &'static str)
    ensures
        r@ == book_type_name(book_type),
{
    match book_type {
        BookType::L1_MBP => "L1_MBP",
        BookType::L2_MBP => "L2_MBP",
        BookType::L3_MBO => "L3_MBO",
    }
}

impl NodeError {
    /// The error in words.
    pub open spec fn text(self) -> Seq<char> {
        match self {
            NodeError::EmptyConfigs => "At least one run config is required"@,
            NodeError::TooManyConfigs => {
                "Only one run config per BacktestNode is supported (kernel MessageBus is a thread-local singleton)"@
            },
            NodeError::DuplicateId { id } => "Duplicate run config ID '"@ + id@ + "'"@,
            NodeError::InvalidTimeRange { start, end } => {
                "Data config start_time ("@ + crate::text::decimal_text(start as nat)
                    + ") must be <= end_time ("@ + crate::text::decimal_text(end as nat) + ")"@
            },
            NodeError::MissingVenue { instrument } => {
                "No venue config found for venue '"@ + instrument.venue@
                    + "' (required by instrument "@ + instrument.text() + ")"@
            },
            NodeError::MissingBookData { venue, book_type } => {
                "Venue '"@ + venue@ + "' has book_type "@ + book_type_name(book_type)
                    + " but no order book data configured"@
            },
            NodeError::InvalidBalance { message } => "Invalid starting balance: "@ + message@,
            NodeError::NoInstruments { listing } => {
                "No instruments found in catalog for requested IDs: ["@ + listing@ + "]"@
            },
            NodeError::NoSettlementInstrument { instrument } => {
                "No instrument found for settlement price configuration: "@ + instrument.text()
            },
            NodeError::EngineNotFound { id } => {
                "Engine not found for config '"@ + id@ + "'. Call build() first."@
            },
            NodeError::ZeroChunkSize => "chunk_size must be > 0"@,
            NodeError::NoDataConfigs { id } => {
                "No data config to stream from for config '"@ + id@ + "'"@
            },
            NodeError::Outside { message } => message@,
        }
    }

    /// Returns the error in words.
    pub fn message(&self) -> (r: String)
        ensures
            r@ == self.text(),
    {
        let mut text = String::new();
        match self {
            NodeError::EmptyConfigs => text.append("At least one run config is required"),
            NodeError::TooManyConfigs => text.append(
                "Only one run config per BacktestNode is supported (kernel MessageBus is a thread-local singleton)",
            ),
            NodeError::DuplicateId { id } => {
                text.append("Duplicate run config ID '");
                text.append(id.as_str());
                text.append("'");
            },
            NodeError::InvalidTimeRange { start, end } => {
                text.append("Data config start_time (");
                append_decimal(&mut text, *start);
                text.append(") must be <= end_time (");
                append_decimal(&mut text, *end);
                text.append(")");
            },
            NodeError::MissingVenue { instrument } => {
                text.append("No venue config found for venue '");
                text.append(instrument.venue.as_str());
                text.append("' (required by instrument ");
                text.append(instrument.to_text().as_str());
                text.append(")");
            },
            NodeError::MissingBookData { venue, book_type } => {
                text.append("Venue '");
                text.append(venue.as_str());
                text.append("' has book_type ");
                text.append(book_type_str(*book_type));
                text.append(" but no order book data configured");
            },
            NodeError::InvalidBalance { message } => {
                text.append("Invalid starting balance: ");
                text.append(message.as_str());
            },
            NodeError::NoInstruments { listing } => {
                text.append("No instruments found in catalog for requested IDs: [");
                text.append(listing.as_str());
                text.append("]");
            },
            NodeError::NoSettlementInstrument { instrument } => {
                text.append("No instrument found for settlement price configuration: ");
                text.append(instrument.to_text().as_str());
            },
            NodeError::EngineNotFound { id } => {
                text.append("Engine not found for config '");
                text.append(id.as_str());
                text.append("'. Call build() first.");
            },
            NodeError::ZeroChunkSize => text.append("chunk_size must be > 0"),
            NodeError::NoDataConfigs { id } => {
                text.append("No data config to stream from for config '");
                text.append(id.as_str());
                text.append("'");
            },
            NodeError::Outside { message } => text.append(message.as_str()),
        }
        assert(text@ =~= self.text());
        text
    }
}

} // verus!
