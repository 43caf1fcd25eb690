//! What a backtest run is configured with, as far as the node reads it or hands it on.
use crate::hashed::StorageOptions;
use crate::time::UnixNanos;
use vstd::prelude::*;
use vstd::string::*;

verus! {

/// Stands for a value that only the embedding application can hold: an engine
/// configuration, a fill model, a simulation module. The node hands it on unread.
#[derive(Debug, Clone, Copy, PartialEq, Eq, Structural)]
pub struct Handle(pub u64);

/// A decimal number: `mantissa` divided by ten to the power of `scale`.
#[derive(Debug, Clone, Copy, PartialEq, Eq, Structural)]
pub struct Decimal {
    pub mantissa: i128,
    pub scale: u32,
}

/// A price as it is configured: the bit pattern of a double precision number.
#[derive(Debug, Clone, Copy, PartialEq, Eq, Structural)]
pub struct RawPrice {
    pub bits: u64,
}

/// An amount of a currency, in the currency's smallest unit.
#[derive(Debug)]
pub struct Money {
    pub raw: i128,
    pub currency: String,
}

/// Names an instrument: its symbol, and the venue that it trades on.
#[derive(Debug)]
pub struct InstrumentId {
    pub symbol: String,
    pub venue: String,
}

impl InstrumentId {
    /// The identifier in writing: symbol and venue, with a dot between them.
    pub open spec fn text(self) -> Seq<char> {
        self.symbol@ + "."@ + self.venue@
    }

    /// Returns the identifier in writing.
    pub fn to_text(&self) -> (r: String)
        ensures
            r@ == self.text(),
    {
        let mut text = self.symbol.clone();
        text.append(".");
        text.append(self.venue.as_str());
        text
    }

    /// Returns an identifier of the same instrument.
    pub(crate) fn duplicate(&self) -> (r: InstrumentId)
        ensures
            r == *self,
    {
        InstrumentId { symbol: self.symbol.clone(), venue: self.venue.clone() }
    }
}

/// Kinds of market data that a catalog stores.
#[derive(Debug, Clone, Copy, PartialEq, Eq, Structural)]
pub enum NautilusDataType {
    QuoteTick,
    TradeTick,
    Bar,
    OrderBookDelta,
    OrderBookDepth10,
    MarkPriceUpdate,
    IndexPriceUpdate,
    InstrumentStatus,
    InstrumentClose,
    OptionGreeks,
}

impl NautilusDataType {
    /// Whether data of this kind describes an order book.
    pub open spec fn is_book(self) -> bool {
        self is OrderBookDelta || self is OrderBookDepth10
    }
}

/// How deep the order books of a venue are.
#[allow(non_camel_case_types)]
#[derive(Debug, Clone, Copy, PartialEq, Eq, Structural)]
pub enum BookType {
    L1_MBP,
    L2_MBP,
    L3_MBO,
}

impl BookType {
    /// Whether books of this type can only be kept from order book data.
    pub open spec fn needs_book_data(self) -> bool {
        self is L2_MBP || self is L3_MBO
    }
}

/// When the children of a one-triggers-other order are released.
#[derive(Debug, Clone, Copy, PartialEq, Eq, Structural)]
pub enum OtoTriggerMode {
    Partial,
    Full,
}

/// How a venue manages positions.
#[derive(Debug, Clone, Copy, PartialEq, Eq, Structural)]
pub enum OmsType {
    Unspecified,
    Netting,
    Hedging,
}

/// The kind of account that a venue keeps.
#[derive(Debug, Clone, Copy, PartialEq, Eq, Structural)]
pub enum AccountType {
    Cash,
    Margin,
    Betting,
}

/// Configures one simulated venue.
#[derive(Debug)]
pub struct BacktestVenueConfig {
    pub name: String,
    pub oms_type: OmsType,
    pub account_type: AccountType,
    pub book_type: BookType,
    /// Balances in writing, such as `1000000 USD`.
    pub starting_balances: Vec<String>,
    pub base_currency: Option<String>,
    pub default_leverage: Decimal,
    pub leverages: Option<Vec<(InstrumentId, Decimal)>>,
    pub margin_model: Option<Handle>,
    pub modules: Vec<Handle>,
    pub fill_model: Option<Handle>,
    pub fee_model: Option<Handle>,
    pub latency_model: Option<Handle>,
    pub routing: bool,
    pub reject_stop_orders: bool,
    pub support_gtd_orders: bool,
    pub support_contingent_orders: bool,
    pub use_position_ids: bool,
    pub use_random_ids: bool,
    pub use_reduce_only: bool,
    pub use_market_order_acks: bool,
    pub bar_execution: bool,
    pub bar_adaptive_high_low_ordering: bool,
    pub trade_execution: bool,
    pub liquidity_consumption: bool,
    pub allow_cash_borrowing: bool,
    pub frozen_account: bool,
    pub queue_position: bool,
    pub oto_trigger_mode: OtoTriggerMode,
    pub price_protection_points: u32,
    pub liquidation_enabled: bool,
    pub liquidation_trigger_ratio: Decimal,
    pub liquidation_cancel_open_orders: bool,
    /// Prices at which instruments settle, in the order in which they are to be set.
    pub settlement_prices: Option<Vec<(InstrumentId, RawPrice)>>,
}

/// Configures one source of market data.
#[derive(Debug)]
pub struct BacktestDataConfig {
    pub data_type: NautilusDataType,
    pub catalog_path: String,
    pub catalog_fs_protocol: Option<String>,
    pub catalog_fs_storage_options: Option<StorageOptions>,
    pub catalog_fs_rust_storage_options: Option<StorageOptions>,
    pub start_time: Option<UnixNanos>,
    pub end_time: Option<UnixNanos>,
    /// The instruments that the configuration names, or why they could not be made out.
    pub instrument_ids: Result<Vec<InstrumentId>, String>,
    /// The identifiers that a catalog query is restricted to.
    pub query_identifiers: Option<Vec<String>>,
    pub filter_expr: Option<String>,
    pub client_id: Option<String>,
    pub optimize_file_loading: bool,
}

/// Configures one backtest run.
#[derive(Debug)]
pub struct BacktestRunConfig {
    pub id: String,
    pub venues: Vec<BacktestVenueConfig>,
    pub data: Vec<BacktestDataConfig>,
    pub engine: Handle,
    pub start: Option<UnixNanos>,
    pub end: Option<UnixNanos>,
    /// Items per chunk when data is streamed; nothing when it is loaded as a whole.
    pub chunk_size: Option<usize>,
    pub dispose_on_completion: bool,
}

/// Returns a list with the same strings.
pub(crate) fn copy_strings(list: &Vec<String>) -> (r: Vec<String>)
    ensures
        r@ == list@,
{
    let mut copy: Vec<String> = Vec::new();
    let mut i: usize = 0;
    while i < list.len()
        invariant
            i <= list.len(),
            copy@ == list@.take(i as int),
        decreases list.len() - i,
    {
        copy.push(list[i].clone());
        i += 1;
        assert(copy@ =~= list@.take(i as int));
    }
    assert(list@.take(i as int) =~= list@);
    copy
}

} // verus!
