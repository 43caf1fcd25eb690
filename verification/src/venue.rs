//! Turns a venue configuration into the simulated venue that an engine is given.
use crate::catalog::copy_text;
use crate::config::{
    AccountType, BacktestVenueConfig, BookType, Decimal, Handle, InstrumentId, Money, OmsType,
    OtoTriggerMode,
};
use crate::error::NodeError;
use vstd::prelude::*;

verus! {

/// A model that is configured, or the engine's default.
#[derive(Debug, Clone, Copy, PartialEq, Eq, Structural)]
pub enum ModelChoice {
    Default,
    Configured(Handle),
}

/// A venue as an engine simulates it.
#[derive(Debug)]
pub struct SimulatedVenueConfig {
    pub venue: String,
    pub oms_type: OmsType,
    pub account_type: AccountType,
    pub book_type: BookType,
    pub starting_balances: Vec<Money>,
    pub base_currency: Option<String>,
    pub default_leverage: Decimal,
    pub leverages: Vec<(InstrumentId, Decimal)>,
    pub margin_model: Option<Handle>,
    pub modules: Vec<Handle>,
    pub fill_model: ModelChoice,
    pub fee_model: ModelChoice,
    pub latency_model: Option<Handle>,
    pub routing: bool,
    pub reject_stop_orders: bool,
    pub support_gtd_orders: bool,
    pub support_contingent_orders: bool,
    pub use_position_ids: bool,
    pub use_random_ids: bool,
    pub use_reduce_only: bool,
    pub use_market_order_acks: bool,
    pub bar_execution: bool,
    pub bar_adaptive_high_low_ordering: bool,
    pub trade_execution: bool,
    pub liquidity_consumption: bool,
    pub allow_cash_borrowing: bool,
    pub frozen_account: bool,
    pub queue_position: bool,
    pub oto_full_trigger: bool,
    pub price_protection_points: u32,
    pub liquidation_enabled: bool,
    pub liquidation_trigger_ratio: Decimal,
    pub liquidation_cancel_open_orders: bool,
}

/// The model that is configured, or else the default.
pub open spec fn model_choice(model: Option<Handle>) -> ModelChoice {
    match model {
        Some(handle) => ModelChoice::Configured(handle),
        None => ModelChoice::Default,
    }
}

impl SimulatedVenueConfig {
    /// Whether this simulates a venue as it is configured, with these balances to start with.
    pub open spec fn simulates(self, config: BacktestVenueConfig, balances: Seq<Money>) -> bool {
        &&& self.venue == config.name
        &&& self.oms_type == config.oms_type
        &&& self.account_type == config.account_type
        &&& self.book_type == config.book_type
        &&& self.starting_balances@ == balances
        &&& self.base_currency == config.base_currency
        &&& self.default_leverage == config.default_leverage
        &&& self.leverages@ == match config.leverages {
            Some(leverages) => leverages@,
            None => Seq::empty(),
        }
        &&& self.margin_model == config.margin_model
        &&& self.modules@ == config.modules@
        &&& self.fill_model == model_choice(config.fill_model)
        &&& self.fee_model == model_choice(config.fee_model)
        &&& self.latency_model == config.latency_model
        &&& self.routing == config.routing
        &&& self.reject_stop_orders == config.reject_stop_orders
        &&& self.support_gtd_orders == config.support_gtd_orders
        &&& self.support_contingent_orders == config.support_contingent_orders
        &&& self.use_position_ids == config.use_position_ids
        &&& self.use_random_ids == config.use_random_ids
        &&& self.use_reduce_only == config.use_reduce_only
        &&& self.use_market_order_acks == config.use_market_order_acks
        &&& self.bar_execution == config.bar_execution
        &&& self.bar_adaptive_high_low_ordering == config.bar_adaptive_high_low_ordering
        &&& self.trade_execution == config.trade_execution
        &&& self.liquidity_consumption == config.liquidity_consumption
        &&& self.allow_cash_borrowing == config.allow_cash_borrowing
        &&& self.frozen_account == config.frozen_account
        &&& self.queue_position == config.queue_position
        &&& self.oto_full_trigger == (config.oto_trigger_mode is Full)
        &&& self.price_protection_points == config.price_protection_points
        &&& self.liquidation_enabled == config.liquidation_enabled
        &&& self.liquidation_trigger_ratio == config.liquidation_trigger_ratio
        &&& self.liquidation_cancel_open_orders == config.liquidation_cancel_open_orders
    }
}

/// Returns the model that is configured, or else the default.
fn choose_model(model: Option<Handle>) -> (r: ModelChoice)
    ensures
        r == model_choice(model),
{
    match model {
        Some(handle) => ModelChoice::Configured(handle),
        None => ModelChoice::Default,
    }
}

/// Returns a list with the same handles.
fn copy_handles(handles: &Vec<Handle>) -> (r: Vec<Handle>)
    ensures
        r@ == handles@,
{
    let mut copy: Vec<Handle> = Vec::new();
    let mut i: usize = 0;
    while i < handles.len()
        invariant
            i <= handles.len(),
            copy@ == handles@.take(i as int),
        decreases handles.len() - i,
    {
        copy.push(handles[i]);
        i += 1;
        assert(copy@ =~= handles@.take(i as int));
    }
    assert(handles@.take(i as int) =~= handles@);
    copy
}

/// Returns a list with the same leverages.
fn copy_leverages(leverages: &Vec<(InstrumentId, Decimal)>) -> (r: Vec<(InstrumentId, Decimal)>)
    ensures
        r@ == leverages@,
{
    let mut copy: Vec<(InstrumentId, Decimal)> = Vec::new();
    let mut i: usize = 0;
    while i < leverages.len()
        invariant
            i <= leverages.len(),
            copy@ == leverages@.take(i as int),
        decreases leverages.len() - i,
    {
        copy.push((leverages[i].0.duplicate(), leverages[i].1));
        i += 1;
        assert(copy@ =~= leverages@.take(i as int));
    }
    assert(leverages@.take(i as int) =~= leverages@);
    copy
}

/// Returns the simulated venue for a venue config, with these balances to start with.
pub fn simulated_venue(config: &BacktestVenueConfig, balances: Vec<Money>) -> (r:
    SimulatedVenueConfig)
    ensures
        r.simulates(*config, balances@),
{
    SimulatedVenueConfig {
        venue: config.name.clone(),
        oms_type: config.oms_type,
        account_type: config.account_type,
        book_type: config.book_type,
        starting_balances: balances,
        base_currency: copy_text(&config.base_currency),
        default_leverage: config.default_leverage,
        leverages: match &config.leverages {
            Some(leverages) => copy_leverages(leverages),
            None => Vec::new(),
        },
        margin_model: config.margin_model,
        modules: copy_handles(&config.modules),
        fill_model: choose_model(config.fill_model),
        fee_model: choose_model(config.fee_model),
        latency_model: config.latency_model,
        routing: config.routing,
        reject_stop_orders: config.reject_stop_orders,
        support_gtd_orders: config.support_gtd_orders,
        support_contingent_orders: config.support_contingent_orders,
        use_position_ids: config.use_position_ids,
        use_random_ids: config.use_random_ids,
        use_reduce_only: config.use_reduce_only,
        use_market_order_acks: config.use_market_order_acks,
        bar_execution: config.bar_execution,
        bar_adaptive_high_low_ordering: config.bar_adaptive_high_low_ordering,
        trade_execution: config.trade_execution,
        liquidity_consumption: config.liquidity_consumption,
        allow_cash_borrowing: config.allow_cash_borrowing,
        frozen_account: config.frozen_account,
        queue_position: config.queue_position,
        oto_full_trigger: matches!(config.oto_trigger_mode, OtoTriggerMode::Full),
        price_protection_points: config.price_protection_points,
        liquidation_enabled: config.liquidation_enabled,
        liquidation_trigger_ratio: config.liquidation_trigger_ratio,
        liquidation_cancel_open_orders: config.liquidation_cancel_open_orders,
    }
}

/// Why the first balance that could not be read could not be, if there is one.
pub open spec fn first_unreadable(parsed: Seq<Result<Money, String>>) -> Option<String>
    decreases parsed.len(),
{
    if parsed.len() == 0 {
        None
    } else {
        match first_unreadable(parsed.drop_last()) {
            Some(message) => Some(message),
            None => match parsed.last() {
                Ok(_) => None,
                Err(message) => Some(message),
            },
        }
    }
}

/// The balances that were read.
pub open spec fn readable(parsed: Seq<Result<Money, String>>) -> Seq<Money> {
    parsed.map_values(|p: Result<Money, String>| p->Ok_0)
}

/// Returns the balances of a venue, or the error of the first that could not be read.
pub fn collect_balances(parsed: Vec<Result<Money, String>>) -> (r: Result<Vec<Money>, NodeError>)
    ensures
        match first_unreadable(parsed@) {
            Some(message) => r == Err::<Vec<Money>, NodeError>(
                NodeError::InvalidBalance { message },
            ),
            None => r matches Ok(balances) && balances@ == readable(parsed@),
        },
{
    let ghost all = parsed@;
    let mut balances: Vec<Money> = Vec::new();
    let mut failed: Option<String> = None;
    assert(all.take(0) =~= Seq::empty());
    for result in it: parsed
        invariant
            it.seq() == all,
            failed == first_unreadable(all.take(it.index() as int)),
            failed is None ==> balances@ == readable(all.take(it.index() as int)),
    {
        assert(all.take(it.index() + 1).drop_last() =~= all.take(it.index() as int));
        if failed.is_none() {
            match result {
                Ok(money) => {
                    balances.push(money);
                    assert(balances@ =~= readable(all.take(it.index() + 1)));
                },
                Err(message) => {
                    failed = Some(message);
                },
            }
        }
    }
    assert(all.take(all.len() as int) =~= all);
    match failed {
        Some(message) => Err(NodeError::InvalidBalance { message }),
        None => Ok(balances),
    }
}

} // verus!
