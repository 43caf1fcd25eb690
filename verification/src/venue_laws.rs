//! What holds of every venue that an engine is given, told setting by setting.
use crate::catalog_laws::texts_agree;
use crate::config::{BacktestRunConfig, BacktestVenueConfig, Money, OtoTriggerMode};
use crate::error::NodeError;
use crate::setup::{build_rule, BuildAction, BuildEvent, BuildPhase, BuildState};
use crate::venue::{first_unreadable, readable, ModelChoice, SimulatedVenueConfig};
use vstd::prelude::*;

verus! {

/// Whether a simulated venue has each setting of its config.
pub open spec fn has_settings(venue: SimulatedVenueConfig, config: BacktestVenueConfig) -> bool {
    &&& venue.venue@ == config.name@
    &&& venue.oms_type == config.oms_type
    &&& venue.account_type == config.account_type
    &&& venue.book_type == config.book_type
    &&& venue.default_leverage == config.default_leverage
    &&& venue.margin_model == config.margin_model
    &&& venue.latency_model == config.latency_model
    &&& venue.routing == config.routing
    &&& venue.reject_stop_orders == config.reject_stop_orders
    &&& venue.support_gtd_orders == config.support_gtd_orders
    &&& venue.support_contingent_orders == config.support_contingent_orders
    &&& venue.use_position_ids == config.use_position_ids
    &&& venue.use_random_ids == config.use_random_ids
    &&& venue.use_reduce_only == config.use_reduce_only
    &&& venue.use_market_order_acks == config.use_market_order_acks
    &&& venue.bar_execution == config.bar_execution
    &&& venue.bar_adaptive_high_low_ordering == config.bar_adaptive_high_low_ordering
    &&& venue.trade_execution == config.trade_execution
    &&& venue.liquidity_consumption == config.liquidity_consumption
    &&& venue.allow_cash_borrowing == config.allow_cash_borrowing
    &&& venue.frozen_account == config.frozen_account
    &&& venue.queue_position == config.queue_position
    &&& venue.price_protection_points == config.price_protection_points
    &&& venue.liquidation_enabled == config.liquidation_enabled
    &&& venue.liquidation_trigger_ratio == config.liquidation_trigger_ratio
    &&& venue.liquidation_cancel_open_orders == config.liquidation_cancel_open_orders
    &&& texts_agree(venue.base_currency, config.base_currency)
    &&& venue.oto_full_trigger <==> config.oto_trigger_mode == OtoTriggerMode::Full
    &&& venue.modules@ == config.modules@
    &&& config.leverages matches Some(list) ==> venue.leverages@ == list@
    &&& config.leverages is None ==> venue.leverages@.len() == 0
    &&& config.fill_model matches Some(handle) ==> venue.fill_model == ModelChoice::Configured(handle)
    &&& config.fill_model is None ==> venue.fill_model == ModelChoice::Default
    &&& config.fee_model matches Some(handle) ==> venue.fee_model == ModelChoice::Configured(handle)
    &&& config.fee_model is None ==> venue.fee_model == ModelChoice::Default
}

/// A simulated venue has each setting of its config: a model that is configured is the one
/// that is simulated, and the default stands only where none is.
pub proof fn law_venue_has_every_setting(
    config: BacktestVenueConfig,
    balances: Seq<Money>,
    venue: SimulatedVenueConfig,
)
    requires
        venue.simulates(config, balances),
    ensures
        venue.starting_balances@ == balances,
        has_settings(venue, config),
        venue.venue@ == config.name@,
        venue.oms_type == config.oms_type,
        venue.account_type == config.account_type,
        venue.book_type == config.book_type,
        venue.default_leverage == config.default_leverage,
        venue.margin_model == config.margin_model,
        venue.latency_model == config.latency_model,
        venue.routing == config.routing,
        venue.reject_stop_orders == config.reject_stop_orders,
        venue.support_gtd_orders == config.support_gtd_orders,
        venue.support_contingent_orders == config.support_contingent_orders,
        venue.use_position_ids == config.use_position_ids,
        venue.use_random_ids == config.use_random_ids,
        venue.use_reduce_only == config.use_reduce_only,
        venue.use_market_order_acks == config.use_market_order_acks,
        venue.bar_execution == config.bar_execution,
        venue.bar_adaptive_high_low_ordering == config.bar_adaptive_high_low_ordering,
        venue.trade_execution == config.trade_execution,
        venue.liquidity_consumption == config.liquidity_consumption,
        venue.allow_cash_borrowing == config.allow_cash_borrowing,
        venue.frozen_account == config.frozen_account,
        venue.queue_position == config.queue_position,
        venue.price_protection_points == config.price_protection_points,
        venue.liquidation_enabled == config.liquidation_enabled,
        venue.liquidation_trigger_ratio == config.liquidation_trigger_ratio,
        venue.liquidation_cancel_open_orders == config.liquidation_cancel_open_orders,
        texts_agree(venue.base_currency, config.base_currency),
        venue.oto_full_trigger <==> config.oto_trigger_mode == OtoTriggerMode::Full,
        venue.modules@ == config.modules@,
        config.leverages matches Some(list) ==> venue.leverages@ == list@,
        config.leverages is None ==> venue.leverages@.len() == 0,
        config.fill_model matches Some(handle) ==> venue.fill_model == ModelChoice::Configured(handle),
        config.fill_model is None ==> venue.fill_model == ModelChoice::Default,
        config.fee_model matches Some(handle) ==> venue.fee_model == ModelChoice::Configured(handle),
        config.fee_model is None ==> venue.fee_model == ModelChoice::Default,
{
}

/// Simulated venues tell configs apart: two configs that are simulated alike agree in every
/// setting, where leverages that are absent count as none, and settlement prices, which a
/// venue is not given here, do not count.
pub proof fn law_venues_tell_configs_apart(
    a: BacktestVenueConfig,
    b: BacktestVenueConfig,
    balances: Seq<Money>,
    other_balances: Seq<Money>,
    first: SimulatedVenueConfig,
    second: SimulatedVenueConfig,
)
    requires
        first.simulates(a, balances),
        second.simulates(b, other_balances),
        first.venue@ == second.venue@,
        first.starting_balances@ == second.starting_balances@,
        texts_agree(first.base_currency, second.base_currency),
        first.leverages@ == second.leverages@,
        first.modules@ == second.modules@,
        first.fill_model == second.fill_model,
        first.fee_model == second.fee_model,
        first.oto_full_trigger == second.oto_full_trigger,
        first.oms_type == second.oms_type,
        first.account_type == second.account_type,
        first.book_type == second.book_type,
        first.default_leverage == second.default_leverage,
        first.margin_model == second.margin_model,
        first.latency_model == second.latency_model,
        first.routing == second.routing,
        first.reject_stop_orders == second.reject_stop_orders,
        first.support_gtd_orders == second.support_gtd_orders,
        first.support_contingent_orders == second.support_contingent_orders,
        first.use_position_ids == second.use_position_ids,
        first.use_random_ids == second.use_random_ids,
        first.use_reduce_only == second.use_reduce_only,
        first.use_market_order_acks == second.use_market_order_acks,
        first.bar_execution == second.bar_execution,
        first.bar_adaptive_high_low_ordering == second.bar_adaptive_high_low_ordering,
        first.trade_execution == second.trade_execution,
        first.liquidity_consumption == second.liquidity_consumption,
        first.allow_cash_borrowing == second.allow_cash_borrowing,
        first.frozen_account == second.frozen_account,
        first.queue_position == second.queue_position,
        first.price_protection_points == second.price_protection_points,
        first.liquidation_enabled == second.liquidation_enabled,
        first.liquidation_trigger_ratio == second.liquidation_trigger_ratio,
        first.liquidation_cancel_open_orders == second.liquidation_cancel_open_orders,
    ensures
        balances == other_balances,
        a.name@ == b.name@,
        a.oms_type == b.oms_type,
        a.account_type == b.account_type,
        a.book_type == b.book_type,
        a.default_leverage == b.default_leverage,
        a.margin_model == b.margin_model,
        a.latency_model == b.latency_model,
        a.routing == b.routing,
        a.reject_stop_orders == b.reject_stop_orders,
        a.support_gtd_orders == b.support_gtd_orders,
        a.support_contingent_orders == b.support_contingent_orders,
        a.use_position_ids == b.use_position_ids,
        a.use_random_ids == b.use_random_ids,
        a.use_reduce_only == b.use_reduce_only,
        a.use_market_order_acks == b.use_market_order_acks,
        a.bar_execution == b.bar_execution,
        a.bar_adaptive_high_low_ordering == b.bar_adaptive_high_low_ordering,
        a.trade_execution == b.trade_execution,
        a.liquidity_consumption == b.liquidity_consumption,
        a.allow_cash_borrowing == b.allow_cash_borrowing,
        a.frozen_account == b.frozen_account,
        a.queue_position == b.queue_position,
        a.price_protection_points == b.price_protection_points,
        a.liquidation_enabled == b.liquidation_enabled,
        a.liquidation_trigger_ratio == b.liquidation_trigger_ratio,
        a.liquidation_cancel_open_orders == b.liquidation_cancel_open_orders,
        texts_agree(a.base_currency, b.base_currency),
        a.oto_trigger_mode == b.oto_trigger_mode,
        a.modules@ == b.modules@,
        a.fill_model == b.fill_model,
        a.fee_model == b.fee_model,
        a.leverages is Some && b.leverages is Some ==> a.leverages->0@ == b.leverages->0@,
        a.leverages is Some && b.leverages is None ==> a.leverages->0@.len() == 0,
{
}

/// The reason for the first balance that could not be read: there is one exactly when some
/// balance could not be read, and none ahead of that one failed.
pub proof fn law_first_unreadable_is_the_first(parsed: Seq<Result<Money, String>>)
    ensures
        first_unreadable(parsed) is None <==> forall|i: int|
            0 <= i < parsed.len() ==> (#[trigger] parsed[i]) is Ok,
        first_unreadable(parsed) matches Some(message) ==> exists|i: int|
            {
                &&& 0 <= i < parsed.len()
                &&& #[trigger] parsed[i] == Err::<Money, String>(message)
                &&& forall|j: int| 0 <= j < i ==> (#[trigger] parsed[j]) is Ok
            },
    decreases parsed.len(),
{
    if parsed.len() > 0 {
        let front = parsed.drop_last();
        let n = parsed.len() - 1;
        law_first_unreadable_is_the_first(front);
        assert(forall|i: int| 0 <= i < n ==> front[i] == parsed[i]);
        if let Some(message) = first_unreadable(front) {
            let i = choose|i: int|
                {
                    &&& 0 <= i < front.len()
                    &&& #[trigger] front[i] == Err::<Money, String>(message)
                    &&& forall|j: int| 0 <= j < i ==> (#[trigger] front[j]) is Ok
                };
            assert(parsed[i] == Err::<Money, String>(message));
            assert forall|j: int| 0 <= j < i implies (#[trigger] parsed[j]) is Ok by {
                assert(front[j] is Ok);
            }
        } else {
            assert forall|j: int| 0 <= j < n implies (#[trigger] parsed[j]) is Ok by {
                assert(front[j] is Ok);
            }
            assert(parsed[n] == parsed.last());
        }
    }
}

/// Once the balances of a venue are read, the engine is given that very venue, with every
/// setting of its config and with those balances in order; or, if one could not be read,
/// building fails for the first that could not.
pub proof fn law_added_venue_is_as_configured<E, N>(
    configs: Seq<BacktestRunConfig>,
    built: Set<Seq<char>>,
    before: BuildState<N>,
    at: usize,
    position: usize,
    parsed: Vec<Result<Money, String>>,
    after: BuildState<N>,
    action: BuildAction<N>,
)
    requires
        before.phase == (BuildPhase::Reading { config: at, venue: position }),
        build_rule(configs, built, before, BuildEvent::<E, N>::Balances(parsed), after, action),
    ensures
        action is AddVenue <==> forall|i: int|
            0 <= i < parsed@.len() ==> (#[trigger] parsed@[i]) is Ok,
        action matches BuildAction::AddVenue(venue) ==> {
            let config = configs[at as int].venues@[position as int];
            &&& venue.starting_balances@.len() == parsed@.len()
            &&& forall|i: int|
                0 <= i < parsed@.len() ==> #[trigger] parsed@[i] == Ok::<Money, String>(
                    venue.starting_balances@[i],
                )
            &&& has_settings(venue, config)
            &&& venue.venue@ == config.name@
            &&& venue.oms_type == config.oms_type
            &&& venue.account_type == config.account_type
            &&& venue.book_type == config.book_type
            &&& venue.default_leverage == config.default_leverage
            &&& venue.margin_model == config.margin_model
            &&& venue.latency_model == config.latency_model
            &&& venue.routing == config.routing
            &&& venue.reject_stop_orders == config.reject_stop_orders
            &&& venue.support_gtd_orders == config.support_gtd_orders
            &&& venue.support_contingent_orders == config.support_contingent_orders
            &&& venue.use_position_ids == config.use_position_ids
            &&& venue.use_random_ids == config.use_random_ids
            &&& venue.use_reduce_only == config.use_reduce_only
            &&& venue.use_market_order_acks == config.use_market_order_acks
            &&& venue.bar_execution == config.bar_execution
            &&& venue.bar_adaptive_high_low_ordering == config.bar_adaptive_high_low_ordering
            &&& venue.trade_execution == config.trade_execution
            &&& venue.liquidity_consumption == config.liquidity_consumption
            &&& venue.allow_cash_borrowing == config.allow_cash_borrowing
            &&& venue.frozen_account == config.frozen_account
            &&& venue.queue_position == config.queue_position
            &&& venue.price_protection_points == config.price_protection_points
            &&& venue.liquidation_enabled == config.liquidation_enabled
            &&& venue.liquidation_trigger_ratio == config.liquidation_trigger_ratio
            &&& venue.liquidation_cancel_open_orders == config.liquidation_cancel_open_orders
            &&& texts_agree(venue.base_currency, config.base_currency)
            &&& venue.oto_full_trigger <==> config.oto_trigger_mode == OtoTriggerMode::Full
            &&& venue.modules@ == config.modules@
            &&& config.leverages matches Some(list) ==> venue.leverages@ == list@
            &&& config.leverages is None ==> venue.leverages@.len() == 0
            &&& config.fill_model matches Some(handle) ==> venue.fill_model == ModelChoice::Configured(handle)
            &&& config.fill_model is None ==> venue.fill_model == ModelChoice::Default
            &&& config.fee_model matches Some(handle) ==> venue.fee_model == ModelChoice::Configured(handle)
            &&& config.fee_model is None ==> venue.fee_model == ModelChoice::Default
        },
        !(action is AddVenue) ==> exists|i: int|
            {
                &&& 0 <= i < parsed@.len()
                &&& (#[trigger] parsed@[i]) is Err
                &&& action == BuildAction::<N>::Finish(
                    Err(NodeError::InvalidBalance { message: parsed@[i]->Err_0 }),
                )
                &&& forall|j: int| 0 <= j < i ==> (#[trigger] parsed@[j]) is Ok
            },
{
    law_first_unreadable_is_the_first(parsed@);
    if let BuildAction::AddVenue(venue) = action {
        let config = configs[at as int].venues@[position as int];
        law_venue_has_every_setting(config, readable(parsed@), venue);
        assert forall|i: int| 0 <= i < parsed@.len() implies #[trigger] parsed@[i] == Ok::<
            Money,
            String,
        >(venue.starting_balances@[i]) by {
            assert(parsed@[i] is Ok);
        }
    }
}

} // verus!
