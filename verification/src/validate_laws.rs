//! What holds of every check of a configuration, told by the settings that are checked.
use crate::config::{
    BacktestDataConfig, BacktestRunConfig, BacktestVenueConfig, BookType, InstrumentId,
    NautilusDataType,
};
use crate::error::NodeError;
use crate::validate::{
    as_result, config_checks, data_checks, data_error, first_error, id_repeats, instrument_error,
    provides_book, run_config_error, validation_error, venue_checks, venue_error,
};
use vstd::prelude::*;

verus! {

/// Whether a data config fits a run: it does not start behind its end, its instruments could
/// be made out, and each of them trades on some venue of the run, at whatever position.
pub open spec fn data_fits(config: BacktestRunConfig, d: int) -> bool {
    let data = config.data@[d];
    &&& data.start_time is None || data.end_time is None || data.start_time->0 <= data.end_time->0
    &&& data.instrument_ids is Ok
    &&& forall|j: int|
        0 <= j < data.instrument_ids->Ok_0@.len() ==> exists|k: int|
            0 <= k < config.venues@.len() && #[trigger] config.venues@[k].name@ == (
            #[trigger] data.instrument_ids->Ok_0@[j]).venue@
}

/// Whether a venue fits a run: it keeps only the top of the book, or some data config holds
/// order book data, of every instrument or of one that trades on the venue.
pub open spec fn venue_fits(config: BacktestRunConfig, v: int) -> bool {
    let venue = config.venues@[v];
    ||| venue.book_type == BookType::L1_MBP
    ||| exists|d: int|
        {
            let data = #[trigger] config.data@[d];
            &&& 0 <= d < config.data@.len()
            &&& data.data_type == NautilusDataType::OrderBookDelta || data.data_type
                == NautilusDataType::OrderBookDepth10
            &&& data.instrument_ids matches Ok(ids) ==> ids@.len() == 0 || exists|j: int|
                0 <= j < ids@.len() && (#[trigger] ids@[j]).venue@ == venue.name@
        }
}

/// A row of checks has its first failure at the first position that failed.
proof fn lemma_first_failure(checks: Seq<Option<NodeError>>, at: int)
    requires
        0 <= at < checks.len(),
        checks[at] is Some,
        forall|i: int| 0 <= i < at ==> checks[i] is None,
    ensures
        first_error(checks) == checks[at],
    decreases at,
{
    if at > 0 {
        assert(checks[0] is None);
        lemma_first_failure(checks.skip(1), at - 1);
    }
}

/// A row of checks that all passed has no failure.
proof fn lemma_no_failure(checks: Seq<Option<NodeError>>)
    requires
        forall|i: int| 0 <= i < checks.len() ==> checks[i] is None,
    ensures
        first_error(checks) is None,
    decreases checks.len(),
{
    if checks.len() > 0 {
        lemma_no_failure(checks.skip(1));
    }
}

/// The venue of an instrument is missing exactly when no venue, at any position, has its name.
pub proof fn law_venue_missing_iff_at_no_position(
    venues: Seq<BacktestVenueConfig>,
    instrument: InstrumentId,
)
    ensures
        instrument_error(venues, instrument) is None <==> exists|k: int|
            0 <= k < venues.len() && (#[trigger] venues[k]).name@ == instrument.venue@,
        instrument_error(venues, instrument) is Some ==> instrument_error(venues, instrument)
            == Some(NodeError::MissingVenue { instrument }),
{
}

/// A data config without a broken time range whose instruments all trade on one of the venues
/// is accepted, at whatever position that venue stands.
pub proof fn law_data_of_any_venue_is_accepted(
    venues: Seq<BacktestVenueConfig>,
    k: int,
    data: BacktestDataConfig,
)
    requires
        0 <= k < venues.len(),
        data.start_time is None || data.end_time is None || data.start_time->0
            <= data.end_time->0,
        data.instrument_ids is Ok,
        forall|j: int|
            0 <= j < data.instrument_ids->Ok_0@.len() ==> (
            #[trigger] data.instrument_ids->Ok_0@[j]).venue@ == venues[k].name@,
    ensures
        data_error(venues, data) is None,
{
    let ids = data.instrument_ids->Ok_0;
    let checks = Seq::new(ids@.len(), |j: int| instrument_error(venues, ids@[j]));
    assert forall|j: int| 0 <= j < checks.len() implies checks[j] is None by {
        law_venue_missing_iff_at_no_position(venues, ids@[j]);
        assert(venues[k].name@ == ids@[j].venue@);
    }
    lemma_no_failure(checks);
}

/// The outcome of the check of a data config, by the first of its settings that is wrong: a
/// broken time range, instruments that could not be made out, or the first instrument that
/// trades on no venue of the run.
pub proof fn law_data_outcome(config: BacktestRunConfig, d: int)
    requires
        0 <= d < config.data@.len(),
    ensures
        ({
            let data = config.data@[d];
            let error = data_error(config.venues@, data);
            &&& error is None <==> data_fits(config, d)
            &&& if data.start_time is Some && data.end_time is Some && data.start_time->0
                > data.end_time->0 {
                error == Some(
                    NodeError::InvalidTimeRange {
                        start: data.start_time->0,
                        end: data.end_time->0,
                    },
                )
            } else if let Err(message) = data.instrument_ids {
                error == Some(NodeError::Outside { message })
            } else {
                error is Some ==> exists|j: int|
                    {
                        &&& 0 <= j < data.instrument_ids->Ok_0@.len()
                        &&& error == Some(
                            NodeError::MissingVenue {
                                instrument: #[trigger] data.instrument_ids->Ok_0@[j],
                            },
                        )
                        &&& forall|k: int|
                            0 <= k < config.venues@.len() ==> (#[trigger] config.venues@[k]).name@
                                != data.instrument_ids->Ok_0@[j].venue@
                        &&& forall|i: int|
                            0 <= i < j ==> exists|k: int|
                                0 <= k < config.venues@.len()
                                    && #[trigger] config.venues@[k].name@ == (
                                #[trigger] data.instrument_ids->Ok_0@[i]).venue@
                    }
            }
        }),
{
    let data = config.data@[d];
    let venues = config.venues@;
    if let Ok(list) = data.instrument_ids {
        let ids = list@;
        let checks = Seq::new(ids.len(), |j: int| instrument_error(venues, ids[j]));
        assert forall|j: int| 0 <= j < ids.len() implies (#[trigger] checks[j] is None
            <==> exists|k: int|
            0 <= k < venues.len() && (#[trigger] venues[k]).name@ == ids[j].venue@) by {
            law_venue_missing_iff_at_no_position(venues, ids[j]);
        }
        if forall|j: int| 0 <= j < ids.len() ==> #[trigger] checks[j] is None {
            lemma_no_failure(checks);
            assert forall|j: int| 0 <= j < ids.len() implies exists|k: int|
                0 <= k < venues.len() && #[trigger] venues[k].name@ == (
                #[trigger] ids[j]).venue@ by {
                assert(checks[j] is None);
                let k = choose|k: int|
                    0 <= k < venues.len() && (#[trigger] venues[k]).name@ == ids[j].venue@;
                assert(venues[k].name@ == ids[j].venue@);
            }
        } else {
            let j = lemma_some_first(checks);
            lemma_first_failure(checks, j);
            law_venue_missing_iff_at_no_position(venues, ids[j]);
            assert(data.instrument_ids->Ok_0@[j] == ids[j]);
            assert forall|i: int| 0 <= i < j implies exists|k: int|
                0 <= k < venues.len() && #[trigger] venues[k].name@ == (
                #[trigger] ids[i]).venue@ by {
                assert(checks[i] is None);
                let k = choose|k: int|
                    0 <= k < venues.len() && (#[trigger] venues[k]).name@ == ids[i].venue@;
                assert(venues[k].name@ == ids[i].venue@);
            }
        }
    }
}

/// A row of checks that did not all pass has a first that failed.
proof fn lemma_some_first(checks: Seq<Option<NodeError>>) -> (at: int)
    requires
        exists|j: int| 0 <= j < checks.len() && #[trigger] checks[j] is Some,
    ensures
        0 <= at < checks.len(),
        checks[at] is Some,
        forall|i: int| 0 <= i < at ==> checks[i] is None,
    decreases checks.len(),
{
    if checks[0] is Some {
        0
    } else {
        let j = choose|j: int| 0 <= j < checks.len() && #[trigger] checks[j] is Some;
        assert(checks.skip(1)[j - 1] == checks[j]);
        let at = lemma_some_first(checks.skip(1));
        assert(checks.skip(1)[at] == checks[at + 1]);
        assert forall|i: int| 0 <= i < at + 1 implies checks[i] is None by {
            if i > 0 {
                assert(checks.skip(1)[i - 1] == checks[i]);
            }
        }
        at + 1
    }
}

/// More venues, or the same ones in another order, never make an instrument lack its venue.
pub proof fn law_more_venues_miss_no_more(
    fewer: Seq<BacktestVenueConfig>,
    more: Seq<BacktestVenueConfig>,
    data: BacktestDataConfig,
)
    requires
        forall|i: int|
            0 <= i < fewer.len() ==> exists|k: int|
                0 <= k < more.len() && #[trigger] more[k].name@ == (#[trigger] fewer[i]).name@,
    ensures
        data_error(more, data) matches Some(NodeError::MissingVenue { .. }) ==> data_error(
            fewer,
            data,
        ) matches Some(NodeError::MissingVenue { .. }),
        data_error(fewer, data) is None ==> data_error(more, data) is None,
{
    if let Ok(list) = data.instrument_ids {
        let ids = list@;
        let many = Seq::new(ids.len(), |j: int| instrument_error(more, ids[j]));
        let few = Seq::new(ids.len(), |j: int| instrument_error(fewer, ids[j]));
        assert forall|j: int| 0 <= j < ids.len() && many[j] is Some implies #[trigger] few[j]
            is Some by {
            law_venue_missing_iff_at_no_position(more, ids[j]);
            law_venue_missing_iff_at_no_position(fewer, ids[j]);
            if few[j] is None {
                let i = choose|i: int|
                    0 <= i < fewer.len() && (#[trigger] fewer[i]).name@ == ids[j].venue@;
                let k = choose|k: int|
                    0 <= k < more.len() && #[trigger] more[k].name@ == fewer[i].name@;
                assert(more[k].name@ == ids[j].venue@);
            }
        }
        if exists|j: int| 0 <= j < many.len() && #[trigger] many[j] is Some {
            let j = choose|j: int| 0 <= j < many.len() && #[trigger] many[j] is Some;
            assert(few[j] is Some);
            let at = lemma_some_first(few);
            lemma_first_failure(few, at);
        } else {
            lemma_no_failure(many);
        }
    }
}

/// A venue is refused exactly when it keeps deep books and no data config, at any position,
/// holds order book data for it; and then by its own name and book type.
pub proof fn law_venue_outcome(config: BacktestRunConfig, v: int)
    requires
        0 <= v < config.venues@.len(),
    ensures
        ({
            let venue = config.venues@[v];
            let error = venue_error(config.data@, venue);
            &&& error is None <==> venue_fits(config, v)
            &&& error is Some ==> error == Some(
                NodeError::MissingBookData { venue: venue.name, book_type: venue.book_type },
            )
        }),
{
    let venue = config.venues@[v];
    if venue_error(config.data@, venue) is None && venue.book_type != BookType::L1_MBP {
        let d = choose|d: int|
            0 <= d < config.data@.len() && provides_book(
                #[trigger] config.data@[d],
                venue.name@,
            );
        let data = config.data@[d];
        assert(data.data_type == NautilusDataType::OrderBookDelta || data.data_type
            == NautilusDataType::OrderBookDepth10);
    }
    if venue_fits(config, v) && venue.book_type != BookType::L1_MBP {
        let d = choose|d: int|
            {
                let data = #[trigger] config.data@[d];
                &&& 0 <= d < config.data@.len()
                &&& data.data_type == NautilusDataType::OrderBookDelta || data.data_type
                    == NautilusDataType::OrderBookDepth10
                &&& data.instrument_ids matches Ok(ids) ==> ids@.len() == 0 || exists|j: int|
                    0 <= j < ids@.len() && (#[trigger] ids@[j]).venue@ == venue.name@
            };
        assert(provides_book(config.data@[d], venue.name@));
    }
}

/// A run config is accepted exactly when each of its data configs and each of its venues fits.
pub proof fn law_config_accepted_iff_every_part_fits(config: BacktestRunConfig)
    ensures
        run_config_error(config) is None <==> {
            &&& forall|d: int| 0 <= d < config.data@.len() ==> #[trigger] data_fits(config, d)
            &&& forall|v: int| 0 <= v < config.venues@.len() ==> #[trigger] venue_fits(config, v)
        },
{
    let data = data_checks(config);
    let venues = venue_checks(config);
    assert forall|d: int| 0 <= d < data.len() implies (#[trigger] data[d] is None <==> data_fits(
        config,
        d,
    )) by {
        law_data_outcome(config, d);
    }
    assert forall|v: int| 0 <= v < venues.len() implies (#[trigger] venues[v] is None
        <==> venue_fits(config, v)) by {
        law_venue_outcome(config, v);
    }
    if exists|d: int| 0 <= d < data.len() && #[trigger] data[d] is Some {
        let at = lemma_some_first(data);
        lemma_first_failure(data, at);
        assert(!data_fits(config, at));
    } else {
        lemma_no_failure(data);
        assert forall|d: int| 0 <= d < config.data@.len() implies #[trigger] data_fits(
            config,
            d,
        ) by {
            assert(data[d] is None);
        }
        if exists|v: int| 0 <= v < venues.len() && #[trigger] venues[v] is Some {
            let at = lemma_some_first(venues);
            lemma_first_failure(venues, at);
            assert(!venue_fits(config, at));
        } else {
            lemma_no_failure(venues);
            assert forall|v: int| 0 <= v < config.venues@.len() implies #[trigger] venue_fits(
                config,
                v,
            ) by {
                assert(venues[v] is None);
            }
        }
    }
}

/// A run config is refused for the first data config that does not fit, and only when all of
/// them do for the first venue that does not.
pub proof fn law_first_unfit_part_is_refused(config: BacktestRunConfig, at: int)
    ensures
        0 <= at < config.data@.len() && !data_fits(config, at) && (forall|d: int|
            0 <= d < at ==> #[trigger] data_fits(config, d)) ==> run_config_error(config)
            == data_error(config.venues@, config.data@[at]),
        0 <= at < config.venues@.len() && !venue_fits(config, at) && (forall|v: int|
            0 <= v < at ==> #[trigger] venue_fits(config, v)) && (forall|d: int|
            0 <= d < config.data@.len() ==> #[trigger] data_fits(config, d)) ==> run_config_error(
            config,
        ) == Some(
            NodeError::MissingBookData {
                venue: config.venues@[at].name,
                book_type: config.venues@[at].book_type,
            },
        ),
{
    let data = data_checks(config);
    let venues = venue_checks(config);
    if 0 <= at < config.data@.len() && !data_fits(config, at) && (forall|d: int|
        0 <= d < at ==> #[trigger] data_fits(config, d)) {
        law_data_outcome(config, at);
        assert forall|i: int| 0 <= i < at implies data[i] is None by {
            law_data_outcome(config, i);
            assert(data_fits(config, i));
        }
        lemma_first_failure(data, at);
    }
    if 0 <= at < config.venues@.len() && !venue_fits(config, at) && (forall|v: int|
        0 <= v < at ==> #[trigger] venue_fits(config, v)) && (forall|d: int|
        0 <= d < config.data@.len() ==> #[trigger] data_fits(config, d)) {
        assert forall|i: int| 0 <= i < data.len() implies data[i] is None by {
            law_data_outcome(config, i);
            assert(data_fits(config, i));
        }
        lemma_no_failure(data);
        law_venue_outcome(config, at);
        assert forall|i: int| 0 <= i < at implies venues[i] is None by {
            law_venue_outcome(config, i);
            assert(venue_fits(config, i));
        }
        lemma_first_failure(venues, at);
    }
}

/// Several run configs are refused for their number, one for what is wrong with it, and none
/// is never refused by the check of run configs.
pub proof fn law_configs_outcome(configs: Seq<BacktestRunConfig>)
    ensures
        configs.len() > 1 ==> validation_error(configs) == Some(NodeError::TooManyConfigs),
        configs.len() == 1 ==> validation_error(configs) == run_config_error(configs[0]),
        configs.len() == 0 ==> validation_error(configs) is None,
        as_result(validation_error(configs)) is Ok <==> validation_error(configs) is None,
        as_result(validation_error(configs)) matches Err(error) ==> validation_error(configs)
            == Some(error),
{
    let checks = config_checks(configs);
    if configs.len() == 1 {
        assert(!id_repeats(configs, 0));
        assert(checks[0] == run_config_error(configs[0]));
        if checks[0] is None {
            lemma_no_failure(checks);
        } else {
            lemma_first_failure(checks, 0);
        }
    }
}

} // verus!
