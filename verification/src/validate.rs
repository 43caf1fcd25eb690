//! Checks that run configurations are complete and consistent.
use crate::config::{
    BacktestDataConfig, BacktestRunConfig, BacktestVenueConfig, BookType, InstrumentId,
    NautilusDataType,
};
use crate::error::NodeError;
use crate::hashed::{names_insert, names_new, names_of};
use vstd::prelude::*;

verus! {

/// The first error in a row of checks, if any of them failed.
pub open spec fn first_error(checks: Seq<Option<NodeError>>) -> Option<NodeError>
    decreases checks.len(),
{
    if checks.len() == 0 {
        None
    } else if checks[0] is Some {
        checks[0]
    } else {
        first_error(checks.skip(1))
    }
}

/// A row of checks in which those before position `at` passed has the first error of the rest.
proof fn lemma_first_error_skip(checks: Seq<Option<NodeError>>, at: int)
    requires
        0 <= at <= checks.len(),
        forall|i: int| 0 <= i < at ==> checks[i] is None,
    ensures
        first_error(checks) == first_error(checks.skip(at)),
    decreases at,
{
    if at == 0 {
        assert(checks.skip(0) =~= checks);
    } else {
        lemma_first_error_skip(checks.skip(1), at - 1);
        assert(checks.skip(1).skip(at - 1) =~= checks.skip(at));
    }
}

/// A check that fails after checks that passed is the first error.
proof fn lemma_first_error_at(checks: Seq<Option<NodeError>>, at: int)
    requires
        0 <= at < checks.len(),
        forall|i: int| 0 <= i < at ==> checks[i] is None,
        checks[at] is Some,
    ensures
        first_error(checks) == checks[at],
{
    lemma_first_error_skip(checks, at);
    assert(checks.skip(at)[0] == checks[at]);
}

/// Checks that all passed have no first error.
proof fn lemma_first_error_none(checks: Seq<Option<NodeError>>)
    requires
        forall|i: int| 0 <= i < checks.len() ==> checks[i] is None,
    ensures
        first_error(checks) is None,
{
    lemma_first_error_skip(checks, checks.len() as int);
}

/// A row of checks has no first error exactly when all of them passed.
proof fn lemma_first_error_none_iff(checks: Seq<Option<NodeError>>)
    ensures
        first_error(checks) is None <==> forall|i: int|
            0 <= i < checks.len() ==> #[trigger] checks[i] is None,
    decreases checks.len(),
{
    if checks.len() > 0 && checks[0] is None {
        lemma_first_error_none_iff(checks.skip(1));
        if first_error(checks) is None {
            assert forall|i: int| 0 <= i < checks.len() implies #[trigger] checks[i] is None by {
                if i > 0 {
                    assert(checks.skip(1)[i - 1] is None);
                }
            }
        }
    }
}

/// Whether a venue of this name is configured.
pub open spec fn venue_configured(venues: Seq<BacktestVenueConfig>, name: Seq<char>) -> bool {
    exists|k: int| 0 <= k < venues.len() && (#[trigger] venues[k]).name@ == name
}

/// Checks that the venue of an instrument is configured.
pub open spec fn instrument_error(
    venues: Seq<BacktestVenueConfig>,
    instrument: InstrumentId,
) -> Option<NodeError> {
    if venue_configured(venues, instrument.venue@) {
        None
    } else {
        Some(NodeError::MissingVenue { instrument })
    }
}

/// Checks the time range of a data config, and then its instruments in order.
pub open spec fn data_error(
    venues: Seq<BacktestVenueConfig>,
    data: BacktestDataConfig,
) -> Option<NodeError> {
    if data.start_time is Some && data.end_time is Some && data.start_time->0 > data.end_time->0 {
        Some(NodeError::InvalidTimeRange { start: data.start_time->0, end: data.end_time->0 })
    } else {
        match data.instrument_ids {
            Err(message) => Some(NodeError::Outside { message }),
            Ok(ids) => first_error(
                Seq::new(ids@.len(), |k: int| instrument_error(venues, ids@[k])),
            ),
        }
    }
}

/// Whether a data config provides order book data for a venue: it names instruments of
/// the venue, or none at all, which stands for every instrument.
pub open spec fn provides_book(data: BacktestDataConfig, venue: Seq<char>) -> bool {
    &&& data.data_type.is_book()
    &&& match data.instrument_ids {
        Err(_) => true,
        Ok(ids) => ids@.len() == 0 || exists|k: int|
            0 <= k < ids@.len() && (#[trigger] ids@[k]).venue@ == venue,
    }
}

/// Whether some data config provides order book data for a venue.
pub open spec fn book_provided(data: Seq<BacktestDataConfig>, venue: Seq<char>) -> bool {
    exists|d: int| 0 <= d < data.len() && provides_book(#[trigger] data[d], venue)
}

/// Checks that a venue with deep books is provided with order book data.
pub open spec fn venue_error(
    data: Seq<BacktestDataConfig>,
    venue: BacktestVenueConfig,
) -> Option<NodeError> {
    if venue.book_type.needs_book_data() && !book_provided(data, venue.name@) {
        Some(NodeError::MissingBookData { venue: venue.name, book_type: venue.book_type })
    } else {
        None
    }
}

/// The data configs of a run, each checked.
pub open spec fn data_checks(config: BacktestRunConfig) -> Seq<Option<NodeError>> {
    Seq::new(config.data@.len(), |d: int| data_error(config.venues@, config.data@[d]))
}

/// The venues of a run, each checked.
pub open spec fn venue_checks(config: BacktestRunConfig) -> Seq<Option<NodeError>> {
    Seq::new(config.venues@.len(), |v: int| venue_error(config.data@, config.venues@[v]))
}

/// Checks the data configs of a run, and then its venues.
pub open spec fn run_config_error(config: BacktestRunConfig) -> Option<NodeError> {
    match first_error(data_checks(config)) {
        Some(e) => Some(e),
        None => first_error(venue_checks(config)),
    }
}

/// Whether a run config has the ID of one before it.
pub open spec fn id_repeats(configs: Seq<BacktestRunConfig>, at: int) -> bool {
    exists|j: int| 0 <= j < at && (#[trigger] configs[j]).id@ == configs[at].id@
}

/// The run configs, each checked: first its ID, and then what it configures.
pub open spec fn config_checks(configs: Seq<BacktestRunConfig>) -> Seq<Option<NodeError>> {
    Seq::new(
        configs.len(),
        |i: int|
            if id_repeats(configs, i) {
                Some(NodeError::DuplicateId { id: configs[i].id })
            } else {
                run_config_error(configs[i])
            },
    )
}

/// Checks the number of run configs, and then each of them in order.
pub open spec fn validation_error(configs: Seq<BacktestRunConfig>) -> Option<NodeError> {
    if configs.len() > 1 {
        Some(NodeError::TooManyConfigs)
    } else {
        first_error(config_checks(configs))
    }
}

/// Whether a data config does not end before it starts, and names only instruments that
/// trade on configured venues.
pub open spec fn data_consistent(
    venues: Seq<BacktestVenueConfig>,
    data: BacktestDataConfig,
) -> bool {
    &&& data.start_time is Some && data.end_time is Some ==> data.start_time->0
        <= data.end_time->0
    &&& data.instrument_ids matches Ok(ids) && forall|k: int|
        0 <= k < ids@.len() ==> venue_configured(venues, (#[trigger] ids@[k]).venue@)
}

/// Whether a run config is consistent: its data configs are, and each venue with deep books
/// is provided with order book data.
pub open spec fn consistent(config: BacktestRunConfig) -> bool {
    &&& forall|d: int|
        0 <= d < config.data@.len() ==> data_consistent(config.venues@, #[trigger] config.data@[d])
    &&& forall|v: int|
        0 <= v < config.venues@.len() && (#[trigger] config.venues@[v]).book_type.needs_book_data()
            ==> book_provided(config.data@, config.venues@[v].name@)
}

/// A data config is accepted exactly when it is consistent.
proof fn lemma_data_accepted_iff(venues: Seq<BacktestVenueConfig>, data: BacktestDataConfig)
    ensures
        data_error(venues, data) is None <==> data_consistent(venues, data),
{
    if let Ok(ids) = data.instrument_ids {
        let checks = Seq::new(ids@.len(), |k: int| instrument_error(venues, ids@[k]));
        lemma_first_error_none_iff(checks);
        if data_consistent(venues, data) {
            assert forall|k: int| 0 <= k < checks.len() implies #[trigger] checks[k] is None by {
                assert(venue_configured(venues, ids@[k].venue@));
            }
        }
        if first_error(checks) is None {
            assert forall|k: int| 0 <= k < ids@.len() implies venue_configured(
                venues,
                (#[trigger] ids@[k]).venue@,
            ) by {
                assert(checks[k] is None);
            }
        }
    }
}

/// A run config is accepted exactly when it is consistent.
pub proof fn law_config_accepted_iff_consistent(config: BacktestRunConfig)
    ensures
        run_config_error(config) is None <==> consistent(config),
{
    let data = data_checks(config);
    let venues = venue_checks(config);
    lemma_first_error_none_iff(data);
    lemma_first_error_none_iff(venues);
    assert forall|d: int| 0 <= d < config.data@.len() implies (#[trigger] data[d] is None
        <==> data_consistent(config.venues@, config.data@[d])) by {
        lemma_data_accepted_iff(config.venues@, config.data@[d]);
    }
    if consistent(config) {
        assert forall|d: int| 0 <= d < data.len() implies #[trigger] data[d] is None by {
            assert(data_consistent(config.venues@, config.data@[d]));
        }
        assert forall|v: int| 0 <= v < venues.len() implies #[trigger] venues[v] is None by {
            assert(config.venues@[v].book_type.needs_book_data() ==> book_provided(
                config.data@,
                config.venues@[v].name@,
            ));
        }
    }
    if run_config_error(config) is None {
        assert forall|d: int| 0 <= d < config.data@.len() implies data_consistent(
            config.venues@,
            #[trigger] config.data@[d],
        ) by {
            assert(data[d] is None);
        }
        assert forall|v: int|
            0 <= v < config.venues@.len() && (
            #[trigger] config.venues@[v]).book_type.needs_book_data() implies book_provided(
            config.data@,
            config.venues@[v].name@,
        ) by {
            assert(venues[v] is None);
        }
    }
}

/// Run configs are accepted exactly when there is at most one, and it is consistent.
pub proof fn law_accepted_iff_consistent(configs: Seq<BacktestRunConfig>)
    ensures
        validation_error(configs) is None <==> configs.len() <= 1 && forall|i: int|
            0 <= i < configs.len() ==> consistent(#[trigger] configs[i]),
{
    if configs.len() <= 1 {
        let checks = config_checks(configs);
        lemma_first_error_none_iff(checks);
        if configs.len() == 1 {
            law_config_accepted_iff_consistent(configs[0]);
            assert(checks[0] == run_config_error(configs[0])) by {
                assert(!id_repeats(configs, 0));
            }
            if validation_error(configs) is None {
                assert(checks[0] is None);
            } else if consistent(configs[0]) {
                assert(forall|i: int| 0 <= i < checks.len() ==> #[trigger] checks[i] is None);
            }
        }
    }
}

/// The outcome of a check as a result.
pub open spec fn as_result(error: Option<NodeError>) -> Result<(), NodeError> {
    match error {
        None => Ok(()),
        Some(e) => Err(e),
    }
}

/// Whether a venue of this name is configured.
fn has_venue(venues: &Vec<BacktestVenueConfig>, name: &String) -> (r: bool)
    ensures
        r == venue_configured(venues@, name@),
{
    let mut k: usize = 0;
    while k < venues.len()
        invariant
            k <= venues.len(),
            forall|j: int| 0 <= j < k ==> (#[trigger] venues@[j]).name@ != name@,
        decreases venues.len() - k,
    {
        if venues[k].name == *name {
            return true;
        }
        k += 1;
    }
    false
}

/// Checks the time range of a data config, and then its instruments in order.
pub fn validate_data_config(
    venues: &Vec<BacktestVenueConfig>,
    data: &BacktestDataConfig,
) -> (r: Result<(), NodeError>)
    ensures
        r == as_result(data_error(venues@, *data)),
{
    if let (Some(start), Some(end)) = (data.start_time, data.end_time) {
        if start > end {
            return Err(NodeError::InvalidTimeRange { start, end });
        }
    }
    match &data.instrument_ids {
        Err(message) => Err(NodeError::Outside { message: message.clone() }),
        Ok(ids) => {
            let ghost checks = Seq::new(
                ids@.len(),
                |k: int| instrument_error(venues@, ids@[k]),
            );
            let mut k: usize = 0;
            while k < ids.len()
                invariant
                    k <= ids.len(),
                    checks == Seq::new(ids@.len(), |k: int| instrument_error(venues@, ids@[k])),
                    forall|j: int| 0 <= j < k ==> checks[j] is None,
                    data.instrument_ids == Ok::<Vec<InstrumentId>, String>(*ids),
                    data_error(venues@, *data) == first_error(checks),
                decreases ids.len() - k,
            {
                if !has_venue(venues, &ids[k].venue) {
                    proof {
                        lemma_first_error_at(checks, k as int);
                    }
                    return Err(NodeError::MissingVenue { instrument: ids[k].duplicate() });
                }
                k += 1;
            }
            proof {
                lemma_first_error_none(checks);
            }
            Ok(())
        },
    }
}

/// Whether a data config provides order book data for a venue.
fn covers_book(data: &BacktestDataConfig, venue: &String) -> (r: bool)
    ensures
        r == provides_book(*data, venue@),
{
    match data.data_type {
        NautilusDataType::OrderBookDelta | NautilusDataType::OrderBookDepth10 => {},
        _ => {
            return false;
        },
    }
    match &data.instrument_ids {
        Err(_) => true,
        Ok(ids) => {
            let mut k: usize = 0;
            while k < ids.len()
                invariant
                    k <= ids.len(),
                    forall|j: int| 0 <= j < k ==> (#[trigger] ids@[j]).venue@ != venue@,
                    data.instrument_ids == Ok::<Vec<InstrumentId>, String>(*ids),
                    data.data_type.is_book(),
                decreases ids.len() - k,
            {
                if ids[k].venue == *venue {
                    return true;
                }
                k += 1;
            }
            ids.len() == 0
        },
    }
}

/// Checks that a venue with deep books is provided with order book data.
pub fn validate_venue_config(
    data: &Vec<BacktestDataConfig>,
    venue: &BacktestVenueConfig,
) -> (r: Result<(), NodeError>)
    ensures
        r == as_result(venue_error(data@, *venue)),
{
    match venue.book_type {
        BookType::L2_MBP | BookType::L3_MBO => {},
        _ => {
            return Ok(());
        },
    }
    let mut d: usize = 0;
    while d < data.len()
        invariant
            d <= data.len(),
            forall|j: int| 0 <= j < d ==> !provides_book(#[trigger] data@[j], venue.name@),
        decreases data.len() - d,
    {
        if covers_book(&data[d], &venue.name) {
            return Ok(());
        }
        d += 1;
    }
    Err(NodeError::MissingBookData { venue: venue.name.clone(), book_type: venue.book_type })
}

/// Checks the data configs of a run, and then its venues.
pub fn validate_run_config(config: &BacktestRunConfig) -> (r: Result<(), NodeError>)
    ensures
        r == as_result(run_config_error(*config)),
{
    let mut d: usize = 0;
    while d < config.data.len()
        invariant
            d <= config.data.len(),
            forall|j: int| 0 <= j < d ==> data_checks(*config)[j] is None,
        decreases config.data.len() - d,
    {
        match validate_data_config(&config.venues, &config.data[d]) {
            Ok(()) => {},
            Err(e) => {
                proof {
                    lemma_first_error_at(data_checks(*config), d as int);
                }
                return Err(e);
            },
        }
        d += 1;
    }
    proof {
        lemma_first_error_none(data_checks(*config));
    }
    let mut v: usize = 0;
    while v < config.venues.len()
        invariant
            v <= config.venues.len(),
            first_error(data_checks(*config)) is None,
            forall|j: int| 0 <= j < v ==> venue_checks(*config)[j] is None,
        decreases config.venues.len() - v,
    {
        match validate_venue_config(&config.data, &config.venues[v]) {
            Ok(()) => {},
            Err(e) => {
                proof {
                    lemma_first_error_at(venue_checks(*config), v as int);
                }
                return Err(e);
            },
        }
        v += 1;
    }
    proof {
        lemma_first_error_none(venue_checks(*config));
    }
    Ok(())
}

/// Checks that there is at most one run config, that no ID repeats, and that each config
/// is consistent: time ranges do not end before they start, every instrument trades on a
/// configured venue, and every venue with deep books is provided with order book data.
pub fn validate_configs(configs: &[BacktestRunConfig]) -> (r: Result<(), NodeError>)
    ensures
        r == as_result(validation_error(configs@)),
        r is Ok <==> configs@.len() <= 1 && forall|i: int|
            0 <= i < configs@.len() ==> consistent(#[trigger] configs@[i]),
{
    proof {
        law_accepted_iff_consistent(configs@);
    }
    if configs.len() > 1 {
        return Err(NodeError::TooManyConfigs);
    }
    let ghost checks = config_checks(configs@);
    let mut seen = names_new();
    let mut i: usize = 0;
    while i < configs.len()
        invariant
            i <= configs.len() <= 1,
            checks == config_checks(configs@),
            forall|j: int| 0 <= j < i ==> checks[j] is None,
            forall|name: Seq<char>| #[trigger]
                names_of(seen).contains(name) <==> exists|j: int|
                    0 <= j < i && (#[trigger] configs@[j]).id@ == name,
        decreases configs.len() - i,
    {
        let ghost before = names_of(seen);
        let fresh = names_insert(&mut seen, configs[i].id.clone());
        assert(fresh == !id_repeats(configs@, i as int));
        if !fresh {
            proof {
                lemma_first_error_at(checks, i as int);
                law_accepted_iff_consistent(configs@);
            }
            return Err(NodeError::DuplicateId { id: configs[i].id.clone() });
        }
        match validate_run_config(&configs[i]) {
            Ok(()) => {},
            Err(e) => {
                proof {
                    lemma_first_error_at(checks, i as int);
                    law_accepted_iff_consistent(configs@);
                }
                return Err(e);
            },
        }
        assert forall|name: Seq<char>| #[trigger]
            names_of(seen).contains(name) <==> exists|j: int|
                0 <= j < i + 1 && (#[trigger] configs@[j]).id@ == name by {
            if names_of(seen).contains(name) {
                if name == configs@[i as int].id@ {
                    assert(configs@[i as int].id@ == name);
                } else {
                    assert(before.contains(name));
                }
            }
            if exists|j: int| 0 <= j < i + 1 && (#[trigger] configs@[j]).id@ == name {
                let j = choose|j: int| 0 <= j < i + 1 && (#[trigger] configs@[j]).id@ == name;
                if j < i {
                    assert(before.contains(name));
                }
            }
        }
        i += 1;
    }
    proof {
        lemma_first_error_none(checks);
    }
    Ok(())
}

} // verus!
