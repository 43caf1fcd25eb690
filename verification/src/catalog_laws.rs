//! What holds of every catalog that is opened and every query that is made, told by the
//! settings of the data config and by the fields of what is returned.
use crate::catalog::{
    catalog_for, load_for, query_for, registration_for, shares_backend, CatalogRequest, DataQuery,
    LoadRequest,
};
use crate::config::BacktestDataConfig;
use crate::hashed::{options_of, StorageOptions};
use crate::time::{earlier, later, UnixNanos};
use vstd::prelude::*;

verus! {

/// Whether two optional texts read alike.
pub open spec fn texts_agree(a: Option<String>, b: Option<String>) -> bool {
    match (a, b) {
        (Some(x), Some(y)) => x@ == y@,
        (None, None) => true,
        _ => false,
    }
}

/// Whether two optional lists of texts have as many entries, which read alike one by one.
pub open spec fn lists_agree(a: Option<Vec<String>>, b: Option<Vec<String>>) -> bool {
    match (a, b) {
        (Some(x), Some(y)) => x@.len() == y@.len() && forall|i: int|
            0 <= i < x@.len() ==> (#[trigger] x@[i])@ == y@[i]@,
        (None, None) => true,
        _ => false,
    }
}

/// Whether two optional sets of storage options hold the same.
pub open spec fn options_agree(a: Option<StorageOptions>, b: Option<StorageOptions>) -> bool {
    match (a, b) {
        (Some(x), Some(y)) => options_of(x) == options_of(y),
        (None, None) => true,
        _ => false,
    }
}

/// Whether a catalog is opened where a data config says: at its path, behind its protocol if
/// it has one, with its options for Rust, or else with its general ones.
pub open spec fn opened_at(request: CatalogRequest, config: BacktestDataConfig) -> bool {
    &&& match config.catalog_fs_protocol {
        Some(protocol) => request.uri@ == protocol@ + "://"@ + config.catalog_path@,
        None => request.uri@ == config.catalog_path@,
    }
    &&& if config.catalog_fs_rust_storage_options is Some {
        options_agree(request.storage_options, config.catalog_fs_rust_storage_options)
    } else {
        options_agree(request.storage_options, config.catalog_fs_storage_options)
    }
}

/// Whether a bound is the tighter of two: no bound where there is none, and otherwise one of
/// them that neither of them goes beyond.
pub open spec fn starts_within(
    bound: Option<UnixNanos>,
    a: Option<UnixNanos>,
    b: Option<UnixNanos>,
) -> bool {
    &&& bound is None <==> a is None && b is None
    &&& bound is Some ==> bound == a || bound == b
    &&& a is Some ==> a->0 <= bound->0
    &&& b is Some ==> b->0 <= bound->0
}

/// The same for ends.
pub open spec fn ends_within(
    bound: Option<UnixNanos>,
    a: Option<UnixNanos>,
    b: Option<UnixNanos>,
) -> bool {
    &&& bound is None <==> a is None && b is None
    &&& bound is Some ==> bound == a || bound == b
    &&& a is Some ==> bound->0 <= a->0
    &&& b is Some ==> bound->0 <= b->0
}

/// Whether a query asks for the data of a data config within a run: its kind of data, its
/// identifiers, its filter, and the time that both leave open.
pub open spec fn asks_for(
    query: DataQuery,
    config: BacktestDataConfig,
    run_start: Option<UnixNanos>,
    run_end: Option<UnixNanos>,
) -> bool {
    &&& query.data_type == config.data_type
    &&& lists_agree(query.identifiers, config.query_identifiers)
    &&& texts_agree(query.filter, config.filter_expr)
    &&& starts_within(query.start, config.start_time, run_start)
    &&& ends_within(query.end, config.end_time, run_end)
}

/// The later of two starts is a bound exactly where there is one, is one of the two, and lies
/// before neither; the earlier of two ends lies behind neither.
pub proof fn law_tighter_bounds(a: Option<UnixNanos>, b: Option<UnixNanos>)
    ensures
        starts_within(later(a, b), a, b),
        ends_within(earlier(a, b), a, b),
        later(a, b) == later(b, a),
        earlier(a, b) == earlier(b, a),
{
}

/// The catalog of a data config is opened at the path, behind the protocol, and with the
/// options that the data config itself names.
pub proof fn law_catalog_is_the_one_configured(config: BacktestDataConfig, request: CatalogRequest)
    requires
        request@ == catalog_for(config),
    ensures
        config.catalog_fs_protocol is None ==> request.uri@ == config.catalog_path@,
        config.catalog_fs_protocol matches Some(protocol) ==> request.uri@ == protocol@ + "://"@
            + config.catalog_path@,
        config.catalog_fs_rust_storage_options matches Some(options) ==> {
            &&& request.storage_options is Some
            &&& options_of(request.storage_options->0) == options_of(options)
        },
        config.catalog_fs_rust_storage_options is None ==> {
            &&& request.storage_options is Some <==> config.catalog_fs_storage_options is Some
            &&& config.catalog_fs_storage_options matches Some(options) ==> options_of(
                request.storage_options->0,
            ) == options_of(options)
        },
        opened_at(request, config),
{
}

/// A query of its own asks for the kind of data, the identifiers and the filter of its data
/// config, whatever the others of these are; by file or by directory as the data config says;
/// and in a fresh session.
pub proof fn law_query_asks_for_what_is_configured(
    config: BacktestDataConfig,
    run_start: Option<UnixNanos>,
    run_end: Option<UnixNanos>,
    query: DataQuery,
)
    requires
        query@ == query_for(config, run_start, run_end),
    ensures
        query.data_type == config.data_type,
        query.identifiers is Some <==> config.query_identifiers is Some,
        query.identifiers matches Some(list) ==> {
            &&& list@.len() == config.query_identifiers->0@.len()
            &&& forall|i: int|
                0 <= i < list@.len() ==> (#[trigger] list@[i])@
                    == config.query_identifiers->0@[i]@
        },
        query.filter is Some <==> config.filter_expr is Some,
        query.filter is Some ==> query.filter->0@ == config.filter_expr->0@,
        query.start is None <==> config.start_time is None && run_start is None,
        query.start is Some ==> query.start == config.start_time || query.start == run_start,
        config.start_time is Some ==> config.start_time->0 <= query.start->0,
        run_start is Some ==> run_start->0 <= query.start->0,
        query.end is None <==> config.end_time is None && run_end is None,
        query.end is Some ==> query.end == config.end_time || query.end == run_end,
        config.end_time is Some ==> query.end->0 <= config.end_time->0,
        run_end is Some ==> query.end->0 <= run_end->0,
        query.optimize == config.optimize_file_loading,
        query.fresh_session,
        asks_for(query, config, run_start, run_end),
{
}

/// A query that joins others asks for the kind of data, the identifiers and the filter of its
/// data config, whatever the others of these are; by directory; and in the session at hand.
pub proof fn law_registration_asks_for_what_is_configured(
    config: BacktestDataConfig,
    run_start: Option<UnixNanos>,
    run_end: Option<UnixNanos>,
    query: DataQuery,
)
    requires
        query@ == registration_for(config, run_start, run_end),
    ensures
        query.data_type == config.data_type,
        query.identifiers is Some <==> config.query_identifiers is Some,
        query.identifiers matches Some(list) ==> {
            &&& list@.len() == config.query_identifiers->0@.len()
            &&& forall|i: int|
                0 <= i < list@.len() ==> (#[trigger] list@[i])@
                    == config.query_identifiers->0@[i]@
        },
        query.filter is Some <==> config.filter_expr is Some,
        query.filter is Some ==> query.filter->0@ == config.filter_expr->0@,
        query.start is None <==> config.start_time is None && run_start is None,
        query.start is Some ==> query.start == config.start_time || query.start == run_start,
        config.start_time is Some ==> config.start_time->0 <= query.start->0,
        run_start is Some ==> run_start->0 <= query.start->0,
        query.end is None <==> config.end_time is None && run_end is None,
        query.end is Some ==> query.end == config.end_time || query.end == run_end,
        config.end_time is Some ==> query.end->0 <= config.end_time->0,
        run_end is Some ==> query.end->0 <= run_end->0,
        query.optimize,
        !query.fresh_session,
        asks_for(query, config, run_start, run_end),
{
}

/// What is loaded for a data config is asked of the catalog that it names, in a fresh session.
pub proof fn law_load_goes_to_its_own_catalog(
    config: BacktestDataConfig,
    run_start: Option<UnixNanos>,
    run_end: Option<UnixNanos>,
    request: LoadRequest,
)
    requires
        request@ == load_for(config, run_start, run_end),
    ensures
        opened_at(request.catalog, config),
        asks_for(request.query, config, run_start, run_end),
        request.query.optimize == config.optimize_file_loading,
        request.query.fresh_session,
{
    law_catalog_is_the_one_configured(config, request.catalog);
    law_query_asks_for_what_is_configured(config, run_start, run_end, request.query);
}

/// Queries tell data configs apart: two data configs with the same query, whatever the runs,
/// ask for the same kind of data, the same identifiers and the same filter.
pub proof fn law_queries_tell_configs_apart(
    a: BacktestDataConfig,
    b: BacktestDataConfig,
    run_start: Option<UnixNanos>,
    run_end: Option<UnixNanos>,
    other_start: Option<UnixNanos>,
    other_end: Option<UnixNanos>,
)
    requires
        query_for(a, run_start, run_end) == query_for(b, other_start, other_end)
            || registration_for(a, run_start, run_end) == registration_for(
            b,
            other_start,
            other_end,
        ),
    ensures
        a.data_type == b.data_type,
        lists_agree(a.query_identifiers, b.query_identifiers),
        texts_agree(a.filter_expr, b.filter_expr),
{
}

/// Catalogs tell data configs apart: two data configs of one protocol, or of none, that open
/// catalogs at one place have one path.
pub proof fn law_catalogs_tell_configs_apart(
    a: BacktestDataConfig,
    b: BacktestDataConfig,
    first: CatalogRequest,
    second: CatalogRequest,
)
    requires
        first@ == catalog_for(a),
        second@ == catalog_for(b),
        texts_agree(a.catalog_fs_protocol, b.catalog_fs_protocol),
        first.uri@ == second.uri@,
    ensures
        a.catalog_path@ == b.catalog_path@,
{
    if let Some(protocol) = a.catalog_fs_protocol {
        let front = protocol@ + "://"@;
        let n = front.len() as int;
        assert(first.uri@ =~= front + a.catalog_path@);
        assert(second.uri@ =~= front + b.catalog_path@);
        assert(a.catalog_path@ =~= first.uri@.skip(n));
        assert(b.catalog_path@ =~= second.uri@.skip(n));
    }
}

/// Data configs share a catalog exactly when any two of them have the same path, the same
/// protocol and the same options of both kinds.
pub proof fn law_shared_iff_settings_agree(configs: Seq<BacktestDataConfig>)
    ensures
        shares_backend(configs) <==> forall|i: int, j: int|
            #![trigger configs[i], configs[j]]
            0 <= i < configs.len() && 0 <= j < configs.len() ==> {
                &&& configs[i].catalog_path@ == configs[j].catalog_path@
                &&& texts_agree(configs[i].catalog_fs_protocol, configs[j].catalog_fs_protocol)
                &&& options_agree(
                    configs[i].catalog_fs_storage_options,
                    configs[j].catalog_fs_storage_options,
                )
                &&& options_agree(
                    configs[i].catalog_fs_rust_storage_options,
                    configs[j].catalog_fs_rust_storage_options,
                )
            },
{
    if shares_backend(configs) {
        assert forall|i: int, j: int|
            #![trigger configs[i], configs[j]]
            0 <= i < configs.len() && 0 <= j < configs.len() implies {
            &&& configs[i].catalog_path@ == configs[j].catalog_path@
            &&& texts_agree(configs[i].catalog_fs_protocol, configs[j].catalog_fs_protocol)
            &&& options_agree(
                configs[i].catalog_fs_storage_options,
                configs[j].catalog_fs_storage_options,
            )
            &&& options_agree(
                configs[i].catalog_fs_rust_storage_options,
                configs[j].catalog_fs_rust_storage_options,
            )
        } by {
            crate::catalog::law_shared_backend_is_one_catalog(configs, i, j);
        }
    }
}

} // verus!
