//! What is asked of a data catalog: where it is, and which data it is queried for.
use crate::catalog_laws::{asks_for, opened_at};
use crate::config::{copy_strings, BacktestDataConfig, NautilusDataType};
use crate::hashed::{options_clone, options_eq, options_of, StorageOptions};
use crate::time::{earlier, in_window, later, max_opt, min_opt, UnixNanos};
use vstd::prelude::*;
use vstd::string::*;

verus! {

/// Where a catalog is to be opened, and with which storage options.
#[derive(Debug)]
pub struct CatalogRequest {
    pub uri: String,
    pub storage_options: Option<StorageOptions>,
}

/// A catalog request by what its parts hold.
pub struct CatalogView {
    pub uri: Seq<char>,
    pub storage_options: Option<Map<Seq<char>, Seq<char>>>,
}

/// Which data an open catalog is queried for.
#[derive(Debug)]
pub struct DataQuery {
    pub data_type: NautilusDataType,
    pub identifiers: Option<Vec<String>>,
    pub start: Option<UnixNanos>,
    pub end: Option<UnixNanos>,
    pub filter: Option<String>,
    /// Whether files are registered by directory rather than one by one.
    pub optimize: bool,
    /// Whether the catalog forgets earlier queries first.
    pub fresh_session: bool,
}

/// A data query by what its parts hold.
pub struct QueryView {
    pub data_type: NautilusDataType,
    pub identifiers: Option<Seq<String>>,
    pub start: Option<UnixNanos>,
    pub end: Option<UnixNanos>,
    pub filter: Option<String>,
    pub optimize: bool,
    pub fresh_session: bool,
}

/// A query together with the catalog that it goes to.
#[derive(Debug)]
pub struct LoadRequest {
    pub catalog: CatalogRequest,
    pub query: DataQuery,
}

/// A load request by what its parts hold.
pub struct LoadView {
    pub catalog: CatalogView,
    pub query: QueryView,
}

/// What optional storage options hold.
pub open spec fn options_view(options: Option<StorageOptions>) -> Option<
    Map<Seq<char>, Seq<char>>,
> {
    match options {
        Some(o) => Some(options_of(o)),
        None => None,
    }
}

/// What an optional string holds.
pub open spec fn text_view(text: Option<String>) -> Option<Seq<char>> {
    match text {
        Some(t) => Some(t@),
        None => None,
    }
}

/// What an optional list holds.
pub open spec fn list_view(list: Option<Vec<String>>) -> Option<Seq<String>> {
    match list {
        Some(l) => Some(l@),
        None => None,
    }
}

impl View for CatalogRequest {
    type V = CatalogView;

    open spec fn view(&self) -> CatalogView {
        CatalogView { uri: self.uri@, storage_options: options_view(self.storage_options) }
    }
}

impl View for DataQuery {
    type V = QueryView;

    open spec fn view(&self) -> QueryView {
        QueryView {
            data_type: self.data_type,
            identifiers: list_view(self.identifiers),
            start: self.start,
            end: self.end,
            filter: self.filter,
            optimize: self.optimize,
            fresh_session: self.fresh_session,
        }
    }
}

impl View for LoadRequest {
    type V = LoadView;

    open spec fn view(&self) -> LoadView {
        LoadView { catalog: self.catalog@, query: self.query@ }
    }
}

/// The catalog of a data config: its path, behind its protocol if it has one, opened with
/// the options meant for Rust or else with the general ones.
pub open spec fn catalog_for(config: BacktestDataConfig) -> CatalogView {
    CatalogView {
        uri: match config.catalog_fs_protocol {
            Some(protocol) => protocol@ + "://"@ + config.catalog_path@,
            None => config.catalog_path@,
        },
        storage_options: match config.catalog_fs_rust_storage_options {
            Some(options) => Some(options_of(options)),
            None => options_view(config.catalog_fs_storage_options),
        },
    }
}

/// The query of a data config, within the time that both the config and the run leave open.
pub open spec fn query_for(
    config: BacktestDataConfig,
    run_start: Option<UnixNanos>,
    run_end: Option<UnixNanos>,
) -> QueryView {
    QueryView {
        data_type: config.data_type,
        identifiers: list_view(config.query_identifiers),
        start: later(config.start_time, run_start),
        end: earlier(config.end_time, run_end),
        filter: config.filter_expr,
        optimize: config.optimize_file_loading,
        fresh_session: true,
    }
}

/// The query of a data config as it joins others in one session: always by directory, and
/// without making the catalog forget the others.
pub open spec fn registration_for(
    config: BacktestDataConfig,
    run_start: Option<UnixNanos>,
    run_end: Option<UnixNanos>,
) -> QueryView {
    QueryView {
        optimize: true,
        fresh_session: false,
        ..query_for(config, run_start, run_end)
    }
}

/// What is loaded for a data config.
pub open spec fn load_for(
    config: BacktestDataConfig,
    run_start: Option<UnixNanos>,
    run_end: Option<UnixNanos>,
) -> LoadView {
    LoadView { catalog: catalog_for(config), query: query_for(config, run_start, run_end) }
}

/// Whether two data configs name one catalog backend: the same path, protocol and options.
pub open spec fn same_backend(a: BacktestDataConfig, b: BacktestDataConfig) -> bool {
    &&& a.catalog_path@ == b.catalog_path@
    &&& text_view(a.catalog_fs_protocol) == text_view(b.catalog_fs_protocol)
    &&& options_view(a.catalog_fs_storage_options) == options_view(b.catalog_fs_storage_options)
    &&& options_view(a.catalog_fs_rust_storage_options) == options_view(
        b.catalog_fs_rust_storage_options,
    )
}

/// Whether all data configs name the backend of the first.
pub open spec fn shares_backend(configs: Seq<BacktestDataConfig>) -> bool {
    forall|i: int| 0 <= i < configs.len() ==> same_backend(#[trigger] configs[i], configs[0])
}

/// Returns a copy of an optional string.
pub(crate) fn copy_text(text: &Option<String>) -> (r: Option<String>)
    ensures
        r == *text,
{
    match text {
        Some(t) => Some(t.clone()),
        None => None,
    }
}

/// Returns a copy of an optional list.
fn copy_list(list: &Option<Vec<String>>) -> (r: Option<Vec<String>>)
    ensures
        list_view(r) == list_view(*list),
{
    match list {
        Some(l) => Some(copy_strings(l)),
        None => None,
    }
}

/// Whether two optional strings are equal.
fn text_eq(a: &Option<String>, b: &Option<String>) -> (r: bool)
    ensures
        r == (text_view(*a) == text_view(*b)),
{
    match (a, b) {
        (Some(x), Some(y)) => *x == *y,
        (None, None) => true,
        _ => false,
    }
}

/// Whether two optional sets of storage options are equal.
fn optional_options_eq(a: &Option<StorageOptions>, b: &Option<StorageOptions>) -> (r: bool)
    ensures
        r == (options_view(*a) == options_view(*b)),
{
    match (a, b) {
        (Some(x), Some(y)) => options_eq(x, y),
        (None, None) => true,
        _ => false,
    }
}

/// Whether the data configs can be served from one catalog.
pub fn can_share_catalog(configs: &[BacktestDataConfig]) -> (r: bool)
    requires
        configs@.len() > 0,
    ensures
        r == shares_backend(configs@),
{
    let first = &configs[0];
    let mut i: usize = 0;
    while i < configs.len()
        invariant
            i <= configs.len(),
            *first == configs@[0],
            forall|j: int| 0 <= j < i ==> same_backend(#[trigger] configs@[j], configs@[0]),
        decreases configs.len() - i,
    {
        let config = &configs[i];
        if config.catalog_path != first.catalog_path || !text_eq(
            &config.catalog_fs_protocol,
            &first.catalog_fs_protocol,
        ) || !optional_options_eq(
            &config.catalog_fs_storage_options,
            &first.catalog_fs_storage_options,
        ) || !optional_options_eq(
            &config.catalog_fs_rust_storage_options,
            &first.catalog_fs_rust_storage_options,
        ) {
            assert(!same_backend(configs@[i as int], configs@[0]));
            return false;
        }
        i += 1;
    }
    true
}

/// Returns where the catalog of a data config is to be opened.
pub fn create_catalog(config: &BacktestDataConfig) -> (r: CatalogRequest)
    ensures
        r@ == catalog_for(*config),
        opened_at(r, *config),
{
    let uri = match &config.catalog_fs_protocol {
        Some(protocol) => {
            let mut uri = protocol.clone();
            uri.append("://");
            uri.append(config.catalog_path.as_str());
            uri
        },
        None => config.catalog_path.clone(),
    };
    let storage_options = match &config.catalog_fs_rust_storage_options {
        Some(options) => Some(options_clone(options)),
        None => match &config.catalog_fs_storage_options {
            Some(options) => Some(options_clone(options)),
            None => None,
        },
    };
    CatalogRequest { uri, storage_options }
}

/// Returns the query of a data config in a session of its own.
pub fn dispatch_query(
    config: &BacktestDataConfig,
    run_start: Option<UnixNanos>,
    run_end: Option<UnixNanos>,
) -> (r: DataQuery)
    ensures
        r@ == query_for(*config, run_start, run_end),
        r.data_type == config.data_type,
        r.identifiers is Some <==> config.query_identifiers is Some,
        r.identifiers matches Some(list) ==> list@ == config.query_identifiers->0@,
        r.filter == config.filter_expr,
        r.optimize == config.optimize_file_loading,
        r.fresh_session,
        asks_for(r, *config, run_start, run_end),
{
    DataQuery {
        data_type: config.data_type,
        identifiers: copy_list(&config.query_identifiers),
        start: max_opt(config.start_time, run_start),
        end: min_opt(config.end_time, run_end),
        filter: copy_text(&config.filter_expr),
        optimize: config.optimize_file_loading,
        fresh_session: true,
    }
}

/// Returns the query of a data config as it joins others in one session.
///
/// Files are always registered by directory here: with a table per file, the merge over
/// several kinds of data has been seen to hand items out of order.
pub fn dispatch_register_query(
    config: &BacktestDataConfig,
    run_start: Option<UnixNanos>,
    run_end: Option<UnixNanos>,
) -> (r: DataQuery)
    ensures
        r@ == registration_for(*config, run_start, run_end),
        r.data_type == config.data_type,
        r.identifiers is Some <==> config.query_identifiers is Some,
        r.identifiers matches Some(list) ==> list@ == config.query_identifiers->0@,
        r.filter == config.filter_expr,
        r.optimize,
        !r.fresh_session,
        asks_for(r, *config, run_start, run_end),
{
    DataQuery {
        data_type: config.data_type,
        identifiers: copy_list(&config.query_identifiers),
        start: max_opt(config.start_time, run_start),
        end: min_opt(config.end_time, run_end),
        filter: copy_text(&config.filter_expr),
        optimize: true,
        fresh_session: false,
    }
}

/// Returns what is to be loaded for a data config.
pub fn load_data(
    config: &BacktestDataConfig,
    run_start: Option<UnixNanos>,
    run_end: Option<UnixNanos>,
) -> (r: LoadRequest)
    ensures
        r@ == load_for(*config, run_start, run_end),
        opened_at(r.catalog, *config),
        asks_for(r.query, *config, run_start, run_end),
{
    LoadRequest {
        catalog: create_catalog(config),
        query: dispatch_query(config, run_start, run_end),
    }
}

/// Data configs that share a backend share it pairwise, so each of them, and not only the
/// first, names the catalog that is opened for all.
pub proof fn law_shared_backend_is_one_catalog(configs: Seq<BacktestDataConfig>, i: int, j: int)
    requires
        shares_backend(configs),
        0 <= i < configs.len(),
        0 <= j < configs.len(),
    ensures
        same_backend(configs[i], configs[j]),
        catalog_for(configs[i]) == catalog_for(configs[j]),
{
    assert(same_backend(configs[i], configs[0]));
    assert(same_backend(configs[j], configs[0]));
}

/// A query that joins others asks for the same data as one in a session of its own.
pub proof fn law_registration_asks_for_the_same_data(
    config: BacktestDataConfig,
    run_start: Option<UnixNanos>,
    run_end: Option<UnixNanos>,
)
    ensures
        ({
            let alone = query_for(config, run_start, run_end);
            let joined = registration_for(config, run_start, run_end);
            &&& joined.data_type == alone.data_type
            &&& joined.identifiers == alone.identifiers
            &&& joined.start == alone.start
            &&& joined.end == alone.end
            &&& joined.filter == alone.filter
            &&& joined.optimize
            &&& !joined.fresh_session
        }),
{
}

/// A query asks for a point in time exactly where both the data config and the run do.
pub proof fn law_query_within_both_windows(
    config: BacktestDataConfig,
    run_start: Option<UnixNanos>,
    run_end: Option<UnixNanos>,
    at: int,
)
    ensures
        ({
            let query = query_for(config, run_start, run_end);
            in_window(at, query.start, query.end) <==> in_window(
                at,
                config.start_time,
                config.end_time,
            ) && in_window(at, run_start, run_end)
        }),
{
}

} // verus!
