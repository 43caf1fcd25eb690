//! What the views of requests and calls tell: everything that those hold.
use crate::catalog::{CatalogRequest, DataQuery, LoadRequest};
use crate::hashed::options_of;
use crate::run::{RunAction, RunActionView};
use crate::step::{ActionView, EngineCall, SourceView, StepAction, StreamSource};
use vstd::prelude::*;

verus! {

/// The view of an engine call tells which call it is and all that it holds.
pub proof fn law_call_view_tells_all<T>(call: EngineCall<T>)
    ensures
        match call {
            EngineCall::AddData { data, client_id, validate, sort } => {
                &&& call@ is AddData
                &&& call@->data == data@
                &&& call@->client_id == client_id
                &&& call@->validate == validate
                &&& call@->sort == sort
            },
            EngineCall::SortData => call@ is SortData,
            EngineCall::Run { start, end, run_id, streaming } => {
                &&& call@ is Run
                &&& call@->start == start
                &&& call@->end == end
                &&& call@->run_id == run_id
                &&& call@->streaming == streaming
            },
            EngineCall::ClearData => call@ is ClearData,
            EngineCall::End => call@ is End,
        },
{
}

/// The view of a catalog request tells all that it holds.
pub proof fn law_catalog_view_tells_all(request: CatalogRequest)
    ensures
        request@.uri == request.uri@,
        request@.storage_options is Some <==> request.storage_options is Some,
        request.storage_options is Some ==> request@.storage_options->0 == options_of(
            request.storage_options->0,
        ),
{
}

/// The view of a query tells all that it holds.
pub proof fn law_query_view_tells_all(query: DataQuery)
    ensures
        query@.data_type == query.data_type,
        query@.identifiers is Some <==> query.identifiers is Some,
        query.identifiers is Some ==> query@.identifiers->0 == query.identifiers->0@,
        query@.start == query.start,
        query@.end == query.end,
        query@.filter == query.filter,
        query@.optimize == query.optimize,
        query@.fresh_session == query.fresh_session,
{
}

/// The view of a load request tells all that it holds.
pub proof fn law_load_view_tells_all(request: LoadRequest)
    ensures
        request@.catalog == request.catalog@,
        request@.query == request.query@,
{
}

/// The view of a source tells where its items come from and all that it holds.
pub proof fn law_source_view_tells_all<T>(source: StreamSource<T>)
    ensures
        match source {
            StreamSource::Query(request) => source@ == SourceView::<T>::Query(request@),
            StreamSource::Shared { catalog, fresh_session, queries } => {
                &&& source@ is Shared
                &&& source@->catalog == catalog@
                &&& source@->fresh_session == fresh_session
                &&& source@->queries.len() == queries@.len()
                &&& forall|i: int|
                    0 <= i < queries@.len() ==> #[trigger] source@->queries[i] == queries@[i]@
            },
            StreamSource::Items(items) => source@ == SourceView::<T>::Items(items@),
        },
{
}

/// The view of an action tells which action it is and all that it holds.
pub proof fn law_action_view_tells_all<T>(action: StepAction<T>)
    ensures
        match action {
            StepAction::Load(request) => action@ == ActionView::<T>::Load(request@),
            StepAction::Open(source) => action@ == ActionView::<T>::Open(source@),
            StepAction::Pull => action@ == ActionView::<T>::Pull,
            StepAction::Engine(calls) => {
                &&& action@ is Engine
                &&& action@->Engine_0.len() == calls@.len()
                &&& forall|i: int|
                    0 <= i < calls@.len() ==> #[trigger] action@->Engine_0[i] == calls@[i]@
            },
            StepAction::Complete(result) => action@ == ActionView::<T>::Complete(result),
        },
{
}

/// The view of an action of a run tells which action it is and all that it holds.
pub proof fn law_run_action_view_tells_all<T, R>(action: RunAction<T, R>)
    ensures
        match action {
            RunAction::Build => action@ == RunActionView::<T, R>::Build,
            RunAction::Step { config, action: step } => action@ == (RunActionView::<
                T,
                R,
            >::Step { config, action: step@ }),
            RunAction::Collect { config, dispose } => action@ == (RunActionView::<
                T,
                R,
            >::Collect { config, dispose }),
            RunAction::Finish(Ok(results)) => action@ == RunActionView::<T, R>::Finish(
                Ok(results@),
            ),
            RunAction::Finish(Err(error)) => action@ == RunActionView::<T, R>::Finish(Err(error)),
        },
{
}

} // verus!
