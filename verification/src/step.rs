//! What a run asks of the world around the node, and what it is told in return.
//!
//! The node performs no outside work itself. A run is a state that is advanced by events;
//! each advance yields one action, and the next event is the reply to that action:
//!
//! | action | reply |
//! |---|---|
//! | `Load` | `Loaded` |
//! | `Open` | `Opened` or `Failed` |
//! | `Pull` | `Item` |
//! | `Engine` | `Ran`, or `Failed` if one of the calls can fail: `AddData` and `Run` can |
//! | `Complete` | none: the run is over |
use crate::catalog::{CatalogRequest, CatalogView, DataQuery, LoadRequest, LoadView, QueryView};
use crate::data::Data;
use crate::error::NodeError;
use crate::report::Warning;
use crate::time::UnixNanos;
use vstd::prelude::*;

verus! {

/// A call on the engine of a run.
#[derive(Debug)]
pub enum EngineCall<T> {
    /// Hands data to the engine.
    AddData { data: Vec<Data<T>>, client_id: Option<String>, validate: bool, sort: bool },
    /// Sorts all data that the engine holds.
    SortData,
    /// Runs the engine over the data that it holds.
    Run {
        start: Option<UnixNanos>,
        end: Option<UnixNanos>,
        run_id: Option<String>,
        streaming: bool,
    },
    /// Makes the engine drop its data.
    ClearData,
    /// Ends a run that was fed in chunks.
    End,
}

/// An engine call by what its parts hold.
pub enum CallView<T> {
    AddData { data: Seq<Data<T>>, client_id: Option<String>, validate: bool, sort: bool },
    SortData,
    Run {
        start: Option<UnixNanos>,
        end: Option<UnixNanos>,
        run_id: Option<String>,
        streaming: bool,
    },
    ClearData,
    End,
}

impl<T> View for EngineCall<T> {
    type V = CallView<T>;

    open spec fn view(&self) -> CallView<T> {
        match *self {
            EngineCall::AddData { data, client_id, validate, sort } => CallView::AddData {
                data: data@,
                client_id,
                validate,
                sort,
            },
            EngineCall::SortData => CallView::SortData,
            EngineCall::Run { start, end, run_id, streaming } => CallView::Run {
                start,
                end,
                run_id,
                streaming,
            },
            EngineCall::ClearData => CallView::ClearData,
            EngineCall::End => CallView::End,
        }
    }
}

/// What a row of engine calls holds.
pub open spec fn calls_view<T>(calls: Seq<EngineCall<T>>) -> Seq<CallView<T>> {
    calls.map_values(|call: EngineCall<T>| call@)
}

/// What a row of queries holds.
pub open spec fn queries_view(queries: Seq<DataQuery>) -> Seq<QueryView> {
    queries.map_values(|query: DataQuery| query@)
}

/// Where the items of a stream come from.
#[derive(Debug)]
pub enum StreamSource<T> {
    /// One query, read as it is answered.
    Query(LoadRequest),
    /// Several queries, registered one after the other in one session of a catalog and merged
    /// by it. `fresh_session` tells whether the catalog forgets earlier queries first.
    Shared { catalog: CatalogRequest, fresh_session: bool, queries: Vec<DataQuery> },
    /// Items that are at hand already.
    Items(Vec<Data<T>>),
}

/// A stream source by what its parts hold.
pub enum SourceView<T> {
    Query(LoadView),
    Shared { catalog: CatalogView, fresh_session: bool, queries: Seq<QueryView> },
    Items(Seq<Data<T>>),
}

impl<T> View for StreamSource<T> {
    type V = SourceView<T>;

    open spec fn view(&self) -> SourceView<T> {
        match *self {
            StreamSource::Query(request) => SourceView::Query(request@),
            StreamSource::Shared { catalog, fresh_session, queries } => SourceView::Shared {
                catalog: catalog@,
                fresh_session,
                queries: queries_view(queries@),
            },
            StreamSource::Items(items) => SourceView::Items(items@),
        }
    }
}

/// What a run asks for next.
#[derive(Debug)]
pub enum StepAction<T> {
    /// Load the data of one query.
    Load(LoadRequest),
    /// Open the stream that items are pulled from.
    Open(StreamSource<T>),
    /// Hand out the next item of the stream.
    Pull,
    /// Make these calls on the engine in order, and stop at the first that fails.
    Engine(Vec<EngineCall<T>>),
    /// The run is over.
    Complete(Result<(), NodeError>),
}

/// An action by what its parts hold.
pub enum ActionView<T> {
    Load(LoadView),
    Open(SourceView<T>),
    Pull,
    Engine(Seq<CallView<T>>),
    Complete(Result<(), NodeError>),
}

impl<T> View for StepAction<T> {
    type V = ActionView<T>;

    open spec fn view(&self) -> ActionView<T> {
        match *self {
            StepAction::Load(request) => ActionView::Load(request@),
            StepAction::Open(source) => ActionView::Open(source@),
            StepAction::Pull => ActionView::Pull,
            StepAction::Engine(calls) => ActionView::Engine(calls_view(calls@)),
            StepAction::Complete(result) => ActionView::Complete(result),
        }
    }
}

/// What a run is told.
#[derive(Debug)]
pub enum StepEvent<T> {
    /// The run is to begin.
    Begin,
    /// The data that was loaded, or why it could not be.
    Loaded(Result<Vec<Data<T>>, String>),
    /// The stream is open.
    Opened,
    /// The next item of the stream, or nothing when there are no more.
    Item(Option<Data<T>>),
    /// The engine calls were made; `shutdown` tells whether the engine has been asked to
    /// shut down by now.
    Ran { shutdown: bool },
    /// The action failed, for this reason.
    Failed(String),
}

/// One advance of a run: its new state, what is to be reported, and what is asked for next.
pub struct Step<S, T> {
    pub state: S,
    pub warnings: Vec<Warning>,
    pub action: StepAction<T>,
}

/// Whether some of a row of engine calls can fail.
pub open spec fn can_fail<T>(calls: Seq<CallView<T>>) -> bool {
    exists|i: int|
        0 <= i < calls.len() && ((#[trigger] calls[i]) is AddData || calls[i] is Run)
}

/// Whether an event is a reply to an action.
pub open spec fn step_reply<T>(action: ActionView<T>, event: StepEvent<T>) -> bool {
    match action {
        ActionView::Load(_) => event is Loaded,
        ActionView::Open(_) => event is Opened || event is Failed,
        ActionView::Pull => event is Item,
        ActionView::Engine(calls) => event is Ran || event is Failed && can_fail(calls),
        ActionView::Complete(_) => false,
    }
}

/// The failure of outside work, as the end of a run.
pub open spec fn failure<T>(message: String) -> ActionView<T> {
    ActionView::Complete(Err(NodeError::Outside { message }))
}

} // verus!
