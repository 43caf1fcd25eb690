//! What a stream whose order is kept and one whose order is restored have in common.
use crate::config::BacktestRunConfig;
use crate::data::{
    is_sorted, latest, law_sorted_data_is_kept, lemma_earliest, lemma_latest, Data,
};
use crate::report::Warning;
use crate::step::{ActionView, StepEvent};
use crate::stream::{
    boundary_after, chunked_items, stream_accepts, stream_rule, window_calls, StreamOrder,
    StreamPhase, StreamState, Window,
};
use crate::stream_laws::{law_no_time_in_two_chunks, lemma_chunk_position};
use vstd::prelude::*;

verus! {

/// A chunk as it is fed where order is restored, given how it is fed where order is kept, of
/// items in the order of time: alike, but for the last run of a run without an end, which
/// stops at the last item instead of being left open.
pub open spec fn fed_restored<T>(config: BacktestRunConfig, kept: Window<T>) -> Window<T> {
    if kept.last && config.end is None {
        Window { end: Some(kept.chunk.last().ts_init), ..kept }
    } else {
        kept
    }
}

/// Whether two streams, one of either order, stand at the same place.
pub open spec fn streams_alike<T>(
    config: BacktestRunConfig,
    kept: StreamState<T>,
    restored: StreamState<T>,
) -> bool {
    &&& restored.pulled@ == kept.pulled@
    &&& restored.gathered@ == kept.gathered@
    &&& match (kept.phase, restored.phase) {
        (StreamPhase::Running { last, .. }, StreamPhase::Running { last: other, .. }) => {
            last == other
        },
        (phase, other) => phase == other,
    }
    &&& restored.windows@.len() == kept.windows@.len()
    &&& forall|i: int|
        0 <= i < kept.windows@.len() ==> restored.windows@[i] == fed_restored(
            config,
            #[trigger] kept.windows@[i],
        )
}

/// Whether two streams, one of either order, ask for the same: the same action, or, in a run
/// without an end, the calls that feed the last chunk, with the run left open under one order
/// and stopped at the last item under the other.
pub open spec fn actions_alike<T>(
    config: BacktestRunConfig,
    kept: ActionView<T>,
    restored: ActionView<T>,
) -> bool {
    ||| restored == kept
    ||| config.end is None && exists|window: Window<T>|
        {
            &&& window.last
            &&& window.end is None
            &&& kept == ActionView::Engine(#[trigger] window_calls(config, window))
            &&& restored == ActionView::Engine(
                window_calls(config, fed_restored(config, window)),
            )
        }
}

/// Rows that begin a row in the order of time stand in the order of time.
proof fn lemma_prefix_sorted<T>(part: Seq<Data<T>>, whole: Seq<Data<T>>)
    requires
        part.is_prefix_of(whole),
        is_sorted(whole),
    ensures
        is_sorted(part),
{
    assert forall|i: int, j: int| 0 <= i <= j < part.len() implies part[i].ts_init
        <= part[j].ts_init by {
        assert(part[i] == whole[i] && part[j] == whole[j]);
    }
}

/// Where the items come in the order of time, the boundary is where the last run stopped.
proof fn lemma_boundary_is_last_end<T>(
    config: BacktestRunConfig,
    chunk_size: usize,
    state: StreamState<T>,
    k: int,
)
    requires
        state.wf(StreamOrder::Restored, config, chunk_size),
        is_sorted(state.pulled@),
        0 < k <= state.windows@.len(),
        !state.windows@[k - 1].last,
    ensures
        state.windows@[k - 1].end == Some(state.windows@[k - 1].chunk.last().ts_init),
        boundary_after(StreamOrder::Restored, state.windows@.take(k)) == state.windows@[k - 1].end,
    decreases k,
{
    let windows = state.windows@;
    let chunk = windows[k - 1].chunk;
    let end = chunk.len() - 1;
    assert(state.window_ok(StreamOrder::Restored, config, chunk_size, k - 1));
    assert(windows.take(k).drop_last() =~= windows.take(k - 1));
    lemma_chunk_in_order(StreamOrder::Restored, config, chunk_size, state, k - 1);
    lemma_last_is_latest(chunk);
    if k > 1 {
        assert(state.window_ok(StreamOrder::Restored, config, chunk_size, k - 2));
        lemma_boundary_is_last_end(config, chunk_size, state, k - 1);
        law_no_time_in_two_chunks(
            StreamOrder::Restored,
            config,
            chunk_size,
            state,
            k - 2,
            k - 1,
            windows[k - 2].chunk.len() - 1,
            end,
        );
    }
}

/// Where the items come in the order of time, those of a chunk do.
proof fn lemma_chunk_in_order<T>(
    order: StreamOrder,
    config: BacktestRunConfig,
    chunk_size: usize,
    state: StreamState<T>,
    i: int,
)
    requires
        state.wf(order, config, chunk_size),
        is_sorted(state.pulled@),
        0 <= i < state.windows@.len(),
    ensures
        is_sorted(state.windows@[i].chunk),
{
    let windows = state.windows@;
    let chunk = windows[i].chunk;
    let ahead = chunked_items(windows.take(i)).len() as int;
    assert forall|a: int, b: int| 0 <= a <= b < chunk.len() implies chunk[a].ts_init
        <= chunk[b].ts_init by {
        lemma_chunk_position(windows, i, a);
        lemma_chunk_position(windows, i, b);
        assert(state.pulled@[ahead + a] == chunk[a]);
        assert(state.pulled@[ahead + b] == chunk[b]);
    }
}

/// The last of a row in the order of time has the latest time.
proof fn lemma_last_is_latest<T>(items: Seq<Data<T>>)
    requires
        items.len() > 0,
        is_sorted(items),
    ensures
        latest(items) == items.last().ts_init,
{
    lemma_latest(items);
    let k = choose|k: int| 0 <= k < items.len() && items[k].ts_init == latest(items);
    assert(items[k].ts_init <= items[items.len() - 1].ts_init);
}

/// Where the items come in the order of time, both kinds of stream start the next run at the
/// same time, and the chunk that is gathered does not lie before the boundary.
proof fn lemma_same_start<T>(
    config: BacktestRunConfig,
    chunk_size: usize,
    kept: StreamState<T>,
    restored: StreamState<T>,
)
    requires
        kept.wf(StreamOrder::Kept, config, chunk_size),
        restored.wf(StreamOrder::Restored, config, chunk_size),
        streams_alike(config, kept, restored),
        kept.phase is Pulling,
        is_sorted(kept.pulled@),
    ensures
        restored.next_start == kept.next_start,
        restored.boundary matches Some(boundary) ==> forall|i: int|
            0 <= i < kept.gathered@.len() ==> boundary <= (#[trigger] kept.gathered@[i]).ts_init,
{
    let windows = restored.windows@;
    let n = windows.len() as int;
    if n > 0 {
        assert(restored.windows@[n - 1] == fed_restored(config, kept.windows@[n - 1]));
        assert(!kept.windows@[n - 1].last);
        lemma_boundary_is_last_end(config, chunk_size, restored, n);
        assert(windows.take(n) =~= windows);
        assert(restored.window_ok(StreamOrder::Restored, config, chunk_size, n - 1));
        let end = windows[n - 1].chunk.len() - 1;
        lemma_chunk_position(windows, n - 1, end);
        let at = chunked_items(windows.take(n - 1)).len() + end;
        let gathered = kept.gathered@;
        let ahead = chunked_items(windows).len() as int;
        assert forall|i: int| 0 <= i < gathered.len() implies windows[n - 1].chunk[end].ts_init <= (
        #[trigger] gathered[i]).ts_init by {
            assert(restored.pulled@[at] == windows[n - 1].chunk[end]);
            assert(restored.pulled@[ahead + i] == gathered[i]);
            assert(restored.pulled@[at].ts_init <= restored.pulled@[ahead + i].ts_init);
        }
    }
}

/// Where the items come in the order of time, streams of either order that stand at the same
/// place and take the same event ask for the same, report nothing, and again stand at the
/// same place.
pub proof fn law_orders_step_alike<T>(
    config: BacktestRunConfig,
    chunk_size: usize,
    kept: StreamState<T>,
    restored: StreamState<T>,
    event: StepEvent<T>,
    kept_after: StreamState<T>,
    kept_warnings: Seq<Warning>,
    kept_action: ActionView<T>,
    restored_after: StreamState<T>,
    restored_warnings: Seq<Warning>,
    restored_action: ActionView<T>,
)
    requires
        kept.wf(StreamOrder::Kept, config, chunk_size),
        restored.wf(StreamOrder::Restored, config, chunk_size),
        streams_alike(config, kept, restored),
        stream_accepts(kept.phase, event),
        stream_rule(
            StreamOrder::Kept,
            config,
            chunk_size,
            kept,
            event,
            kept_after,
            kept_warnings,
            kept_action,
        ),
        stream_rule(
            StreamOrder::Restored,
            config,
            chunk_size,
            restored,
            event,
            restored_after,
            restored_warnings,
            restored_action,
        ),
        is_sorted(kept_after.pulled@),
    ensures
        stream_accepts(restored.phase, event),
        streams_alike(config, kept_after, restored_after),
        actions_alike(config, kept_action, restored_action),
        config.end is Some ==> restored_action == kept_action,
        kept_warnings == Seq::<Warning>::empty(),
        restored_warnings == Seq::<Warning>::empty(),
{
    if let StepEvent::Item(next) = event {
        let chunk = kept.gathered@;
        assert(kept.pulled@.is_prefix_of(kept_after.pulled@));
        lemma_prefix_sorted(kept.pulled@, kept_after.pulled@);
        lemma_same_start(config, chunk_size, kept, restored);
        if chunk.len() > 0 && kept_after.phase is Running {
            let plain = kept_after.windows@.last();
            let sorted = restored_after.windows@.last();
            let n = kept.windows@.len() as int;
            let ahead = chunked_items(kept.windows@).len() as int;
            assert(is_sorted(chunk)) by {
                assert forall|a: int, b: int| 0 <= a <= b < chunk.len() implies chunk[a].ts_init
                    <= chunk[b].ts_init by {
                    assert(kept.pulled@[ahead + a] == chunk[a]);
                    assert(kept.pulled@[ahead + b] == chunk[b]);
                }
            }
            lemma_last_is_latest(chunk);
            lemma_earliest(chunk);
            law_sorted_data_is_kept(sorted.handed, chunk);
            assert(chunk[chunk.len() - 1].ts_init == latest(chunk));
            assert(sorted == fed_restored(config, plain));
            assert forall|i: int| 0 <= i < kept_after.windows@.len() implies
                restored_after.windows@[i] == fed_restored(
                config,
                #[trigger] kept_after.windows@[i],
            ) by {
                if i < n {
                    assert(kept_after.windows@[i] == kept.windows@[i]);
                    assert(restored_after.windows@[i] == restored.windows@[i]);
                }
            }
            assert(kept_action == ActionView::Engine(window_calls(config, plain)));
        }
    }
}

/// All steps of a stream, from the first on: the state ahead of each step and behind the
/// last, and the event, the warnings and the action of each.
pub struct StreamTrace<T> {
    pub states: Seq<StreamState<T>>,
    pub events: Seq<StepEvent<T>>,
    pub warnings: Seq<Seq<Warning>>,
    pub actions: Seq<ActionView<T>>,
}

impl<T> StreamTrace<T> {
    /// Whether the step at a position was taken.
    pub open spec fn step_taken(
        self,
        order: StreamOrder,
        config: BacktestRunConfig,
        chunk_size: usize,
        i: int,
    ) -> bool {
        &&& stream_accepts(self.states[i].phase, self.events[i])
        &&& stream_rule(
            order,
            config,
            chunk_size,
            self.states[i],
            self.events[i],
            self.states[i + 1],
            self.warnings[i],
            self.actions[i],
        )
        &&& self.states[i + 1].wf(order, config, chunk_size)
    }

    /// Whether these are steps of a stream.
    pub open spec fn holds(
        self,
        order: StreamOrder,
        config: BacktestRunConfig,
        chunk_size: usize,
    ) -> bool {
        &&& self.states.len() == self.events.len() + 1
        &&& self.warnings.len() == self.events.len()
        &&& self.actions.len() == self.events.len()
        &&& self.states[0].phase is Begin
        &&& self.states[0].wf(order, config, chunk_size)
        &&& forall|i: int|
            0 <= i < self.events.len() ==> #[trigger] self.step_taken(order, config, chunk_size, i)
    }
}

/// What was pulled by a step is pulled from then on.
proof fn lemma_pulled_grows<T>(
    trace: StreamTrace<T>,
    order: StreamOrder,
    config: BacktestRunConfig,
    chunk_size: usize,
    i: int,
    j: int,
)
    requires
        trace.holds(order, config, chunk_size),
        0 <= i <= j <= trace.events.len(),
    ensures
        trace.states[i].pulled@.is_prefix_of(trace.states[j].pulled@),
    decreases j - i,
{
    if i < j {
        lemma_pulled_grows(trace, order, config, chunk_size, i, j - 1);
        assert(trace.step_taken(order, config, chunk_size, j - 1));
    }
}

/// Where the items come in the order of time, streams of either order that take the same
/// events stand at the same place after each.
proof fn lemma_orders_stay_alike<T>(
    config: BacktestRunConfig,
    chunk_size: usize,
    kept: StreamTrace<T>,
    restored: StreamTrace<T>,
    k: int,
)
    requires
        kept.holds(StreamOrder::Kept, config, chunk_size),
        restored.holds(StreamOrder::Restored, config, chunk_size),
        restored.events == kept.events,
        is_sorted(kept.states.last().pulled@),
        0 <= k <= kept.events.len(),
    ensures
        kept.states[k].wf(StreamOrder::Kept, config, chunk_size),
        restored.states[k].wf(StreamOrder::Restored, config, chunk_size),
        streams_alike(config, kept.states[k], restored.states[k]),
        k > 0 ==> {
            &&& actions_alike(config, kept.actions[k - 1], restored.actions[k - 1])
            &&& config.end is Some ==> restored.actions[k - 1] == kept.actions[k - 1]
            &&& kept.warnings[k - 1] == Seq::<Warning>::empty()
            &&& restored.warnings[k - 1] == Seq::<Warning>::empty()
        },
    decreases k,
{
    if k > 0 {
        let i = k - 1;
        lemma_orders_stay_alike(config, chunk_size, kept, restored, i);
        assert(kept.step_taken(StreamOrder::Kept, config, chunk_size, i));
        assert(restored.step_taken(StreamOrder::Restored, config, chunk_size, i));
        let n = kept.events.len() as int;
        lemma_pulled_grows(kept, StreamOrder::Kept, config, chunk_size, k, n);
        lemma_prefix_sorted(kept.states[k].pulled@, kept.states[n].pulled@);
        law_orders_step_alike(
            config,
            chunk_size,
            kept.states[i],
            restored.states[i],
            kept.events[i],
            kept.states[k],
            kept.warnings[i],
            kept.actions[i],
            restored.states[k],
            restored.warnings[i],
            restored.actions[i],
        );
    } else {
        assert(kept.states[0].pulled@ =~= restored.states[0].pulled@);
        assert(kept.states[0].gathered@ =~= restored.states[0].gathered@);
    }
}

/// Where the items come in the order of time, a stream whose order is kept and one whose
/// order is restored ask for the same from first to last, with the same outcome, and report
/// nothing. Only in a run without an end does the last run over a chunk differ: it stops at
/// the last item where order is restored, and is left open where it is kept.
pub proof fn law_orders_agree_on_sorted_streams<T>(
    config: BacktestRunConfig,
    chunk_size: usize,
    kept: StreamTrace<T>,
    restored: StreamTrace<T>,
)
    requires
        kept.holds(StreamOrder::Kept, config, chunk_size),
        restored.holds(StreamOrder::Restored, config, chunk_size),
        restored.events == kept.events,
        is_sorted(kept.states.last().pulled@),
    ensures
        restored.actions.len() == kept.actions.len(),
        forall|i: int|
            0 <= i < kept.actions.len() ==> actions_alike(
                config,
                #[trigger] kept.actions[i],
                restored.actions[i],
            ),
        config.end is Some ==> restored.actions == kept.actions,
        forall|i: int|
            0 <= i < kept.actions.len() ==> (#[trigger] kept.warnings[i]).len() == 0
                && restored.warnings[i].len() == 0,
        streams_alike(config, kept.states.last(), restored.states.last()),
{
    assert forall|i: int| 0 <= i < kept.actions.len() implies {
        &&& actions_alike(config, #[trigger] kept.actions[i], restored.actions[i])
        &&& config.end is Some ==> restored.actions[i] == kept.actions[i]
        &&& kept.warnings[i].len() == 0
        &&& restored.warnings[i].len() == 0
    } by {
        lemma_orders_stay_alike(config, chunk_size, kept, restored, i + 1);
    }
    assert forall|i: int| 0 <= i < kept.actions.len() implies (#[trigger] kept.warnings[i]).len()
        == 0 && restored.warnings[i].len() == 0 by {
        assert(actions_alike(config, kept.actions[i], restored.actions[i]));
    }
    if config.end is Some {
        assert forall|i: int| 0 <= i < kept.actions.len() implies restored.actions[i]
            == kept.actions[i] by {
            assert(actions_alike(config, kept.actions[i], restored.actions[i]));
        }
        assert(restored.actions =~= kept.actions);
    }
    lemma_orders_stay_alike(config, chunk_size, kept, restored, kept.events.len() as int);
}

} // verus!
