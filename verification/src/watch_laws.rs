//! What holds of every report on the order of a merged stream, told by the times of its items.
use crate::config::BacktestRunConfig;
use crate::data::Data;
use crate::feed_laws::{
    items_of, law_streaming_feeds_its_stream, lemma_fed_so_far, stream_steps,
};
use crate::load_laws::StepTrace;
use crate::ordering::{
    backward_count, backward_report, capped, goes_back, is_power_of_two, latest_time,
    law_goes_back_iff_overtaken, lemma_latest_time,
};
use crate::report::Warning;
use crate::step::StepEvent;
use crate::streaming::{event_report, times, StreamingState};
use crate::time::UnixNanos;
use vstd::arithmetic::power2::pow2;
use vstd::prelude::*;

verus! {

/// Whether some time ahead of a position is later than the time there.
pub open spec fn overtaken(seen: Seq<UnixNanos>, at: int) -> bool {
    exists|i: int| 0 <= i < at && #[trigger] seen[i] > seen[at]
}

/// How many times of a row have some later time ahead of them.
pub open spec fn overtaken_count(seen: Seq<UnixNanos>) -> nat
    decreases seen.len(),
{
    if seen.len() == 0 {
        0
    } else if overtaken(seen, seen.len() - 1) {
        overtaken_count(seen.drop_last()) + 1
    } else {
        overtaken_count(seen.drop_last())
    }
}

/// The times that count as backward are those that were overtaken.
pub proof fn law_backward_are_the_overtaken(seen: Seq<UnixNanos>)
    ensures
        backward_count(seen) == overtaken_count(seen),
        seen.len() > 0 ==> (goes_back(seen.drop_last(), seen.last()) <==> overtaken(
            seen,
            seen.len() - 1,
        )),
    decreases seen.len(),
{
    if seen.len() > 0 {
        let front = seen.drop_last();
        law_backward_are_the_overtaken(front);
        law_goes_back_iff_overtaken(front, seen.last());
        if goes_back(front, seen.last()) {
            let i = choose|i: int| 0 <= i < front.len() && seen.last() < #[trigger] front[i];
            assert(seen[i] > seen[seen.len() - 1]);
        }
        if overtaken(seen, seen.len() - 1) {
            let i = choose|i: int|
                0 <= i < seen.len() - 1 && #[trigger] seen[i] > seen[seen.len() - 1];
            assert(seen.last() < front[i]);
        }
    }
}

/// Whether a report on the last of a row of times is right: there is one only if that time was
/// overtaken; the first fifty are full, with the time itself, the time just ahead of it, and
/// the gap to the latest of all ahead; and of those behind, each whose number is a power of
/// two tells that number.
pub open spec fn report_is_right(
    label: &'static str,
    seen: Seq<UnixNanos>,
    report: Option<Warning>,
) -> bool {
    let n = seen.len() - 1;
    let count = overtaken_count(seen);
    if !overtaken(seen, n) {
        report is None
    } else if count <= 50 {
        &&& report matches Some(Warning::BackwardItem { label: name, count: number, time, prior, gap })
        &&& name == label
        &&& number == count
        &&& time == seen[n]
        &&& prior == seen[n - 1]
        &&& exists|i: int| 0 <= i < n && #[trigger] seen[i] == time + gap
        &&& forall|i: int| 0 <= i < n ==> #[trigger] seen[i] <= time + gap
    } else if count <= usize::MAX {
        &&& report is Some <==> exists|k: nat| count == #[trigger] pow2(k)
        &&& report is Some ==> report == Some(
            Warning::BackwardItemCount { label, count: count as usize },
        )
    } else {
        true
    }
}

/// What is reported of an item is right.
pub proof fn law_backward_items_are_reported(
    label: &'static str,
    seen: Seq<UnixNanos>,
    time: UnixNanos,
)
    ensures
        report_is_right(
            label,
            seen.push(time),
            if goes_back(seen, time) {
                backward_report(
                    label,
                    capped(backward_count(seen.push(time))),
                    time,
                    seen.last(),
                    latest_time(seen)->0,
                )
            } else {
                None
            },
        ),
{
    let all = seen.push(time);
    assert(all.drop_last() =~= seen);
    law_backward_are_the_overtaken(all);
    lemma_latest_time(seen);
    if goes_back(seen, time) {
        let latest = latest_time(seen)->0;
        let k = choose|k: int| 0 <= k < seen.len() && seen[k] == latest;
        assert(seen.contains(latest));
        assert(all[k] == latest);
        let gap = (latest - time) as u64;
        assert forall|i: int| 0 <= i < all.len() - 1 implies #[trigger] all[i] <= time + gap by {
            assert(all[i] == seen[i]);
        }
        let count = overtaken_count(all);
        if count > 50 && count <= usize::MAX {
            assert(is_power_of_two(capped(count) as nat) <==> exists|k: nat|
                count == #[trigger] pow2(k));
        }
    }
}

/// In a run in chunks, each item of a stream merged from several data configs is reported as
/// it should be, ahead of anything else that is reported with it; items of other streams are
/// not watched.
pub proof fn law_merged_items_are_watched<T>(
    config: BacktestRunConfig,
    chunk_size: usize,
    trace: StepTrace<StreamingState<T>, T>,
    a: int,
    k: int,
    item: Data<T>,
)
    requires
        trace.streams(config, chunk_size),
        0 < a <= k < trace.events.len(),
        trace.events[a - 1] is Opened,
        trace.events[k] == StepEvent::Item(Some(item)),
    ensures
        ({
            let seen = items_of(trace.events.subrange(a, k)).map_values(
                |item: Data<T>| item.ts_init,
            ).push(item.ts_init);
            let report = event_report(
                trace.states[k].order(),
                trace.states[k]->stream.pulled@,
                trace.events[k],
            );
            &&& trace.states[k].order() is Restored ==> report_is_right(
                "multi-config-kmerge",
                seen,
                report,
            )
            &&& trace.states[k].order() is Kept ==> report is None
            &&& report is Some ==> trace.warnings[k].len() > 0 && trace.warnings[k][0]
                == report->0
        }),
{
    law_streaming_feeds_its_stream(config, chunk_size, trace, a, k);
    assert(trace.streaming_step(config, chunk_size, k));
    let part = stream_steps(trace, a, k);
    let order = trace.states[a].order();
    lemma_fed_so_far(order, config, chunk_size, part, k - a);
    assert(part.events.take(k - a) =~= trace.events.subrange(a, k));
    let pulled = trace.states[k]->stream.pulled@;
    assert(part.states[k - a] == trace.states[k]->stream);
    let earlier = items_of(trace.events.subrange(a, k));
    assert(earlier == pulled);
    assert(times(pulled) =~= earlier.map_values(|item: Data<T>| item.ts_init));
    law_backward_items_are_reported("multi-config-kmerge", times(pulled), item.ts_init);
}

/// A counter tells a number as long as it can hold it, and then stays at its largest.
pub proof fn law_counter_is_exact(n: nat)
    ensures
        n <= usize::MAX ==> capped(n) == n,
        n > usize::MAX ==> capped(n) == usize::MAX,
{
}

} // verus!
