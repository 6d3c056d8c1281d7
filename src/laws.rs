use vstd::prelude::*;

use crate::bar::{join, shown, visible, BarState};
use crate::block::{sized, spaces, truncated, BlockState};

verus! {

/// What happens to one block, as the scheduler sees it.
pub enum BlockEvent {
    /// A scheduling pass at `now`; `produced` is what the producer returns
    /// if the pass runs it inline.
    Pass { now: u64, produced: Seq<char> },
    /// The result `value` of a job for the block is applied.
    Result { value: Seq<char> },
}

/// The block after one event: a pass changes it as `StatusBar::update` does,
/// a result as `StatusBar::apply_result` does (a failed job's result is the
/// block's last text).
pub open spec fn step(b: BlockState, e: BlockEvent) -> BlockState {
    match e {
        BlockEvent::Pass { now, produced } => b.cycled(now, produced),
        BlockEvent::Result { value } => b.applied(value),
    }
}

/// The block after the events, in order.
pub open spec fn replay(b: BlockState, events: Seq<BlockEvent>) -> BlockState
    decreases events.len(),
{
    if events.len() == 0 {
        b
    } else {
        step(replay(b, events.drop_last()), events.last())
    }
}

/// Whether the last event of the trace is a pass that calls the producer,
/// inline or through a job.
pub open spec fn invokes_last(b: BlockState, events: Seq<BlockEvent>) -> bool {
    events.len() > 0 && match events.last() {
        BlockEvent::Pass { now, produced: _ } => replay(b, events.drop_last()).is_stale(now),
        BlockEvent::Result { value: _ } => false,
    }
}

/// How many times the events call the block's producer.
pub open spec fn invocations(b: BlockState, events: Seq<BlockEvent>) -> nat
    decreases events.len(),
{
    if events.len() == 0 {
        0
    } else {
        invocations(b, events.drop_last()) + if invokes_last(b, events) {
            1nat
        } else {
            0nat
        }
    }
}

/// Whether the trace holds a scheduling pass.
pub open spec fn has_pass(events: Seq<BlockEvent>) -> bool {
    exists|i: int| 0 <= i < events.len() && events[i] is Pass
}

/// Jobs handed out for the block and not yet applied, after the events.
pub open spec fn outstanding(b: BlockState, events: Seq<BlockEvent>) -> int
    decreases events.len(),
{
    if events.len() == 0 {
        0
    } else {
        let before = replay(b, events.drop_last());
        outstanding(b, events.drop_last()) + match events.last() {
            BlockEvent::Pass { now, produced: _ } => if before.dispatches(now) {
                1int
            } else {
                0int
            },
            BlockEvent::Result { value: _ } => -1int,
        }
    }
}

/// A trace the scheduler can produce: a result arrives only for a job that
/// was handed out and not yet applied.
pub open spec fn feasible(b: BlockState, events: Seq<BlockEvent>) -> bool
    decreases events.len(),
{
    events.len() == 0 || (feasible(b, events.drop_last()) && (events.last() is Result
        ==> outstanding(b, events.drop_last()) > 0))
}

/// A block with no poll interval calls its producer exactly once over any
/// run of scheduling passes and results: at its first pass, and never after.
pub proof fn lemma_one_shot_runs_once(b: BlockState, events: Seq<BlockEvent>)
    requires
        b.poll_interval is None,
        b.last_update is None,
    ensures
        invocations(b, events) == if has_pass(events) {
            1nat
        } else {
            0nat
        },
    decreases events.len(),
{
    lemma_one_shot_state(b, events);
}

proof fn lemma_one_shot_state(b: BlockState, events: Seq<BlockEvent>)
    requires
        b.poll_interval is None,
        b.last_update is None,
    ensures
        replay(b, events).poll_interval is None,
        replay(b, events).last_update is None <==> !has_pass(events),
        invocations(b, events) == if has_pass(events) {
            1nat
        } else {
            0nat
        },
    decreases events.len(),
{
    if events.len() > 0 {
        let rest = events.drop_last();
        lemma_one_shot_state(b, rest);
        assert(has_pass(events) <==> has_pass(rest) || events.last() is Pass) by {
            if has_pass(rest) {
                let i = choose|i: int| 0 <= i < rest.len() && rest[i] is Pass;
                assert(events[i] == rest[i]);
            }
            if events.last() is Pass {
                assert(events[events.len() - 1] is Pass);
            }
            if has_pass(events) {
                let i = choose|i: int| 0 <= i < events.len() && events[i] is Pass;
                if i < events.len() - 1 {
                    assert(rest[i] == events[i]);
                }
            }
        }
    }
}

/// Once a block with no poll interval has been evaluated or dispatched, no
/// later pass touches it or hands it out again, at any time, and an applied
/// result leaves it so.
pub proof fn lemma_one_shot_settles(b: BlockState, now: u64, produced: Seq<char>, value: Seq<char>)
    requires
        b.poll_interval is None,
        b.last_update is Some,
    ensures
        !b.is_stale(now),
        !b.dispatches(now),
        b.cycled(now, produced) == b,
        b.applied(value).last_update is Some,
        b.applied(value).poll_interval is None,
{
}

/// A well-formed block with a pending job is never due, whatever the time.
pub proof fn lemma_pending_never_due(b: BlockState, now: u64)
    requires
        b.well_formed(),
        b.in_flight,
    ensures
        !b.is_stale(now),
        !b.dispatches(now),
{
}

/// A block that is not a background block is never handed out as a job: a
/// pass that finds it due stores the text its producer returned during that
/// pass and stamps it, before the pass returns.
pub proof fn lemma_inline_block_is_synchronous(b: BlockState, now: u64, produced: Seq<char>)
    requires
        !b.concurrent,
    ensures
        !b.dispatches(now),
        b.is_stale(now) ==> b.cycled(now, produced).cache == produced
            && b.cycled(now, produced).last_update == Some(now),
        !b.is_stale(now) ==> b.cycled(now, produced) == b,
        b.cycled(now, produced).in_flight == b.in_flight,
{
}

/// At no point are two jobs for one block outstanding: starting from a
/// well-formed block with nothing pending, every trace the scheduler can
/// produce leaves at most one job pending, and one exactly while the block is
/// marked in flight.
pub proof fn lemma_single_outstanding_job(b: BlockState, events: Seq<BlockEvent>)
    requires
        b.well_formed(),
        !b.in_flight,
        feasible(b, events),
    ensures
        0 <= outstanding(b, events) <= 1,
        outstanding(b, events) == 1 <==> replay(b, events).in_flight,
        replay(b, events).well_formed(),
    decreases events.len(),
{
    if events.len() > 0 {
        lemma_single_outstanding_job(b, events.drop_last());
    }
}

/// Rendering is a function of what the blocks show: two bars with the same
/// delimiter, buffers and hiding rule, and blocks with the same caches and
/// width limits, render the same line, whatever their timing state. In
/// particular rendering one state twice gives one line.
pub proof fn lemma_render_is_pure(a: BarState, b: BarState)
    requires
        a.delimiter == b.delimiter,
        a.left_buffer == b.left_buffer,
        a.right_buffer == b.right_buffer,
        a.hide_empty == b.hide_empty,
        a.blocks.len() == b.blocks.len(),
        forall|i: int|
            0 <= i < a.blocks.len() ==> {
                &&& (#[trigger] a.blocks[i]).cache == b.blocks[i].cache
                &&& a.blocks[i].min_size == b.blocks[i].min_size
                &&& a.blocks[i].max_size == b.blocks[i].max_size
            },
    ensures
        a.rendered() == b.rendered(),
{
    lemma_visible_same(a.blocks, b.blocks, a.hide_empty);
}

proof fn lemma_visible_same(x: Seq<BlockState>, y: Seq<BlockState>, hide_empty: bool)
    requires
        x.len() == y.len(),
        forall|i: int|
            0 <= i < x.len() ==> {
                &&& (#[trigger] x[i]).cache == y[i].cache
                &&& x[i].min_size == y[i].min_size
                &&& x[i].max_size == y[i].max_size
            },
    ensures
        visible(x, hide_empty) == visible(y, hide_empty),
    decreases x.len(),
{
    if x.len() > 0 {
        let n = x.len() - 1;
        assert(x[n].cache == y[n].cache);
        lemma_visible_same(x.drop_last(), y.drop_last(), hide_empty);
    }
}

/// How many times `c` occurs in `s`.
pub open spec fn occurrences(s: Seq<char>, c: char) -> nat
    decreases s.len(),
{
    if s.len() == 0 {
        0
    } else {
        occurrences(s.drop_last(), c) + if s.last() == c {
            1nat
        } else {
            0nat
        }
    }
}

/// Occurrences of `c` over all the parts.
pub open spec fn occurrences_in_all(parts: Seq<Seq<char>>, c: char) -> nat
    decreases parts.len(),
{
    if parts.len() == 0 {
        0
    } else {
        occurrences_in_all(parts.drop_last(), c) + occurrences(parts.last(), c)
    }
}

/// The summed length of the parts.
pub open spec fn total_len(parts: Seq<Seq<char>>) -> nat
    decreases parts.len(),
{
    if parts.len() == 0 {
        0
    } else {
        total_len(parts.drop_last()) + parts.last().len()
    }
}

/// The number of separators between `n` items: `n - 1`, and none for none.
pub open spec fn separators(n: nat) -> nat {
    if n == 0 {
        0
    } else {
        (n - 1) as nat
    }
}

proof fn lemma_occurrences_concat(s: Seq<char>, t: Seq<char>, c: char)
    ensures
        occurrences(s + t, c) == occurrences(s, c) + occurrences(t, c),
    decreases t.len(),
{
    if t.len() > 0 {
        assert((s + t).drop_last() =~= s + t.drop_last());
        lemma_occurrences_concat(s, t.drop_last(), c);
    } else {
        assert(s + t =~= s);
    }
}

proof fn lemma_join_counts(parts: Seq<Seq<char>>, delim: Seq<char>, c: char)
    ensures
        occurrences(join(parts, delim), c) == occurrences_in_all(parts, c) + separators(
            parts.len(),
        ) * occurrences(delim, c),
        join(parts, delim).len() == total_len(parts) + separators(parts.len()) * delim.len(),
    decreases parts.len(),
{
    if parts.len() == 1 {
        assert(parts.drop_last().len() == 0);
        assert(occurrences_in_all(parts.drop_last(), c) == 0);
        assert(total_len(parts.drop_last()) == 0);
        assert(occurrences_in_all(parts, c) == occurrences(parts[0], c));
        assert(total_len(parts) == parts[0].len());
    } else if parts.len() > 1 {
        let rest = parts.drop_last();
        lemma_join_counts(rest, delim, c);
        lemma_occurrences_concat(join(rest, delim), delim, c);
        lemma_occurrences_concat(join(rest, delim) + delim, parts.last(), c);
        let k = separators(rest.len());
        assert(separators(parts.len()) == k + 1);
        assert((k + 1) * occurrences(delim, c) == k * occurrences(delim, c) + occurrences(delim, c))
            by (nonlinear_arith);
        assert((k + 1) * delim.len() == k * delim.len() + delim.len()) by (nonlinear_arith);
        assert(join(parts, delim) == join(rest, delim) + delim + parts.last());
        assert(occurrences_in_all(parts, c) == occurrences_in_all(rest, c) + occurrences(
            parts.last(),
            c,
        ));
        assert(total_len(parts) == total_len(rest) + parts.last().len());
    }
}

/// The delimiter stands once between each two neighbouring visible blocks
/// and nowhere else: with `N` visible blocks the line holds `N - 1` copies of
/// it (none when `N <= 1`) besides the buffers and the block texts, counted
/// by length and by each character. So a character that occurs in neither
/// buffer nor any visible block text occurs `(N - 1)` times as often as in
/// the delimiter.
pub proof fn lemma_delimiter_count(bar: BarState, c: char)
    ensures
        ({
            let parts = visible(bar.blocks, bar.hide_empty);
            &&& occurrences(bar.rendered(), c) == occurrences(bar.left_buffer, c)
                + occurrences_in_all(parts, c) + separators(parts.len()) * occurrences(
                bar.delimiter,
                c,
            ) + occurrences(bar.right_buffer, c)
            &&& bar.rendered().len() == bar.left_buffer.len() + total_len(parts) + separators(
                parts.len(),
            ) * bar.delimiter.len() + bar.right_buffer.len()
        }),
{
    let parts = visible(bar.blocks, bar.hide_empty);
    let body = join(parts, bar.delimiter);
    lemma_join_counts(parts, bar.delimiter, c);
    lemma_occurrences_concat(bar.left_buffer, body, c);
    lemma_occurrences_concat(bar.left_buffer + body, bar.right_buffer, c);
}

/// A block whose minimum and maximum widths are both `m` always shows exactly
/// `m` characters, whatever its producer returned.
pub proof fn lemma_fixed_width(cache: Seq<char>, m: usize)
    ensures
        sized(cache, Some(m), Some(m)).len() == m,
{
    let t = truncated(cache, Some(m));
    if t.len() < m {
        assert((t + spaces((m - t.len()) as nat)).len() == m);
    }
}

} // verus!
