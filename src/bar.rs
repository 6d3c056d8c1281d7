use vstd::prelude::*;
use vstd::string::*;

use crate::block::{BlockState, StatusBlock};
use crate::producer::{ran, Producer};

verus! {

/// Whether a block appears in the bar: with `hide_empty` set, a block whose
/// cache is empty is left out.
pub open spec fn shown(b: BlockState, hide_empty: bool) -> bool {
    !(hide_empty && b.cache.len() == 0)
}

/// The displayed texts of the blocks that appear, in order.
pub open spec fn visible(blocks: Seq<BlockState>, hide_empty: bool) -> Seq<Seq<char>>
    decreases blocks.len(),
{
    if blocks.len() == 0 {
        Seq::empty()
    } else {
        let rest = visible(blocks.drop_last(), hide_empty);
        let b = blocks.last();
        if shown(b, hide_empty) {
            rest.push(b.display())
        } else {
            rest
        }
    }
}

/// The parts one after another, with `delim` between each two neighbours.
pub open spec fn join(parts: Seq<Seq<char>>, delim: Seq<char>) -> Seq<char>
    decreases parts.len(),
{
    if parts.len() == 0 {
        Seq::empty()
    } else if parts.len() == 1 {
        parts[0]
    } else {
        join(parts.drop_last(), delim) + delim + parts.last()
    }
}

proof fn lemma_join_push(parts: Seq<Seq<char>>, delim: Seq<char>, v: Seq<char>)
    ensures
        join(parts.push(v), delim) == if parts.len() == 0 {
            v
        } else {
            join(parts, delim) + delim + v
        },
{
    assert(parts.push(v).drop_last() =~= parts);
}

proof fn lemma_visible_step(blocks: Seq<BlockState>, hide_empty: bool, i: int)
    requires
        0 <= i < blocks.len(),
    ensures
        visible(blocks.take(i + 1), hide_empty) == if shown(blocks[i], hide_empty) {
            visible(blocks.take(i), hide_empty).push(blocks[i].display())
        } else {
            visible(blocks.take(i), hide_empty)
        },
{
    assert(blocks.take(i + 1).drop_last() =~= blocks.take(i));
}

/// The abstract state of a bar. `last_output` is the text last handed on to
/// the display, if any was.
pub struct BarState {
    pub delimiter: Seq<char>,
    pub blocks: Seq<BlockState>,
    pub refresh_rate: u64,
    pub left_buffer: Seq<char>,
    pub right_buffer: Seq<char>,
    pub hide_empty: bool,
    pub last_output: Option<Seq<char>>,
}

/// The outcomes of jobs as plain values: block index, and the text or `None`
/// for a failure.
pub open spec fn outcomes(results: Seq<(usize, Option<String>)>) -> Seq<(usize, Option<Seq<char>>)> {
    results.map_values(
        |r: (usize, Option<String>)|
            (
                r.0,
                match r.1 {
                    Some(s) => Some(s@),
                    None => None,
                },
            ),
    )
}

impl BarState {
    /// The bar after the outcome `value` of block `index`'s job is applied;
    /// an index outside the bar changes nothing.
    pub open spec fn with_result(self, index: usize, value: Option<Seq<char>>) -> BarState {
        if index < self.blocks.len() {
            BarState {
                blocks: self.blocks.update(
                    index as int,
                    self.blocks[index as int].applied(
                        match value {
                            Some(v) => v,
                            None => self.blocks[index as int].cache,
                        },
                    ),
                ),
                ..self
            }
        } else {
            self
        }
    }

    /// The bar after the outcomes are applied in order.
    pub open spec fn with_results(self, results: Seq<(usize, Option<Seq<char>>)>) -> BarState
        decreases results.len(),
    {
        if results.len() == 0 {
            self
        } else {
            self.with_results(results.drop_last()).with_result(
                results.last().0,
                results.last().1,
            )
        }
    }

    /// The status line: the visible blocks joined by the delimiter, between
    /// the left and right buffers.
    pub open spec fn rendered(self) -> Seq<char> {
        self.left_buffer + join(visible(self.blocks, self.hide_empty), self.delimiter)
            + self.right_buffer
    }

    /// The block indices that one scheduling pass at `now` hands to the
    /// workers: exactly the due background blocks, each once, in order.
    pub open spec fn is_dispatch_list(self, now: u64, jobs: Seq<usize>) -> bool {
        &&& forall|k: int, l: int| 0 <= k < l < jobs.len() ==> jobs[k] < jobs[l]
        &&& forall|k: int| 0 <= k < jobs.len() ==> jobs[k] < self.blocks.len()
        &&& forall|i: int|
            0 <= i < self.blocks.len() ==> (jobs.contains(i as usize) <==> self.blocks[i].dispatches(
                now,
            ))
    }
}

/// An ordered set of blocks, how they are delimited and wrapped, and the
/// single-writer scheduling of their updates.
///
/// Only the owner of the bar changes block state. Background blocks are
/// handed out as job indices by `update`; whoever runs a job hands its result
/// back through `apply_result`.
pub struct StatusBar<P> {
    delimiter: String,
    blocks: Vec<StatusBlock<P>>,
    refresh_rate: u64,
    left_buffer: String,
    right_buffer: String,
    hide_empty_modules: bool,
    last_output: Option<String>,
}

impl<P> View for StatusBar<P> {
    type V = BarState;

    closed spec fn view(&self) -> BarState {
        BarState {
            delimiter: self.delimiter@,
            blocks: self.blocks@.map_values(|b: StatusBlock<P>| b@),
            refresh_rate: self.refresh_rate,
            left_buffer: self.left_buffer@,
            right_buffer: self.right_buffer@,
            hide_empty: self.hide_empty_modules,
            last_output: match self.last_output {
                Some(s) => Some(s@),
                None => None,
            },
        }
    }
}

impl<P> StatusBar<P> {
    /// The producers of the blocks, in order.
    pub closed spec fn producers(&self) -> Seq<P> {
        self.blocks@.map_values(|b: StatusBlock<P>| b.producer())
    }

    /// An empty bar that refreshes once a second.
    pub fn new() -> (r: Self)
        ensures
            r@ == (BarState {
                delimiter: Seq::empty(),
                blocks: Seq::empty(),
                refresh_rate: 1000,
                left_buffer: Seq::empty(),
                right_buffer: Seq::empty(),
                hide_empty: false,
                last_output: None,
            }),
    {
        let r = StatusBar {
            delimiter: String::new(),
            blocks: Vec::new(),
            refresh_rate: 1000,
            left_buffer: String::new(),
            right_buffer: String::new(),
            hide_empty_modules: false,
            last_output: None,
        };
        assert(r@.blocks =~= Seq::empty());
        r
    }

    pub fn blocks(self, blocks: Vec<StatusBlock<P>>) -> (r: Self)
        ensures
            r@ == (BarState { blocks: blocks@.map_values(|b: StatusBlock<P>| b@), ..self@ }),
            r.producers() == blocks@.map_values(|b: StatusBlock<P>| b.producer()),
    {
        StatusBar { blocks, ..self }
    }

    /// How often, in milliseconds, the owner runs a scheduling pass.
    pub fn refresh_rate(self, refresh_rate: u64) -> (r: Self)
        ensures
            r@ == (BarState { refresh_rate, ..self@ }),
            r.producers() == self.producers(),
    {
        StatusBar { refresh_rate, ..self }
    }

    pub fn delimiter(self, delimiter: &str) -> (r: Self)
        ensures
            r@ == (BarState { delimiter: delimiter@, ..self@ }),
            r.producers() == self.producers(),
    {
        StatusBar { delimiter: String::from_str(delimiter), ..self }
    }

    pub fn left_buffer(self, left_buffer: &str) -> (r: Self)
        ensures
            r@ == (BarState { left_buffer: left_buffer@, ..self@ }),
            r.producers() == self.producers(),
    {
        StatusBar { left_buffer: String::from_str(left_buffer), ..self }
    }

    pub fn right_buffer(self, right_buffer: &str) -> (r: Self)
        ensures
            r@ == (BarState { right_buffer: right_buffer@, ..self@ }),
            r.producers() == self.producers(),
    {
        StatusBar { right_buffer: String::from_str(right_buffer), ..self }
    }

    pub fn hide_empty_modules(self, hide_empty_modules: bool) -> (r: Self)
        ensures
            r@ == (BarState { hide_empty: hide_empty_modules, ..self@ }),
            r.producers() == self.producers(),
    {
        StatusBar { hide_empty_modules, ..self }
    }

    /// Applies the outcome of the job for block `index`: a text is stored,
    /// a failure (`None`) keeps the block's last text; either way the block's
    /// pending flag is cleared. An index outside the bar is ignored.
    pub fn apply_result(&mut self, index: usize, value: Option<String>)
        ensures
            final(self)@ == old(self)@.with_result(
                index,
                match value {
                    Some(v) => Some(v@),
                    None => None,
                },
            ),
            final(self).producers() == old(self).producers(),
    {
        if index < self.blocks.len() {
            let b = &mut self.blocks[index];
            let ghost before = b@;
            match value {
                Some(v) => b.manual_update(v),
                None => b.drop_promise(),
            }
            proof {
                assert(self@.blocks =~= old(self)@.blocks.update(index as int, self@.blocks[index as int]));
                assert(self.producers() =~= old(self).producers());
            }
        }
    }

    /// The status line for the current block states.
    pub fn render(&self) -> (r: String)
        ensures
            r@ == self@.rendered(),
    {
        let ghost blocks = self@.blocks;
        let ghost hide = self.hide_empty_modules;
        let ghost delim = self.delimiter@;
        let mut body = String::new();
        let mut any: bool = false;
        let n: usize = self.blocks.len();
        let mut i: usize = 0;
        while i < n
            invariant
                n == self.blocks@.len(),
                blocks == self@.blocks,
                hide == self.hide_empty_modules,
                delim == self.delimiter@,
                i <= n,
                body@ == join(visible(blocks.take(i as int), hide), delim),
                any == (visible(blocks.take(i as int), hide).len() > 0),
            decreases n - i,
        {
            let b = &self.blocks[i];
            proof {
                assert(blocks[i as int] == b@);
                lemma_visible_step(blocks, hide, i as int);
            }
            if !self.hide_empty_modules || !b.is_empty() {
                let v = b.render_value();
                proof {
                    lemma_join_push(visible(blocks.take(i as int), hide), delim, v@);
                }
                if any {
                    body.append(self.delimiter.as_str());
                }
                body.append(v.as_str());
                any = true;
            }
            i = i + 1;
        }
        assert(blocks.take(n as int) =~= blocks);
        let mut out = String::from_str(self.left_buffer.as_str());
        out.append(body.as_str());
        out.append(self.right_buffer.as_str());
        out
    }

    /// Renders the bar and returns the line if it differs from the one last
    /// returned, remembering it; returns `None` when nothing changed.
    pub fn render_if_changed(&mut self) -> (r: Option<String>)
        ensures
            final(self)@ == (BarState { last_output: Some(old(self)@.rendered()), ..old(self)@ }),
            r is None <==> old(self)@.last_output == Some(old(self)@.rendered()),
            r matches Some(s) ==> s@ == old(self)@.rendered(),
            final(self).producers() == old(self).producers(),
    {
        let line = self.render();
        let same: bool = match &self.last_output {
            Some(prev) => *prev == line,
            None => false,
        };
        if same {
            None
        } else {
            self.last_output = Some(line.clone());
            Some(line)
        }
    }

    pub fn get_refresh_rate(&self) -> (r: u64)
        ensures
            r == self@.refresh_rate,
    {
        self.refresh_rate
    }

    pub fn get_blocks(&self) -> (r: &Vec<StatusBlock<P>>)
        ensures
            r@.map_values(|b: StatusBlock<P>| b@) == self@.blocks,
            r@.map_values(|b: StatusBlock<P>| b.producer()) == self.producers(),
    {
        &self.blocks
    }
}

impl<P: Producer> StatusBar<P> {
    /// One scheduling pass at `now` (milliseconds): each due block either
    /// runs its producer here and stores the text, or, if it is a background
    /// block, is marked pending and its index is returned as a job for the
    /// workers. Blocks that are not due are left as they are.
    pub fn update(&mut self, now: u64) -> (jobs: Vec<usize>)
        ensures
            final(self)@ == (BarState { blocks: final(self)@.blocks, ..old(self)@ }),
            final(self)@.blocks.len() == old(self)@.blocks.len(),
            forall|i: int|
                0 <= i < old(self)@.blocks.len() ==> #[trigger] final(self)@.blocks[i]
                    == old(self)@.blocks[i].cycled(now, final(self)@.blocks[i].cache),
            forall|i: int|
                0 <= i < old(self)@.blocks.len() && #[trigger] old(self)@.blocks[i].is_stale(now)
                    && !old(self)@.blocks[i].concurrent ==> ran(
                    old(self).producers()[i],
                    old(self)@.blocks[i].cache,
                    final(self)@.blocks[i].cache,
                ),
            old(self)@.is_dispatch_list(now, jobs@),
            forall|i: int|
                0 <= i < old(self)@.blocks.len() ==> #[trigger] old(self)@.blocks[i].well_formed()
                    && final(self)@.blocks[i].well_formed(),
            final(self).producers() == old(self).producers(),
    {
        let ghost start = self@;
        let mut jobs: Vec<usize> = Vec::new();
        let n: usize = self.blocks.len();
        let mut i: usize = 0;
        while i < n
            invariant
                n == old(self).blocks@.len(),
                n == self.blocks@.len(),
                start == old(self)@,
                i <= n,
                self.delimiter == old(self).delimiter,
                self.refresh_rate == old(self).refresh_rate,
                self.left_buffer == old(self).left_buffer,
                self.right_buffer == old(self).right_buffer,
                self.hide_empty_modules == old(self).hide_empty_modules,
                self.last_output == old(self).last_output,
                forall|j: int|
                    0 <= j < i ==> (#[trigger] self.blocks@[j])@ == old(self).blocks@[j]@.cycled(
                        now,
                        self.blocks@[j]@.cache,
                    ),
                forall|j: int|
                    0 <= j < n ==> (#[trigger] self.blocks@[j]).producer() == old(
                        self,
                    ).blocks@[j].producer(),
                forall|j: int| i <= j < n ==> #[trigger] self.blocks@[j] == old(self).blocks@[j],
                forall|j: int|
                    0 <= j < i ==> (#[trigger] old(self).blocks@[j])@.well_formed(),
                forall|j: int|
                    0 <= j < i && (#[trigger] old(self).blocks@[j])@.is_stale(now) && !old(
                        self,
                    ).blocks@[j]@.concurrent ==> ran(
                        old(self).blocks@[j].producer(),
                        old(self).blocks@[j]@.cache,
                        self.blocks@[j]@.cache,
                    ),
                forall|k: int, l: int| 0 <= k < l < jobs@.len() ==> jobs@[k] < jobs@[l],
                forall|k: int| 0 <= k < jobs@.len() ==> jobs@[k] < i,
                forall|j: int|
                    0 <= j < i ==> (jobs@.contains(j as usize) <==> (#[trigger] old(
                        self,
                    ).blocks@[j])@.dispatches(now)),
            decreases n - i,
        {
            let ghost prev = jobs@;
            let b = &mut self.blocks[i];
            if b.needs_update(now) {
                if b.is_concurrent() {
                    b.promise_result(now);
                    jobs.push(i);
                } else {
                    b.update_unchecked(now);
                }
            }
            proof {
                assert(jobs@ == prev || jobs@ == prev.push(i));
                assert forall|j: int| 0 <= j < i + 1 implies (jobs@.contains(j as usize) <==> (
                #[trigger] old(self).blocks@[j])@.dispatches(now)) by {
                    if j < i {
                        if jobs@.contains(j as usize) {
                            let k = jobs@.index_of(j as usize);
                            assert(prev.contains(j as usize)) by {
                                if jobs@ != prev {
                                    assert(k < prev.len());
                                    assert(prev[k] == j);
                                }
                            }
                        } else if prev.contains(j as usize) {
                            let k = prev.index_of(j as usize);
                            assert(jobs@[k] == j);
                        }
                    } else {
                        if jobs@ == prev && prev.contains(i) {
                            let k = prev.index_of(i);
                            assert(prev[k] < i);
                        }
                        if jobs@ != prev {
                            assert(jobs@[prev.len() as int] == i);
                        }
                    }
                }
            }
            i = i + 1;
        }
        proof {
            assert(self@.blocks.len() == n);
            assert forall|j: int| 0 <= j < n implies (#[trigger] self@.blocks[j]) == start.blocks[j].cycled(
                now,
                self@.blocks[j].cache,
            ) by {
                assert(self@.blocks[j] == self.blocks@[j]@);
            }
            assert(self.producers() =~= old(self).producers());
        }
        jobs
    }

    /// Runs the given jobs here, for a bar that has no workers: each listed
    /// block's producer is called and its result applied at once. Indices
    /// outside the bar are ignored.
    pub fn run_jobs(&mut self, jobs: &Vec<usize>)
        ensures
            final(self)@ == (BarState { blocks: final(self)@.blocks, ..old(self)@ }),
            final(self)@.blocks.len() == old(self)@.blocks.len(),
            forall|i: int|
                0 <= i < old(self)@.blocks.len() ==> #[trigger] final(self)@.blocks[i] == if jobs@.contains(
                    i as usize,
                ) {
                    old(self)@.blocks[i].applied(final(self)@.blocks[i].cache)
                } else {
                    old(self)@.blocks[i]
                },
            forall|i: int|
                0 <= i < old(self)@.blocks.len() && #[trigger] jobs@.contains(i as usize) ==> ran(
                    old(self).producers()[i],
                    old(self)@.blocks[i].cache,
                    final(self)@.blocks[i].cache,
                ),
            final(self).producers() == old(self).producers(),
    {
        let n: usize = self.blocks.len();
        let mut k: usize = 0;
        while k < jobs.len()
            invariant
                n == old(self)@.blocks.len(),
                n == self@.blocks.len(),
                k <= jobs@.len(),
                self@ == (BarState { blocks: self@.blocks, ..old(self)@ }),
                self.producers() == old(self).producers(),
                forall|i: int|
                    0 <= i < n ==> #[trigger] self@.blocks[i] == if jobs@.take(k as int).contains(
                        i as usize,
                    ) {
                        old(self)@.blocks[i].applied(self@.blocks[i].cache)
                    } else {
                        old(self)@.blocks[i]
                    },
                forall|i: int|
                    0 <= i < n && #[trigger] jobs@.take(k as int).contains(i as usize) ==> ran(
                        old(self).producers()[i],
                        old(self)@.blocks[i].cache,
                        self@.blocks[i].cache,
                    ),
            decreases jobs@.len() - k,
        {
            let index = jobs[k];
            let ghost before = self@.blocks;
            if index < n {
                let ghost prod = self.producers()[index as int];
                assert(prod == self.blocks@[index as int].producer());
                let value = self.blocks[index].get_command().produce();
                self.apply_result(index, value);
            }
            proof {
                assert(jobs@.take(k + 1) =~= jobs@.take(k as int).push(index));
                assert forall|i: int| 0 <= i < n implies #[trigger] self@.blocks[i] == if jobs@.take(
                    k + 1,
                ).contains(i as usize) {
                    old(self)@.blocks[i].applied(self@.blocks[i].cache)
                } else {
                    old(self)@.blocks[i]
                } by {
                    if i != index {
                        assert(self@.blocks[i] == before[i]);
                        if jobs@.take(k + 1).contains(i as usize) {
                            let m = jobs@.take(k + 1).index_of(i as usize);
                            assert(jobs@.take(k as int)[m] == i);
                        }
                        if jobs@.take(k as int).contains(i as usize) {
                            let m = jobs@.take(k as int).index_of(i as usize);
                            assert(jobs@.take(k + 1)[m] == i);
                        }
                    } else {
                        assert(jobs@.take(k + 1)[k as int] == i);
                    }
                }
            }
            k = k + 1;
        }
        assert(jobs@.take(jobs@.len() as int) =~= jobs@);
    }

    /// One full refresh cycle at `now`: the job outcomes that arrived are
    /// applied in arrival order, then a scheduling pass runs. With `inline`
    /// set (no workers), the jobs of that pass are run here at once and none
    /// are returned; otherwise they are returned for the workers.
    pub fn cycle(
        &mut self,
        results: Vec<(usize, Option<String>)>,
        now: u64,
        inline: bool,
    ) -> (jobs: Vec<usize>)
        ensures
            ({
                let mid = old(self)@.with_results(outcomes(results@));
                &&& final(self)@ == (BarState { blocks: final(self)@.blocks, ..mid })
                &&& final(self)@.blocks.len() == mid.blocks.len()
                &&& forall|i: int|
                    0 <= i < mid.blocks.len() ==> #[trigger] final(self)@.blocks[i] == if inline
                        && mid.blocks[i].dispatches(now) {
                        mid.blocks[i].promised(now).applied(final(self)@.blocks[i].cache)
                    } else {
                        mid.blocks[i].cycled(now, final(self)@.blocks[i].cache)
                    }
                &&& forall|i: int|
                    0 <= i < mid.blocks.len() && #[trigger] mid.blocks[i].is_stale(now) && (inline
                        || !mid.blocks[i].concurrent) ==> ran(
                        old(self).producers()[i],
                        mid.blocks[i].cache,
                        final(self)@.blocks[i].cache,
                    )
                &&& if inline {
                    jobs@.len() == 0
                } else {
                    mid.is_dispatch_list(now, jobs@)
                }
            }),
            final(self).producers() == old(self).producers(),
    {
        let ghost all = outcomes(results@);
        let mut pending = results;
        let total: usize = pending.len();
        let mut k: usize = 0;
        while k < total
            invariant
                k <= total,
                total == all.len(),
                pending@.len() == total - k,
                forall|m: int| 0 <= m < pending@.len() ==> outcomes(pending@)[m] == all[k + m],
                self@ == old(self)@.with_results(all.take(k as int)),
                self.producers() == old(self).producers(),
            decreases total - k,
        {
            let ghost before = pending@;
            let (index, value) = pending.remove(0);
            proof {
                assert(outcomes(before)[0] == all[k as int]);
                assert forall|m: int| 0 <= m < pending@.len() implies outcomes(pending@)[m] == all[k
                    + 1 + m] by {
                    assert(pending@[m] == before[m + 1]);
                    assert(outcomes(before)[m + 1] == all[k + m + 1]);
                }
                assert(all.take(k + 1).drop_last() =~= all.take(k as int));
            }
            self.apply_result(index, value);
            k = k + 1;
        }
        assert(all.take(total as int) =~= all);
        let ghost mid = self@;
        let jobs = self.update(now);
        if inline {
            let ghost after_pass = self@;
            self.run_jobs(&jobs);
            proof {
                assert forall|i: int| 0 <= i < mid.blocks.len() implies #[trigger] self@.blocks[i]
                    == if mid.blocks[i].dispatches(now) {
                    mid.blocks[i].promised(now).applied(self@.blocks[i].cache)
                } else {
                    mid.blocks[i].cycled(now, self@.blocks[i].cache)
                } by {
                    if !mid.blocks[i].dispatches(now) && jobs@.contains(i as usize) {
                        let m = jobs@.index_of(i as usize);
                        assert(jobs@[m] == i);
                    }
                }
                assert forall|i: int|
                    0 <= i < mid.blocks.len() && #[trigger] mid.blocks[i].is_stale(now)
                        implies ran(
                    old(self).producers()[i],
                    mid.blocks[i].cache,
                    self@.blocks[i].cache,
                ) by {
                    if mid.blocks[i].concurrent {
                        assert(jobs@.contains(i as usize));
                        assert(after_pass.blocks[i].cache == mid.blocks[i].cache);
                    }
                }
            }
            Vec::new()
        } else {
            jobs
        }
    }
}

impl<P> Default for StatusBar<P> {
    fn default() -> (r: Self)
        ensures
            r@ == (BarState {
                delimiter: Seq::empty(),
                blocks: Seq::empty(),
                refresh_rate: 1000,
                left_buffer: Seq::empty(),
                right_buffer: Seq::empty(),
                hide_empty: false,
                last_output: None,
            }),
    {
        Self::new()
    }
}

} // verus!
