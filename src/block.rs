use vstd::prelude::*;
use vstd::string::*;

use crate::producer::{ran, Producer};

verus! {

/// `n` space characters.
pub open spec fn spaces(n: nat) -> Seq<char> {
    Seq::new(n, |_i: int| ' ')
}

/// The text cut down to at most `max` characters, when a maximum is set.
pub open spec fn truncated(s: Seq<char>, max: Option<usize>) -> Seq<char> {
    match max {
        Some(m) => if s.len() > m { s.take(m as int) } else { s },
        None => s,
    }
}

/// The text filled with trailing spaces up to `min` characters, when a
/// minimum is set. A longer text is left as it is.
pub open spec fn padded(s: Seq<char>, min: Option<usize>) -> Seq<char> {
    match min {
        Some(n) => if s.len() < n { s + spaces((n - s.len()) as nat) } else { s },
        None => s,
    }
}

/// What a block with the given cache and width limits shows: the maximum is
/// applied first, then the minimum.
pub open spec fn sized(cache: Seq<char>, min: Option<usize>, max: Option<usize>) -> Seq<char> {
    padded(truncated(cache, max), min)
}

/// Milliseconds from `since` to `now`; zero when the clock reads earlier
/// than `since`.
pub open spec fn elapsed(now: u64, since: u64) -> int {
    if now >= since {
        now - since
    } else {
        0
    }
}

/// The abstract state of a block. Times are in milliseconds on one clock
/// chosen by the caller.
pub struct BlockState {
    pub name: Seq<char>,
    pub poll_interval: Option<u64>,
    pub concurrent: bool,
    pub min_size: Option<usize>,
    pub max_size: Option<usize>,
    pub cache: Seq<char>,
    pub last_update: Option<u64>,
    pub in_flight: bool,
}

impl BlockState {
    /// A block that was never evaluated: empty name and cache, no limits,
    /// evaluated once and on the scheduler's own thread.
    pub open spec fn fresh() -> BlockState {
        BlockState {
            name: Seq::empty(),
            poll_interval: None,
            concurrent: false,
            min_size: None,
            max_size: None,
            cache: Seq::empty(),
            last_update: None,
            in_flight: false,
        }
    }

    /// A job can only be pending for a block that has been dispatched, and
    /// dispatch stamps the block.
    pub open spec fn well_formed(self) -> bool {
        self.in_flight ==> self.last_update is Some
    }

    /// Whether the block is due for evaluation at `now`.
    pub open spec fn is_stale(self, now: u64) -> bool {
        match self.last_update {
            None => true,
            Some(t) => !self.in_flight && match self.poll_interval {
                None => false,
                Some(p) => elapsed(now, t) >= p,
            },
        }
    }

    /// The block after its producer ran inline at `now` and returned `value`.
    pub open spec fn refreshed(self, value: Seq<char>, now: u64) -> BlockState {
        BlockState { cache: value, last_update: Some(now), ..self }
    }

    /// The block after a job for it was handed out at `now`.
    pub open spec fn promised(self, now: u64) -> BlockState {
        BlockState { last_update: Some(now), in_flight: true, ..self }
    }

    /// The block after the result `value` of its job was applied.
    pub open spec fn applied(self, value: Seq<char>) -> BlockState {
        BlockState { cache: value, in_flight: false, ..self }
    }

    /// The block after one scheduling pass at `now`, where `produced` is what
    /// its producer returned if it was run inline.
    pub open spec fn cycled(self, now: u64, produced: Seq<char>) -> BlockState {
        if !self.is_stale(now) {
            self
        } else if self.concurrent {
            self.promised(now)
        } else {
            self.refreshed(produced, now)
        }
    }

    /// Whether one scheduling pass at `now` hands a job for this block to the
    /// workers.
    pub open spec fn dispatches(self, now: u64) -> bool {
        self.is_stale(now) && self.concurrent
    }

    /// The text the block shows.
    pub open spec fn display(self) -> Seq<char> {
        sized(self.cache, self.min_size, self.max_size)
    }
}

/// One independently refreshed part of a status bar.
///
/// A block holds a producer, its polling policy and width limits, and the
/// last text the producer returned. Built with `new` and the builder methods.
pub struct StatusBlock<P> {
    name: String,
    command: P,
    poll_interval: Option<u64>,
    update_in_background: bool,
    min_size: Option<usize>,
    max_size: Option<usize>,
    cache: String,
    last_update: Option<u64>,
    promised_result: bool,
}

impl<P> View for StatusBlock<P> {
    type V = BlockState;

    closed spec fn view(&self) -> BlockState {
        BlockState {
            name: self.name@,
            poll_interval: self.poll_interval,
            concurrent: self.update_in_background,
            min_size: self.min_size,
            max_size: self.max_size,
            cache: self.cache@,
            last_update: self.last_update,
            in_flight: self.promised_result,
        }
    }
}

impl<P> StatusBlock<P> {
    #[verifier::type_invariant]
    closed spec fn pending_is_stamped(&self) -> bool {
        self.promised_result ==> self.last_update is Some
    }

    /// The block's producer.
    pub closed spec fn producer(&self) -> P {
        self.command
    }

    /// A fresh block with the default producer.
    pub fn new() -> (r: Self)
        where P: Default,
        ensures
            r@ == BlockState::fresh(),
    {
        StatusBlock {
            name: String::new(),
            command: P::default(),
            poll_interval: None,
            update_in_background: false,
            min_size: None,
            max_size: None,
            cache: String::new(),
            last_update: None,
            promised_result: false,
        }
    }

    pub fn name(self, name: &str) -> (r: Self)
        ensures
            r@ == (BlockState { name: name@, ..self@ }),
            r.producer() == self.producer(),
    {
        proof {
            use_type_invariant(&self);
        }
        StatusBlock { name: String::from_str(name), ..self }
    }

    pub fn command(self, command: P) -> (r: Self)
        ensures
            r@ == self@,
            r.producer() == command,
    {
        proof {
            use_type_invariant(&self);
        }
        StatusBlock { command, ..self }
    }

    /// Re-evaluate the block every `poll_interval` milliseconds.
    pub fn poll_interval(self, poll_interval: u64) -> (r: Self)
        ensures
            r@ == (BlockState { poll_interval: Some(poll_interval), ..self@ }),
            r.producer() == self.producer(),
    {
        proof {
            use_type_invariant(&self);
        }
        StatusBlock { poll_interval: Some(poll_interval), ..self }
    }

    pub fn update_in_background(self, is_concurrent: bool) -> (r: Self)
        ensures
            r@ == (BlockState { concurrent: is_concurrent, ..self@ }),
            r.producer() == self.producer(),
    {
        proof {
            use_type_invariant(&self);
        }
        StatusBlock { update_in_background: is_concurrent, ..self }
    }

    pub fn min_size(self, min_size: usize) -> (r: Self)
        ensures
            r@ == (BlockState { min_size: Some(min_size), ..self@ }),
            r.producer() == self.producer(),
    {
        proof {
            use_type_invariant(&self);
        }
        StatusBlock { min_size: Some(min_size), ..self }
    }

    pub fn max_size(self, max_size: usize) -> (r: Self)
        ensures
            r@ == (BlockState { max_size: Some(max_size), ..self@ }),
            r.producer() == self.producer(),
    {
        proof {
            use_type_invariant(&self);
        }
        StatusBlock { max_size: Some(max_size), ..self }
    }

    /// Sets both width limits to `size`.
    pub fn size(self, size: usize) -> (r: Self)
        ensures
            r@ == (BlockState { min_size: Some(size), max_size: Some(size), ..self@ }),
            r.producer() == self.producer(),
    {
        proof {
            use_type_invariant(&self);
        }
        StatusBlock { min_size: Some(size), max_size: Some(size), ..self }
    }

    /// Whether the block is due at `now` (milliseconds).
    pub fn needs_update(&self, now: u64) -> (r: bool)
        ensures
            r == self@.is_stale(now),
            self@.well_formed(),
            self@.in_flight ==> !r,
    {
        proof {
            use_type_invariant(self);
        }
        match self.last_update {
            None => true,
            Some(t) => {
                if self.promised_result {
                    false
                } else {
                    match self.poll_interval {
                        None => false,
                        Some(p) => {
                            let waited: u64 = if now >= t { now - t } else { 0 };
                            waited >= p
                        },
                    }
                }
            },
        }
    }

    pub fn get_name(&self) -> (r: &str)
        ensures
            r@ == self@.name,
    {
        self.name.as_str()
    }

    pub fn get_cache(&self) -> (r: &String)
        ensures
            r@ == self@.cache,
    {
        &self.cache
    }

    pub fn get_command(&self) -> (r: &P)
        ensures
            *r == self.producer(),
    {
        &self.command
    }

    pub fn is_empty(&self) -> (r: bool)
        ensures
            r == (self@.cache.len() == 0),
    {
        self.cache.as_str().unicode_len() == 0
    }

    pub fn is_concurrent(&self) -> (r: bool)
        ensures
            r == self@.concurrent,
    {
        self.update_in_background
    }

    /// The text the block shows: the cache cut to `max_size` characters,
    /// then filled with spaces up to `min_size`.
    pub fn render_value(&self) -> (r: String)
        ensures
            r@ == self@.display(),
    {
        let s: &str = self.cache.as_str();
        let len: usize = s.unicode_len();
        let mut out: String;
        let mut out_len: usize;
        match self.max_size {
            Some(m) => {
                if len > m {
                    out = String::from_str(s.substring_char(0, m));
                    out_len = m;
                } else {
                    out = String::from_str(s);
                    out_len = len;
                }
            },
            None => {
                out = String::from_str(s);
                out_len = len;
            },
        }
        let ghost cut = truncated(self.cache@, self.max_size);
        assert(out@ == cut);
        if let Some(min) = self.min_size {
            let ghost start = out_len;
            proof {
                reveal_strlit(" ");
                assert(out@ =~= cut + spaces(0));
            }
            while out_len < min
                invariant
                    start == cut.len(),
                    start <= out_len,
                    out_len <= min || out_len == start,
                    out@ == cut + spaces((out_len - start) as nat),
                decreases min - out_len,
            {
                out.append(" ");
                proof {
                    reveal_strlit(" ");
                }
                assert(" "@ =~= seq![' ']);
                assert(spaces((out_len - start) as nat).push(' ') =~= spaces(
                    (out_len + 1 - start) as nat,
                ));
                assert(cut + spaces((out_len - start) as nat) + " "@ =~= cut + spaces(
                    (out_len + 1 - start) as nat,
                ));
                out_len = out_len + 1;
            }
            assert(out_len == start ==> out@ =~= cut);
        }
        out
    }

    /// Stores the result of a job for this block and clears its pending flag.
    pub fn manual_update(&mut self, val: String)
        ensures
            final(self)@ == old(self)@.applied(val@),
            final(self).producer() == old(self).producer(),
    {
        proof {
            use_type_invariant(&*self);
        }
        self.cache = val;
        self.promised_result = false;
    }

    /// Clears the pending flag after the block's job failed; the cache keeps
    /// its last text and the stamp of the dispatch stays.
    pub fn drop_promise(&mut self)
        ensures
            final(self)@ == old(self)@.applied(old(self)@.cache),
            final(self).producer() == old(self).producer(),
    {
        proof {
            use_type_invariant(&*self);
        }
        self.promised_result = false;
    }

    /// Marks a job for this block as handed out at `now`, so that the block is
    /// not dispatched again before its result is applied.
    pub fn promise_result(&mut self, now: u64)
        ensures
            final(self)@ == old(self)@.promised(now),
            final(self).producer() == old(self).producer(),
    {
        proof {
            use_type_invariant(&*self);
        }
        self.last_update = Some(now);
        self.promised_result = true;
    }
}

impl<P: Producer> StatusBlock<P> {
    /// Runs the producer on this thread if the block is due at `now`: the
    /// block is stamped with `now`, and its cache takes the returned text, or
    /// keeps its last text if the producer failed.
    pub fn update(&mut self, now: u64)
        ensures
            old(self)@.is_stale(now) ==> final(self)@ == old(self)@.refreshed(final(self)@.cache, now),
            old(self)@.is_stale(now) ==> ran(old(self).producer(), old(self)@.cache, final(self)@.cache),
            !old(self)@.is_stale(now) ==> final(self)@ == old(self)@,
            final(self).producer() == old(self).producer(),
    {
        if self.needs_update(now) {
            self.update_unchecked(now);
        }
    }

    /// Runs the producer on this thread whether or not the block is due, as
    /// `update` does for a due block.
    pub fn update_unchecked(&mut self, now: u64)
        ensures
            final(self)@ == old(self)@.refreshed(final(self)@.cache, now),
            ran(old(self).producer(), old(self)@.cache, final(self)@.cache),
            final(self).producer() == old(self).producer(),
    {
        proof {
            use_type_invariant(&*self);
        }
        match self.command.produce() {
            Some(text) => {
                self.cache = text;
            },
            None => {},
        }
        self.last_update = Some(now);
    }
}

impl<P: Default> Default for StatusBlock<P> {
    fn default() -> (r: Self)
        ensures
            r@ == BlockState::fresh(),
    {
        Self::new()
    }
}

} // verus!
