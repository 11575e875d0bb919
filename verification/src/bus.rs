//! The parallel bus transport: a write-only, word-oriented command/data bus.
//!
//! The transport owns the level of the data/command select line and the
//! queue of bus cycles that the hardware engine has yet to shift out. Cycles
//! leave the queue in the order in which they entered it, one strobe pulse
//! per word.

use vstd::prelude::*;
use crate::error::DisplayError;

verus! {

/// The level of the data/command select line.
#[derive(Clone, Copy, Debug, PartialEq, Eq, Structural)]
pub enum SelectPhase {
    Command,
    Data,
}

/// The width of the data path.
#[derive(Clone, Copy, Debug, PartialEq, Eq, Structural)]
pub enum BusWidth {
    Eight,
    Sixteen,
}

/// One thing the transport does to the bus.
#[derive(Clone, Copy, Debug, PartialEq, Eq, Structural)]
pub enum BusEvent {
    /// The select line is driven to the level of the phase.
    Select(SelectPhase),
    /// One word is shifted out under one strobe pulse.
    Word(u16),
}

impl BusWidth {
    /// Number of data lines.
    pub open spec fn bits(self) -> nat {
        match self {
            BusWidth::Eight => 8,
            BusWidth::Sixteen => 16,
        }
    }

    /// One more than the largest word the data lines can carry.
    pub open spec fn limit(self) -> int {
        match self {
            BusWidth::Eight => 0x100,
            BusWidth::Sixteen => 0x1_0000,
        }
    }

    /// What the data lines carry when `word` is shifted out: its low bits.
    pub open spec fn fit(self, word: u16) -> u16 {
        (word as int % self.limit()) as u16
    }

    /// Number of data lines.
    pub fn pin_count(self) -> (n: u8)
        ensures
            n == self.bits(),
    {
        match self {
            BusWidth::Eight => 8,
            BusWidth::Sixteen => 16,
        }
    }
}

/// The words of `words`, each cut to the bus width, as bus events.
pub open spec fn word_events(width: BusWidth, words: Seq<u16>) -> Seq<BusEvent> {
    Seq::new(words.len(), |i: int| BusEvent::Word(width.fit(words[i])))
}

/// The words of `words` as they stand, as bus events.
pub open spec fn plain_events(words: Seq<u16>) -> Seq<BusEvent> {
    Seq::new(words.len(), |i: int| BusEvent::Word(words[i]))
}

/// `times` copies of `events`, one after the other.
pub open spec fn copies(events: Seq<BusEvent>, times: nat) -> Seq<BusEvent>
    decreases times,
{
    if times == 0 {
        Seq::empty()
    } else {
        events + copies(events, (times - 1) as nat)
    }
}

/// The words of `pattern`, each cut to the bus width, `times` times over.
pub open spec fn repeated(width: BusWidth, pattern: Seq<u16>, times: nat) -> Seq<BusEvent> {
    copies(word_events(width, pattern), times)
}

/// What the transport is, to a caller.
pub struct BusState {
    pub width: BusWidth,
    /// The level the select line has now.
    pub phase: SelectPhase,
    /// The cycles queued and not yet handed to the hardware, oldest first.
    pub pending: Seq<BusEvent>,
}

/// A stretch of the queue. A run of repeated words takes the room of its
/// pattern, however often it repeats.
enum Burst {
    Select(SelectPhase),
    Word(u16),
    Run { pattern: Vec<u16>, times: u64 },
}

/// How far the queue has been handed out: the burst under way, the place in
/// its pattern, and the repetitions of it that are through.
#[derive(Clone, Copy)]
struct Cursor {
    head: usize,
    at: usize,
    done: u64,
}

/// What is left of a burst of which `done` repetitions and `at` more words
/// are through.
spec fn rest(burst: Burst, at: int, done: int) -> Seq<BusEvent> {
    match burst {
        Burst::Select(phase) => if at == 0 && done == 0 {
            seq![BusEvent::Select(phase)]
        } else {
            Seq::empty()
        },
        Burst::Word(word) => if at == 0 && done == 0 {
            seq![BusEvent::Word(word)]
        } else {
            Seq::empty()
        },
        Burst::Run { pattern, times } => if 0 <= done < times && 0 <= at < pattern@.len() {
            plain_events(pattern@.skip(at)) + copies(plain_events(pattern@), (times - done - 1) as nat)
        } else {
            Seq::empty()
        },
    }
}

/// The cycles of whole bursts, in their order.
spec fn flatten(bursts: Seq<Burst>) -> Seq<BusEvent>
    decreases bursts.len(),
{
    if bursts.len() == 0 {
        Seq::empty()
    } else {
        rest(bursts[0], 0, 0) + flatten(bursts.skip(1))
    }
}

/// The cycles of a queue that are yet to be handed out.
spec fn pending_from(queue: Seq<Burst>, cursor: Cursor) -> Seq<BusEvent> {
    if cursor.head >= queue.len() {
        Seq::empty()
    } else {
        rest(queue[cursor.head as int], cursor.at as int, cursor.done as int) + flatten(
            queue.skip(cursor.head + 1),
        )
    }
}

proof fn lemma_flatten_push(bursts: Seq<Burst>, burst: Burst)
    ensures
        flatten(bursts.push(burst)) == flatten(bursts) + rest(burst, 0, 0),
    decreases bursts.len(),
{
    if bursts.len() == 0 {
        assert(bursts.push(burst).skip(1) =~= Seq::<Burst>::empty());
        assert(flatten(Seq::<Burst>::empty()) =~= Seq::<BusEvent>::empty());
        assert(flatten(bursts) =~= Seq::<BusEvent>::empty());
        assert(flatten(bursts.push(burst)) =~= rest(burst, 0, 0));
    } else {
        lemma_flatten_push(bursts.skip(1), burst);
        assert(bursts.push(burst).skip(1) =~= bursts.skip(1).push(burst));
        assert(flatten(bursts.push(burst)) =~= flatten(bursts) + rest(burst, 0, 0));
    }
}

proof fn lemma_pending_push(queue: Seq<Burst>, cursor: Cursor, burst: Burst)
    requires
        cursor.head < queue.len(),
    ensures
        pending_from(queue.push(burst), cursor) == pending_from(queue, cursor) + rest(burst, 0, 0),
{
    lemma_flatten_push(queue.skip(cursor.head + 1), burst);
    assert(queue.push(burst).skip(cursor.head + 1) =~= queue.skip(cursor.head + 1).push(burst));
    assert(pending_from(queue.push(burst), cursor) =~= pending_from(queue, cursor) + rest(
        burst,
        0,
        0,
    ));
}

proof fn lemma_pending_next_burst(queue: Seq<Burst>, head: int)
    requires
        0 <= head < queue.len(),
        head + 1 <= usize::MAX,
    ensures
        flatten(queue.skip(head + 1)) == pending_from(
            queue,
            Cursor { head: (head + 1) as usize, at: 0, done: 0 },
        ),
{
    if head + 1 < queue.len() {
        assert(queue.skip(head + 1).skip(1) =~= queue.skip(head + 2));
    }
}

/// Copies of nothing are nothing.
pub proof fn lemma_copies_of_nothing(times: nat)
    ensures
        copies(Seq::empty(), times) =~= Seq::empty(),
    decreases times,
{
    if times > 0 {
        lemma_copies_of_nothing((times - 1) as nat);
    }
}

/// One more copy may stand in front or behind.
pub proof fn lemma_copies_either_end(events: Seq<BusEvent>, times: nat)
    ensures
        events + copies(events, times) =~= copies(events, times) + events,
    decreases times,
{
    if times > 0 {
        lemma_copies_either_end(events, (times - 1) as nat);
        assert(events + copies(events, times) =~= events + (events + copies(
            events,
            (times - 1) as nat,
        )));
        assert(events + (copies(events, (times - 1) as nat) + events) =~= copies(events, times)
            + events);
    }
}

/// Finds the next cycle of the queue from `cursor` on, and the cursor behind
/// it.
fn next_from(queue: &Vec<Burst>, cursor: Cursor) -> (found: (Option<BusEvent>, Cursor))
    ensures
        found.0 is None ==> pending_from(queue@, cursor).len() == 0,
        found.0 is Some ==> pending_from(queue@, cursor) == seq![found.0->Some_0] + pending_from(
            queue@,
            found.1,
        ),
{
    let mut head: usize = cursor.head;
    let mut at: usize = cursor.at;
    let mut done: u64 = cursor.done;
    while head < queue.len()
        invariant
            pending_from(queue@, Cursor { head, at, done }) == pending_from(queue@, cursor),
        decreases queue.len() - head,
    {
        proof {
            lemma_pending_next_burst(queue@, head as int);
        }
        let behind = Cursor { head: head + 1, at: 0, done: 0 };
        match &queue[head] {
            Burst::Select(phase) => {
                if at == 0 && done == 0 {
                    return (Some(BusEvent::Select(*phase)), behind);
                }
            },
            Burst::Word(word) => {
                if at == 0 && done == 0 {
                    return (Some(BusEvent::Word(*word)), behind);
                }
            },
            Burst::Run { pattern, times } => {
                if done < *times && at < pattern.len() {
                    let word: u16 = pattern[at];
                    let ghost whole = plain_events(pattern@);
                    let ghost left = (*times - done - 1) as nat;
                    proof {
                        assert(plain_events(pattern@.skip(at as int)) =~= seq![BusEvent::Word(word)]
                            + plain_events(pattern@.skip(at + 1)));
                    }
                    if at + 1 < pattern.len() {
                        let next = Cursor { head, at: at + 1, done };
                        proof {
                            assert(pending_from(queue@, Cursor { head, at, done }) =~= seq![
                                BusEvent::Word(word),
                            ] + pending_from(queue@, next));
                        }
                        return (Some(BusEvent::Word(word)), next);
                    } else if done + 1 < *times {
                        let next = Cursor { head, at: 0, done: done + 1 };
                        proof {
                            assert(plain_events(pattern@.skip(at + 1)) =~= Seq::<BusEvent>::empty());
                            assert(pattern@.skip(0) =~= pattern@);
                            assert(copies(whole, left) == whole + copies(
                                whole,
                                (left - 1) as nat,
                            ));
                            assert(pending_from(queue@, Cursor { head, at, done }) =~= seq![
                                BusEvent::Word(word),
                            ] + pending_from(queue@, next));
                        }
                        return (Some(BusEvent::Word(word)), next);
                    } else {
                        proof {
                            assert(plain_events(pattern@.skip(at + 1)) =~= Seq::<BusEvent>::empty());
                            assert(copies(whole, left) =~= Seq::<BusEvent>::empty());
                            assert(pending_from(queue@, Cursor { head, at, done }) =~= seq![
                                BusEvent::Word(word),
                            ] + pending_from(queue@, behind));
                        }
                        return (Some(BusEvent::Word(word)), behind);
                    }
                }
            },
        }
        head = head + 1;
        at = 0;
        done = 0;
    }
    (None, cursor)
}

/// The transport. It is made once for a bus and is never copied.
pub struct ParallelBus {
    width: BusWidth,
    phase: SelectPhase,
    queue: Vec<Burst>,
    cursor: Cursor,
}

impl View for ParallelBus {
    type V = BusState;

    closed spec fn view(&self) -> BusState {
        BusState {
            width: self.width,
            phase: self.phase,
            pending: pending_from(self.queue@, self.cursor),
        }
    }
}

impl ParallelBus {
    /// Makes the transport for a bus that is expected to be `expected` wide,
    /// over a state machine that drives `out_pins` data lines.
    ///
    /// Fails with `ConfigurationError` exactly when the two differ. A new
    /// transport first drives the select line to the command level.
    pub fn new(expected: BusWidth, out_pins: u8) -> (made: Result<ParallelBus, DisplayError>)
        ensures
            out_pins == expected.bits() ==> made is Ok && made->Ok_0@ == (BusState {
                width: expected,
                phase: SelectPhase::Command,
                pending: seq![BusEvent::Select(SelectPhase::Command)],
            }),
            out_pins != expected.bits() ==> made == Err::<ParallelBus, DisplayError>(
                DisplayError::ConfigurationError,
            ),
    {
        if out_pins != expected.pin_count() {
            return Err(DisplayError::ConfigurationError);
        }
        let mut bus = ParallelBus {
            width: expected,
            phase: SelectPhase::Command,
            queue: Vec::new(),
            cursor: Cursor { head: 0, at: 0, done: 0 },
        };
        bus.push(Burst::Select(SelectPhase::Command));
        assert(bus@.pending =~= seq![BusEvent::Select(SelectPhase::Command)]);
        Ok(bus)
    }

    pub fn width(&self) -> (width: BusWidth)
        ensures
            width == self@.width,
    {
        self.width
    }

    /// The level the select line has now.
    pub fn phase(&self) -> (phase: SelectPhase)
        ensures
            phase == self@.phase,
    {
        self.phase
    }

    /// A copy of the queued cycles, oldest first.
    pub fn pending(&self) -> (cycles: Vec<BusEvent>)
        ensures
            cycles@ == self@.pending,
    {
        let mut cycles: Vec<BusEvent> = Vec::new();
        let mut cursor = self.cursor;
        loop
            invariant
                cycles@ + pending_from(self.queue@, cursor) == self@.pending,
            ensures
                cycles@ == self@.pending,
            decreases pending_from(self.queue@, cursor).len(),
        {
            let found = next_from(&self.queue, cursor);
            match found.0 {
                Some(cycle) => {
                    proof {
                        assert(cycles@.push(cycle) + pending_from(self.queue@, found.1) =~= cycles@
                            + pending_from(self.queue@, cursor));
                    }
                    cycles.push(cycle);
                    cursor = found.1;
                },
                None => {
                    proof {
                        assert(cycles@ + pending_from(self.queue@, cursor) =~= cycles@);
                    }
                    break ;
                },
            }
        }
        cycles
    }

    fn push(&mut self, burst: Burst)
        ensures
            final(self)@ == (BusState {
                pending: old(self)@.pending + rest(burst, 0, 0),
                ..old(self)@
            }),
    {
        if self.cursor.head >= self.queue.len() {
            self.queue.clear();
            self.cursor = Cursor { head: 0, at: 0, done: 0 };
            proof {
                assert(self.queue@.push(burst).skip(1) =~= Seq::<Burst>::empty());
                assert(pending_from(self.queue@.push(burst), self.cursor) =~= old(self)@.pending
                    + rest(burst, 0, 0));
            }
        } else {
            proof {
                lemma_pending_push(self.queue@, self.cursor, burst);
            }
        }
        self.queue.push(burst);
    }

    /// Drives the select line to the level of `phase`.
    pub fn select(&mut self, phase: SelectPhase)
        ensures
            final(self)@ == (BusState {
                phase,
                pending: old(self)@.pending.push(BusEvent::Select(phase)),
                ..old(self)@
            }),
    {
        self.phase = phase;
        self.push(Burst::Select(phase));
        assert(self@.pending =~= old(self)@.pending.push(BusEvent::Select(phase)));
    }

    fn fitted(&self, word: u16) -> (cut: u16)
        ensures
            cut == self@.width.fit(word),
    {
        match self.width {
            BusWidth::Eight => word % 0x100,
            BusWidth::Sixteen => word,
        }
    }

    /// Queues one word. The data lines carry its low bits.
    pub fn write_word(&mut self, word: u16)
        ensures
            final(self)@ == (BusState {
                pending: old(self)@.pending.push(BusEvent::Word(old(self)@.width.fit(word))),
                ..old(self)@
            }),
    {
        let cut = self.fitted(word);
        self.push(Burst::Word(cut));
        assert(self@.pending =~= old(self)@.pending.push(BusEvent::Word(cut)));
    }

    fn fitted_all(&self, words: &Vec<u16>) -> (cut: Vec<u16>)
        ensures
            cut@.len() == words@.len(),
            plain_events(cut@) == word_events(self@.width, words@),
    {
        let mut cut: Vec<u16> = Vec::new();
        let mut i: usize = 0;
        while i < words.len()
            invariant
                i <= words.len(),
                cut@.len() == i,
                forall|k: int| 0 <= k < i ==> cut@[k] == self@.width.fit(#[trigger] words@[k]),
            decreases words.len() - i,
        {
            cut.push(self.fitted(words[i]));
            i += 1;
        }
        assert(plain_events(cut@) =~= word_events(self@.width, words@));
        cut
    }

    /// Queues the words of `words` in their order, none dropped, none merged.
    pub fn write_burst(&mut self, words: &Vec<u16>)
        ensures
            final(self)@ == (BusState {
                pending: old(self)@.pending + word_events(old(self)@.width, words@),
                ..old(self)@
            }),
    {
        self.write_repeated(words, 1);
        proof {
            let events = word_events(old(self)@.width, words@);
            assert(copies(events, 0) =~= Seq::<BusEvent>::empty());
            assert(copies(events, 1) =~= events);
        }
    }

    /// Queues the words of `pattern` in their order, `times` times over. The
    /// queue grows by the pattern, not by its repetitions.
    pub fn write_repeated(&mut self, pattern: &Vec<u16>, times: u64)
        ensures
            final(self)@ == (BusState {
                pending: old(self)@.pending + repeated(old(self)@.width, pattern@, times as nat),
                ..old(self)@
            }),
    {
        if pattern.len() == 0 || times == 0 {
            proof {
                assert(word_events(self@.width, pattern@) =~= Seq::<BusEvent>::empty() || times
                    == 0);
                lemma_copies_of_nothing(times as nat);
                assert(self@.pending + repeated(self@.width, pattern@, times as nat)
                    =~= self@.pending);
            }
            return ;
        }
        let cut = self.fitted_all(pattern);
        proof {
            assert(cut@.skip(0) =~= cut@);
        }
        self.push(Burst::Run { pattern: cut, times });
    }

    /// Hands the oldest queued cycle to the caller, if there is one, and
    /// takes it off the queue.
    pub fn next_cycle(&mut self) -> (cycle: Option<BusEvent>)
        ensures
            match cycle {
                Some(event) => old(self)@.pending.len() > 0 && event == old(self)@.pending[0]
                    && final(self)@ == (BusState {
                    pending: old(self)@.pending.skip(1),
                    ..old(self)@
                }),
                None => old(self)@.pending.len() == 0 && final(self)@ == old(self)@,
            },
    {
        let found = next_from(&self.queue, self.cursor);
        if found.0.is_some() {
            self.cursor = found.1;
            assert(self@.pending =~= old(self)@.pending.skip(1));
        }
        found.0
    }

    /// Hands the queued cycles to the caller, oldest first, and leaves the
    /// queue empty. The select line keeps its level.
    pub fn drain(&mut self) -> (cycles: Vec<BusEvent>)
        ensures
            cycles@ == old(self)@.pending,
            final(self)@ == (BusState { pending: Seq::empty(), ..old(self)@ }),
    {
        let cycles = self.pending();
        self.queue.clear();
        self.cursor = Cursor { head: 0, at: 0, done: 0 };
        cycles
    }
}

} // verus!
