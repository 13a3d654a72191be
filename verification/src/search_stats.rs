//! Statistics gathered while a solver searches the game tree: how many states
//! it visited, how deep it went, how far the game progressed, and how far the
//! search has come through the moves of its first few levels, and how much
//! the new states branch.

use vstd::prelude::*;
use crate::tracking::SearchStatistics;

verus! {

/// Number of search levels whose move-by-move progress is tracked.
pub const TRACK_DEPTH: usize = 8;

/// One event reported by a search.
pub enum StatEvent {
    /// A state was visited at this depth.
    Visit { depth: usize },
    /// A new state offering `n_moves` moves was reached at this depth.
    Unique { depth: usize, n_moves: u32 },
    /// One move offered at this depth was fully explored.
    FinishMove { depth: usize },
    /// The game held `stack_len` foundation cards and `hidden_down` face-down cards.
    GameState { stack_len: u8, hidden_down: u8 },
}

/// What the statistics hold.
pub struct StatsView {
    /// Number of visits, modulo `usize::MAX + 1`.
    pub total_visit: usize,
    /// Number of new states, modulo `usize::MAX + 1`.
    pub unique_visit: usize,
    /// Deepest visit.
    pub max_depth: usize,
    /// For each tracked depth, the moves explored (modulo 256) out of those
    /// offered (modulo 256) by the latest new state at that depth.
    pub move_state: Seq<(u8, u8)>,
    /// Most foundation cards seen.
    pub max_stack_reached: u8,
    /// Fewest face-down cards seen; `u8::MAX` until a game state is reported.
    pub min_hidden_down: u8,
    /// Sum of the moves offered by the new states, modulo `usize::MAX + 1`.
    pub branching_sum: usize,
    /// Most moves offered by a new state.
    pub branching_max: u32,
    /// Number of new states offering no move, modulo `usize::MAX + 1`.
    pub dead_ends: usize,
}

pub open spec fn count_up(x: usize) -> usize {
    vstd::wrapping::usize_specs::wrapping_add(x, 1)
}

impl StatsView {
    /// Statistics before any event.
    pub open spec fn initial() -> StatsView {
        StatsView {
            total_visit: 0,
            unique_visit: 0,
            max_depth: 0,
            move_state: Seq::new(TRACK_DEPTH as nat, |i: int| (0u8, 0u8)),
            max_stack_reached: 0,
            min_hidden_down: u8::MAX,
            branching_sum: 0,
            branching_max: 0,
            dead_ends: 0,
        }
    }

    /// The statistics after one more event.
    pub open spec fn step(self, e: StatEvent) -> StatsView {
        match e {
            StatEvent::Visit { depth } => StatsView {
                total_visit: count_up(self.total_visit),
                max_depth: if depth > self.max_depth {
                    depth
                } else {
                    self.max_depth
                },
                ..self
            },
            StatEvent::Unique { depth, n_moves } => StatsView {
                unique_visit: count_up(self.unique_visit),
                branching_sum: vstd::wrapping::usize_specs::wrapping_add(
                    self.branching_sum,
                    n_moves as usize,
                ),
                branching_max: if n_moves > self.branching_max {
                    n_moves
                } else {
                    self.branching_max
                },
                dead_ends: if n_moves == 0 {
                    count_up(self.dead_ends)
                } else {
                    self.dead_ends
                },
                move_state: if depth < TRACK_DEPTH {
                    self.move_state.update(depth as int, (0u8, (n_moves % 256) as u8))
                } else {
                    self.move_state
                },
                ..self
            },
            StatEvent::FinishMove { depth } => StatsView {
                move_state: if depth < TRACK_DEPTH {
                    self.move_state.update(
                        depth as int,
                        (
                            vstd::wrapping::u8_specs::wrapping_add(self.move_state[depth as int].0, 1),
                            self.move_state[depth as int].1,
                        ),
                    )
                } else {
                    self.move_state
                },
                ..self
            },
            StatEvent::GameState { stack_len, hidden_down } => StatsView {
                max_stack_reached: if stack_len > self.max_stack_reached {
                    stack_len
                } else {
                    self.max_stack_reached
                },
                min_hidden_down: if hidden_down < self.min_hidden_down {
                    hidden_down
                } else {
                    self.min_hidden_down
                },
                ..self
            },
        }
    }

    /// The statistics after a sequence of events, first to last.
    pub open spec fn replay(self, events: Seq<StatEvent>) -> StatsView
        decreases events.len(),
    {
        if events.len() == 0 {
            self
        } else {
            self.replay(events.drop_last()).step(events.last())
        }
    }
}

/// Search statistics, kept in plain counters. Every update takes the
/// statistics by exclusive reference, so a search that reports through shared
/// references from several threads has to wrap them in a lock.
#[derive(Debug)]
pub struct AtomicSearchStats {
    total_visit: usize,
    unique_visit: usize,
    max_depth: usize,
    move_state: [(u8, u8); TRACK_DEPTH],
    max_stack_reached: u8,
    min_hidden_down: u8,
    branching_sum: usize,
    branching_max: u32,
    dead_ends: usize,
}

impl View for AtomicSearchStats {
    type V = StatsView;

    closed spec fn view(&self) -> StatsView {
        StatsView {
            total_visit: self.total_visit,
            unique_visit: self.unique_visit,
            max_depth: self.max_depth,
            move_state: self.move_state@,
            max_stack_reached: self.max_stack_reached,
            min_hidden_down: self.min_hidden_down,
            branching_sum: self.branching_sum,
            branching_max: self.branching_max,
            dead_ends: self.dead_ends,
        }
    }
}

impl Default for AtomicSearchStats {
    fn default() -> (s: Self)
        ensures
            s@ == StatsView::initial(),
    {
        let s = AtomicSearchStats {
            total_visit: 0,
            unique_visit: 0,
            max_depth: 0,
            move_state: [(0, 0); TRACK_DEPTH],
            max_stack_reached: 0,
            // A fresh deal hides 21 cards, so this starts above any count that can be seen.
            min_hidden_down: u8::MAX,
            branching_sum: 0,
            branching_max: 0,
            dead_ends: 0,
        };
        assert(s@.move_state =~= StatsView::initial().move_state);
        s
    }
}

/// A summary of the statistics for display.
#[derive(Debug)]
pub struct StatsReport {
    pub total_visit: usize,
    /// Visits that reached a state seen before.
    pub transposition_hit: usize,
    pub unique_visit: usize,
    pub max_depth: usize,
    pub max_stack_reached: u8,
    /// Fewest face-down cards seen, `None` while no game state was reported.
    pub min_hidden_down: Option<u8>,
    /// Sum of the moves offered by the new states.
    pub branching_sum: usize,
    /// Most moves offered by a new state.
    pub branching_max: u32,
    /// New states that offered no move.
    pub dead_ends: usize,
    /// Explored and offered moves at each tracked depth.
    pub move_state: [(u8, u8); TRACK_DEPTH],
}

impl AtomicSearchStats {
    #[must_use]
    pub fn new() -> (s: Self)
        ensures
            s@ == StatsView::initial(),
    {
        Self::default()
    }

    #[must_use]
    pub fn total_visit(&self) -> (n: usize)
        ensures
            n == self@.total_visit,
            self@.move_state.len() == TRACK_DEPTH,
    {
        self.total_visit
    }

    #[must_use]
    pub fn unique_visit(&self) -> (n: usize)
        ensures
            n == self@.unique_visit,
            self@.move_state.len() == TRACK_DEPTH,
    {
        self.unique_visit
    }

    #[must_use]
    pub fn max_depth(&self) -> (n: usize)
        ensures
            n == self@.max_depth,
            self@.move_state.len() == TRACK_DEPTH,
    {
        self.max_depth
    }

    #[must_use]
    pub fn max_stack_reached(&self) -> (n: u8)
        ensures
            n == self@.max_stack_reached,
            self@.move_state.len() == TRACK_DEPTH,
    {
        self.max_stack_reached
    }

    #[must_use]
    pub fn min_hidden_down(&self) -> (n: u8)
        ensures
            n == self@.min_hidden_down,
            self@.move_state.len() == TRACK_DEPTH,
    {
        self.min_hidden_down
    }

    /// Sum of the moves offered by the new states, wrapping around.
    #[must_use]
    pub fn branching_sum(&self) -> (n: usize)
        ensures
            n == self@.branching_sum,
            self@.move_state.len() == TRACK_DEPTH,
    {
        self.branching_sum
    }

    /// Most moves offered by a new state.
    #[must_use]
    pub fn branching_max(&self) -> (n: u32)
        ensures
            n == self@.branching_max,
            self@.move_state.len() == TRACK_DEPTH,
    {
        self.branching_max
    }

    /// Number of new states that offered no move, wrapping around.
    #[must_use]
    pub fn dead_ends(&self) -> (n: usize)
        ensures
            n == self@.dead_ends,
            self@.move_state.len() == TRACK_DEPTH,
    {
        self.dead_ends
    }

    /// Explored and offered moves at each tracked depth.
    #[must_use]
    pub fn move_state(&self) -> (progress: [(u8, u8); TRACK_DEPTH])
        ensures
            progress@ == self@.move_state,
            self@.move_state.len() == TRACK_DEPTH,
    {
        self.move_state
    }

    /// The summary shown to a user: transposition hits are the visits that
    /// were not new states.
    pub fn report(&self) -> (r: StatsReport)
        requires
            self@.unique_visit <= self@.total_visit,
        ensures
            r.total_visit == self@.total_visit,
            r.unique_visit == self@.unique_visit,
            r.transposition_hit == self@.total_visit - self@.unique_visit,
            r.transposition_hit + r.unique_visit == r.total_visit,
            r.max_depth == self@.max_depth,
            r.max_stack_reached == self@.max_stack_reached,
            r.min_hidden_down == if self@.min_hidden_down == u8::MAX {
                None
            } else {
                Some(self@.min_hidden_down)
            },
            r.move_state@ == self@.move_state,
            r.branching_sum == self@.branching_sum,
            r.branching_max == self@.branching_max,
            r.dead_ends == self@.dead_ends,
            self@.move_state.len() == TRACK_DEPTH,
    {
        let (total, unique, depth) = (self.total_visit(), self.unique_visit(), self.max_depth());
        let hit = total - unique;
        let min_hidden = self.min_hidden_down();
        StatsReport {
            total_visit: total,
            transposition_hit: hit,
            unique_visit: unique,
            max_depth: depth,
            max_stack_reached: self.max_stack_reached(),
            min_hidden_down: if min_hidden == u8::MAX {
                None
            } else {
                Some(min_hidden)
            },
            move_state: self.move_state,
            branching_sum: self.branching_sum,
            branching_max: self.branching_max,
            dead_ends: self.dead_ends,
        }
    }
}

impl SearchStatistics for AtomicSearchStats {
    fn hit_a_state(&mut self, depth: usize)
        ensures
            final(self)@ == old(self)@.step(StatEvent::Visit { depth }),
            old(self)@.move_state.len() == TRACK_DEPTH,
            final(self)@.move_state.len() == TRACK_DEPTH,
    {
        if depth > self.max_depth {
            self.max_depth = depth;
        }
        self.total_visit = self.total_visit.wrapping_add(1);
    }

    fn hit_unique_state(&mut self, depth: usize, n_moves: u32)
        ensures
            final(self)@ == old(self)@.step(StatEvent::Unique { depth, n_moves }),
            old(self)@.move_state.len() == TRACK_DEPTH,
            final(self)@.move_state.len() == TRACK_DEPTH,
    {
        self.unique_visit = self.unique_visit.wrapping_add(1);
        self.branching_sum = self.branching_sum.wrapping_add(n_moves as usize);
        if n_moves > self.branching_max {
            self.branching_max = n_moves;
        }
        if n_moves == 0 {
            self.dead_ends = self.dead_ends.wrapping_add(1);
        }
        if depth < TRACK_DEPTH {
            self.move_state[depth] = (0, (n_moves % 256) as u8);
        }
    }

    fn finish_move(&mut self, depth: usize)
        ensures
            final(self)@ == old(self)@.step(StatEvent::FinishMove { depth }),
            old(self)@.move_state.len() == TRACK_DEPTH,
            final(self)@.move_state.len() == TRACK_DEPTH,
    {
        if depth < TRACK_DEPTH {
            let (cur, total) = self.move_state[depth];
            self.move_state[depth] = (cur.wrapping_add(1), total);
        }
    }

    fn hit_game_state(&mut self, stack_len: u8, hidden_down: u8)
        ensures
            final(self)@ == old(self)@.step(StatEvent::GameState { stack_len, hidden_down }),
            old(self)@.move_state.len() == TRACK_DEPTH,
            final(self)@.move_state.len() == TRACK_DEPTH,
    {
        if stack_len > self.max_stack_reached {
            self.max_stack_reached = stack_len;
        }
        if hidden_down < self.min_hidden_down {
            self.min_hidden_down = hidden_down;
        }
    }
}

// ---------------------------------------------------------------------------
// Laws of the statistics
// ---------------------------------------------------------------------------

/// Number of visits among the events.
pub open spec fn count_visits(events: Seq<StatEvent>) -> nat
    decreases events.len(),
{
    if events.len() == 0 {
        0
    } else {
        count_visits(events.drop_last()) + if events.last() is Visit {
            1nat
        } else {
            0nat
        }
    }
}

/// Number of new states among the events.
pub open spec fn count_unique(events: Seq<StatEvent>) -> nat
    decreases events.len(),
{
    if events.len() == 0 {
        0
    } else {
        count_unique(events.drop_last()) + if events.last() is Unique {
            1nat
        } else {
            0nat
        }
    }
}

/// Number of new states offering no move among the events.
pub open spec fn count_dead_ends(events: Seq<StatEvent>) -> nat
    decreases events.len(),
{
    if events.len() == 0 {
        0
    } else {
        count_dead_ends(events.drop_last()) + if events.last() matches StatEvent::Unique {
            n_moves,
            ..
        } && n_moves == 0 {
            1nat
        } else {
            0nat
        }
    }
}

/// Moves offered by the new states among the events, added up.
pub open spec fn sum_offered(events: Seq<StatEvent>) -> nat
    decreases events.len(),
{
    if events.len() == 0 {
        0
    } else {
        sum_offered(events.drop_last()) + match events.last() {
            StatEvent::Unique { n_moves, .. } => n_moves as nat,
            _ => 0nat,
        }
    }
}

/// Number of moves finished at `depth` among the events.
pub open spec fn count_finished_at(events: Seq<StatEvent>, depth: usize) -> nat
    decreases events.len(),
{
    if events.len() == 0 {
        0
    } else {
        count_finished_at(events.drop_last(), depth) + if events.last() == (StatEvent::FinishMove {
            depth,
        }) {
            1nat
        } else {
            0nat
        }
    }
}

proof fn lemma_mod_succ(x: int, m: int)
    requires
        0 < m,
        0 <= x,
    ensures
        (x + 1) % m == if x % m + 1 == m {
            0
        } else {
            x % m + 1
        },
{
    vstd::arithmetic::div_mod::lemma_add_mod_noop(x, 1, m);
    vstd::arithmetic::div_mod::lemma_mod_bound(x, m);
    if m == 1 {
        vstd::arithmetic::div_mod::lemma_mod_self_0(1);
    } else {
        vstd::arithmetic::div_mod::lemma_small_mod(1, m as nat);
    }
    if x % m + 1 == m {
        vstd::arithmetic::div_mod::lemma_mod_self_0(m);
    } else {
        vstd::arithmetic::div_mod::lemma_small_mod((x % m + 1) as nat, m as nat);
    }
}

proof fn lemma_mod_add(x: int, y: int, m: int)
    requires
        0 < m,
        0 <= x,
        0 <= y < m,
    ensures
        (x + y) % m == if x % m + y >= m {
            x % m + y - m
        } else {
            x % m + y
        },
{
    vstd::arithmetic::div_mod::lemma_add_mod_noop(x, y, m);
    vstd::arithmetic::div_mod::lemma_mod_bound(x, m);
    vstd::arithmetic::div_mod::lemma_small_mod(y as nat, m as nat);
    if x % m + y >= m {
        vstd::arithmetic::div_mod::lemma_mod_add_multiples_vanish(x % m + y - m, m);
        vstd::arithmetic::div_mod::lemma_small_mod((x % m + y - m) as nat, m as nat);
    } else {
        vstd::arithmetic::div_mod::lemma_small_mod((x % m + y) as nat, m as nat);
    }
}

/// Peaks move one way only: whatever events follow, the deepest visit and the
/// most foundation cards never decrease, and the fewest face-down cards never
/// increases.
pub proof fn lemma_replay_monotone(s: StatsView, events: Seq<StatEvent>)
    requires
        s.move_state.len() == TRACK_DEPTH,
    ensures
        s.replay(events).max_depth >= s.max_depth,
        s.replay(events).max_stack_reached >= s.max_stack_reached,
        s.replay(events).branching_max >= s.branching_max,
        s.replay(events).min_hidden_down <= s.min_hidden_down,
        s.replay(events).move_state.len() == s.move_state.len(),
    decreases events.len(),
{
    if events.len() > 0 {
        lemma_replay_monotone(s, events.drop_last());
    }
}

/// The deepest visit is the largest depth visited: no visit lies deeper, and
/// unless it is still the starting value it is the depth of some visit.
pub proof fn lemma_replay_max_depth(s: StatsView, events: Seq<StatEvent>)
    ensures
        forall|k: int|
            0 <= k < events.len() ==> (#[trigger] events[k] matches StatEvent::Visit { depth }
                ==> depth <= s.replay(events).max_depth),
        s.replay(events).max_depth == s.max_depth || exists|k: int|
            0 <= k < events.len() && #[trigger] events[k] == (StatEvent::Visit {
                depth: s.replay(events).max_depth,
            }),
    decreases events.len(),
{
    if events.len() > 0 {
        let init = events.drop_last();
        lemma_replay_max_depth(s, init);
        assert forall|k: int| 0 <= k < events.len() implies (#[trigger] events[k] matches StatEvent::Visit { depth }
            ==> depth <= s.replay(events).max_depth) by {
            if k < events.len() - 1 {
                assert(events[k] == init[k]);
            }
        }
        if s.replay(events).max_depth != s.max_depth {
            if s.replay(events).max_depth == s.replay(init).max_depth {
                let k = choose|k: int|
                    0 <= k < init.len() && #[trigger] init[k] == (StatEvent::Visit {
                        depth: s.replay(init).max_depth,
                    });
                assert(events[k] == init[k]);
            } else {
                assert(events[events.len() - 1] == events.last());
            }
        }
    }
}

/// The most foundation cards is the largest count reported: no game state
/// showed more, and unless it is still the starting value some game state
/// showed exactly that many.
pub proof fn lemma_replay_max_stack(s: StatsView, events: Seq<StatEvent>)
    ensures
        forall|k: int|
            0 <= k < events.len() ==> (#[trigger] events[k] matches StatEvent::GameState {
                stack_len,
                ..
            } ==> stack_len <= s.replay(events).max_stack_reached),
        s.replay(events).max_stack_reached == s.max_stack_reached || exists|k: int|
            0 <= k < events.len() && (#[trigger] events[k] matches StatEvent::GameState {
                stack_len,
                ..
            } && stack_len == s.replay(events).max_stack_reached),
    decreases events.len(),
{
    if events.len() > 0 {
        let init = events.drop_last();
        lemma_replay_max_stack(s, init);
        assert forall|k: int| 0 <= k < events.len() implies (#[trigger] events[k] matches StatEvent::GameState {
            stack_len,
            ..
        } ==> stack_len <= s.replay(events).max_stack_reached) by {
            if k < events.len() - 1 {
                assert(events[k] == init[k]);
            }
        }
        if s.replay(events).max_stack_reached != s.max_stack_reached {
            if s.replay(events).max_stack_reached == s.replay(init).max_stack_reached {
                let k = choose|k: int|
                    0 <= k < init.len() && (#[trigger] init[k] matches StatEvent::GameState {
                        stack_len,
                        ..
                    } && stack_len == s.replay(init).max_stack_reached);
                assert(events[k] == init[k]);
            } else {
                assert(events[events.len() - 1] == events.last());
            }
        }
    }
}

/// The most moves offered by a new state is the largest number offered: no new
/// state offered more, and unless it is still the starting value some new
/// state offered exactly that many.
pub proof fn lemma_replay_branching_max(s: StatsView, events: Seq<StatEvent>)
    ensures
        forall|k: int|
            0 <= k < events.len() ==> (#[trigger] events[k] matches StatEvent::Unique {
                n_moves,
                ..
            } ==> n_moves <= s.replay(events).branching_max),
        s.replay(events).branching_max == s.branching_max || exists|k: int|
            0 <= k < events.len() && (#[trigger] events[k] matches StatEvent::Unique {
                n_moves,
                ..
            } && n_moves == s.replay(events).branching_max),
    decreases events.len(),
{
    if events.len() > 0 {
        let init = events.drop_last();
        lemma_replay_branching_max(s, init);
        assert forall|k: int| 0 <= k < events.len() implies (#[trigger] events[k] matches StatEvent::Unique {
            n_moves,
            ..
        } ==> n_moves <= s.replay(events).branching_max) by {
            if k < events.len() - 1 {
                assert(events[k] == init[k]);
            }
        }
        if s.replay(events).branching_max != s.branching_max {
            if s.replay(events).branching_max == s.replay(init).branching_max {
                let k = choose|k: int|
                    0 <= k < init.len() && (#[trigger] init[k] matches StatEvent::Unique {
                        n_moves,
                        ..
                    } && n_moves == s.replay(init).branching_max);
                assert(events[k] == init[k]);
            } else {
                assert(events[events.len() - 1] == events.last());
            }
        }
    }
}

/// The fewest face-down cards is the smallest count reported: no game state
/// showed fewer, and unless it is still the starting value some game state
/// showed exactly that many.
pub proof fn lemma_replay_min_hidden(s: StatsView, events: Seq<StatEvent>)
    ensures
        forall|k: int|
            0 <= k < events.len() ==> (#[trigger] events[k] matches StatEvent::GameState {
                hidden_down,
                ..
            } ==> s.replay(events).min_hidden_down <= hidden_down),
        s.replay(events).min_hidden_down == s.min_hidden_down || exists|k: int|
            0 <= k < events.len() && (#[trigger] events[k] matches StatEvent::GameState {
                hidden_down,
                ..
            } && hidden_down == s.replay(events).min_hidden_down),
    decreases events.len(),
{
    if events.len() > 0 {
        let init = events.drop_last();
        lemma_replay_min_hidden(s, init);
        assert forall|k: int| 0 <= k < events.len() implies (#[trigger] events[k] matches StatEvent::GameState {
            hidden_down,
            ..
        } ==> s.replay(events).min_hidden_down <= hidden_down) by {
            if k < events.len() - 1 {
                assert(events[k] == init[k]);
            }
        }
        if s.replay(events).min_hidden_down != s.min_hidden_down {
            if s.replay(events).min_hidden_down == s.replay(init).min_hidden_down {
                let k = choose|k: int|
                    0 <= k < init.len() && (#[trigger] init[k] matches StatEvent::GameState {
                        hidden_down,
                        ..
                    } && hidden_down == s.replay(init).min_hidden_down);
                assert(events[k] == init[k]);
            } else {
                assert(events[events.len() - 1] == events.last());
            }
        }
    }
}

/// The visit and new-state counters count their events, wrapping around past
/// `usize::MAX`.
pub proof fn lemma_replay_counts(s: StatsView, events: Seq<StatEvent>)
    ensures
        s.replay(events).total_visit == (s.total_visit + count_visits(events)) % (usize::MAX as int
            + 1),
        s.replay(events).unique_visit == (s.unique_visit + count_unique(events)) % (
        usize::MAX as int + 1),
        s.replay(events).dead_ends == (s.dead_ends + count_dead_ends(events)) % (usize::MAX as int
            + 1),
        s.replay(events).branching_sum == (s.branching_sum + sum_offered(events)) % (
        usize::MAX as int + 1),
    decreases events.len(),
{
    let m = usize::MAX as int + 1;
    if events.len() == 0 {
        vstd::arithmetic::div_mod::lemma_small_mod(s.total_visit as nat, m as nat);
        vstd::arithmetic::div_mod::lemma_small_mod(s.unique_visit as nat, m as nat);
        vstd::arithmetic::div_mod::lemma_small_mod(s.dead_ends as nat, m as nat);
        vstd::arithmetic::div_mod::lemma_small_mod(s.branching_sum as nat, m as nat);
    } else {
        let init = events.drop_last();
        lemma_replay_counts(s, init);
        lemma_mod_succ(s.total_visit + count_visits(init), m);
        lemma_mod_succ(s.unique_visit + count_unique(init), m);
        lemma_mod_succ(s.dead_ends + count_dead_ends(init), m);
        if let StatEvent::Unique { n_moves, .. } = events.last() {
            lemma_mod_add(s.branching_sum + sum_offered(init), n_moves as int, m);
        }
    }
}

/// After a new state is reached at a tracked depth, the progress at that
/// depth shows how many of its moves were finished since (modulo 256) out of
/// the moves it offered (modulo 256), as long as no other new state is
/// reached at that depth.
pub proof fn lemma_progress_counts_finished_moves(
    s: StatsView,
    depth: usize,
    n_moves: u32,
    events: Seq<StatEvent>,
)
    requires
        depth < TRACK_DEPTH,
        s.move_state.len() == TRACK_DEPTH,
        forall|k: int|
            0 <= k < events.len() ==> !(#[trigger] events[k] matches StatEvent::Unique { depth: d, .. }
                && d == depth),
    ensures
        s.step(StatEvent::Unique { depth, n_moves }).replay(events).move_state[depth as int] == (
            (count_finished_at(events, depth) % 256) as u8,
            (n_moves % 256) as u8,
        ),
    decreases events.len(),
{
    let start = s.step(StatEvent::Unique { depth, n_moves });
    if events.len() == 0 {
        vstd::arithmetic::div_mod::lemma_small_mod(0, 256);
    } else {
        let init = events.drop_last();
        assert forall|k: int|
            0 <= k < init.len() implies !(#[trigger] init[k] matches StatEvent::Unique { depth: d, .. }
            && d == depth) by {
            assert(init[k] == events[k]);
        }
        lemma_progress_counts_finished_moves(s, depth, n_moves, init);
        assert(start.move_state.len() == TRACK_DEPTH);
        lemma_replay_monotone(start, init);
        assert(events[events.len() - 1] == events.last());
        lemma_mod_succ(count_finished_at(init, depth) as int, 256);
        vstd::arithmetic::div_mod::lemma_mod_bound(count_finished_at(init, depth) as int, 256);
    }
}

} // verus!
