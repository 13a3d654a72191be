//! Running totals over a series of solved deals: how many were solved or cut
//! short, and the sums behind the averages reported every hundred deals.

use vstd::prelude::*;
use crate::search_stats::AtomicSearchStats;
use crate::confidence::{success_sample, success_sample_of};
use bpci::NSuccessesSample;

verus! {

/// How a search over one deal ended.
#[derive(Clone, Copy, Debug, PartialEq, Eq, Structural)]
pub enum SearchOutcome {
    Solved,
    Unsolvable,
    Terminated,
    Crashed,
}

/// An aggregate line is reported after every this many deals.
pub const AGGREGATE_EVERY: u32 = 100;

/// What a tally holds.
pub struct TallyView {
    pub solved: u32,
    pub terminated: u32,
    pub total: u32,
    pub sum_visits: u64,
    pub sum_unique: u64,
    pub sum_tp_len: u64,
    pub sum_max_foundation: u64,
    /// Sum of the fewest face-down cards over the deals that reported any.
    pub sum_min_hidden: u64,
    /// Number of deals that reported a game state.
    pub min_hidden_obs_count: u64,
}

impl TallyView {
    /// Solved and terminated deals are among the deals counted, and so are
    /// the deals that reported a game state.
    pub open spec fn consistent(self) -> bool {
        &&& self.solved + self.terminated <= self.total
        &&& self.min_hidden_obs_count <= self.total
    }

    /// The tally after one more deal with this outcome, these statistics and
    /// a transposition table of `tp_len` entries.
    pub open spec fn record(
        self,
        outcome: SearchOutcome,
        total_visit: usize,
        unique_visit: usize,
        max_stack_reached: u8,
        min_hidden_down: u8,
        tp_len: usize,
    ) -> TallyView {
        TallyView {
            solved: if outcome == SearchOutcome::Solved {
                (self.solved + 1) as u32
            } else {
                self.solved
            },
            terminated: if outcome == SearchOutcome::Terminated {
                (self.terminated + 1) as u32
            } else {
                self.terminated
            },
            total: (self.total + 1) as u32,
            sum_visits: (self.sum_visits + total_visit) as u64,
            sum_unique: (self.sum_unique + unique_visit) as u64,
            sum_tp_len: (self.sum_tp_len + tp_len) as u64,
            sum_max_foundation: (self.sum_max_foundation + max_stack_reached) as u64,
            sum_min_hidden: if min_hidden_down != u8::MAX {
                (self.sum_min_hidden + min_hidden_down) as u64
            } else {
                self.sum_min_hidden
            },
            min_hidden_obs_count: if min_hidden_down != u8::MAX {
                (self.min_hidden_obs_count + 1) as u64
            } else {
                self.min_hidden_obs_count
            },
        }
    }

    /// Recording a deal overflows none of the counters and sums.
    pub open spec fn can_record(
        self,
        total_visit: usize,
        unique_visit: usize,
        max_stack_reached: u8,
        min_hidden_down: u8,
        tp_len: usize,
    ) -> bool {
        &&& self.total < u32::MAX
        &&& self.sum_visits + total_visit <= u64::MAX
        &&& self.sum_unique + unique_visit <= u64::MAX
        &&& self.sum_tp_len + tp_len <= u64::MAX
        &&& self.sum_max_foundation + max_stack_reached <= u64::MAX
        &&& min_hidden_down != u8::MAX ==> self.sum_min_hidden + min_hidden_down <= u64::MAX
    }
}

/// Every deal recorded keeps a tally consistent.
pub proof fn lemma_record_keeps_consistent(
    t: TallyView,
    outcome: SearchOutcome,
    total_visit: usize,
    unique_visit: usize,
    max_stack_reached: u8,
    min_hidden_down: u8,
    tp_len: usize,
)
    requires
        t.consistent(),
        t.can_record(total_visit, unique_visit, max_stack_reached, min_hidden_down, tp_len),
    ensures
        t.record(
            outcome,
            total_visit,
            unique_visit,
            max_stack_reached,
            min_hidden_down,
            tp_len,
        ).consistent(),
        t.record(
            outcome,
            total_visit,
            unique_visit,
            max_stack_reached,
            min_hidden_down,
            tp_len,
        ).total == t.total + 1,
{
}

/// Every deal whose search reported a game state, whatever its fewest
/// face-down cards (none included), joins the face-down average: it adds one
/// observation and its count to the sum. A deal that reported no game state
/// leaves both as they were. Every deal adds one to the number of deals, and
/// one to the solved or terminated count exactly when that is its outcome.
pub proof fn lemma_record_counts_each_deal(
    t: TallyView,
    outcome: SearchOutcome,
    total_visit: usize,
    unique_visit: usize,
    max_stack_reached: u8,
    min_hidden_down: u8,
    tp_len: usize,
)
    requires
        t.consistent(),
        t.can_record(total_visit, unique_visit, max_stack_reached, min_hidden_down, tp_len),
    ensures
        ({
            let r = t.record(
                outcome,
                total_visit,
                unique_visit,
                max_stack_reached,
                min_hidden_down,
                tp_len,
            );
            &&& min_hidden_down != u8::MAX ==> r.min_hidden_obs_count == t.min_hidden_obs_count + 1
                && r.sum_min_hidden == t.sum_min_hidden + min_hidden_down
            &&& min_hidden_down == u8::MAX ==> r.min_hidden_obs_count == t.min_hidden_obs_count
                && r.sum_min_hidden == t.sum_min_hidden
            &&& r.total == t.total + 1
            &&& r.solved == t.solved + if outcome == SearchOutcome::Solved {
                1int
            } else {
                0int
            }
            &&& r.terminated == t.terminated + if outcome == SearchOutcome::Terminated {
                1int
            } else {
                0int
            }
            &&& r.sum_visits == t.sum_visits + total_visit
        }),
{
}

/// Running totals over a series of deals.
pub struct RateTally {
    solved: u32,
    terminated: u32,
    total: u32,
    sum_visits: u64,
    sum_unique: u64,
    sum_tp_len: u64,
    sum_max_foundation: u64,
    sum_min_hidden: u64,
    min_hidden_obs_count: u64,
}

impl View for RateTally {
    type V = TallyView;

    closed spec fn view(&self) -> TallyView {
        TallyView {
            solved: self.solved,
            terminated: self.terminated,
            total: self.total,
            sum_visits: self.sum_visits,
            sum_unique: self.sum_unique,
            sum_tp_len: self.sum_tp_len,
            sum_max_foundation: self.sum_max_foundation,
            sum_min_hidden: self.sum_min_hidden,
            min_hidden_obs_count: self.min_hidden_obs_count,
        }
    }
}

impl RateTally {
    #[verifier::type_invariant]
    spec fn counts_consistent(self) -> bool {
        self@.consistent()
    }

    /// A tally of no deals.
    pub fn new() -> (t: RateTally)
        ensures
            t@ == (TallyView {
                solved: 0,
                terminated: 0,
                total: 0,
                sum_visits: 0,
                sum_unique: 0,
                sum_tp_len: 0,
                sum_max_foundation: 0,
                sum_min_hidden: 0,
                min_hidden_obs_count: 0,
            }),
    {
        RateTally {
            solved: 0,
            terminated: 0,
            total: 0,
            sum_visits: 0,
            sum_unique: 0,
            sum_tp_len: 0,
            sum_max_foundation: 0,
            sum_min_hidden: 0,
            min_hidden_obs_count: 0,
        }
    }

    /// Adds one deal: its outcome, the statistics of its search and the size
    /// of its transposition table. A deal whose search reported no game state
    /// adds nothing to the face-down sum.
    pub fn record(&mut self, outcome: SearchOutcome, stats: &AtomicSearchStats, tp_len: usize)
        requires
            old(self)@.can_record(
                stats@.total_visit,
                stats@.unique_visit,
                stats@.max_stack_reached,
                stats@.min_hidden_down,
                tp_len,
            ),
        ensures
            final(self)@ == old(self)@.record(
                outcome,
                stats@.total_visit,
                stats@.unique_visit,
                stats@.max_stack_reached,
                stats@.min_hidden_down,
                tp_len,
            ),
            old(self)@.consistent(),
            final(self)@.consistent(),
            final(self)@.solved == old(self)@.solved + if outcome == SearchOutcome::Solved {
                1int
            } else {
                0int
            },
            final(self)@.terminated == old(self)@.terminated + if outcome
                == SearchOutcome::Terminated {
                1int
            } else {
                0int
            },
            final(self)@.total == old(self)@.total + 1,
            final(self)@.sum_visits == old(self)@.sum_visits + stats@.total_visit,
            final(self)@.sum_unique == old(self)@.sum_unique + stats@.unique_visit,
            final(self)@.sum_tp_len == old(self)@.sum_tp_len + tp_len,
            final(self)@.sum_max_foundation == old(self)@.sum_max_foundation
                + stats@.max_stack_reached,
            stats@.min_hidden_down != u8::MAX ==> final(self)@.min_hidden_obs_count == old(
                self,
            )@.min_hidden_obs_count + 1 && final(self)@.sum_min_hidden == old(self)@.sum_min_hidden
                + stats@.min_hidden_down,
            stats@.min_hidden_down == u8::MAX ==> final(self)@.min_hidden_obs_count == old(
                self,
            )@.min_hidden_obs_count && final(self)@.sum_min_hidden == old(self)@.sum_min_hidden,
    {
        proof {
            use_type_invariant(&*self);
        }
        let solved = match outcome {
            SearchOutcome::Solved => self.solved + 1,
            _ => self.solved,
        };
        let terminated = match outcome {
            SearchOutcome::Terminated => self.terminated + 1,
            _ => self.terminated,
        };
        let min_hidden = stats.min_hidden_down();
        let (sum_min_hidden, min_hidden_obs_count) = if min_hidden != u8::MAX {
            (self.sum_min_hidden + min_hidden as u64, self.min_hidden_obs_count + 1)
        } else {
            (self.sum_min_hidden, self.min_hidden_obs_count)
        };
        *self = RateTally {
            solved,
            terminated,
            total: self.total + 1,
            sum_visits: self.sum_visits + stats.total_visit() as u64,
            sum_unique: self.sum_unique + stats.unique_visit() as u64,
            sum_tp_len: self.sum_tp_len + tp_len as u64,
            sum_max_foundation: self.sum_max_foundation + stats.max_stack_reached() as u64,
            sum_min_hidden,
            min_hidden_obs_count,
        };
    }

    pub fn solved(&self) -> (n: u32)
        ensures
            n == self@.solved,
            self@.consistent(),
    {
        proof {
            use_type_invariant(self);
        }
        self.solved
    }

    pub fn terminated(&self) -> (n: u32)
        ensures
            n == self@.terminated,
            self@.consistent(),
    {
        proof {
            use_type_invariant(self);
        }
        self.terminated
    }

    pub fn total(&self) -> (n: u32)
        ensures
            n == self@.total,
            self@.consistent(),
    {
        proof {
            use_type_invariant(self);
        }
        self.total
    }

    pub fn sum_visits(&self) -> (n: u64)
        ensures
            n == self@.sum_visits,
            self@.consistent(),
    {
        proof {
            use_type_invariant(self);
        }
        self.sum_visits
    }

    pub fn sum_unique(&self) -> (n: u64)
        ensures
            n == self@.sum_unique,
            self@.consistent(),
    {
        proof {
            use_type_invariant(self);
        }
        self.sum_unique
    }

    pub fn sum_tp_len(&self) -> (n: u64)
        ensures
            n == self@.sum_tp_len,
            self@.consistent(),
    {
        proof {
            use_type_invariant(self);
        }
        self.sum_tp_len
    }

    pub fn sum_max_foundation(&self) -> (n: u64)
        ensures
            n == self@.sum_max_foundation,
            self@.consistent(),
    {
        proof {
            use_type_invariant(self);
        }
        self.sum_max_foundation
    }

    pub fn sum_min_hidden(&self) -> (n: u64)
        ensures
            n == self@.sum_min_hidden,
            self@.consistent(),
    {
        proof {
            use_type_invariant(self);
        }
        self.sum_min_hidden
    }

    pub fn min_hidden_obs_count(&self) -> (n: u64)
        ensures
            n == self@.min_hidden_obs_count,
            self@.consistent(),
    {
        proof {
            use_type_invariant(self);
        }
        self.min_hidden_obs_count
    }

    /// Deals that were solved or might have been: the terminated ones count
    /// towards the upper end of the solve-rate interval.
    pub fn optimistic_successes(&self) -> (n: u32)
        ensures
            n == self@.solved + self@.terminated,
            n <= self@.total,
            self@.consistent(),
    {
        proof {
            use_type_invariant(self);
        }
        self.solved + self.terminated
    }

    /// The two samples behind the solve-rate interval: solved deals out of
    /// all deals for its lower end, solved or terminated deals out of all
    /// deals for its upper end. Neither can be refused, since neither count
    /// exceeds the number of deals.
    pub fn solve_rate_samples(&self) -> (samples: (NSuccessesSample<u32>, NSuccessesSample<u32>))
        ensures
            samples.0 == success_sample_of(self@.total, self@.solved),
            samples.1 == success_sample_of(self@.total, (self@.solved + self@.terminated) as u32),
    {
        proof {
            use_type_invariant(self);
        }
        let lower = success_sample(self.total, self.solved).unwrap();
        let upper = success_sample(self.total, self.optimistic_successes()).unwrap();
        (lower, upper)
    }

    /// Whether an aggregate line is due: after every hundredth deal.
    pub fn aggregate_due(&self) -> (due: bool)
        ensures
            due == (self@.total % AGGREGATE_EVERY == 0),
    {
        self.total % AGGREGATE_EVERY == 0
    }
}

/// Size in KiB of a transposition table of `tp_len` entries of 8 bytes.
pub fn transposition_kib(tp_len: usize) -> (kib: usize)
    requires
        tp_len * 8 <= usize::MAX,
    ensures
        kib == tp_len * 8 / 1024,
{
    (tp_len * 8) / 1024
}

} // verus!
