//! Decisions of the command-line front end: naming deals, reading a player's
//! move, and driving random playouts.

use vstd::prelude::*;
use crate::confidence::{success_sample, success_sample_of};
use bpci::NSuccessesSample;

verus! {

// ---------------------------------------------------------------------------
// Deal seeds
// ---------------------------------------------------------------------------

/// The shuffling algorithm a seed is meant for.
#[derive(Clone, Copy, Debug, PartialEq, Eq, Structural)]
pub enum SeedType {
    Default,
    Solvitaire,
    KlondikeSolver,
    Greenfelt,
    Exact,
    Microsoft,
}

/// The letter that names a shuffling algorithm when a seed is printed as
/// `<letter>-<number>`.
pub open spec fn spec_seed_prefix(t: SeedType) -> char {
    match t {
        SeedType::Default => 'L',
        SeedType::Solvitaire => 'S',
        SeedType::KlondikeSolver => 'K',
        SeedType::Greenfelt => 'G',
        SeedType::Exact => 'E',
        SeedType::Microsoft => 'M',
    }
}

pub fn seed_prefix(t: SeedType) -> (c: char)
    ensures
        c == spec_seed_prefix(t),
{
    match t {
        SeedType::Default => 'L',
        SeedType::Solvitaire => 'S',
        SeedType::KlondikeSolver => 'K',
        SeedType::Greenfelt => 'G',
        SeedType::Exact => 'E',
        SeedType::Microsoft => 'M',
    }
}

// ---------------------------------------------------------------------------
// Reading a player's move
// ---------------------------------------------------------------------------

/// What a player's input line asks for.
#[derive(Clone, Copy, Debug, PartialEq, Eq, Structural)]
pub enum MoveChoice {
    /// Play the listed move with this index.
    Play(usize),
    /// Take back the last move.
    Undo,
    /// The line is not a number.
    Invalid,
}

/// A number that lists a move plays it; any other number, negative ones
/// included, takes back the last move; no number is invalid.
pub open spec fn spec_choice_for_input(parsed: Option<i8>, n_moves: usize) -> MoveChoice {
    match parsed {
        None => MoveChoice::Invalid,
        Some(id) => if 0 <= id < n_moves {
            MoveChoice::Play(id as usize)
        } else {
            MoveChoice::Undo
        },
    }
}

/// Every listed move can be chosen by typing its index, the first included:
/// with `n_moves` moves listed, the number `i` plays move `i` for every
/// `i < n_moves` that a number on the line can give.
pub proof fn lemma_every_listed_move_can_be_played(i: i8, n_moves: usize)
    requires
        0 <= i,
        i < n_moves,
    ensures
        spec_choice_for_input(Some(i), n_moves) == MoveChoice::Play(i as usize),
{
}

/// A choice plays only a listed move, the one whose index was typed; a number
/// that lists no move takes back the last move; a line without a number is
/// invalid.
pub proof fn lemma_choice_matches_input(parsed: Option<i8>, n_moves: usize)
    ensures
        spec_choice_for_input(parsed, n_moves) matches MoveChoice::Play(i) ==> i < n_moves
            && parsed == Some(i as i8) && parsed->0 >= 0,
        spec_choice_for_input(parsed, n_moves) == MoveChoice::Undo <==> (parsed matches Some(id)
            && (id < 0 || id >= n_moves)),
        spec_choice_for_input(parsed, n_moves) == MoveChoice::Invalid <==> parsed is None,
{
}

/// Decides what a parsed input asks for when `n_moves` moves are listed.
pub fn choice_for_input(parsed: Option<i8>, n_moves: usize) -> (choice: MoveChoice)
    ensures
        choice == spec_choice_for_input(parsed, n_moves),
{
    match parsed {
        Some(id) => {
            let id = if id >= 0 {
                id as usize
            } else {
                usize::MAX
            };
            if id < n_moves {
                MoveChoice::Play(id)
            } else {
                MoveChoice::Undo
            }
        },
        None => MoveChoice::Invalid,
    }
}

/// The characters with the Unicode property White_Space: tab to carriage
/// return, space, next line, no-break space, ogham space mark, the spaces
/// from en quad to hair space, line and paragraph separators, narrow no-break
/// space, medium mathematical space and ideographic space.
pub open spec fn is_white_space(c: char) -> bool {
    let u = c as int;
    ||| 0x9 <= u <= 0xD
    ||| u == 0x20
    ||| u == 0x85
    ||| u == 0xA0
    ||| u == 0x1680
    ||| 0x2000 <= u <= 0x200A
    ||| u == 0x2028
    ||| u == 0x2029
    ||| u == 0x202F
    ||| u == 0x205F
    ||| u == 0x3000
}

/// `s` without its leading white space.
pub open spec fn trim_start(s: Seq<char>) -> Seq<char>
    decreases s.len(),
{
    if s.len() > 0 && is_white_space(s[0]) {
        trim_start(s.drop_first())
    } else {
        s
    }
}

/// `s` without its trailing white space.
pub open spec fn trim_end(s: Seq<char>) -> Seq<char>
    decreases s.len(),
{
    if s.len() > 0 && is_white_space(s.last()) {
        trim_end(s.drop_last())
    } else {
        s
    }
}

/// The text `str::trim` leaves of `s`: `s` without its leading and trailing
/// white space.
pub open spec fn trimmed(s: Seq<char>) -> Seq<char> {
    trim_end(trim_start(s))
}

/// `str::trim`.
#[verifier::external_body]
fn trim(s: &str) -> (t: &str)
    ensures
        t@ == trimmed(s@),
{
    s.trim()
}

/// Value of a string of ASCII decimal digits.
pub open spec fn decimal_value(digits: Seq<char>) -> int
    decreases digits.len(),
{
    if digits.len() == 0 {
        0
    } else {
        decimal_value(digits.drop_last()) * 10 + (digits.last() as int - '0' as int)
    }
}

pub open spec fn all_decimal_digits(s: Seq<char>) -> bool {
    forall|i: int| 0 <= i < s.len() ==> '0' <= #[trigger] s[i] <= '9'
}

/// What `str::parse::<i8>` gives: an optional `+` or `-` followed by at least
/// one ASCII digit, whose value lies in `-128..=127`; anything else is an
/// error.
pub open spec fn parsed_i8(s: Seq<char>) -> Option<i8> {
    let negative = s.len() > 0 && s[0] == '-';
    let body = if s.len() > 0 && (s[0] == '-' || s[0] == '+') {
        s.skip(1)
    } else {
        s
    };
    let value = if negative {
        -decimal_value(body)
    } else {
        decimal_value(body)
    };
    if body.len() > 0 && all_decimal_digits(body) && i8::MIN <= value <= i8::MAX {
        Some(value as i8)
    } else {
        None
    }
}

/// `str::parse::<i8>`, with its error dropped.
#[verifier::external_body]
fn parse_i8(s: &str) -> (r: Option<i8>)
    ensures
        r == parsed_i8(s@),
{
    s.parse::<i8>().ok()
}

/// Typing one digit and pressing return chooses the listed move with that
/// index, the first one included.
pub proof fn lemma_one_digit_line(d: char, n_moves: usize)
    requires
        '0' <= d <= '9',
        (d as int) - ('0' as int) < n_moves,
    ensures
        spec_choice_for_input(parsed_i8(trimmed(seq![d, '\n'])), n_moves) == MoveChoice::Play(
            ((d as int) - ('0' as int)) as usize,
        ),
{
    let line = seq![d, '\n'];
    assert(trim_start(line) == line);
    assert(line.drop_last() =~= seq![d]);
    assert(trim_end(seq![d]) == seq![d]);
    assert(trimmed(line) == seq![d]);
    assert(seq![d].drop_last() =~= Seq::<char>::empty());
    assert(decimal_value(Seq::<char>::empty()) == 0);
    assert(seq![d].last() == d);
    assert(decimal_value(seq![d]) == (d as int) - ('0' as int));
    assert(all_decimal_digits(seq![d]));
}

/// Reads a player's input line: the number on it, white space around it
/// ignored, chooses among `n_moves` listed moves.
pub fn read_move_choice(line: &str, n_moves: usize) -> (choice: MoveChoice)
    ensures
        choice == spec_choice_for_input(parsed_i8(trimmed(line@)), n_moves),
{
    let parsed = parse_i8(trim(line));
    choice_for_input(parsed, n_moves)
}

// ---------------------------------------------------------------------------
// Random playouts
// ---------------------------------------------------------------------------

/// The next step of a playout.
#[derive(Clone, Copy, Debug, PartialEq, Eq, Structural)]
pub enum PlayoutStep {
    /// The game is won; the playout counts as a win.
    Won,
    /// No move is left; the playout is lost.
    Stuck,
    /// Play one of the listed moves.
    Play,
}

/// A won game ends the playout first; otherwise it goes on while moves are
/// listed.
pub fn next_playout_step(is_win: bool, n_moves: usize) -> (step: PlayoutStep)
    ensures
        is_win ==> step == PlayoutStep::Won,
        !is_win && n_moves == 0 ==> step == PlayoutStep::Stuck,
        !is_win && n_moves > 0 ==> step == PlayoutStep::Play,
{
    if is_win {
        PlayoutStep::Won
    } else if n_moves == 0 {
        PlayoutStep::Stuck
    } else {
        PlayoutStep::Play
    }
}

/// Seed of the random moves of playout number `trial`: the deal's seed plus
/// the trial number, wrapping around.
pub fn trial_seed(base: u64, trial: u32) -> (seed: u64)
    ensures
        seed == (base + trial) % (u64::MAX as int + 1),
{
    let seed = base.wrapping_add(trial as u64);
    proof {
        if base + trial <= u64::MAX {
            vstd::arithmetic::div_mod::lemma_small_mod((base + trial) as nat, u64::MAX as nat + 1);
        } else {
            vstd::arithmetic::div_mod::lemma_mod_add_multiples_vanish(
                base + trial - (u64::MAX as int + 1),
                u64::MAX as int + 1,
            );
            vstd::arithmetic::div_mod::lemma_small_mod(
                (base + trial - (u64::MAX as int + 1)) as nat,
                u64::MAX as nat + 1,
            );
        }
    }
    seed
}

/// Wins out of playouts (or of games played to the end).
pub struct PlayoutTally {
    trials: u32,
    wins: u32,
}

impl PlayoutTally {
    #[verifier::type_invariant]
    spec fn wins_among_trials(self) -> bool {
        self.wins <= self.trials
    }

    pub closed spec fn spec_trials(self) -> u32 {
        self.trials
    }

    pub closed spec fn spec_wins(self) -> u32 {
        self.wins
    }

    pub fn new() -> (t: PlayoutTally)
        ensures
            t.spec_trials() == 0,
            t.spec_wins() == 0,
    {
        PlayoutTally { trials: 0, wins: 0 }
    }

    /// Counts one more playout, won or not.
    pub fn record(&mut self, won: bool)
        requires
            old(self).spec_trials() < u32::MAX,
        ensures
            final(self).spec_trials() == old(self).spec_trials() + 1,
            final(self).spec_wins() == old(self).spec_wins() + if won {
                1int
            } else {
                0int
            },
    {
        proof {
            use_type_invariant(&*self);
        }
        let wins = if won {
            self.wins + 1
        } else {
            self.wins
        };
        *self = PlayoutTally { trials: self.trials + 1, wins };
    }

    pub fn trials(&self) -> (n: u32)
        ensures
            n == self.spec_trials(),
    {
        self.trials
    }

    pub fn wins(&self) -> (n: u32)
        ensures
            n == self.spec_wins(),
            n <= self.spec_trials(),
    {
        proof {
            use_type_invariant(self);
        }
        self.wins
    }

    /// The sample of wins out of playouts behind the win-rate interval; it
    /// cannot be refused, since there are never more wins than playouts.
    pub fn sample(&self) -> (sample: NSuccessesSample<u32>)
        ensures
            sample == success_sample_of(self.spec_trials(), self.spec_wins()),
    {
        proof {
            use_type_invariant(self);
        }
        success_sample(self.trials, self.wins).unwrap()
    }
}

/// Number of won playouts among outcomes listed in playout order.
pub open spec fn count_wins(outcomes: Seq<bool>) -> nat
    decreases outcomes.len(),
{
    if outcomes.len() == 0 {
        0
    } else {
        count_wins(outcomes.drop_last()) + if outcomes.last() {
            1nat
        } else {
            0nat
        }
    }
}

/// Running one more playout adds at most one win. The outcome of playout `i`
/// does not depend on how many playouts are run, since its random moves are
/// seeded by `trial_seed(base, i)`; so the first `t + 1` outcomes extend the
/// first `t`, and their wins are those of the first `t`, or one more.
pub proof fn lemma_one_more_playout(outcomes: Seq<bool>, t: int)
    requires
        0 <= t < outcomes.len(),
    ensures
        count_wins(outcomes.take(t)) <= count_wins(outcomes.take(t + 1)),
        count_wins(outcomes.take(t + 1)) <= count_wins(outcomes.take(t)) + 1,
{
    assert(outcomes.take(t + 1).drop_last() =~= outcomes.take(t));
}

} // verus!
