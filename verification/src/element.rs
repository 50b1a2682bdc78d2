use vstd::prelude::*;

verus! {

use vstd::arithmetic::div_mod::lemma_fundamental_div_mod;
use crate::minesweeper::{Minesweeper, Difficulty, DifficultyValues, GameState, Tile};

/// What one slot of the bomb counter displays: a dash when the value is
/// unknown, a blank for a suppressed leading zero, or a digit.
#[derive(Clone, Copy, PartialEq, Eq, Structural, Debug)]
pub enum CounterDigit {
    Dash,
    Empty,
    Digit(usize),
}

/// The number of decimal digits of `n`.
pub open spec fn spec_num_digits(n: int) -> int
    decreases n,
{
    if n < 10 {
        1
    } else {
        1 + spec_num_digits(n / 10)
    }
}

proof fn lemma_num_digits_le(n: int)
    requires
        n >= 1,
    ensures
        1 <= spec_num_digits(n) <= n,
    decreases n,
{
    if n >= 10 {
        lemma_num_digits_le(n / 10);
    }
}

/// Ten to the `k`-th power, saturating at the largest machine integer,
/// as the counter's place values do.
pub open spec fn spec_pow10_sat(k: int) -> int
    decreases k,
{
    if k <= 0 {
        1
    } else {
        let p = spec_pow10_sat(k - 1);
        if p * 10 > usize::MAX {
            usize::MAX as int
        } else {
            p * 10
        }
    }
}

fn pow10_sat(k: usize) -> (r: usize)
    ensures
        r as int == spec_pow10_sat(k as int),
        r >= 1,
{
    let mut p: usize = 1;
    let mut i: usize = 0;
    while i < k
        invariant
            i <= k,
            p >= 1,
            p as int == spec_pow10_sat(i as int),
        decreases k - i,
    {
        proof {
            lemma_fundamental_div_mod(usize::MAX as int, 10);
        }
        if p > usize::MAX / 10 {
            p = usize::MAX;
        } else {
            p = p * 10;
        }
        i += 1;
    }
    p
}

fn num_digits(n: usize) -> (d: usize)
    ensures
        d as int == spec_num_digits(n as int),
        d >= 1,
{
    let mut m: usize = n;
    let mut d: usize = 1;
    proof {
        if n >= 1 {
            lemma_num_digits_le(n as int);
        }
    }
    while m >= 10
        invariant
            d >= 1,
            m <= n,
            d - 1 + spec_num_digits(m as int) == spec_num_digits(n as int),
            n >= 1 ==> spec_num_digits(n as int) <= n,
            m >= 10 ==> n >= 10,
        decreases m,
    {
        proof {
            lemma_num_digits_le((m / 10) as int);
            lemma_num_digits_le(n as int);
        }
        m = m / 10;
        d = d + 1;
    }
    d
}

/// How many slots the bomb counter uses: the digits of the bomb count,
/// but at least two.
pub open spec fn spec_counter_len(bomb_count: int) -> int {
    if spec_num_digits(bomb_count) < 2 {
        2
    } else {
        spec_num_digits(bomb_count)
    }
}

/// What slot `i` (place value ten-to-the-`i`) displays for `value`:
/// dashes for an unknown value, the decimal digit otherwise, except
/// that leading zeros beyond the units digit stay blank.
pub open spec fn spec_counter_digit(value: Option<usize>, i: int) -> CounterDigit {
    match value {
        None => CounterDigit::Dash,
        Some(v) => {
            if i == 0 || spec_pow10_sat(i) <= v {
                CounterDigit::Digit((((v as int) / spec_pow10_sat(i)) % 10) as usize)
            } else {
                CounterDigit::Empty
            }
        },
    }
}

/// The bomb counter's slots, units first. `None` means the flag count
/// ran past the bomb count and every slot shows a dash.
pub fn counter_digits(value: Option<usize>, bomb_count: usize) -> (r: Vec<CounterDigit>)
    ensures
        r@.len() == spec_counter_len(bomb_count as int),
        forall|i: int| 0 <= i < r@.len() ==> #[trigger] r@[i] == spec_counter_digit(value, i),
{
    let nd = num_digits(bomb_count);
    let digits = if nd < 2 {
        2
    } else {
        nd
    };
    let mut r: Vec<CounterDigit> = Vec::new();
    let mut i: usize = 0;
    while i < digits
        invariant
            i <= digits,
            digits as int == spec_counter_len(bomb_count as int),
            r@.len() == i,
            forall|j: int| 0 <= j < i ==> #[trigger] r@[j] == spec_counter_digit(value, j),
        decreases digits - i,
    {
        let slot = match value {
            None => CounterDigit::Dash,
            Some(v) => {
                let power = pow10_sat(i);
                if i == 0 || power <= v {
                    CounterDigit::Digit((v / power) % 10)
                } else {
                    CounterDigit::Empty
                }
            },
        };
        r.push(slot);
        i += 1;
    }
    r
}

/// The four timer slots, left to right: tens of minutes (blank under
/// ten minutes), minutes, tens of seconds, seconds — plus whether the
/// colon is lit. The display freezes at 99:59.
pub fn timer_digits(timer_ms: Option<u64>) -> (r: (Vec<Option<usize>>, bool))
    ensures
        r.0@.len() == 4,
        timer_ms is None ==> (forall|i: int| 0 <= i < 4 ==> (#[trigger] r.0@[i]) is None) && !r.1,
        timer_ms matches Some(ms) ==> ({
            let s = if ms / 1000 < 5999 {
                ms / 1000
            } else {
                5999
            };
            &&& r.0@[0] == (if s < 600 {
                None::<usize>
            } else {
                Some((((s / 60) / 10) as usize))
            })
            &&& r.0@[1] == Some((((s / 60) % 10) as usize))
            &&& r.0@[2] == Some((((s % 60) / 10) as usize))
            &&& r.0@[3] == Some(((s % 10) as usize))
            &&& r.1
        }),
{
    match timer_ms {
        None => {
            let mut v: Vec<Option<usize>> = Vec::new();
            v.push(None);
            v.push(None);
            v.push(None);
            v.push(None);
            (v, false)
        },
        Some(ms) => {
            let total = ms / 1000;
            let s = if total < 5999 {
                total
            } else {
                5999
            };
            let mut v: Vec<Option<usize>> = Vec::new();
            if s < 600 {
                v.push(None);
            } else {
                v.push(Some((((s / 60) / 10)) as usize));
            }
            v.push(Some(((s / 60) % 10) as usize));
            v.push(Some(((s % 60) / 10) as usize));
            v.push(Some((s % 10) as usize));
            (v, true)
        },
    }
}

/// The minesweeper surface's game-facing state: the engine, the chosen
/// difficulty, the elapsed-time display, the last custom dimensions the
/// player entered, and a latched request for a fresh game.
pub struct MinesweeperElement {
    pub game: Minesweeper,
    pub difficulty: Difficulty,
    pub timer_ms: Option<u64>,
    pub custom_values: Option<DifficultyValues>,
    pub requesting_new_game: bool,
}

impl MinesweeperElement {
    pub fn new() -> (e: MinesweeperElement)
        ensures
            e.game.wf(),
            e.game.state == GameState::Prelude,
            e.difficulty == Difficulty::Easy,
            e.timer_ms is None,
            e.custom_values is None,
            !e.requesting_new_game,
    {
        let difficulty = Difficulty::Easy;
        let v = difficulty.values();
        MinesweeperElement {
            game: Minesweeper::new(v.width, v.height, v.bomb_count),
            difficulty,
            timer_ms: None,
            custom_values: None,
            requesting_new_game: false,
        }
    }

    pub fn difficulty(&self) -> (d: Difficulty)
        ensures
            d == self.difficulty,
    {
        self.difficulty
    }

    pub fn custom_values(&self) -> (v: Option<DifficultyValues>)
        ensures
            v == self.custom_values,
    {
        self.custom_values
    }

    /// A game counts as in progress once play began and has not ended.
    pub fn game_in_progress(&self) -> (r: bool)
        ensures
            r == (self.game.state == GameState::Playing && self.game.turns != 0),
    {
        self.game.state == GameState::Playing && self.game.turns != 0
    }

    /// Reads and clears the new-game request: whoever asks will handle
    /// it, so the latch resets.
    pub fn requesting_new_game(&mut self) -> (r: bool)
        ensures
            r == old(self).requesting_new_game,
            !final(self).requesting_new_game,
            final(self).game == old(self).game,
            final(self).difficulty == old(self).difficulty,
            final(self).timer_ms == old(self).timer_ms,
            final(self).custom_values == old(self).custom_values,
    {
        if self.requesting_new_game {
            self.requesting_new_game = false;
            true
        } else {
            false
        }
    }

    /// Replaces the engine wholesale with a fresh board of the given
    /// difficulty, remembering the dimensions when they were custom.
    pub fn new_game(&mut self, difficulty: Difficulty)
        ensures
            final(self).game.wf(),
            final(self).game.state == GameState::Prelude,
            final(self).game.width == difficulty.spec_values().width,
            final(self).game.height == difficulty.spec_values().height,
            final(self).game.bomb_count == ({
                let v = difficulty.spec_values();
                if v.bomb_count <= v.width * v.height - 9 {
                    v.bomb_count as int
                } else {
                    v.width * v.height - 9
                }
            }),
            final(self).game.turns == 0,
            forall|c: int|
                0 <= c < final(self).game.size() ==> (#[trigger] final(self).game.board@[c])
                    == Tile::Unopened,
            final(self).difficulty == difficulty,
            final(self).custom_values == (match difficulty {
                Difficulty::Custom(v) => Some(v),
                _ => old(self).custom_values,
            }),
            final(self).timer_ms == old(self).timer_ms,
            final(self).requesting_new_game == old(self).requesting_new_game,
    {
        self.difficulty = difficulty;
        let v = difficulty.values();
        self.game = Minesweeper::new(v.width, v.height, v.bomb_count);
        match difficulty {
            Difficulty::Custom(values) => {
                self.custom_values = Some(values);
            },
            _ => {},
        }
    }

    /// One frame of housekeeping: before the first dig the clock shows
    /// nothing; while the game is played it accumulates the frame time,
    /// saturating rather than wrapping; once the game ends it freezes.
    /// A press of the new-game button latches the request.
    pub fn update(&mut self, delta_ms: u64, new_game_pressed: bool)
        ensures
            final(self).game == old(self).game,
            final(self).difficulty == old(self).difficulty,
            final(self).custom_values == old(self).custom_values,
            final(self).requesting_new_game == (old(self).requesting_new_game
                || new_game_pressed),
            final(self).timer_ms == (if old(self).game.turns == 0 {
                None::<u64>
            } else if old(self).game.state == GameState::Playing {
                let base = match old(self).timer_ms {
                    Some(t) => t,
                    None => 0u64,
                };
                if base + delta_ms <= u64::MAX {
                    Some((base + delta_ms) as u64)
                } else {
                    Some(u64::MAX)
                }
            } else {
                Some(
                    match old(self).timer_ms {
                        Some(t) => t,
                        None => 0u64,
                    },
                )
            }),
    {
        if self.game.turns == 0 {
            self.timer_ms = None;
        } else {
            let base = match self.timer_ms {
                Some(t) => t,
                None => 0,
            };
            if self.game.state == GameState::Playing {
                if base <= u64::MAX - delta_ms {
                    self.timer_ms = Some(base + delta_ms);
                } else {
                    self.timer_ms = Some(u64::MAX);
                }
            } else {
                self.timer_ms = Some(base);
            }
        }
        if new_game_pressed {
            self.requesting_new_game = true;
        }
    }
}

} // verus!
