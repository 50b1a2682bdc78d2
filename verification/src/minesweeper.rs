use vstd::prelude::*;

verus! {

use vstd::pervasive::VecAdditionalExecFns;
use crate::rng::random_below;
use crate::grid::{
    spec_neighbour, adjacent, in_safe_zone, cnt_upto, adj_cnt, adj_cnt_upto,
    lemma_cnt_upto_bounds, lemma_cnt_upto_flip_off, lemma_adj_cnt_member,
    lemma_safe_cnt_le_9, lemma_neighbours_in_range, lemma_cnt_upto_member,
    neighbour_of, cell_in_safe_zone,
};

/// The phase of a game: no dig yet, digging, or over.
#[derive(Clone, Copy, PartialEq, Eq, Structural, Debug)]
pub enum GameState {
    Prelude,
    Playing,
    Win,
    Lose,
}

/// What a cell shows. Whether a mine sits under it is tracked separately,
/// so a mine only ever surfaces through `Revealed` once the game is lost.
#[derive(Clone, Copy, PartialEq, Eq, Structural, Debug)]
pub enum Tile {
    Unopened,
    Flagged,
    Revealed(u8),
}

/// Whether `set_flag` should plant a flag or lift one.
#[derive(Clone, Copy, PartialEq, Eq, Structural, Debug)]
pub enum SetFlagMode {
    Flag,
    Remove,
}

/// The three dimensions a board is built from.
#[derive(Clone, Copy, PartialEq, Eq, Structural, Debug)]
pub struct DifficultyValues {
    pub width: usize,
    pub height: usize,
    pub bomb_count: usize,
}

/// A construction parameter only: named presets, or custom dimensions.
/// The engine itself never retains it.
#[derive(Clone, Copy, PartialEq, Eq, Structural, Debug)]
pub enum Difficulty {
    Easy,
    Normal,
    Hard,
    Custom(DifficultyValues),
}

impl Difficulty {
    /// The board dimensions of this difficulty, with custom dimensions
    /// clamped to a sane board: at least four cells a side, at most ten
    /// thousand, so every board fits the engine's preconditions.
    pub open spec fn spec_values(self) -> DifficultyValues {
        match self {
            Difficulty::Easy => DifficultyValues { width: 9, height: 9, bomb_count: 10 },
            Difficulty::Normal => DifficultyValues { width: 16, height: 16, bomb_count: 40 },
            Difficulty::Hard => DifficultyValues { width: 30, height: 16, bomb_count: 99 },
            Difficulty::Custom(v) => DifficultyValues {
                width: if v.width < 4 {
                    4
                } else if v.width > 10000 {
                    10000
                } else {
                    v.width
                },
                height: if v.height < 4 {
                    4
                } else if v.height > 10000 {
                    10000
                } else {
                    v.height
                },
                bomb_count: v.bomb_count,
            },
        }
    }

    pub fn values(&self) -> (v: DifficultyValues)
        ensures
            v == self.spec_values(),
            4 <= v.width <= 10000,
            4 <= v.height <= 10000,
            v.width * v.height >= 9,
            v.width * v.height <= usize::MAX,
    {
        let v = match self {
            Difficulty::Easy => DifficultyValues { width: 9, height: 9, bomb_count: 10 },
            Difficulty::Normal => DifficultyValues { width: 16, height: 16, bomb_count: 40 },
            Difficulty::Hard => DifficultyValues { width: 30, height: 16, bomb_count: 99 },
            Difficulty::Custom(c) => DifficultyValues {
                width: if c.width < 4 {
                    4
                } else if c.width > 10000 {
                    10000
                } else {
                    c.width
                },
                height: if c.height < 4 {
                    4
                } else if c.height > 10000 {
                    10000
                } else {
                    c.height
                },
                bomb_count: c.bomb_count,
            },
        };
        proof {
            assert(v.width * v.height >= 9 && v.width * v.height <= 100000000) by (nonlinear_arith)
                requires
                    4 <= v.width <= 10000,
                    4 <= v.height <= 10000,
            ;
        }
        v
    }
}

/// `c` holds a mine.
pub open spec fn mine_pred(mask: Seq<bool>) -> spec_fn(int) -> bool {
    |c: int| mask[c]
}

/// `c` is flagged.
pub open spec fn flag_pred(board: Seq<Tile>) -> spec_fn(int) -> bool {
    |c: int| board[c] == Tile::Flagged
}

/// `c` is still unopened.
pub open spec fn unopened_pred(board: Seq<Tile>) -> spec_fn(int) -> bool {
    |c: int| board[c] == Tile::Unopened
}

/// `c` has not been revealed (it is unopened or flagged).
pub open spec fn not_revealed_pred(board: Seq<Tile>) -> spec_fn(int) -> bool {
    |c: int| !(board[c] is Revealed)
}

/// `c` lies in the safe zone of `s`.
pub open spec fn safe_pred(w: int, h: int, s: int) -> spec_fn(int) -> bool {
    |c: int| in_safe_zone(w, h, s, c)
}

/// A chain of cells, each a neighbour of the next, whose every cell but
/// the last was unopened with no adjacent mine on the board `board`.
/// This is the route a flood fill travels from a dug zero-count cell.
pub open spec fn is_flood_path(board: Seq<Tile>, counts: Seq<u8>, w: int, h: int, p: Seq<int>) -> bool {
    &&& p.len() >= 1
    &&& (forall|k: int| 0 <= k < p.len() ==> 0 <= #[trigger] p[k] < w * h)
    &&& (forall|k: int|
        0 <= k < p.len() - 1 ==> {
            &&& board[#[trigger] p[k]] == Tile::Unopened
            &&& counts[p[k]] == 0
            &&& adjacent(w, h, p[k], p[k + 1])
        })
}

/// `j` can be reached from `i` along unopened zero-count cells of `board`.
pub open spec fn flood_reaches(
    board: Seq<Tile>,
    counts: Seq<u8>,
    w: int,
    h: int,
    i: int,
    j: int,
) -> bool {
    exists|p: Seq<int>|
        is_flood_path(board, counts, w, h, p) && p[0] == i && p[p.len() - 1] == j
}

pub proof fn lemma_flood_reaches_self(board: Seq<Tile>, counts: Seq<u8>, w: int, h: int, s: int)
    requires
        0 <= s < w * h,
    ensures
        flood_reaches(board, counts, w, h, s, s),
{
    let p = seq![s];
    assert(is_flood_path(board, counts, w, h, p));
    assert(p[0] == s && p[p.len() - 1] == s);
}

/// Walking one more step from an unopened zero-count cell stays reachable.
pub proof fn lemma_flood_reaches_step(
    board: Seq<Tile>,
    counts: Seq<u8>,
    w: int,
    h: int,
    s: int,
    t: int,
    j: int,
)
    requires
        flood_reaches(board, counts, w, h, s, t),
        0 <= t < w * h,
        0 <= j < w * h,
        board[t] == Tile::Unopened,
        counts[t] == 0,
        adjacent(w, h, t, j),
    ensures
        flood_reaches(board, counts, w, h, s, j),
{
    let p = choose|p: Seq<int>|
        is_flood_path(board, counts, w, h, p) && p[0] == s && p[p.len() - 1] == t;
    let p2 = p.push(j);
    assert(p2[p2.len() - 1] == j);
    assert(p2[p.len() - 1] == t);
    assert(is_flood_path(board, counts, w, h, p2));
    assert(p2[0] == s);
}

/// A path over a later board is a path over an earlier one, as long as
/// the later board only opened cells: an unopened cell was unopened before.
pub proof fn lemma_flood_reaches_weaken(
    oldb: Seq<Tile>,
    midb: Seq<Tile>,
    counts: Seq<u8>,
    w: int,
    h: int,
    i: int,
    j: int,
)
    requires
        oldb.len() == w * h,
        midb.len() == w * h,
        forall|t: int| 0 <= t < w * h && oldb[t] != Tile::Unopened ==> #[trigger] midb[t] == oldb[t],
        flood_reaches(midb, counts, w, h, i, j),
    ensures
        flood_reaches(oldb, counts, w, h, i, j),
{
    let p = choose|p: Seq<int>|
        is_flood_path(midb, counts, w, h, p) && p[0] == i && p[p.len() - 1] == j;
    assert(is_flood_path(oldb, counts, w, h, p)) by {
        assert forall|k: int| 0 <= k < p.len() - 1 implies {
            &&& oldb[#[trigger] p[k]] == Tile::Unopened
            &&& counts[p[k]] == 0
            &&& adjacent(w, h, p[k], p[k + 1])
        } by {
            assert(midb[p[k]] == Tile::Unopened);
        }
    }
}

/// Once a flood fill is over, every cell it could reach has been opened:
/// the whole connected zero-count region, and its bordering ring.
pub proof fn lemma_flood_complete(
    oldb: Seq<Tile>,
    newb: Seq<Tile>,
    counts: Seq<u8>,
    w: int,
    h: int,
    p: Seq<int>,
)
    requires
        w >= 1,
        h >= 1,
        oldb.len() == w * h,
        newb.len() == w * h,
        is_flood_path(oldb, counts, w, h, p),
        newb[p[0]] is Revealed,
        // the fill only opened cells, never closed or flagged one
        forall|t: int| 0 <= t < w * h && oldb[t] != Tile::Unopened ==> #[trigger] newb[t] == oldb[t],
        // a cell the fill touched is now revealed
        forall|t: int| 0 <= t < w * h && #[trigger] newb[t] != oldb[t] ==> newb[t] is Revealed,
        // an opened zero-count cell has no unopened neighbour left
        forall|t: int, k: int|
            0 <= t < w * h && 0 <= k < 8 && #[trigger] newb[t] != oldb[t] && counts[t] == 0
                ==> match #[trigger] spec_neighbour(w, h, t, k) {
                Some(j) => newb[j] != Tile::Unopened,
                None => true,
            },
    ensures
        newb[p[p.len() - 1]] != Tile::Unopened,
    decreases p.len(),
{
    if p.len() == 1 {
        assert(newb[p[0]] != Tile::Unopened);
    } else {
        let s = p[0];
        let n1 = p[1];
        assert(oldb[s] == Tile::Unopened && counts[s] == 0 && adjacent(w, h, s, n1));
        assert(newb[s] != oldb[s]);
        let k = choose|k: int| 0 <= k < 8 && spec_neighbour(w, h, s, k) == Some(n1);
        assert(newb[n1] != Tile::Unopened);
        if p.len() == 2 {
        } else {
            let p2 = p.subrange(1, p.len() as int);
            assert(p2[0] == n1 && p2[p2.len() - 1] == p[p.len() - 1]);
            assert(is_flood_path(oldb, counts, w, h, p2)) by {
                assert(forall|k: int| 0 <= k < p2.len() ==> #[trigger] p2[k] == p[k + 1]);
            }
            assert(newb[n1] is Revealed) by {
                if oldb[n1] == Tile::Unopened {
                    assert(newb[n1] != oldb[n1]);
                    // only reveals happen, so a changed cell is revealed
                    assert(forall|t: int|
                        0 <= t < w * h && oldb[t] != Tile::Unopened ==> #[trigger] newb[t]
                            == oldb[t]);
                } else {
                    assert(newb[n1] == oldb[n1]);
                }
            }
            lemma_flood_complete(oldb, newb, counts, w, h, p2);
        }
    }
}

/// A minesweeper board. Mines are drawn only at the first dig, so that a
/// three-by-three zone around it can be kept free of them.
pub struct Minesweeper {
    pub width: usize,
    pub height: usize,
    pub bomb_count: usize,
    pub board: Vec<Tile>,
    pub bombs: Vec<usize>,
    pub mine_mask: Vec<bool>,
    pub neighbour_count: Vec<u8>,
    pub state: GameState,
    pub turns: usize,
    pub losing_tile: Option<usize>,
}

impl Minesweeper {
    pub open spec fn size(self) -> int {
        self.width * self.height
    }

    pub open spec fn base_wf(self) -> bool {
        &&& self.width >= 1
        &&& self.height >= 1
        &&& self.size() >= 9
        &&& self.size() <= usize::MAX
        &&& self.board@.len() == self.size()
        &&& self.mine_mask@.len() == self.size()
        &&& self.neighbour_count@.len() == self.size()
        &&& self.bomb_count <= self.size() - 9
    }

    /// `c` holds a mine.
    pub open spec fn is_mine(self, c: int) -> bool {
        self.mine_mask@[c]
    }

    /// The mine list and the mask agree, the list has no duplicates, and
    /// exactly `bomb_count` mines sit on the board.
    pub open spec fn mines_placed(self) -> bool {
        &&& self.bombs@.len() == self.bomb_count
        &&& self.bombs@.no_duplicates()
        &&& (forall|k: int| 0 <= k < self.bombs@.len() ==> (#[trigger] self.bombs@[k]) < self.size())
        &&& (forall|c: int|
            0 <= c < self.size() ==> ((#[trigger] self.mine_mask@[c]) <==> self.bombs@.contains(
                c as usize,
            )))
    }

    /// Every cell's stored count is the number of mines adjacent to it.
    pub open spec fn counts_ok(self) -> bool {
        forall|c: int|
            0 <= c < self.size() ==> {
                &&& (#[trigger] self.neighbour_count@[c]) as int == adj_cnt(
                    self.width as int,
                    self.height as int,
                    c,
                    mine_pred(self.mine_mask@),
                )
                &&& self.neighbour_count@[c] <= 8
            }
    }

    /// A revealed cell shows exactly its stored neighbour count.
    pub open spec fn tiles_ok(self) -> bool {
        forall|c: int|
            0 <= c < self.size() ==> match #[trigger] self.board@[c] {
                Tile::Revealed(n) => n == self.neighbour_count@[c],
                _ => true,
            }
    }

    /// Every cell without a mine has been revealed.
    pub open spec fn win_cond(self) -> bool {
        forall|c: int|
            0 <= c < self.size() && !self.mine_mask@[c] ==> (#[trigger] self.board@[c]) is Revealed
    }

    /// Some mined cell has been revealed.
    pub open spec fn lose_cond(self) -> bool {
        exists|c: int|
            0 <= c < self.size() && self.mine_mask@[c] && (#[trigger] self.board@[c]) is Revealed
    }

    /// Before the first dig: no mines drawn yet, nothing revealed.
    pub open spec fn prelude_ok(self) -> bool {
        &&& self.bombs@.len() == 0
        &&& (forall|c: int| 0 <= c < self.size() ==> !(#[trigger] self.mine_mask@[c]))
        &&& (forall|c: int|
            0 <= c < self.size() ==> ((#[trigger] self.board@[c]) == Tile::Unopened
                || self.board@[c] == Tile::Flagged))
        &&& self.turns == 0
        &&& self.losing_tile is None
    }

    /// The game state tells the truth about the board: `Win` holds exactly
    /// when every mine-free cell is revealed, `Lose` exactly when a mined
    /// cell is.
    pub open spec fn state_ok(self) -> bool {
        match self.state {
            GameState::Prelude => true,
            GameState::Playing => !self.win_cond() && !self.lose_cond(),
            GameState::Win => self.win_cond() && !self.lose_cond(),
            GameState::Lose => {
                &&& self.lose_cond()
                &&& !self.win_cond()
                &&& match self.losing_tile {
                    Some(t) => t < self.size() && self.mine_mask@[t as int]
                        && self.board@[t as int] is Revealed,
                    None => false,
                }
            },
        }
    }

    pub open spec fn wf(self) -> bool {
        &&& self.base_wf()
        &&& if self.state == GameState::Prelude {
            self.prelude_ok()
        } else {
            &&& self.mines_placed()
            &&& self.counts_ok()
            &&& self.tiles_ok()
            &&& 1 <= self.turns
            &&& self.turns + cnt_upto(not_revealed_pred(self.board@), self.size()) <= self.size()
        }
        &&& self.state_ok()
    }

    /// `dig(i)` does something exactly on these inputs.
    pub open spec fn spec_diggable(self, i: int) -> bool {
        &&& 0 <= i < self.size()
        &&& self.board@[i] == Tile::Unopened
        &&& (self.state == GameState::Prelude || self.state == GameState::Playing)
    }

    /// Builds a board with every tile unopened and no mines drawn. The
    /// requested number of bombs is clamped to `width * height - 9`, the
    /// nine reserved cells being the safe zone of the future first dig.
    pub fn new(width: usize, height: usize, bomb_count: usize) -> (game: Minesweeper)
        requires
            width >= 1,
            height >= 1,
            width * height >= 9,
            width * height <= usize::MAX,
        ensures
            game.wf(),
            game.width == width,
            game.height == height,
            game.state == GameState::Prelude,
            game.turns == 0,
            game.bomb_count == if bomb_count <= width * height - 9 {
                bomb_count as int
            } else {
                width * height - 9
            },
            forall|c: int| 0 <= c < game.size() ==> (#[trigger] game.board@[c]) == Tile::Unopened,
    {
        let size = width * height;
        let used = if bomb_count < size - 9 {
            bomb_count
        } else {
            size - 9
        };
        let mut board: Vec<Tile> = Vec::new();
        let mut mine_mask: Vec<bool> = Vec::new();
        let mut neighbour_count: Vec<u8> = Vec::new();
        let mut i: usize = 0;
        while i < size
            invariant
                i <= size,
                board@.len() == i,
                mine_mask@.len() == i,
                neighbour_count@.len() == i,
                forall|c: int| 0 <= c < i ==> (#[trigger] board@[c]) == Tile::Unopened,
                forall|c: int| 0 <= c < i ==> !(#[trigger] mine_mask@[c]),
            decreases size - i,
        {
            board.push(Tile::Unopened);
            mine_mask.push(false);
            neighbour_count.push(0);
            i += 1;
        }
        Minesweeper {
            width,
            height,
            bomb_count: used,
            board,
            bombs: Vec::new(),
            mine_mask,
            neighbour_count,
            state: GameState::Prelude,
            turns: 0,
            losing_tile: None,
        }
    }

    /// Pure check: the index is on the board, the tile is unopened, and
    /// the game still accepts digs.
    pub fn diggable(&self, index: usize) -> (b: bool)
        requires
            self.wf(),
        ensures
            b == self.spec_diggable(index as int),
    {
        index < self.board.len() && self.board[index] == Tile::Unopened && (self.state
            == GameState::Prelude || self.state == GameState::Playing)
    }

    /// Plants a flag on an unopened tile, or lifts one from a flagged
    /// tile. Succeeds exactly then; any other request leaves the board
    /// unchanged. No game phase is excluded: flagging works even before
    /// the first dig and after the game is over.
    pub fn set_flag(&mut self, mode: SetFlagMode, index: usize) -> (ok: bool)
        requires
            old(self).wf(),
        ensures
            final(self).wf(),
            ok == (index < old(self).size() && match mode {
                SetFlagMode::Flag => old(self).board@[index as int] == Tile::Unopened,
                SetFlagMode::Remove => old(self).board@[index as int] == Tile::Flagged,
            }),
            !ok ==> *final(self) == *old(self),
            ok ==> final(self).board@ == old(self).board@.update(
                index as int,
                match mode {
                    SetFlagMode::Flag => Tile::Flagged,
                    SetFlagMode::Remove => Tile::Unopened,
                },
            ),
            final(self).width == old(self).width,
            final(self).height == old(self).height,
            final(self).bomb_count == old(self).bomb_count,
            final(self).bombs@ == old(self).bombs@,
            final(self).mine_mask@ == old(self).mine_mask@,
            final(self).neighbour_count@ == old(self).neighbour_count@,
            final(self).state == old(self).state,
            final(self).turns == old(self).turns,
            final(self).losing_tile == old(self).losing_tile,
    {
        if index >= self.board.len() {
            return false;
        }
        let tile = self.board[index];
        match mode {
            SetFlagMode::Flag => {
                if tile == Tile::Unopened {
                    self.board.set(index, Tile::Flagged);
                    proof {
                        self.lemma_flag_toggle_wf(*old(self), index as int);
                    }
                    return true;
                }
            },
            SetFlagMode::Remove => {
                if tile == Tile::Flagged {
                    self.board.set(index, Tile::Unopened);
                    proof {
                        self.lemma_flag_toggle_wf(*old(self), index as int);
                    }
                    return true;
                }
            },
        }
        false
    }

    /// Swapping one tile between unopened and flagged preserves every
    /// invariant: the cell stays unrevealed either way.
    proof fn lemma_flag_toggle_wf(self, pre: Minesweeper, i: int)
        requires
            pre.wf(),
            0 <= i < pre.size(),
            pre.board@[i] == Tile::Unopened || pre.board@[i] == Tile::Flagged,
            self.board@[i] == Tile::Unopened || self.board@[i] == Tile::Flagged,
            self.board@ == pre.board@.update(i, self.board@[i]),
            self == (Minesweeper { board: self.board, ..pre }),
        ensures
            self.wf(),
    {
        assert(self.board@.len() == pre.board@.len());
        assert(forall|c: int|
            0 <= c < self.size() && c != i ==> self.board@[c] == pre.board@[c]);
        if pre.state != GameState::Prelude {
            lemma_cnt_upto_flip_same(
                not_revealed_pred(pre.board@),
                not_revealed_pred(self.board@),
                self.size(),
            );
            assert(self.win_cond() == pre.win_cond()) by {
                assert(!(pre.board@[i] is Revealed) && !(self.board@[i] is Revealed));
            }
            assert(self.lose_cond() == pre.lose_cond()) by {
                if pre.lose_cond() {
                    let c = choose|c: int|
                        0 <= c < pre.size() && pre.mine_mask@[c] && (#[trigger] pre.board@[c])
                            is Revealed;
                    assert(self.board@[c] is Revealed);
                }
                if self.lose_cond() {
                    let c = choose|c: int|
                        0 <= c < self.size() && self.mine_mask@[c] && (#[trigger] self.board@[c])
                            is Revealed;
                    assert(pre.board@[c] is Revealed);
                }
            }
        }
    }

    /// How many flags remain to plant before matching the bomb count, or
    /// `None` when more flags than bombs are already down, which a display
    /// shows as unknown rather than a negative number.
    pub fn flags_left(&self) -> (r: Option<usize>)
        requires
            self.wf(),
        ensures
            ({
                let f = cnt_upto(flag_pred(self.board@), self.size());
                r == if f <= self.bomb_count {
                    Some((self.bomb_count - f) as usize)
                } else {
                    None::<usize>
                }
            }),
    {
        let mut flags: usize = 0;
        let mut i: usize = 0;
        let n = self.board.len();
        while i < n
            invariant
                self.wf(),
                i <= n,
                n == self.size(),
                flags == cnt_upto(flag_pred(self.board@), i as int),
                flags <= i,
            decreases n - i,
        {
            if self.board[i] == Tile::Flagged {
                flags += 1;
            }
            i += 1;
        }
        if flags <= self.bomb_count {
            Some(self.bomb_count - flags)
        } else {
            None
        }
    }

    /// Counts the mines adjacent to cell `i`.
    fn count_adjacent_mines(&self, i: usize) -> (n: u8)
        requires
            self.width >= 1,
            self.size() <= usize::MAX,
            self.mine_mask@.len() == self.size(),
            (i as int) < self.size(),
        ensures
            n as int == adj_cnt(
                self.width as int,
                self.height as int,
                i as int,
                mine_pred(self.mine_mask@),
            ),
            n <= 8,
    {
        let mut n: u8 = 0;
        let mut k: usize = 0;
        while k < 8
            invariant
                k <= 8,
                n <= k,
                self.width >= 1,
                self.size() <= usize::MAX,
                self.mine_mask@.len() == self.size(),
                (i as int) < self.size(),
                n as int == adj_cnt_upto(
                    self.width as int,
                    self.height as int,
                    i as int,
                    mine_pred(self.mine_mask@),
                    k as int,
                ),
            decreases 8 - k,
        {
            match neighbour_of(i, k, self.width, self.height) {
                Some(j) => {
                    if self.mine_mask[j] {
                        n += 1;
                    }
                },
                None => {},
            }
            k += 1;
        }
        n
    }

    /// Counts the flags adjacent to cell `i`.
    fn count_adjacent_flags(&self, i: usize) -> (n: u8)
        requires
            self.width >= 1,
            self.size() <= usize::MAX,
            self.board@.len() == self.size(),
            (i as int) < self.size(),
        ensures
            n as int == adj_cnt(
                self.width as int,
                self.height as int,
                i as int,
                flag_pred(self.board@),
            ),
            n <= 8,
    {
        let mut n: u8 = 0;
        let mut k: usize = 0;
        while k < 8
            invariant
                k <= 8,
                n <= k,
                self.width >= 1,
                self.size() <= usize::MAX,
                self.board@.len() == self.size(),
                (i as int) < self.size(),
                n as int == adj_cnt_upto(
                    self.width as int,
                    self.height as int,
                    i as int,
                    flag_pred(self.board@),
                    k as int,
                ),
            decreases 8 - k,
        {
            match neighbour_of(i, k, self.width, self.height) {
                Some(j) => {
                    if self.board[j] == Tile::Flagged {
                        n += 1;
                    }
                },
                None => {},
            }
            k += 1;
        }
        n
    }

    /// True exactly when every mine-free cell has been revealed.
    fn check_win(&self) -> (b: bool)
        requires
            self.board@.len() == self.size(),
            self.mine_mask@.len() == self.size(),
        ensures
            b == self.win_cond(),
    {
        let mut i: usize = 0;
        let n = self.board.len();
        while i < n
            invariant
                i <= n,
                n == self.size(),
                self.board@.len() == self.size(),
                self.mine_mask@.len() == self.size(),
                forall|c: int|
                    0 <= c < i && !self.mine_mask@[c] ==> (#[trigger] self.board@[c]) is Revealed,
            decreases n - i,
        {
            if !self.mine_mask[i] {
                match self.board[i] {
                    Tile::Revealed(_) => {},
                    _ => {
                        return false;
                    },
                }
            }
            i += 1;
        }
        true
    }

    /// Turns every still-unopened mined cell face up; used when the game
    /// is lost. Flags stay planted, mine-free cells are untouched.
    fn reveal_all_mines(&mut self)
        requires
            old(self).width >= 1,
            old(self).size() <= usize::MAX,
            old(self).board@.len() == old(self).size(),
            old(self).mine_mask@.len() == old(self).size(),
            old(self).neighbour_count@.len() == old(self).size(),
            old(self).tiles_ok(),
        ensures
            *final(self) == (Minesweeper { board: final(self).board, ..*old(self) }),
            final(self).board@.len() == old(self).size(),
            final(self).tiles_ok(),
            forall|t: int|
                0 <= t < old(self).size() && !old(self).mine_mask@[t] ==> #[trigger] final(self).board@[t] == old(self).board@[t],
            forall|t: int|
                0 <= t < old(self).size() && old(self).board@[t] != Tile::Unopened ==> #[trigger] final(self).board@[t] == old(self).board@[t],
            forall|t: int|
                0 <= t < old(self).size() && old(self).mine_mask@[t] && old(self).board@[t]
                    == Tile::Unopened ==> (#[trigger] final(self).board@[t]) == Tile::Revealed(old(self).neighbour_count@[t]),
            cnt_upto(not_revealed_pred(final(self).board@), old(self).size()) <= cnt_upto(
                not_revealed_pred(old(self).board@),
                old(self).size(),
            ),
    {
        let n = self.board.len();
        let mut i: usize = 0;
        while i < n
            invariant
                i <= n,
                n == old(self).size(),
                *self == (Minesweeper { board: self.board, ..*old(self) }),
                self.board@.len() == n,
                old(self).mine_mask@.len() == n,
                old(self).neighbour_count@.len() == n,
                old(self).tiles_ok(),
                self.tiles_ok(),
                forall|t: int|
                    0 <= t < n && !old(self).mine_mask@[t] ==> #[trigger] self.board@[t] == old(self).board@[t],
                forall|t: int|
                    0 <= t < n && old(self).board@[t] != Tile::Unopened ==> #[trigger] self.board@[t]
                        == old(self).board@[t],
                forall|t: int|
                    0 <= t < i && old(self).mine_mask@[t] && old(self).board@[t] == Tile::Unopened
                        ==> (#[trigger] self.board@[t]) == Tile::Revealed(old(self).neighbour_count@[t]),
                forall|t: int|
                    i <= t < n ==> #[trigger] self.board@[t] == old(self).board@[t],
                cnt_upto(not_revealed_pred(self.board@), n as int) <= cnt_upto(
                    not_revealed_pred(old(self).board@),
                    n as int,
                ),
            decreases n - i,
        {
            if self.mine_mask[i] && self.board[i] == Tile::Unopened {
                let ghost prev = self.board@;
                let c = self.neighbour_count[i];
                self.board.set(i, Tile::Revealed(c));
                proof {
                    lemma_cnt_upto_flip_off(
                        not_revealed_pred(prev),
                        not_revealed_pred(self.board@),
                        i as int,
                        n as int,
                    );
                    lemma_cnt_upto_flip_same(
                        not_revealed_pred(prev),
                        not_revealed_pred(old(self).board@),
                        0,
                    );
                }
            }
            i += 1;
        }
    }

    /// Opens `start`; when it has no adjacent mines, keeps opening: the
    /// whole connected region of zero-count cells reachable from it, plus
    /// the ring of numbered cells bordering that region. The traversal is
    /// iterative, over an explicit frontier, and visits each cell once.
    fn flood_reveal(&mut self, start: usize)
        requires
            old(self).width >= 1,
            old(self).height >= 1,
            old(self).size() <= usize::MAX,
            old(self).board@.len() == old(self).size(),
            old(self).mine_mask@.len() == old(self).size(),
            old(self).neighbour_count@.len() == old(self).size(),
            old(self).counts_ok(),
            old(self).tiles_ok(),
            (start as int) < old(self).size(),
            old(self).board@[start as int] == Tile::Unopened,
            !old(self).mine_mask@[start as int],
        ensures
            *final(self) == (Minesweeper { board: final(self).board, ..*old(self) }),
            final(self).board@.len() == old(self).size(),
            final(self).tiles_ok(),
            forall|t: int|
                0 <= t < old(self).size() && old(self).board@[t] != Tile::Unopened
                    ==> #[trigger] final(self).board@[t] == old(self).board@[t],
            forall|t: int|
                0 <= t < old(self).size() && #[trigger] final(self).board@[t] != old(
                    self,
                ).board@[t] ==> {
                    &&& old(self).board@[t] == Tile::Unopened
                    &&& final(self).board@[t] == Tile::Revealed(old(self).neighbour_count@[t])
                    &&& !old(self).mine_mask@[t]
                    &&& flood_reaches(
                        old(self).board@,
                        old(self).neighbour_count@,
                        old(self).width as int,
                        old(self).height as int,
                        start as int,
                        t,
                    )
                },
            final(self).board@[start as int] == Tile::Revealed(
                old(self).neighbour_count@[start as int],
            ),
            forall|t: int, k: int|
                0 <= t < old(self).size() && 0 <= k < 8 && #[trigger] final(self).board@[t] != old(
                    self,
                ).board@[t] && old(self).neighbour_count@[t] == 0 ==> match #[trigger] spec_neighbour(
                    old(self).width as int,
                    old(self).height as int,
                    t,
                    k,
                ) {
                    Some(j) => final(self).board@[j] != Tile::Unopened,
                    None => true,
                },
            cnt_upto(not_revealed_pred(final(self).board@), old(self).size()) <= cnt_upto(
                not_revealed_pred(old(self).board@),
                old(self).size(),
            ) - 1,
    {
        let w = self.width;
        let h = self.height;
        let n = self.board.len();
        let ghost ob = self.board@;
        let ghost counts = self.neighbour_count@;
        let c0 = self.neighbour_count[start];
        self.board.set(start, Tile::Revealed(c0));
        proof {
            lemma_cnt_upto_flip_off(
                not_revealed_pred(ob),
                not_revealed_pred(self.board@),
                start as int,
                n as int,
            );
            lemma_cnt_upto_flip_off(
                unopened_pred(ob),
                unopened_pred(self.board@),
                start as int,
                n as int,
            );
            lemma_cnt_upto_bounds(unopened_pred(self.board@), n as int);
            lemma_flood_reaches_self(ob, counts, w as int, h as int, start as int);
            lemma_neighbours_in_range(w as int, h as int, n as int);
        }
        let mut queue: Vec<usize> = Vec::new();
        if c0 == 0 {
            queue.push(start);
            proof {
                assert(queue@[0] == start);
                assert(queue@.contains(start));
            }
        }
        while queue.len() > 0
            invariant
                *self == (Minesweeper { board: self.board, ..*old(self) }),
                self.board@.len() == n,
                n == old(self).size(),
                w == old(self).width,
                h == old(self).height,
                w >= 1,
                h >= 1,
                ob == old(self).board@,
                counts == old(self).neighbour_count@,
                old(self).mine_mask@.len() == n,
                counts.len() == n,
                old(self).counts_ok(),
                (start as int) < n,
                ob[start as int] == Tile::Unopened,
                self.tiles_ok(),
                self.board@[start as int] == Tile::Revealed(counts[start as int]),
                forall|t: int|
                    0 <= t < n && ob[t] != Tile::Unopened ==> #[trigger] self.board@[t] == ob[t],
                forall|t: int|
                    0 <= t < n && #[trigger] self.board@[t] != ob[t] ==> {
                        &&& ob[t] == Tile::Unopened
                        &&& self.board@[t] == Tile::Revealed(counts[t])
                        &&& !old(self).mine_mask@[t]
                        &&& flood_reaches(ob, counts, w as int, h as int, start as int, t)
                    },
                forall|qi: int|
                    0 <= qi < queue@.len() ==> {
                        &&& ((#[trigger] queue@[qi]) as int) < n
                        &&& self.board@[queue@[qi] as int] != ob[queue@[qi] as int]
                        &&& counts[queue@[qi] as int] == 0
                    },
                forall|t: int, k: int|
                    0 <= t < n && 0 <= k < 8 && #[trigger] self.board@[t] != ob[t] && counts[t]
                        == 0 ==> (match #[trigger] spec_neighbour(w as int, h as int, t, k) {
                        Some(j) => self.board@[j] != Tile::Unopened,
                        None => true,
                    } || queue@.contains(t as usize)),
                forall|a: int, k2: int|
                    0 <= a < n && 0 <= k2 < 8 ==> match #[trigger] spec_neighbour(
                        w as int,
                        h as int,
                        a,
                        k2,
                    ) {
                        Some(j) => 0 <= j < n && j != a,
                        None => true,
                    },
                cnt_upto(not_revealed_pred(self.board@), n as int) <= cnt_upto(
                    not_revealed_pred(ob),
                    n as int,
                ) - 1,
                cnt_upto(unopened_pred(self.board@), n as int) >= 0,
            decreases 9 * cnt_upto(unopened_pred(self.board@), n as int) + queue@.len(),
        {
            let ghost q_pre = queue@;
            let t = queue.pop().unwrap();
            let ghost m0 = 9 * cnt_upto(unopened_pred(self.board@), n as int) + queue@.len();
            proof {
                assert forall|x: usize| q_pre.contains(x) && x != t implies queue@.contains(
                    x,
                ) by {
                    let qi = choose|qi: int| 0 <= qi < q_pre.len() && q_pre[qi] == x;
                    assert(qi < q_pre.len() - 1);
                    assert(queue@[qi] == x);
                }
            }
            let mut k: usize = 0;
            while k < 8
                invariant
                    *self == (Minesweeper { board: self.board, ..*old(self) }),
                    self.board@.len() == n,
                    n == old(self).size(),
                    w == old(self).width,
                    h == old(self).height,
                    w >= 1,
                    h >= 1,
                    ob == old(self).board@,
                    counts == old(self).neighbour_count@,
                    old(self).mine_mask@.len() == n,
                    counts.len() == n,
                    old(self).counts_ok(),
                    (start as int) < n,
                    ob[start as int] == Tile::Unopened,
                    self.tiles_ok(),
                    self.board@[start as int] == Tile::Revealed(counts[start as int]),
                    k <= 8,
                    (t as int) < n,
                    self.board@[t as int] != ob[t as int],
                    counts[t as int] == 0,
                    forall|t2: int|
                        0 <= t2 < n && ob[t2] != Tile::Unopened ==> #[trigger] self.board@[t2]
                            == ob[t2],
                    forall|t2: int|
                        0 <= t2 < n && #[trigger] self.board@[t2] != ob[t2] ==> {
                            &&& ob[t2] == Tile::Unopened
                            &&& self.board@[t2] == Tile::Revealed(counts[t2])
                            &&& !old(self).mine_mask@[t2]
                            &&& flood_reaches(ob, counts, w as int, h as int, start as int, t2)
                        },
                    forall|qi: int|
                        0 <= qi < queue@.len() ==> {
                            &&& ((#[trigger] queue@[qi]) as int) < n
                            &&& self.board@[queue@[qi] as int] != ob[queue@[qi] as int]
                            &&& counts[queue@[qi] as int] == 0
                        },
                    forall|kk: int|
                        0 <= kk < k ==> match #[trigger] spec_neighbour(
                            w as int,
                            h as int,
                            t as int,
                            kk,
                        ) {
                            Some(j) => self.board@[j] != Tile::Unopened,
                            None => true,
                        },
                    forall|t2: int, k2: int|
                        0 <= t2 < n && 0 <= k2 < 8 && #[trigger] self.board@[t2] != ob[t2]
                            && counts[t2] == 0 ==> (match #[trigger] spec_neighbour(
                            w as int,
                            h as int,
                            t2,
                            k2,
                        ) {
                            Some(j) => self.board@[j] != Tile::Unopened,
                            None => true,
                        } || queue@.contains(t2 as usize) || t2 == t as int),
                    forall|a: int, k2: int|
                        0 <= a < n && 0 <= k2 < 8 ==> match #[trigger] spec_neighbour(
                            w as int,
                            h as int,
                            a,
                            k2,
                        ) {
                            Some(j) => 0 <= j < n && j != a,
                            None => true,
                        },
                    cnt_upto(not_revealed_pred(self.board@), n as int) <= cnt_upto(
                        not_revealed_pred(ob),
                        n as int,
                    ) - 1,
                    cnt_upto(unopened_pred(self.board@), n as int) >= 0,
                    9 * cnt_upto(unopened_pred(self.board@), n as int) + queue@.len() <= m0,
                decreases 8 - k,
            {
                match neighbour_of(t, k, w, h) {
                    Some(j) => {
                        if self.board[j] == Tile::Unopened {
                            proof {
                                if old(self).mine_mask@[j as int] {
                                    lemma_adj_cnt_member(
                                        w as int,
                                        h as int,
                                        t as int,
                                        mine_pred(old(self).mine_mask@),
                                        k as int,
                                        j as int,
                                    );
                                }
                                assert(adjacent(w as int, h as int, t as int, j as int)) by {
                                    assert(0 <= k < 8 && spec_neighbour(
                                        w as int,
                                        h as int,
                                        t as int,
                                        k as int,
                                    ) == Some(j as int));
                                }
                                lemma_flood_reaches_step(
                                    ob,
                                    counts,
                                    w as int,
                                    h as int,
                                    start as int,
                                    t as int,
                                    j as int,
                                );
                            }
                            let ghost prev = self.board@;
                            let cj = self.neighbour_count[j];
                            self.board.set(j, Tile::Revealed(cj));
                            proof {
                                lemma_cnt_upto_flip_off(
                                    not_revealed_pred(prev),
                                    not_revealed_pred(self.board@),
                                    j as int,
                                    n as int,
                                );
                                lemma_cnt_upto_flip_off(
                                    unopened_pred(prev),
                                    unopened_pred(self.board@),
                                    j as int,
                                    n as int,
                                );
                                lemma_cnt_upto_bounds(unopened_pred(self.board@), n as int);
                            }
                            let ghost q_mid = queue@;
                            if cj == 0 {
                                queue.push(j);
                                proof {
                                    assert(queue@[queue@.len() - 1] == j);
                                    assert(queue@.contains(j));
                                    assert forall|x: usize| q_mid.contains(x) implies queue@.contains(x) by {
                                        let qi = choose|qi: int| 0 <= qi < q_mid.len() && q_mid[qi] == x;
                                        assert(queue@[qi] == x);
                                    }
                                }
                            }
                        }
                    },
                    None => {},
                }
                k += 1;
            }
        }
    }

    /// A lawful mine layout for a first dig at `first`: one mine per
    /// requested bomb, no two on the same cell, all on the board, and
    /// none inside the three-by-three safe zone around `first`.
    pub open spec fn spec_valid_mines(self, mines: Seq<usize>, first: int) -> bool {
        &&& mines.len() == self.bomb_count
        &&& mines.no_duplicates()
        &&& forall|k: int|
            0 <= k < mines.len() ==> {
                &&& ((#[trigger] mines[k]) as int) < self.size()
                &&& !in_safe_zone(self.width as int, self.height as int, first, mines[k] as int)
            }
    }

    /// Draws the mines for a first dig at `first`: a uniform sample,
    /// without replacement, over every cell outside the safe zone. The
    /// capacity clamp in `new` guarantees enough such cells exist.
    fn generate_mines(&self, first: usize) -> (mines: Vec<usize>)
        requires
            self.width >= 1,
            self.height >= 1,
            self.size() >= 9,
            self.size() <= usize::MAX,
            self.bomb_count <= self.size() - 9,
            (first as int) < self.size(),
        ensures
            self.spec_valid_mines(mines@, first as int),
    {
        let w = self.width;
        let h = self.height;
        let size = w * h;
        let mut candidates: Vec<usize> = Vec::new();
        let mut c: usize = 0;
        while c < size
            invariant
                c <= size,
                size == self.size(),
                w == self.width,
                h == self.height,
                w >= 1,
                h >= 1,
                (first as int) < self.size(),
                candidates@.len() + cnt_upto(safe_pred(w as int, h as int, first as int), c as int)
                    == c,
                forall|k: int|
                    0 <= k < candidates@.len() ==> {
                        &&& ((#[trigger] candidates@[k]) as int) < c
                        &&& !in_safe_zone(w as int, h as int, first as int, candidates@[k] as int)
                    },
                forall|k1: int, k2: int|
                    0 <= k1 < k2 < candidates@.len() ==> #[trigger] candidates@[k1]
                        < #[trigger] candidates@[k2],
            decreases size - c,
        {
            if !cell_in_safe_zone(w, h, first, c) {
                candidates.push(c);
            }
            c += 1;
        }
        proof {
            lemma_safe_cnt_le_9(w as int, h as int, first as int, size as int);
            assert(candidates@.len() >= size - 9);
            assert(candidates@.no_duplicates()) by {
                assert forall|k1: int, k2: int|
                    0 <= k1 < candidates@.len() && 0 <= k2 < candidates@.len() && k1 != k2
                    implies candidates@[k1] != candidates@[k2] by {
                    if k1 < k2 {
                        assert(candidates@[k1] < candidates@[k2]);
                    } else {
                        assert(candidates@[k2] < candidates@[k1]);
                    }
                }
            }
        }
        let total = candidates.len();
        let mut mines: Vec<usize> = Vec::new();
        let mut m: usize = 0;
        while m < self.bomb_count
            invariant
                m <= self.bomb_count,
                mines@.len() == m,
                candidates@.len() == total,
                total >= self.bomb_count,
                size == self.size(),
                w == self.width,
                h == self.height,
                (first as int) < self.size(),
                forall|k: int|
                    0 <= k < candidates@.len() ==> {
                        &&& ((#[trigger] candidates@[k]) as int) < self.size()
                        &&& !in_safe_zone(w as int, h as int, first as int, candidates@[k] as int)
                    },
                candidates@.no_duplicates(),
                mines@ == candidates@.subrange(0, m as int),
            decreases self.bomb_count - m,
        {
            let r = m + random_below(total - m);
            if r != m {
                let ghost s0 = candidates@;
                let a = candidates[m];
                let b = candidates[r];
                candidates.set(m, b);
                candidates.set(r, a);
                proof {
                    assert(candidates@.no_duplicates()) by {
                        assert forall|k1: int, k2: int|
                            0 <= k1 < candidates@.len() && 0 <= k2 < candidates@.len() && k1 != k2
                            implies candidates@[k1] != candidates@[k2] by {
                            assert(s0.no_duplicates());
                        }
                    }
                    assert(candidates@.subrange(0, m as int) =~= s0.subrange(0, m as int));
                }
            }
            let picked = candidates[m];
            mines.push(picked);
            proof {
                assert(mines@ =~= candidates@.subrange(0, m + 1));
            }
            m += 1;
        }
        proof {
            assert(mines@.no_duplicates()) by {
                assert forall|k1: int, k2: int|
                    0 <= k1 < mines@.len() && 0 <= k2 < mines@.len() && k1 != k2 implies mines@[k1]
                    != mines@[k2] by {
                    assert(mines@[k1] == candidates@[k1] && mines@[k2] == candidates@[k2]);
                }
            }
        }
        mines
    }

    /// Installs a lawful mine layout, fills in every neighbour count,
    /// starts play, and performs the first reveal at `first`, flood and
    /// all. The turn counter starts at one.
    fn install_mines(&mut self, mines: Vec<usize>, first: usize)
        requires
            old(self).wf(),
            old(self).state == GameState::Prelude,
            (first as int) < old(self).size(),
            old(self).board@[first as int] == Tile::Unopened,
            old(self).spec_valid_mines(mines@, first as int),
        ensures
            final(self).wf(),
            final(self).width == old(self).width,
            final(self).height == old(self).height,
            final(self).bomb_count == old(self).bomb_count,
            final(self).bombs@ == mines@,
            final(self).turns == 1,
            final(self).losing_tile is None,
            final(self).state == GameState::Playing || final(self).state == GameState::Win,
            (final(self).state == GameState::Win) == final(self).win_cond(),
            forall|c: int|
                0 <= c < old(self).size() ==> ((#[trigger] final(self).mine_mask@[c])
                    <==> mines@.contains(c as usize)),
            forall|c: int|
                0 <= c < old(self).size() && in_safe_zone(
                    old(self).width as int,
                    old(self).height as int,
                    first as int,
                    c,
                ) ==> !(#[trigger] final(self).mine_mask@[c]),
            final(self).counts_ok(),
            final(self).board@.len() == old(self).size(),
            forall|t: int|
                0 <= t < old(self).size() && old(self).board@[t] != Tile::Unopened
                    ==> #[trigger] final(self).board@[t] == old(self).board@[t],
            forall|t: int|
                0 <= t < old(self).size() && #[trigger] final(self).board@[t] != old(
                    self,
                ).board@[t] ==> {
                    &&& old(self).board@[t] == Tile::Unopened
                    &&& final(self).board@[t] == Tile::Revealed(final(self).neighbour_count@[t])
                    &&& !final(self).mine_mask@[t]
                    &&& flood_reaches(
                        old(self).board@,
                        final(self).neighbour_count@,
                        old(self).width as int,
                        old(self).height as int,
                        first as int,
                        t,
                    )
                },
            final(self).board@[first as int] == Tile::Revealed(
                final(self).neighbour_count@[first as int],
            ),
            forall|t: int|
                0 <= t < old(self).size() && old(self).board@[t] == Tile::Unopened
                    && flood_reaches(
                    old(self).board@,
                    final(self).neighbour_count@,
                    old(self).width as int,
                    old(self).height as int,
                    first as int,
                    t,
                ) ==> (#[trigger] final(self).board@[t]) is Revealed,
    {
        let w = self.width;
        let h = self.height;
        let size = self.board.len();
        let ghost ms = mines@;
        let mut k: usize = 0;
        while k < mines.len()
            invariant
                k <= mines.len(),
                mines@ == ms,
                *self == (Minesweeper { mine_mask: self.mine_mask, ..*old(self) }),
                self.mine_mask@.len() == old(self).size(),
                size == old(self).size(),
                w == self.width,
                h == self.height,
                old(self).spec_valid_mines(ms, first as int),
                forall|c: int|
                    0 <= c < old(self).size() ==> ((#[trigger] self.mine_mask@[c]) <==> exists|k2: int|
                        0 <= k2 < k && ms[k2] == c as usize),
            decreases mines.len() - k,
        {
            let mc = mines[k];
            self.mine_mask.set(mc, true);
            proof {
                assert forall|c: int| 0 <= c < old(self).size() implies ((#[trigger] self.mine_mask@[c])
                    <==> exists|k2: int| 0 <= k2 < k + 1 && ms[k2] == c as usize) by {
                    if c == mc as int {
                        assert(ms[k as int] == c as usize);
                    } else {
                        if exists|k2: int| 0 <= k2 < k + 1 && ms[k2] == c as usize {
                            let k2 = choose|k2: int| 0 <= k2 < k + 1 && ms[k2] == c as usize;
                            assert(k2 != k as int);
                        }
                    }
                }
            }
            k += 1;
        }
        proof {
            assert forall|c: int| 0 <= c < old(self).size() implies ((#[trigger] self.mine_mask@[c])
                <==> ms.contains(c as usize)) by {
                if self.mine_mask@[c] {
                    let k2 = choose|k2: int| 0 <= k2 < k && ms[k2] == c as usize;
                    assert(0 <= k2 < ms.len() && ms[k2] == c as usize);
                }
                if ms.contains(c as usize) {
                    let k2 = choose|k2: int| 0 <= k2 < ms.len() && ms[k2] == c as usize;
                    assert(0 <= k2 < k && ms[k2] == c as usize);
                }
            }
        }
        self.bombs = mines;
        let mut i: usize = 0;
        while i < size
            invariant
                i <= size,
                size == old(self).size(),
                w == self.width,
                h == self.height,
                self.bombs@ == ms,
                old(self).spec_valid_mines(ms, first as int),
                forall|c: int|
                    0 <= c < size ==> ((#[trigger] self.mine_mask@[c]) <==> ms.contains(
                        c as usize,
                    )),
                *self == (Minesweeper {
                    mine_mask: self.mine_mask,
                    bombs: self.bombs,
                    neighbour_count: self.neighbour_count,
                    ..*old(self)
                }),
                self.mine_mask@.len() == size,
                self.neighbour_count@.len() == size,
                forall|c: int|
                    0 <= c < i ==> {
                        &&& (#[trigger] self.neighbour_count@[c]) as int == adj_cnt(
                            w as int,
                            h as int,
                            c,
                            mine_pred(self.mine_mask@),
                        )
                        &&& self.neighbour_count@[c] <= 8
                    },
            decreases size - i,
        {
            let nc = self.count_adjacent_mines(i);
            self.neighbour_count.set(i, nc);
            i += 1;
        }
        self.state = GameState::Playing;
        self.turns = 1;
        proof {
            lemma_cnt_upto_bounds(not_revealed_pred(self.board@), size as int);
            assert(in_safe_zone(w as int, h as int, first as int, first as int));
            if self.mine_mask@[first as int] {
                assert(ms.contains(first));
                let k2 = choose|k2: int| 0 <= k2 < ms.len() && ms[k2] == first;
                assert(!in_safe_zone(w as int, h as int, first as int, ms[k2] as int));
                assert(false);
            }
        }
        self.flood_reveal(first);
        if self.check_win() {
            self.state = GameState::Win;
        }
        proof {
            let fs = *self;
            let os = *old(self);
            assert(fs.board@.len() == os.size());
            // the mask agrees with the installed mine list
            assert(fs.mines_placed());
            // no mine was revealed: a changed cell is mine-free and an
            // unchanged one still shows its pre-game face
            assert(!fs.lose_cond()) by {
                if fs.lose_cond() {
                    let c = choose|c: int|
                        0 <= c < fs.size() && fs.mine_mask@[c] && (#[trigger] fs.board@[c])
                            is Revealed;
                    if fs.board@[c] != os.board@[c] {
                        assert(!fs.mine_mask@[c]);
                    } else {
                        assert(os.board@[c] == Tile::Unopened || os.board@[c] == Tile::Flagged);
                    }
                    assert(false);
                }
            }
            assert(fs.turns + cnt_upto(not_revealed_pred(fs.board@), fs.size()) <= fs.size());
            // the reveal at `first` proves the safe zone held no mine
            assert forall|c: int|
                0 <= c < os.size() && in_safe_zone(w as int, h as int, first as int, c)
                implies !(#[trigger] fs.mine_mask@[c]) by {
                if fs.mine_mask@[c] {
                    let k2 = choose|k2: int| 0 <= k2 < ms.len() && ms[k2] == c as usize;
                    assert(!in_safe_zone(w as int, h as int, first as int, ms[k2] as int));
                }
            }
            // completeness of the flood: walk any admissible path
            assert forall|t: int|
                0 <= t < os.size() && os.board@[t] == Tile::Unopened && flood_reaches(
                    os.board@,
                    fs.neighbour_count@,
                    w as int,
                    h as int,
                    first as int,
                    t,
                ) implies (#[trigger] fs.board@[t]) is Revealed by {
                let p = choose|p: Seq<int>|
                    is_flood_path(os.board@, fs.neighbour_count@, w as int, h as int, p) && p[0]
                        == first as int && p[p.len() - 1] == t;
                lemma_flood_complete(os.board@, fs.board@, fs.neighbour_count@, w as int, h as int, p);
                assert(fs.board@[t] != Tile::Unopened);
                assert(fs.board@[t] != os.board@[t]);
            }
        }
    }

    /// Opens a cell. On the very first successful dig the mines are
    /// drawn, keeping the dug cell and its whole neighbourhood free of
    /// them, and every neighbour count is computed; the dig then reveals
    /// the cell, flooding outward when its count is zero. Digging a mine
    /// loses the game and turns every mine face up. A dig on anything
    /// but an unopened tile of a live game changes nothing.
    pub fn dig(&mut self, index: usize) -> (b: bool)
        requires
            old(self).wf(),
        ensures
            final(self).wf(),
            b == old(self).spec_diggable(index as int),
            !b ==> *final(self) == *old(self),
            b ==> {
                &&& final(self).width == old(self).width
                &&& final(self).height == old(self).height
                &&& final(self).bomb_count == old(self).bomb_count
                &&& final(self).state != GameState::Prelude
                &&& final(self).counts_ok()
                &&& (final(self).state == GameState::Win) == final(self).win_cond()
                &&& (final(self).state == GameState::Lose) == final(self).lose_cond()
            },
            b && old(self).state == GameState::Prelude ==> {
                &&& final(self).turns == 1
                &&& final(self).bombs@.len() == old(self).bomb_count
                &&& final(self).bombs@.no_duplicates()
                &&& (forall|c: int|
                    0 <= c < old(self).size() && in_safe_zone(
                        old(self).width as int,
                        old(self).height as int,
                        index as int,
                        c,
                    ) ==> !(#[trigger] final(self).mine_mask@[c]))
                &&& final(self).state != GameState::Lose
            },
            b && old(self).state == GameState::Playing ==> {
                &&& final(self).turns == old(self).turns + 1
                &&& final(self).bombs@ == old(self).bombs@
                &&& final(self).mine_mask@ == old(self).mine_mask@
                &&& final(self).neighbour_count@ == old(self).neighbour_count@
            },
            b && old(self).state == GameState::Playing && old(self).mine_mask@[index as int] ==> {
                &&& final(self).state == GameState::Lose
                &&& final(self).losing_tile == Some(index)
                &&& (forall|t: int|
                    0 <= t < old(self).size() && !old(self).mine_mask@[t]
                        ==> #[trigger] final(self).board@[t] == old(self).board@[t])
                &&& (forall|t: int|
                    0 <= t < old(self).size() && old(self).mine_mask@[t] && old(self).board@[t]
                        == Tile::Unopened ==> (#[trigger] final(self).board@[t]) == Tile::Revealed(
                        old(self).neighbour_count@[t],
                    ))
                &&& (forall|t: int|
                    0 <= t < old(self).size() && old(self).board@[t] != Tile::Unopened
                        ==> #[trigger] final(self).board@[t] == old(self).board@[t])
            },
            b && !final(self).mine_mask@[index as int] ==> {
                &&& (forall|t: int|
                    0 <= t < old(self).size() && old(self).board@[t] != Tile::Unopened
                        ==> #[trigger] final(self).board@[t] == old(self).board@[t])
                &&& (forall|t: int|
                    0 <= t < old(self).size() && #[trigger] final(self).board@[t] != old(
                        self,
                    ).board@[t] ==> {
                        &&& old(self).board@[t] == Tile::Unopened
                        &&& final(self).board@[t] == Tile::Revealed(
                            final(self).neighbour_count@[t],
                        )
                        &&& !final(self).mine_mask@[t]
                        &&& flood_reaches(
                            old(self).board@,
                            final(self).neighbour_count@,
                            old(self).width as int,
                            old(self).height as int,
                            index as int,
                            t,
                        )
                    })
                &&& final(self).board@[index as int] == Tile::Revealed(
                    final(self).neighbour_count@[index as int],
                )
                &&& (forall|t: int|
                    0 <= t < old(self).size() && old(self).board@[t] == Tile::Unopened
                        && flood_reaches(
                        old(self).board@,
                        final(self).neighbour_count@,
                        old(self).width as int,
                        old(self).height as int,
                        index as int,
                        t,
                    ) ==> (#[trigger] final(self).board@[t]) is Revealed)
                &&& (final(self).state == GameState::Playing || final(self).state
                    == GameState::Win)
            },
    {
        if !self.diggable(index) {
            return false;
        }
        if self.state == GameState::Prelude {
            let mines = self.generate_mines(index);
            self.install_mines(mines, index);
            proof {
                if self.mine_mask@[index as int] {
                    assert(in_safe_zone(
                        self.width as int,
                        self.height as int,
                        index as int,
                        index as int,
                    ));
                }
            }
            return true;
        }
        proof {
            lemma_cnt_upto_member(
                not_revealed_pred(self.board@),
                index as int,
                self.size(),
            );
        }
        self.turns = self.turns + 1;
        if self.mine_mask[index] {
            let ghost pre = *self;
            let c = self.neighbour_count[index];
            self.board.set(index, Tile::Revealed(c));
            proof {
                lemma_cnt_upto_flip_off(
                    not_revealed_pred(pre.board@),
                    not_revealed_pred(self.board@),
                    index as int,
                    self.size(),
                );
            }
            self.reveal_all_mines();
            self.state = GameState::Lose;
            self.losing_tile = Some(index);
            proof {
                let fs = *self;
                let os = *old(self);
                assert(fs.lose_cond()) by {
                    assert(fs.board@[index as int] is Revealed);
                }
                assert(!fs.win_cond()) by {
                    assert(!os.win_cond());
                    let c2 = choose|c2: int|
                        0 <= c2 < os.size() && !os.mine_mask@[c2] && !((#[trigger] os.board@[c2])
                            is Revealed);
                    assert(fs.board@[c2] == os.board@[c2]);
                }
            }
            return true;
        }
        self.flood_reveal(index);
        if self.check_win() {
            self.state = GameState::Win;
        }
        proof {
            let fs = *self;
            let os = *old(self);
            assert(!fs.lose_cond()) by {
                if fs.lose_cond() {
                    let c = choose|c: int|
                        0 <= c < fs.size() && fs.mine_mask@[c] && (#[trigger] fs.board@[c])
                            is Revealed;
                    if fs.board@[c] != os.board@[c] {
                        assert(!fs.mine_mask@[c]);
                    } else {
                        assert(!os.lose_cond());
                        assert(os.board@[c] is Revealed);
                    }
                    assert(false);
                }
            }
            assert forall|t: int|
                0 <= t < os.size() && os.board@[t] == Tile::Unopened && flood_reaches(
                    os.board@,
                    fs.neighbour_count@,
                    os.width as int,
                    os.height as int,
                    index as int,
                    t,
                ) implies (#[trigger] fs.board@[t]) is Revealed by {
                let p = choose|p: Seq<int>|
                    is_flood_path(os.board@, fs.neighbour_count@, os.width as int, os.height as int, p)
                        && p[0] == index as int && p[p.len() - 1] == t;
                lemma_flood_complete(
                    os.board@,
                    fs.board@,
                    fs.neighbour_count@,
                    os.width as int,
                    os.height as int,
                    p,
                );
                assert(fs.board@[t] != Tile::Unopened);
                assert(fs.board@[t] != os.board@[t]);
            }
        }
        true
    }

    /// Everything `chord(i)` promises about the game it left behind:
    /// an exact no-op unless the chord fires, and when it fires, the
    /// frame, the per-cell reveals, the verdict, and the reported mine.
    pub open spec fn chord_post(pre: Minesweeper, post: Minesweeper, i: int, r: Option<usize>) -> bool {
        &&& (!pre.spec_chordable(i) ==> post == pre && r is None)
        &&& (pre.spec_chordable(i) ==> {
            &&& post.width == pre.width
            &&& post.height == pre.height
            &&& post.bomb_count == pre.bomb_count
            &&& post.turns == pre.turns
            &&& post.bombs@ == pre.bombs@
            &&& post.mine_mask@ == pre.mine_mask@
            &&& post.neighbour_count@ == pre.neighbour_count@
            &&& (post.state == GameState::Win) == post.win_cond()
            &&& (post.state == GameState::Lose) == post.lose_cond()
            &&& (forall|t: int|
                0 <= t < pre.size() && pre.board@[t] != Tile::Unopened
                    ==> #[trigger] post.board@[t] == pre.board@[t])
            &&& (forall|t: int|
                0 <= t < pre.size() && #[trigger] post.board@[t] != pre.board@[t]
                    ==> pre.board@[t] == Tile::Unopened && post.board@[t] == Tile::Revealed(
                    pre.neighbour_count@[t],
                ))
            &&& (r matches Some(m) ==> {
                &&& (m as int) < pre.size()
                &&& pre.mine_mask@[m as int]
                &&& pre.board@[m as int] == Tile::Unopened
                &&& adjacent(pre.width as int, pre.height as int, i, m as int)
                &&& post.state == GameState::Lose
                &&& post.losing_tile == Some(m)
            })
            // the mine reported is the first one hit, in neighbour-slot order
            &&& (r matches Some(m) ==> exists|k: int|
                {
                    &&& 0 <= k < 8
                    &&& #[trigger] spec_neighbour(pre.width as int, pre.height as int, i, k)
                        == Some(m as int)
                    &&& (forall|k2: int|
                        0 <= k2 < k ==> match #[trigger] spec_neighbour(
                            pre.width as int,
                            pre.height as int,
                            i,
                            k2,
                        ) {
                            Some(j) => !(pre.board@[j] == Tile::Unopened && pre.mine_mask@[j]),
                            None => true,
                        })
                })
            &&& (r is None ==> post.state != GameState::Lose)
            &&& (forall|k: int|
                0 <= k < 8 ==> match #[trigger] spec_neighbour(
                    pre.width as int,
                    pre.height as int,
                    i,
                    k,
                ) {
                    Some(j) => pre.board@[j] == Tile::Unopened ==> ((post.board@[j] is Revealed)
                        || post.state == GameState::Lose || post.state == GameState::Win),
                    None => true,
                })
            &&& (post.state != GameState::Lose ==> forall|t: int|
                0 <= t < pre.size() && #[trigger] post.board@[t] != pre.board@[t]
                    ==> exists|j: int|
                    {
                        &&& 0 <= j < pre.size()
                        &&& adjacent(pre.width as int, pre.height as int, i, j)
                        &&& pre.board@[j] == Tile::Unopened
                        &&& !pre.mine_mask@[j]
                        &&& flood_reaches(
                            pre.board@,
                            pre.neighbour_count@,
                            pre.width as int,
                            pre.height as int,
                            j,
                            t,
                        )
                    })
        })
    }

    /// `chord(i)` acts exactly on these inputs: a revealed numbered cell
    /// of a live game whose flagged neighbours match its number.
    pub open spec fn spec_chordable(self, i: int) -> bool {
        &&& 0 <= i < self.size()
        &&& self.state == GameState::Playing
        &&& match self.board@[i] {
            Tile::Revealed(n) => n > 0 && adj_cnt(
                self.width as int,
                self.height as int,
                i,
                flag_pred(self.board@),
            ) == n,
            _ => false,
        }
    }

    /// Opens every unopened neighbour of a revealed numbered cell at
    /// once, provided exactly as many of its neighbours are flagged as
    /// its number says; each neighbour is opened exactly as `dig` would
    /// open it, flood fill and mines included. Returns the first mine
    /// hit, if any, to seed the explosion; on any other input it is a
    /// no-op returning `None`.
    pub fn chord(&mut self, index: usize) -> (r: Option<usize>)
        requires
            old(self).wf(),
        ensures
            final(self).wf(),
            Self::chord_post(*old(self), *final(self), index as int, r),
    {
        let fire = index < self.board.len() && self.state == GameState::Playing && (
        match self.board[index] {
            Tile::Revealed(n) => n > 0 && self.count_adjacent_flags(index) == n,
            _ => false,
        });
        if !fire {
            return None;
        }
        let w = self.width;
        let h = self.height;
        let ghost ob = self.board@;
        let ghost counts = self.neighbour_count@;
        let ghost os = *old(self);
        proof {
            lemma_neighbours_in_range(w as int, h as int, os.size());
        }
        let mut hit: Option<usize> = None;
        let ghost mut hit_slot: int = 0;
        let mut k: usize = 0;
        while k < 8
            invariant
                k <= 8,
                self.wf(),
                w == os.width,
                h == os.height,
                os == *old(self),
                ob == os.board@,
                counts == os.neighbour_count@,
                os.wf(),
                os.state == GameState::Playing,
                (index as int) < os.size(),
                self.width == os.width,
                self.height == os.height,
                self.bomb_count == os.bomb_count,
                self.turns == os.turns,
                self.bombs@ == os.bombs@,
                self.mine_mask@ == os.mine_mask@,
                self.neighbour_count@ == os.neighbour_count@,
                self.state != GameState::Prelude,
                forall|a: int, k2: int|
                    0 <= a < os.size() && 0 <= k2 < 8 ==> match #[trigger] spec_neighbour(
                        w as int,
                        h as int,
                        a,
                        k2,
                    ) {
                        Some(j) => 0 <= j < os.size() && j != a,
                        None => true,
                    },
                forall|t: int|
                    0 <= t < os.size() && ob[t] != Tile::Unopened ==> #[trigger] self.board@[t]
                        == ob[t],
                forall|t: int|
                    0 <= t < os.size() && #[trigger] self.board@[t] != ob[t] ==> ob[t]
                        == Tile::Unopened && self.board@[t] == Tile::Revealed(counts[t]),
                match hit {
                    Some(m) => {
                        &&& (m as int) < os.size()
                        &&& os.mine_mask@[m as int]
                        &&& ob[m as int] == Tile::Unopened
                        &&& adjacent(w as int, h as int, index as int, m as int)
                        &&& self.state == GameState::Lose
                        &&& self.losing_tile == Some(m)
                        &&& 0 <= hit_slot < k
                        &&& spec_neighbour(w as int, h as int, index as int, hit_slot) == Some(
                            m as int,
                        )
                        &&& (forall|k2: int|
                            0 <= k2 < hit_slot ==> match #[trigger] spec_neighbour(
                                w as int,
                                h as int,
                                index as int,
                                k2,
                            ) {
                                Some(j) => !(ob[j] == Tile::Unopened && os.mine_mask@[j]),
                                None => true,
                            })
                    },
                    None => {
                        &&& self.state != GameState::Lose
                        &&& (self.state == GameState::Playing ==> forall|k2: int|
                            0 <= k2 < k ==> match #[trigger] spec_neighbour(
                                w as int,
                                h as int,
                                index as int,
                                k2,
                            ) {
                                Some(j) => !(ob[j] == Tile::Unopened && os.mine_mask@[j]),
                                None => true,
                            })
                    },
                },
                forall|kk: int|
                    0 <= kk < k ==> match #[trigger] spec_neighbour(
                        w as int,
                        h as int,
                        index as int,
                        kk,
                    ) {
                        Some(j) => ob[j] == Tile::Unopened ==> ((self.board@[j] is Revealed)
                            || self.state == GameState::Lose || self.state == GameState::Win),
                        None => true,
                    },
                self.state != GameState::Lose ==> forall|t: int|
                    0 <= t < os.size() && #[trigger] self.board@[t] != ob[t] ==> exists|j: int|
                        {
                            &&& 0 <= j < os.size()
                            &&& adjacent(w as int, h as int, index as int, j)
                            &&& ob[j] == Tile::Unopened
                            &&& !os.mine_mask@[j]
                            &&& flood_reaches(ob, counts, w as int, h as int, j, t)
                        },
            decreases 8 - k,
        {
            match neighbour_of(index, k, w, h) {
                Some(j) => {
                    let still_playing = self.state == GameState::Playing;
                    if still_playing && self.board[j] == Tile::Unopened {
                        if self.mine_mask[j] {
                            let ghost pre = *self;
                            let c = self.neighbour_count[j];
                            self.board.set(j, Tile::Revealed(c));
                            proof {
                                lemma_cnt_upto_flip_off(
                                    not_revealed_pred(pre.board@),
                                    not_revealed_pred(self.board@),
                                    j as int,
                                    os.size(),
                                );
                            }
                            self.reveal_all_mines();
                            self.state = GameState::Lose;
                            self.losing_tile = Some(j);
                            hit = Some(j);
                            proof {
                                hit_slot = k as int;
                                let fs = *self;
                                assert(fs.lose_cond()) by {
                                    assert(fs.board@[j as int] is Revealed);
                                }
                                assert(!fs.win_cond()) by {
                                    assert(!pre.win_cond());
                                    let c2 = choose|c2: int|
                                        0 <= c2 < pre.size() && !pre.mine_mask@[c2] && !((
                                        #[trigger] pre.board@[c2]) is Revealed);
                                    assert(fs.board@[c2] == pre.board@[c2]);
                                }
                                assert(adjacent(w as int, h as int, index as int, j as int)) by {
                                    assert(0 <= k < 8 && spec_neighbour(
                                        w as int,
                                        h as int,
                                        index as int,
                                        k as int,
                                    ) == Some(j as int));
                                }
                            }
                        } else {
                            let ghost pre = *self;
                            self.flood_reveal(j);
                            if self.check_win() {
                                self.state = GameState::Win;
                            }
                            proof {
                                let fs = *self;
                                assert(!fs.lose_cond()) by {
                                    if fs.lose_cond() {
                                        let c2 = choose|c2: int|
                                            0 <= c2 < fs.size() && fs.mine_mask@[c2] && (
                                            #[trigger] fs.board@[c2]) is Revealed;
                                        if fs.board@[c2] != pre.board@[c2] {
                                            assert(!fs.mine_mask@[c2]);
                                        } else {
                                            assert(!pre.lose_cond());
                                            assert(pre.board@[c2] is Revealed);
                                        }
                                        assert(false);
                                    }
                                }
                                assert(adjacent(w as int, h as int, index as int, j as int)) by {
                                    assert(0 <= k < 8 && spec_neighbour(
                                        w as int,
                                        h as int,
                                        index as int,
                                        k as int,
                                    ) == Some(j as int));
                                }
                                // every cell this flood opened is reachable from j,
                                // measured against the board as it stood at entry
                                assert forall|t: int|
                                    0 <= t < os.size() && #[trigger] fs.board@[t] != ob[t]
                                    implies exists|j2: int|
                                        {
                                            &&& 0 <= j2 < os.size()
                                            &&& adjacent(w as int, h as int, index as int, j2)
                                            &&& ob[j2] == Tile::Unopened
                                            &&& !os.mine_mask@[j2]
                                            &&& flood_reaches(ob, counts, w as int, h as int, j2, t)
                                        } by {
                                    if fs.board@[t] != pre.board@[t] {
                                        lemma_flood_reaches_weaken(
                                            ob,
                                            pre.board@,
                                            counts,
                                            w as int,
                                            h as int,
                                            j as int,
                                            t,
                                        );
                                        assert(0 <= (j as int) < os.size() && adjacent(
                                            w as int,
                                            h as int,
                                            index as int,
                                            j as int,
                                        ) && ob[j as int] == Tile::Unopened
                                            && !os.mine_mask@[j as int] && flood_reaches(
                                            ob,
                                            counts,
                                            w as int,
                                            h as int,
                                            j as int,
                                            t,
                                        ));
                                    }
                                }
                            }
                        }
                    }
                },
                None => {},
            }
            k += 1;
        }
        hit
    }

    /// Checks a mine layout against `spec_valid_mines` at runtime.
    fn validate_mines(&self, mines: &Vec<usize>, first: usize) -> (ok: bool)
        requires
            self.width >= 1,
            self.height >= 1,
            self.size() <= usize::MAX,
            (first as int) < self.size(),
        ensures
            ok == self.spec_valid_mines(mines@, first as int),
    {
        if mines.len() != self.bomb_count {
            return false;
        }
        let size = self.width * self.height;
        let mut seen: Vec<bool> = Vec::new();
        let mut i: usize = 0;
        while i < size
            invariant
                i <= size,
                seen@.len() == i,
                forall|c: int| 0 <= c < i ==> !(#[trigger] seen@[c]),
            decreases size - i,
        {
            seen.push(false);
            i += 1;
        }
        let mut k: usize = 0;
        while k < mines.len()
            invariant
                k <= mines@.len(),
                mines@.len() == self.bomb_count,
                seen@.len() == size,
                size == self.size(),
                self.width >= 1,
                self.height >= 1,
                (first as int) < self.size(),
                forall|c: int|
                    0 <= c < size ==> ((#[trigger] seen@[c]) <==> exists|k2: int|
                        0 <= k2 < k && mines@[k2] == c as usize),
                forall|k2: int|
                    0 <= k2 < k ==> {
                        &&& ((#[trigger] mines@[k2]) as int) < self.size()
                        &&& !in_safe_zone(
                            self.width as int,
                            self.height as int,
                            first as int,
                            mines@[k2] as int,
                        )
                    },
                forall|k1: int, k2: int|
                    0 <= k1 < k && 0 <= k2 < k && k1 != k2 ==> #[trigger] mines@[k1]
                        != #[trigger] mines@[k2],
            decreases mines@.len() - k,
        {
            let mc = mines[k];
            if mc >= size {
                return false;
            }
            if cell_in_safe_zone(self.width, self.height, first, mc) {
                return false;
            }
            if seen[mc] {
                proof {
                    let k2 = choose|k2: int| 0 <= k2 < k && mines@[k2] == mc;
                    assert(mines@[k2] == mines@[k as int] && k2 != k as int);
                }
                return false;
            }
            seen.set(mc, true);
            proof {
                assert forall|c: int| 0 <= c < size implies ((#[trigger] seen@[c]) <==> exists|
                    k2: int,
                |
                    0 <= k2 < k + 1 && mines@[k2] == c as usize) by {
                    if c == mc as int {
                        assert(mines@[k as int] == c as usize);
                    } else {
                        if exists|k2: int| 0 <= k2 < k + 1 && mines@[k2] == c as usize {
                            let k2 = choose|k2: int| 0 <= k2 < k + 1 && mines@[k2] == c as usize;
                            assert(k2 != k as int);
                        }
                    }
                }
            }
            k += 1;
        }
        proof {
            assert(mines@.no_duplicates());
        }
        true
    }

    /// Starts a game from a caller-chosen mine layout instead of a random
    /// draw, then digs `first`: the deterministic twin of a first `dig`,
    /// for replaying a board or studying a known one. It refuses, leaving
    /// the game untouched, unless the game is still in its prelude,
    /// `first` is diggable, and the layout is lawful for it.
    pub fn start_with_mines(&mut self, mines: &Vec<usize>, first: usize) -> (ok: bool)
        requires
            old(self).wf(),
        ensures
            final(self).wf(),
            ok == (old(self).state == GameState::Prelude && old(self).spec_diggable(first as int)
                && old(self).spec_valid_mines(mines@, first as int)),
            !ok ==> *final(self) == *old(self),
            ok ==> {
                &&& final(self).width == old(self).width
                &&& final(self).height == old(self).height
                &&& final(self).bomb_count == old(self).bomb_count
                &&& final(self).bombs@ == mines@
                &&& final(self).turns == 1
                &&& final(self).state == GameState::Playing || final(self).state == GameState::Win
                &&& (final(self).state == GameState::Win) == final(self).win_cond()
                &&& final(self).counts_ok()
                &&& (forall|c: int|
                    0 <= c < old(self).size() ==> ((#[trigger] final(self).mine_mask@[c])
                        <==> mines@.contains(c as usize)))
                &&& (forall|c: int|
                    0 <= c < old(self).size() && in_safe_zone(
                        old(self).width as int,
                        old(self).height as int,
                        first as int,
                        c,
                    ) ==> !(#[trigger] final(self).mine_mask@[c]))
                &&& (forall|t: int|
                    0 <= t < old(self).size() && old(self).board@[t] != Tile::Unopened
                        ==> #[trigger] final(self).board@[t] == old(self).board@[t])
                &&& (forall|t: int|
                    0 <= t < old(self).size() && #[trigger] final(self).board@[t] != old(
                        self,
                    ).board@[t] ==> {
                        &&& old(self).board@[t] == Tile::Unopened
                        &&& final(self).board@[t] == Tile::Revealed(
                            final(self).neighbour_count@[t],
                        )
                        &&& !final(self).mine_mask@[t]
                        &&& flood_reaches(
                            old(self).board@,
                            final(self).neighbour_count@,
                            old(self).width as int,
                            old(self).height as int,
                            first as int,
                            t,
                        )
                    })
                &&& final(self).board@[first as int] == Tile::Revealed(
                    final(self).neighbour_count@[first as int],
                )
                &&& (forall|t: int|
                    0 <= t < old(self).size() && old(self).board@[t] == Tile::Unopened
                        && flood_reaches(
                        old(self).board@,
                        final(self).neighbour_count@,
                        old(self).width as int,
                        old(self).height as int,
                        first as int,
                        t,
                    ) ==> (#[trigger] final(self).board@[t]) is Revealed)
            },
    {
        if !(self.state == GameState::Prelude) {
            return false;
        }
        if !self.diggable(first) {
            return false;
        }
        if !self.validate_mines(mines, first) {
            return false;
        }
        let mut m2: Vec<usize> = Vec::new();
        let mut i: usize = 0;
        while i < mines.len()
            invariant
                i <= mines@.len(),
                m2@ == mines@.subrange(0, i as int),
            decreases mines@.len() - i,
        {
            m2.push(mines[i]);
            proof {
                assert(m2@ =~= mines@.subrange(0, i + 1));
            }
            i += 1;
        }
        proof {
            assert(m2@ =~= mines@);
        }
        self.install_mines(m2, first);
        true
    }
}

/// The verdict states are truthful, in both directions: a well-formed
/// game is in `Win` exactly when every mine-free cell is revealed, and
/// in `Lose` exactly when some mined cell is revealed.
pub proof fn lemma_win_lose_characterisation(g: Minesweeper)
    requires
        g.wf(),
    ensures
        (g.state == GameState::Win) <==> g.win_cond(),
        (g.state == GameState::Lose) <==> g.lose_cond(),
{
    if g.state == GameState::Prelude {
        assert(!g.win_cond()) by {
            assert(g.board@[0] == Tile::Unopened || g.board@[0] == Tile::Flagged);
            assert(!g.mine_mask@[0]);
            assert(!(g.board@[0] is Revealed));
        }
        assert(!g.lose_cond()) by {
            if g.lose_cond() {
                let c = choose|c: int|
                    0 <= c < g.size() && g.mine_mask@[c] && (#[trigger] g.board@[c]) is Revealed;
                assert(!g.mine_mask@[c]);
            }
        }
    }
}

/// Predicates that agree below `n` count the same cells there.
proof fn lemma_cnt_upto_flip_same(p: spec_fn(int) -> bool, q: spec_fn(int) -> bool, n: int)
    requires
        forall|c: int| 0 <= c < n ==> #[trigger] p(c) == q(c),
    ensures
        cnt_upto(p, n) == cnt_upto(q, n),
    decreases n,
{
    if n > 0 {
        lemma_cnt_upto_flip_same(p, q, n - 1);
    }
}

} // verus!
