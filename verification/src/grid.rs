use vstd::prelude::*;

verus! {

use vstd::arithmetic::div_mod::{lemma_fundamental_div_mod, lemma_fundamental_div_mod_converse};

/// The eight grid offsets around a cell, listed left-to-right, top-to-bottom.
pub open spec fn spec_offset(k: int) -> (int, int) {
    if k == 0 {
        (-1, -1)
    } else if k == 1 {
        (0, -1)
    } else if k == 2 {
        (1, -1)
    } else if k == 3 {
        (-1, 0)
    } else if k == 4 {
        (1, 0)
    } else if k == 5 {
        (-1, 1)
    } else if k == 6 {
        (0, 1)
    } else {
        (1, 1)
    }
}

/// The cell reached from `i` by moving `dx` columns and `dy` rows on a
/// `w`-by-`h` grid stored row-major, or `None` when the move would cross
/// the border. Both coordinates are checked independently, so a move can
/// never wrap around a row boundary.
pub open spec fn spec_cell_at(w: int, h: int, i: int, dx: int, dy: int) -> Option<int> {
    let x = i % w + dx;
    let y = i / w + dy;
    if 0 <= x && x < w && 0 <= y && y < h {
        Some(y * w + x)
    } else {
        None
    }
}

/// The `k`-th of the up-to-eight neighbours of `i`.
pub open spec fn spec_neighbour(w: int, h: int, i: int, k: int) -> Option<int> {
    spec_cell_at(w, h, i, spec_offset(k).0, spec_offset(k).1)
}

/// `b` is one of the up-to-eight neighbours of `a`.
pub open spec fn adjacent(w: int, h: int, a: int, b: int) -> bool {
    exists|k: int| 0 <= k < 8 && spec_neighbour(w, h, a, k) == Some(b)
}

/// `c` lies in the 3-by-3 block centred on `s`: the zone kept free of
/// mines around the first dig. It contains `s` itself.
pub open spec fn in_safe_zone(w: int, h: int, s: int, c: int) -> bool {
    &&& 0 <= c < w * h
    &&& 0 <= s < w * h
    &&& -1 <= c % w - s % w <= 1
    &&& -1 <= c / w - s / w <= 1
}

/// How many of the cells `0 <= c < n` satisfy `p`.
pub open spec fn cnt_upto(p: spec_fn(int) -> bool, n: int) -> int
    decreases n,
{
    if n <= 0 {
        0
    } else {
        cnt_upto(p, n - 1) + if p(n - 1) {
            1int
        } else {
            0int
        }
    }
}

/// How many of the first `k` neighbour slots of `i` name a cell satisfying `p`.
pub open spec fn adj_cnt_upto(w: int, h: int, i: int, p: spec_fn(int) -> bool, k: int) -> int
    decreases k,
{
    if k <= 0 {
        0
    } else {
        adj_cnt_upto(w, h, i, p, k - 1) + match spec_neighbour(w, h, i, k - 1) {
            Some(j) => if p(j) {
                1int
            } else {
                0int
            },
            None => 0int,
        }
    }
}

/// How many neighbours of `i` satisfy `p`.
pub open spec fn adj_cnt(w: int, h: int, i: int, p: spec_fn(int) -> bool) -> int {
    adj_cnt_upto(w, h, i, p, 8)
}

pub proof fn lemma_cnt_upto_bounds(p: spec_fn(int) -> bool, n: int)
    ensures
        0 <= cnt_upto(p, n),
        n >= 0 ==> cnt_upto(p, n) <= n,
    decreases n,
{
    if n > 0 {
        lemma_cnt_upto_bounds(p, n - 1);
    }
}

/// Flipping `p` off at the single cell `t` lowers the count by one when
/// `t` is within range, and leaves it alone otherwise.
pub proof fn lemma_cnt_upto_flip_off(p: spec_fn(int) -> bool, q: spec_fn(int) -> bool, t: int, n: int)
    requires
        p(t),
        !q(t),
        forall|c: int| 0 <= c < n && c != t ==> #[trigger] p(c) == q(c),
    ensures
        cnt_upto(q, n) == cnt_upto(p, n) - if 0 <= t < n {
            1int
        } else {
            0int
        },
    decreases n,
{
    if n > 0 {
        lemma_cnt_upto_flip_off(p, q, t, n - 1);
    }
}

/// A cell below `n` satisfying `p` makes the count positive.
pub proof fn lemma_cnt_upto_member(p: spec_fn(int) -> bool, t: int, n: int)
    requires
        0 <= t < n,
        p(t),
    ensures
        cnt_upto(p, n) >= 1,
    decreases n,
{
    if t < n - 1 {
        lemma_cnt_upto_member(p, t, n - 1);
    } else {
        lemma_cnt_upto_bounds(p, n - 1);
    }
}

pub proof fn lemma_adj_cnt_upto_bounds(w: int, h: int, i: int, p: spec_fn(int) -> bool, k: int)
    ensures
        0 <= adj_cnt_upto(w, h, i, p, k),
        k >= 0 ==> adj_cnt_upto(w, h, i, p, k) <= k,
    decreases k,
{
    if k > 0 {
        lemma_adj_cnt_upto_bounds(w, h, i, p, k - 1);
    }
}

pub proof fn lemma_adj_cnt_upto_mono(w: int, h: int, i: int, p: spec_fn(int) -> bool, k1: int, k2: int)
    requires
        k1 <= k2,
    ensures
        adj_cnt_upto(w, h, i, p, k1) <= adj_cnt_upto(w, h, i, p, k2),
    decreases k2,
{
    if k1 < k2 && k2 > 0 {
        lemma_adj_cnt_upto_mono(w, h, i, p, k1, k2 - 1);
        lemma_adj_cnt_upto_bounds(w, h, i, p, k2 - 1);
    }
}

/// A neighbour satisfying `p` makes the neighbour count positive.
pub proof fn lemma_adj_cnt_member(w: int, h: int, i: int, p: spec_fn(int) -> bool, k: int, j: int)
    requires
        0 <= k < 8,
        spec_neighbour(w, h, i, k) == Some(j),
        p(j),
    ensures
        adj_cnt(w, h, i, p) >= 1,
{
    lemma_adj_cnt_upto_bounds(w, h, i, p, k);
    assert(adj_cnt_upto(w, h, i, p, k + 1) >= 1);
    lemma_adj_cnt_upto_mono(w, h, i, p, k + 1, 8);
}

/// Each neighbour of a cell lies in its safe zone, and differs from it.
pub proof fn lemma_neighbour_in_safe_zone(w: int, h: int, i: int, k: int, j: int)
    requires
        w >= 1,
        h >= 1,
        0 <= i < w * h,
        0 <= k < 8,
        spec_neighbour(w, h, i, k) == Some(j),
    ensures
        in_safe_zone(w, h, i, j),
        j != i,
{
    let (dx, dy) = spec_offset(k);
    let x = i % w + dx;
    let y = i / w + dy;
    lemma_fundamental_div_mod(i, w);
    assert(j == y * w + x);
    assert(j == (y * w + x)) by (nonlinear_arith)
        requires j == y * w + x,
    ;
    assert(0 <= j < w * h) by (nonlinear_arith)
        requires j == y * w + x, 0 <= x < w, 0 <= y < h,
    ;
    lemma_fundamental_div_mod_converse(j, w, y, x);
    assert(j % w == x && j / w == y);
    if j == i {
        assert(dx == 0 && dy == 0);
        assert(false);
    }
}

/// Every neighbour slot of every cell either leaves the grid or names a
/// cell on it.
pub proof fn lemma_neighbours_in_range(w: int, h: int, n: int)
    requires
        w >= 1,
        h >= 1,
        n == w * h,
    ensures
        forall|a: int, k: int|
            0 <= a < n && 0 <= k < 8 ==> match #[trigger] spec_neighbour(w, h, a, k) {
                Some(j) => 0 <= j < n && j != a,
                None => true,
            },
{
    assert forall|a: int, k: int| 0 <= a < n && 0 <= k < 8 implies match #[trigger] spec_neighbour(
        w,
        h,
        a,
        k,
    ) {
        Some(j) => 0 <= j < n && j != a,
        None => true,
    } by {
        if let Some(j) = spec_neighbour(w, h, a, k) {
            lemma_neighbour_in_safe_zone(w, h, a, k, j);
        }
    }
}

/// The indicator of `0 <= v < n`.
pub open spec fn ind(v: int, n: int) -> int {
    if 0 <= v < n {
        1
    } else {
        0
    }
}

/// An over-approximate tally of the safe-zone cells below `n`: one
/// indicator for each of the nine places the zone can touch.
pub open spec fn safe_ind_sum(w: int, s: int, n: int) -> int {
    ind(s - w - 1, n) + ind(s - w, n) + ind(s - w + 1, n) + ind(s - 1, n) + ind(s, n) + ind(
        s + 1,
        n,
    ) + ind(s + w - 1, n) + ind(s + w, n) + ind(s + w + 1, n)
}

proof fn lemma_safe_cnt_le_sum(w: int, h: int, s: int, n: int)
    requires
        w >= 1,
        h >= 1,
        0 <= s < w * h,
    ensures
        cnt_upto((|c: int| in_safe_zone(w, h, s, c)), n) <= safe_ind_sum(w, s, n),
    decreases n,
{
    let p = (|c: int| in_safe_zone(w, h, s, c));
    if n <= 0 {
        lemma_cnt_upto_bounds(p, n);
    } else {
        lemma_safe_cnt_le_sum(w, h, s, n - 1);
        let c = n - 1;
        if p(c) {
            let cx = c % w;
            let cy = c / w;
            let sx = s % w;
            let sy = s / w;
            lemma_fundamental_div_mod(c, w);
            lemma_fundamental_div_mod(s, w);
            let dx = cx - sx;
            let dy = cy - sy;
            assert(c == s + w * dy + dx) by (nonlinear_arith)
                requires
                    c == w * cy + cx,
                    s == w * sy + sx,
                    dx == cx - sx,
                    dy == cy - sy,
            ;
            assert(-1 <= dx <= 1 && -1 <= dy <= 1);
            if dy == -1 {
                assert(c == s - w + dx) by (nonlinear_arith)
                    requires c == s + w * dy + dx, dy == -1,
                ;
            } else if dy == 0 {
                assert(c == s + dx) by (nonlinear_arith)
                    requires c == s + w * dy + dx, dy == 0,
                ;
            } else {
                assert(c == s + w + dx) by (nonlinear_arith)
                    requires c == s + w * dy + dx, dy == 1,
                ;
            }
            assert(safe_ind_sum(w, s, n) >= safe_ind_sum(w, s, n - 1) + 1);
        }
    }
}

/// The safe zone holds at most nine cells, wherever it sits on the grid.
pub proof fn lemma_safe_cnt_le_9(w: int, h: int, s: int, n: int)
    requires
        w >= 1,
        h >= 1,
        0 <= s < w * h,
    ensures
        cnt_upto((|c: int| in_safe_zone(w, h, s, c)), n) <= 9,
{
    lemma_safe_cnt_le_sum(w, h, s, n);
}

/// The `k`-th of the eight neighbour offsets.
pub fn offset_pair(k: usize) -> (r: (i32, i32))
    requires
        k < 8,
    ensures
        (r.0 as int, r.1 as int) == spec_offset(k as int),
{
    match k {
        0 => (-1, -1),
        1 => (0, -1),
        2 => (1, -1),
        3 => (-1, 0),
        4 => (1, 0),
        5 => (-1, 1),
        6 => (0, 1),
        _ => (1, 1),
    }
}

/// Looks up the cell one step of `(dx, dy)` away from `index`, rejecting
/// steps that leave the grid on either axis independently, so that a
/// neighbour can never wrap across a row boundary.
pub fn get_index_from_offset(index: usize, dx: i32, dy: i32, width: usize, height: usize) -> (r:
    Option<usize>)
    requires
        width >= 1,
        width * height <= usize::MAX,
        index < width * height,
        -1 <= dx <= 1,
        -1 <= dy <= 1,
    ensures
        r matches Some(j) ==> Some(j as int) == spec_cell_at(
            width as int,
            height as int,
            index as int,
            dx as int,
            dy as int,
        ) && j < width * height,
        r is None ==> spec_cell_at(width as int, height as int, index as int, dx as int, dy as int)
            is None,
{
    let x = index % width;
    let y = index / width;
    proof {
        lemma_fundamental_div_mod(index as int, width as int);
        assert(y < height) by (nonlinear_arith)
            requires
                index as int == width as int * y as int + x as int,
                (index as int) < width as int * height as int,
                (x as int) < width as int,
                width >= 1,
                y as int >= 0,
        ;
    }
    let x_ok = if dx < 0 {
        x >= 1
    } else if dx > 0 {
        x + 1 < width
    } else {
        true
    };
    let y_ok = if dy < 0 {
        y >= 1
    } else if dy > 0 {
        y + 1 < height
    } else {
        true
    };
    if x_ok && y_ok {
        let nx = if dx < 0 {
            x - 1
        } else if dx > 0 {
            x + 1
        } else {
            x
        };
        let ny = if dy < 0 {
            y - 1
        } else if dy > 0 {
            y + 1
        } else {
            y
        };
        proof {
            assert((ny as int * width as int + nx as int) < width as int * height as int)
                by (nonlinear_arith)
                requires
                    (nx as int) < width as int,
                    (ny as int) < height as int,
                    nx >= 0,
                    ny >= 0,
                    width >= 1,
            ;
        }
        Some(ny * width + nx)
    } else {
        None
    }
}

/// The `k`-th neighbour of `index`, if that slot stays on the grid.
pub fn neighbour_of(index: usize, k: usize, width: usize, height: usize) -> (r: Option<usize>)
    requires
        width >= 1,
        width * height <= usize::MAX,
        index < width * height,
        k < 8,
    ensures
        r matches Some(j) ==> Some(j as int) == spec_neighbour(
            width as int,
            height as int,
            index as int,
            k as int,
        ) && j < width * height,
        r is None ==> spec_neighbour(width as int, height as int, index as int, k as int) is None,
{
    let (dx, dy) = offset_pair(k);
    get_index_from_offset(index, dx, dy, width, height)
}

/// Whether `c` lies in the 3-by-3 safe zone centred on `s`.
pub fn cell_in_safe_zone(width: usize, height: usize, s: usize, c: usize) -> (b: bool)
    requires
        width >= 1,
        width * height <= usize::MAX,
        s < width * height,
        c < width * height,
    ensures
        b == in_safe_zone(width as int, height as int, s as int, c as int),
{
    let sx = s % width;
    let sy = s / width;
    let cx = c % width;
    let cy = c / width;
    proof {
        assert(sy as int <= s as int && cy as int <= c as int) by (nonlinear_arith)
            requires
                width >= 1,
                sy as int == s as int / width as int,
                cy as int == c as int / width as int,
                s >= 0,
                c >= 0,
        ;
    }
    cx + 1 >= sx && sx + 1 >= cx && cy + 1 >= sy && sy + 1 >= cy
}

} // verus!
