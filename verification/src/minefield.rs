use vstd::prelude::*;

verus! {

use crate::focus::{FocusModel, InputSnapshot, SelectedItem, Id};
use crate::minesweeper::{Minesweeper, Tile, GameState, SetFlagMode};
use crate::grid::{neighbour_of, spec_neighbour, adjacent, lemma_neighbours_in_range};

/// Per-minefield interaction state: the flag-drag mode, the tile that
/// lost the game, the chording gesture, and the render hint that a dig
/// is about to happen.
pub struct Minefield {
    pub flag_mode: Option<SetFlagMode>,
    pub losing_tile: Option<usize>,
    pub chording: bool,
    pub chorded: bool,
    pub about_to_dig: bool,
    pub id: Id,
}

impl Minefield {
    pub fn new(id: Id) -> (m: Minefield)
        ensures
            m.flag_mode is None,
            m.losing_tile is None,
            !m.chording,
            !m.chorded,
            !m.about_to_dig,
            m.id == id,
    {
        Minefield {
            flag_mode: None,
            losing_tile: None,
            chording: false,
            chorded: false,
            about_to_dig: false,
            id,
        }
    }

    pub fn about_to_dig(&self) -> (r: bool)
        ensures
            r == self.about_to_dig,
    {
        self.about_to_dig
    }

    pub fn id(&self) -> (r: Id)
        ensures
            r == self.id,
    {
        self.id
    }

    /// Forgets the per-game state when a fresh board replaces the old.
    pub fn new_game(&mut self)
        ensures
            final(self).flag_mode is None,
            final(self).losing_tile is None,
            final(self).chording == old(self).chording,
            final(self).chorded == old(self).chorded,
            final(self).about_to_dig == old(self).about_to_dig,
            final(self).id == old(self).id,
    {
        self.flag_mode = None;
        self.losing_tile = None;
    }

    /// Everything one `interact` frame promises, relating the gesture
    /// state, the engine, and the pending-reveal list before and after.
    pub open spec fn spec_interact_post(
        pre: Minefield,
        post: Minefield,
        g0: Minesweeper,
        g1: Minesweeper,
        t0: Seq<usize>,
        t1: Seq<usize>,
        is_active: bool,
        selected_tile: usize,
        input: InputSnapshot,
        r: Option<usize>,
    ) -> bool {
        &&& post.id == pre.id
        &&& post.losing_tile == pre.losing_tile
        &&& g1.width == g0.width
        &&& g1.height == g0.height
        &&& g1.bomb_count == g0.bomb_count
        &&& t1.len() >= t0.len()
        &&& (forall|i: int| 0 <= i < t0.len() ==> #[trigger] t1[i] == t0[i])
        &&& (forall|i: int|
            t0.len() <= i < t1.len() ==> {
                let c = #[trigger] t1[i];
                &&& (c as int) < g0.size()
                &&& g0.board@[c as int] == Tile::Unopened
                &&& (c == selected_tile || adjacent(
                    g0.width as int,
                    g0.height as int,
                    selected_tile as int,
                    c as int,
                ))
            })
        &&& ({
            let fire = pre.chording && (input.left_released || input.middle_released
                || input.right_released);
            let combo = input.middle_down || (input.left_down && input.right_down);
            let any_down = input.left_down || input.middle_down || input.right_down;
            if fire {
                &&& !post.chording
                &&& post.chorded
                &&& post.about_to_dig == pre.about_to_dig
                &&& post.flag_mode == pre.flag_mode
                &&& t1 == t0
                &&& Minesweeper::chord_post(g0, g1, selected_tile as int, r)
            } else {
                let now_chording = is_active && g0.state == GameState::Playing && combo;
                &&& post.chording == now_chording
                &&& post.chorded == (pre.chorded && any_down)
                &&& (now_chording || (pre.chorded && any_down)) ==> {
                    &&& g1 == g0
                    &&& r is None
                    &&& post.flag_mode == pre.flag_mode
                    &&& post.about_to_dig == (pre.about_to_dig || now_chording)
                }
                &&& (!now_chording && pre.chorded && !any_down) ==> {
                    &&& g1 == g0
                    &&& r is None
                    &&& t1 == t0
                    &&& post.flag_mode == pre.flag_mode
                    &&& post.about_to_dig == pre.about_to_dig
                }
                // while the gesture arms, the hovered cell and every
                // still-unopened neighbour are marked pending, and
                // nothing else is
                &&& now_chording ==> {
                    &&& ((selected_tile as int) < g0.size() && g0.board@[selected_tile as int]
                        == Tile::Unopened ==> t1.contains(selected_tile))
                    &&& ((selected_tile as int) < g0.size() ==> forall|k: int|
                        0 <= k < 8 ==> match #[trigger] spec_neighbour(
                            g0.width as int,
                            g0.height as int,
                            selected_tile as int,
                            k,
                        ) {
                            Some(jj) => g0.board@[jj] == Tile::Unopened ==> t1.contains(
                                jj as usize,
                            ),
                            None => true,
                        })
                    &&& ((selected_tile as int) >= g0.size() ==> t1 == t0)
                }
            }
        })
        &&& ({
            let fire = pre.chording && (input.left_released || input.middle_released
                || input.right_released);
            let combo = input.middle_down || (input.left_down && input.right_down);
            let now_chording = is_active && g0.state == GameState::Playing && combo;
            let normal = !fire && !now_chording && !pre.chorded;
            normal ==> {
                &&& t1 == t0
                &&& (is_active && input.left_released ==> {
                    &&& r == Some(selected_tile)
                    &&& post.about_to_dig == pre.about_to_dig
                    &&& post.flag_mode == pre.flag_mode
                    &&& (!g0.spec_diggable(selected_tile as int) ==> g1 == g0)
                    &&& (g0.spec_diggable(selected_tile as int) ==> g1.state
                        != GameState::Prelude && g1.board@[selected_tile as int] is Revealed)
                })
                &&& (!(is_active && input.left_released) ==> {
                    let hinting = is_active && input.left_down && g0.spec_diggable(
                        selected_tile as int,
                    );
                    let cleared = if pre.flag_mode == Some(SetFlagMode::Flag)
                        || !input.right_down {
                        None
                    } else {
                        pre.flag_mode
                    };
                    let decided = if is_active && input.right_pressed {
                        if selected_tile < g0.size() && g0.board@[selected_tile as int]
                            != Tile::Flagged {
                            Some(SetFlagMode::Flag)
                        } else {
                            Some(SetFlagMode::Remove)
                        }
                    } else {
                        cleared
                    };
                    &&& r is None
                    &&& post.about_to_dig == (pre.about_to_dig || hinting)
                    &&& post.flag_mode == decided
                    &&& (decided is None ==> g1 == g0)
                    &&& (decided matches Some(m) ==> {
                        let ok = (selected_tile as int) < g0.size() && (match m {
                            SetFlagMode::Flag => g0.board@[selected_tile as int]
                                == Tile::Unopened,
                            SetFlagMode::Remove => g0.board@[selected_tile as int]
                                == Tile::Flagged,
                        });
                        &&& (!ok ==> g1 == g0)
                        &&& (ok ==> g1.board@ == g0.board@.update(
                            selected_tile as int,
                            match m {
                                SetFlagMode::Flag => Tile::Flagged,
                                SetFlagMode::Remove => Tile::Unopened,
                            },
                        ) && g1.state == g0.state)
                    })
                })
            }
        })
    }

    /// One frame of pointer interaction with the minefield, mirroring
    /// the gesture rules: a chord in progress fires on the first release
    /// of any button and suppresses digs and flags until every button is
    /// up again; otherwise a left release digs, a held left press only
    /// hints, and the right button flags once on its press edge or keeps
    /// sweeping flags away while held. Returns the dug tile, or the mine
    /// a chord hit, for the caller's explosion bookkeeping.
    pub fn interact(
        &mut self,
        is_active: bool,
        selected_tile: usize,
        chorded_tiles: &mut Vec<usize>,
        game: &mut Minesweeper,
        input: &InputSnapshot,
    ) -> (r: Option<usize>)
        requires
            old(game).wf(),
        ensures
            final(game).wf(),
            Self::spec_interact_post(
                *old(self),
                *final(self),
                *old(game),
                *final(game),
                old(chorded_tiles)@,
                final(chorded_tiles)@,
                is_active,
                selected_tile,
                *input,
                r,
            ),
    {
        let any_released = input.left_released || input.middle_released || input.right_released;
        if self.chording && any_released {
            self.chording = false;
            self.chorded = true;
            return game.chord(selected_tile);
        }
        let combo = input.middle_down || (input.left_down && input.right_down);
        self.chording = is_active && game.state == GameState::Playing && combo;
        if self.chording {
            self.about_to_dig = true;
            if selected_tile < game.board.len() {
                proof {
                    lemma_neighbours_in_range(
                        game.width as int,
                        game.height as int,
                        game.size(),
                    );
                }
                if game.board[selected_tile] == Tile::Unopened {
                    chorded_tiles.push(selected_tile);
                    proof {
                        assert(chorded_tiles@.last() == selected_tile);
                        assert(chorded_tiles@.contains(selected_tile));
                    }
                }
                let mut k: usize = 0;
                while k < 8
                    invariant
                        k <= 8,
                        game.wf(),
                        (selected_tile as int) < game.size(),
                        chorded_tiles@.len() >= old(chorded_tiles)@.len(),
                        chorded_tiles@.subrange(0, old(chorded_tiles)@.len() as int) == old(
                            chorded_tiles,
                        )@,
                        game.board@[selected_tile as int] == Tile::Unopened
                            ==> chorded_tiles@.contains(selected_tile),
                        forall|kk: int|
                            0 <= kk < k ==> match #[trigger] spec_neighbour(
                                game.width as int,
                                game.height as int,
                                selected_tile as int,
                                kk,
                            ) {
                                Some(jj) => game.board@[jj] == Tile::Unopened
                                    ==> chorded_tiles@.contains(jj as usize),
                                None => true,
                            },
                        forall|i: int|
                            old(chorded_tiles)@.len() <= i < chorded_tiles@.len() ==> {
                                let c = #[trigger] chorded_tiles@[i];
                                &&& (c as int) < game.size()
                                &&& game.board@[c as int] == Tile::Unopened
                                &&& (c == selected_tile || adjacent(
                                    game.width as int,
                                    game.height as int,
                                    selected_tile as int,
                                    c as int,
                                ))
                            },
                    decreases 8 - k,
                {
                    let ghost pre = chorded_tiles@;
                    match neighbour_of(selected_tile, k, game.width, game.height) {
                        Some(j) => {
                            if game.board[j] == Tile::Unopened {
                                chorded_tiles.push(j);
                                proof {
                                    assert(adjacent(
                                        game.width as int,
                                        game.height as int,
                                        selected_tile as int,
                                        j as int,
                                    )) by {
                                        assert(0 <= k < 8 && spec_neighbour(
                                            game.width as int,
                                            game.height as int,
                                            selected_tile as int,
                                            k as int,
                                        ) == Some(j as int));
                                    }
                                    assert(chorded_tiles@.subrange(
                                        0,
                                        old(chorded_tiles)@.len() as int,
                                    ) =~= pre.subrange(0, old(chorded_tiles)@.len() as int));
                                    assert(chorded_tiles@.last() == j);
                                    // what was pending stays pending under a push
                                    assert forall|c: usize| pre.contains(c) implies chorded_tiles@.contains(c) by {
                                        let ci = choose|ci: int| 0 <= ci < pre.len() && pre[ci] == c;
                                        assert(chorded_tiles@[ci] == c);
                                    }
                                }
                            }
                        },
                        None => {},
                    }
                    k += 1;
                }
            }
        }
        if self.chorded && !input.left_down && !input.middle_down && !input.right_down {
            self.chorded = false;
            return None;
        }
        if self.chording || self.chorded {
            return None;
        }
        if is_active && input.left_released {
            game.dig(selected_tile);
            return Some(selected_tile);
        }
        if is_active && input.left_down && game.diggable(selected_tile) {
            self.about_to_dig = true;
        }
        let flagging = match self.flag_mode {
            Some(SetFlagMode::Flag) => true,
            _ => false,
        };
        if flagging || !input.right_down {
            self.flag_mode = None;
        }
        if is_active && input.right_pressed {
            let plant = selected_tile < game.board.len() && game.board[selected_tile]
                != Tile::Flagged;
            self.flag_mode = if plant {
                Some(SetFlagMode::Flag)
            } else {
                Some(SetFlagMode::Remove)
            };
        }
        match self.flag_mode {
            Some(fm) => {
                game.set_flag(fm, selected_tile);
            },
            None => {},
        }
        None
    }

    /// `interact`'s relation as `update` sees it: the hint flag starts
    /// the frame cleared, and the losing tile is recorded afterwards,
    /// so it is compared against its pre-frame value here.
    pub open spec fn spec_update_step(
        pre: Minefield,
        post: Minefield,
        g0: Minesweeper,
        g1: Minesweeper,
        t0: Seq<usize>,
        t1: Seq<usize>,
        is_active: bool,
        hovered_tile: usize,
        input: InputSnapshot,
        bomb_index: Option<usize>,
    ) -> bool {
        Self::spec_interact_post(
            (Minefield { about_to_dig: false, ..pre }),
            (Minefield { losing_tile: pre.losing_tile, ..post }),
            g0,
            g1,
            t0,
            t1,
            is_active,
            hovered_tile,
            input,
            bomb_index,
        )
    }

    /// The whole frame relation of `update`: the hover claim, the
    /// capture claim gated on any button being down, the occluded
    /// no-op, the interaction step witnessed by the bomb index it
    /// reported, and the capture lapsing once every button is up.
    pub open spec fn spec_update_frame(
        pre: Minefield,
        post: Minefield,
        g0: Minesweeper,
        g1: Minesweeper,
        t0: Seq<usize>,
        t1: Seq<usize>,
        f0: FocusModel,
        f1: FocusModel,
        hovered: bool,
        hovered_tile: usize,
        input: InputSnapshot,
        explosion: Option<usize>,
        bomb_index: Option<usize>,
    ) -> bool {
        let id = pre.id;
        let any_down = input.left_down || input.middle_down || input.right_down;
        let claimed = FocusModel::spec_claim(f0.hot_item, id, hovered);
        let active_mid = if claimed.1 {
            FocusModel::spec_claim(f0.active_item, id, any_down).0
        } else {
            f0.active_item
        };
        let is_active = active_mid == SelectedItem::Item(id);
        &&& f1.hot_item == claimed.0
        &&& f1.active_item == (if !any_down && active_mid == SelectedItem::Item(id) {
            SelectedItem::Unclaimed
        } else {
            active_mid
        })
        &&& (!claimed.1 ==> {
            &&& g1 == g0
            &&& post == (Minefield { about_to_dig: false, ..pre })
            &&& t1 == t0
            &&& explosion is None
        })
        &&& (claimed.1 ==> {
            &&& Self::spec_update_step(
                pre,
                post,
                g0,
                g1,
                t0,
                t1,
                is_active,
                hovered_tile,
                input,
                bomb_index,
            )
            &&& (g0.state == GameState::Playing && g1.state == GameState::Lose ==> explosion
                == Some(
                match bomb_index {
                    Some(b) => b,
                    None => hovered_tile,
                },
            ))
        })
    }

    /// One whole frame of the minefield surface: claim hover when the
    /// pointer is over it, claim capture on any button going down while
    /// hot, run the interaction, and if this very frame turned a live
    /// game into a lost one, record the losing tile — the mine the
    /// interaction reported, or the hovered cell when a chord left it
    /// ambiguous — and return it so the explosion can start there. When
    /// a surface in front already claimed hover, the minefield touches
    /// nothing. The capture ends once every button is up.
    #[verifier::rlimit(60)]
    #[verifier::spinoff_prover]
    pub fn update(
        &mut self,
        hovered: bool,
        hovered_tile: usize,
        chorded_tiles: &mut Vec<usize>,
        game: &mut Minesweeper,
        focus: &mut FocusModel,
        input: &InputSnapshot,
    ) -> (r: (Option<usize>, Ghost<Option<usize>>))
        requires
            old(game).wf(),
        ensures
            final(game).wf(),
            Self::spec_update_frame(
                *old(self),
                *final(self),
                *old(game),
                *final(game),
                old(chorded_tiles)@,
                final(chorded_tiles)@,
                *old(focus),
                *final(focus),
                hovered,
                hovered_tile,
                *input,
                r.0,
                r.1@,
            ),
            r.0 matches Some(o) ==> {
                &&& old(game).state == GameState::Playing
                &&& final(game).state == GameState::Lose
                &&& final(self).losing_tile == Some(o)
            },
            (old(game).state == GameState::Playing && final(game).state == GameState::Lose)
                ==> r.0 is Some,
            !(old(game).state == GameState::Playing && final(game).state == GameState::Lose)
                ==> final(self).losing_tile == old(self).losing_tile && r.0 is None,
            (old(game).state == GameState::Win || old(game).state == GameState::Lose)
                ==> final(game).state == old(game).state,
    {
        self.about_to_dig = false;
        let mut explosion: Option<usize> = None;
        let ghost mut bi_w: Option<usize> = None;
        let was_hot = focus.claim_hot(self.id, hovered);
        if was_hot {
            let any_down = input.any_down();
            focus.claim_active(self.id, any_down);
            let is_active = focus.active_item.is_item(self.id);
            let prev_playing = game.state == GameState::Playing;
            let bomb_index = self.interact(is_active, hovered_tile, chorded_tiles, game, input);
            proof {
                bi_w = bomb_index;
            }
            if prev_playing && game.state == GameState::Lose {
                let origin = match bomb_index {
                    Some(b) => b,
                    None => hovered_tile,
                };
                self.losing_tile = Some(origin);
                explosion = Some(origin);
            }
        }
        // the capture ends once every button is up
        if !input.any_down() {
            focus.release_active(self.id);
        }
        proof {
            let id = old(self).id;
            let any_down_s = input.left_down || input.middle_down || input.right_down;
            let claimed_g = FocusModel::spec_claim(old(focus).hot_item, id, hovered);
            let am = if claimed_g.1 {
                FocusModel::spec_claim(old(focus).active_item, id, any_down_s).0
            } else {
                old(focus).active_item
            };
            let isa = (am == SelectedItem::Item(id));
            if was_hot {
                assert(Self::spec_update_step(
                    *old(self),
                    *self,
                    *old(game),
                    *game,
                    old(chorded_tiles)@,
                    chorded_tiles@,
                    isa,
                    hovered_tile,
                    *input,
                    bi_w,
                ));
            }
            assert(Self::spec_update_frame(
                *old(self),
                *self,
                *old(game),
                *game,
                old(chorded_tiles)@,
                chorded_tiles@,
                *old(focus),
                *focus,
                hovered,
                hovered_tile,
                *input,
                explosion,
                bi_w,
            ));
        }
        (explosion, Ghost(bi_w))
    }
}

/// The pixel position of a tile inside the minefield texture: column
/// times tile size across, row times tile size down.
pub fn tile_pos(index: usize, tile: i32, width: usize) -> (r: (i32, i32))
    requires
        tile >= 1,
        width >= 1,
        index <= 100000,
        tile <= 100000,
        tile * index <= 0x7fffffff,
    ensures
        r.0 == tile * ((index as int) % (width as int)),
        r.1 == tile * ((index as int) / (width as int)),
{
    let x = index % width;
    let y = index / width;
    proof {
        assert(x <= index && y <= index) by (nonlinear_arith)
            requires
                width >= 1,
                x as int == (index as int) % (width as int),
                y as int == (index as int) / (width as int),
                index >= 0,
        ;
        assert((tile as int) * (x as int) <= tile as int * index as int && (tile as int) * (
        y as int) <= tile as int * index as int && (tile as int) * (x as int) >= 0 && (
        tile as int) * (y as int) >= 0) by (nonlinear_arith)
            requires
                0 <= (x as int) <= index as int,
                0 <= (y as int) <= index as int,
                1 <= (tile as int),
        ;
    }
    ((tile as i64 * x as i64) as i32, (tile as i64 * y as i64) as i32)
}

/// Which cell of a `width`-by-`height` grid of `tile`-sized squares,
/// drawn with its top-left corner at `(rx, ry)`, the pointer is over.
pub open spec fn spec_hovered_cell(
    mx: int,
    my: int,
    rx: int,
    ry: int,
    tile: int,
    width: int,
    height: int,
) -> Option<int> {
    let dx = mx - rx;
    let dy = my - ry;
    if 0 <= dx < width * tile && 0 <= dy < height * tile {
        Some((dy / tile) * width + dx / tile)
    } else {
        None
    }
}

/// Maps the pointer to the minefield cell under it, or `None` when the
/// pointer is outside the grid's rectangle.
pub fn hovered_cell(
    mx: i32,
    my: i32,
    rx: i32,
    ry: i32,
    tile: i32,
    width: usize,
    height: usize,
) -> (r: Option<usize>)
    requires
        tile >= 1,
        width >= 1,
        height >= 1,
        width * tile <= 100000,
        height * tile <= 100000,
        width * height <= usize::MAX,
        -100000 <= mx <= 100000,
        -100000 <= my <= 100000,
        -100000 <= rx <= 100000,
        -100000 <= ry <= 100000,
    ensures
        r matches Some(c) ==> Some(c as int) == spec_hovered_cell(
            mx as int,
            my as int,
            rx as int,
            ry as int,
            tile as int,
            width as int,
            height as int,
        ) && (c as int) < width * height,
        r is None ==> spec_hovered_cell(
            mx as int,
            my as int,
            rx as int,
            ry as int,
            tile as int,
            width as int,
            height as int,
        ) is None,
{
    let dx = mx - rx;
    let dy = my - ry;
    proof {
        assert(width as int <= 100000 && height as int <= 100000 && width as int * tile as int
            <= 100000 && height as int * tile as int <= 100000) by (nonlinear_arith)
            requires
                width * tile <= 100000,
                height * tile <= 100000,
                width >= 1,
                height >= 1,
                tile >= 1,
        ;
    }
    let wpx = (width as i32) * tile;
    let hpx = (height as i32) * tile;
    if 0 <= dx && dx < wpx && 0 <= dy && dy < hpx {
        let cx = dx / tile;
        let cy = dy / tile;
        proof {
            assert((dx as int) / (tile as int) < width as int && (dy as int) / (tile as int)
                < height as int && (dx as int) / (tile as int) >= 0 && (dy as int) / (tile as int)
                >= 0) by (nonlinear_arith)
                requires
                    0 <= (dx as int) < width as int * tile as int,
                    0 <= (dy as int) < height as int * tile as int,
                    tile >= 1,
                    width >= 1,
                    height >= 1,
            ;
            assert(((dy as int / tile as int) * width as int + dx as int / tile as int) < (
            width as int * height as int)) by (nonlinear_arith)
                requires
                    0 <= (dy as int) / (tile as int) < height as int,
                    0 <= (dx as int) / (tile as int) < width as int,
                    width >= 1,
            ;
        }
        Some((cy as usize) * width + cx as usize)
    } else {
        None
    }
}

} // verus!
