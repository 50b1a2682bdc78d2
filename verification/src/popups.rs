use vstd::prelude::*;

verus! {

use crate::focus::{FocusModel, InputSnapshot, SelectedItem, ButtonState, Id};
use crate::minesweeper::Difficulty;

/// What a popup is for; `NewGame` carries the difficulty it offers.
#[derive(Clone, Copy, PartialEq, Eq, Structural, Debug)]
pub enum PopupKind {
    NewGame { difficulty: Difficulty },
    Custom,
    About,
    Win,
    Exit,
}

/// A value a popup hands back to the game when one of its controls
/// fires.
#[derive(Clone, Copy, PartialEq, Eq, Structural, Debug)]
pub enum PopupReturn {
    NewGame { difficulty: Difficulty },
}

/// What a popup asks of the stack after its frame: nothing, being
/// raised to the front, or being closed.
#[derive(Clone, Copy, PartialEq, Eq, Structural, Debug)]
pub enum PopupAction {
    Stay,
    Front,
    Close,
}

/// The stack with every popup of `kind`'s variant discarded, the
/// others kept in order.
pub open spec fn spec_discard_kind(s: Seq<Popup>, kind: PopupKind) -> Seq<Popup>
    decreases s.len(),
{
    if s.len() == 0 {
        Seq::empty()
    } else {
        let rest = spec_discard_kind(s.drop_last(), kind);
        if same_popup_kind(s.last().kind, kind) {
            rest
        } else {
            rest.push(s.last())
        }
    }
}

/// Two kinds are the same popup for the stack's purposes when their
/// variants match, whatever a `NewGame` carries.
pub open spec fn same_popup_kind(a: PopupKind, b: PopupKind) -> bool {
    match (a, b) {
        (PopupKind::NewGame { .. }, PopupKind::NewGame { .. }) => true,
        (PopupKind::Custom, PopupKind::Custom) => true,
        (PopupKind::About, PopupKind::About) => true,
        (PopupKind::Win, PopupKind::Win) => true,
        (PopupKind::Exit, PopupKind::Exit) => true,
        _ => false,
    }
}

fn kinds_match(a: &PopupKind, b: &PopupKind) -> (r: bool)
    ensures
        r == same_popup_kind(*a, *b),
{
    match (a, b) {
        (PopupKind::NewGame { .. }, PopupKind::NewGame { .. }) => true,
        (PopupKind::Custom, PopupKind::Custom) => true,
        (PopupKind::About, PopupKind::About) => true,
        (PopupKind::Win, PopupKind::Win) => true,
        (PopupKind::Exit, PopupKind::Exit) => true,
        _ => false,
    }
}

/// Coordinates the popup geometry works in: well inside `i32`, so sums
/// and differences of a handful of them always fit.
pub open spec fn coord_ok(v: int) -> bool {
    -100000 <= v <= 100000
}

/// A popup position: it can wander one drag off screen before the next
/// frame clamps it back.
pub open spec fn pos_ok(v: int) -> bool {
    -300000 <= v <= 300000
}

/// A drag offset: pointer minus a clamped position.
pub open spec fn off_ok(v: int) -> bool {
    -200000 <= v <= 200000
}

/// A draggable overlay window: position, size, a payload variant, and
/// the identity its widgets derive from.
pub struct Popup {
    pub pos_x: i32,
    pub pos_y: i32,
    pub size_w: i32,
    pub size_h: i32,
    pub kind: PopupKind,
    pub id: Id,
}

impl Popup {
    /// The fixed size of each popup variant.
    pub open spec fn spec_size_of(kind: PopupKind) -> (int, int) {
        match kind {
            PopupKind::NewGame { .. } => (90, 40),
            PopupKind::Custom => (78, 58),
            PopupKind::About => (100, 80),
            PopupKind::Win => (70, 40),
            PopupKind::Exit => (70, 40),
        }
    }

    /// Builds a popup of the given kind centred on the screen, under a
    /// caller-supplied identity (popups are created at runtime, so their
    /// identity carries a creation-time salt).
    pub fn new(kind: PopupKind, screen_w: i32, screen_h: i32, id: Id) -> (p: Popup)
        requires
            0 <= screen_w <= 100000,
            0 <= screen_h <= 100000,
        ensures
            p.kind == kind,
            p.id == id,
            (p.size_w as int, p.size_h as int) == Self::spec_size_of(kind),
            p.pos_x as int == (if screen_w - p.size_w >= 0 {
                (screen_w - p.size_w) / 2
            } else {
                0int
            }),
            p.pos_y as int == (if screen_h - p.size_h >= 0 {
                (screen_h - p.size_h) / 2
            } else {
                0int
            }),
            coord_ok(p.pos_x as int) && coord_ok(p.pos_y as int),
    {
        let (w, h): (i32, i32) = match kind {
            PopupKind::NewGame { .. } => (90, 40),
            PopupKind::Custom => (78, 58),
            PopupKind::About => (100, 80),
            PopupKind::Win => (70, 40),
            PopupKind::Exit => (70, 40),
        };
        let dx = screen_w - w;
        let dy = screen_h - h;
        Popup {
            pos_x: if dx >= 0 {
                dx / 2
            } else {
                0
            },
            pos_y: if dy >= 0 {
                dy / 2
            } else {
                0
            },
            size_w: w,
            size_h: h,
            kind,
            id,
        }
    }

    /// The close button in the titlebar corner, run through the focus
    /// protocol under the popup's identity plus one.
    fn close_button(
        id: Id,
        tb_x: i32,
        tb_y: i32,
        tb_w: i32,
        focus: &mut FocusModel,
        input: &InputSnapshot,
    ) -> (r: bool)
        requires
            coord_ok(tb_x as int),
            coord_ok(tb_y as int),
            0 <= tb_w <= 100000,
        ensures
            ({
                let hovered = tb_x + tb_w - 8 <= input.mouse_x < tb_x + tb_w - 1 && tb_y + 1
                    <= input.mouse_y < tb_y + 8;
                let step = FocusModel::spec_button_state(*old(focus), id, hovered, *input);
                *final(focus) == step.0 && r == (step.1 == ButtonState::Released)
            }),
    {
        let bx = tb_x + tb_w - 8;
        let by = tb_y + 1;
        let hovered = input.mouse_in_rect(bx, by, 7, 7);
        let bs = focus.button_state(id, hovered, input);
        bs == ButtonState::Released
    }

    /// One frame of a popup: clamp it onto the screen below the menubar,
    /// run its close button, let its body claim hover and a left press
    /// claim the drag, follow the pointer while dragging, and report
    /// whether the stack should close or raise it. A popup detects "I
    /// was just clicked" — and so asks to be raised — by capture being
    /// free before its frame and taken by it afterwards. `content_close`
    /// and `content_activated` carry the outcome of the popup's own
    /// inner controls, which the caller lays out.
    pub fn update(
        &mut self,
        drag_offset: &mut (i32, i32),
        focus: &mut FocusModel,
        input: &InputSnapshot,
        screen_w: i32,
        screen_h: i32,
        menubar_height: i32,
        titlebar_height: i32,
        content_close: bool,
        content_activated: bool,
    ) -> (r: (PopupAction, Option<PopupReturn>))
        requires
            pos_ok(old(self).pos_x as int),
            pos_ok(old(self).pos_y as int),
            0 <= old(self).size_w <= 100000,
            0 <= old(self).size_h <= 100000,
            0 <= screen_w <= 100000,
            0 <= screen_h <= 100000,
            0 <= menubar_height <= 100000,
            0 <= titlebar_height <= 100000,
            coord_ok(input.mouse_x as int),
            coord_ok(input.mouse_y as int),
            off_ok(old(drag_offset).0 as int),
            off_ok(old(drag_offset).1 as int),
        ensures
            Self::spec_update_post(
                *old(self),
                *final(self),
                *old(drag_offset),
                *final(drag_offset),
                *old(focus),
                *final(focus),
                *input,
                screen_w as int,
                screen_h as int,
                menubar_height as int,
                content_close,
                content_activated,
                r.0,
                r.1,
            ),
            pos_ok(final(self).pos_x as int),
            pos_ok(final(self).pos_y as int),
            off_ok(final(drag_offset).0 as int),
            off_ok(final(drag_offset).1 as int),
    {
        // keep the popup on screen and below the menubar
        let mut px = self.pos_x;
        let mut py = self.pos_y;
        if px > screen_w - self.size_w {
            px = screen_w - self.size_w;
        }
        if px < 0 {
            px = 0;
        }
        if py > screen_h - self.size_h {
            py = screen_h - self.size_h;
        }
        if py < menubar_height {
            py = menubar_height;
        }
        self.pos_x = px;
        self.pos_y = py;

        let id = self.id;
        let active_before = focus.active_item.is_unclaimed();
        let mut close = Popup::close_button(
            id.wrapping_add(1),
            self.pos_x,
            self.pos_y,
            self.size_w,
            focus,
            input,
        );
        if content_close {
            close = true;
        }
        let mut return_value: Option<PopupReturn> = None;
        match self.kind {
            PopupKind::NewGame { difficulty } => {
                if content_activated {
                    close = true;
                    return_value = Some(PopupReturn::NewGame { difficulty });
                }
            },
            _ => {},
        }

        // dragging: the whole popup surface is a capture handle, and the
        // offset is measured once, at the instant the capture is taken
        let hovered = input.mouse_in_rect(self.pos_x, self.pos_y, self.size_w, self.size_h);
        if focus.claim_hot(id, hovered) {
            let was_active = focus.active_item.is_item(id);
            if focus.claim_active(id, input.left_down) {
                if !was_active {
                    *drag_offset = (input.mouse_x - self.pos_x, input.mouse_y - self.pos_y);
                }
            }
        }
        if focus.active_item.is_item(id) {
            focus.block_hot();
            self.pos_x = input.mouse_x - drag_offset.0;
            self.pos_y = input.mouse_y - drag_offset.1;
        }
        // the capture ends with the originating button
        if !input.left_down {
            focus.release_active(id);
        }

        let action = if close {
            PopupAction::Close
        } else if active_before && focus.active_item.is_item(id) {
            PopupAction::Front
        } else {
            PopupAction::Stay
        };
        (action, return_value)
    }

    /// The whole relation one frame of `update` leaves behind: the
    /// clamped position, the close button's step of the focus protocol,
    /// the hover and capture claims, the drag offset measured at the
    /// instant capture is taken, the pointer-following while captured,
    /// the release of capture when the left button is up, and the
    /// resulting action and return value.
    pub open spec fn spec_update_post(
        pre: Popup,
        post: Popup,
        off_pre: (i32, i32),
        off_post: (i32, i32),
        f_pre: FocusModel,
        f_post: FocusModel,
        input: InputSnapshot,
        screen_w: int,
        screen_h: int,
        menubar_h: int,
        content_close: bool,
        content_activated: bool,
        action: PopupAction,
        ret: Option<PopupReturn>,
    ) -> bool {
        let cx = Self::spec_clamp(pre.pos_x as int, pre.size_w as int, screen_w, 0);
        let cy = Self::spec_clamp(pre.pos_y as int, pre.size_h as int, screen_h, menubar_h);
        let btn_hovered = cx + pre.size_w - 8 <= input.mouse_x < cx + pre.size_w - 1 && cy + 1
            <= input.mouse_y < cy + 8;
        let btn = FocusModel::spec_button_state(f_pre, pre.id.wrapping_add(1), btn_hovered, input);
        let f1 = btn.0;
        let close = (btn.1 == ButtonState::Released) || content_close || (content_activated
            && pre.kind is NewGame);
        let hovered = cx <= input.mouse_x < cx + pre.size_w && cy <= input.mouse_y < cy
            + pre.size_h;
        let claim = FocusModel::spec_claim(f1.hot_item, pre.id, hovered);
        let was_active = f1.active_item == SelectedItem::Item(pre.id);
        let acl = FocusModel::spec_claim(f1.active_item, pre.id, input.left_down);
        let active2 = if claim.1 {
            acl.0
        } else {
            f1.active_item
        };
        let captured_now = claim.1 && acl.1 && !was_active;
        let dragging = active2 == SelectedItem::Item(pre.id);
        &&& post.kind == pre.kind
        &&& post.id == pre.id
        &&& post.size_w == pre.size_w
        &&& post.size_h == pre.size_h
        &&& off_post.0 as int == (if captured_now {
            input.mouse_x - cx
        } else {
            off_pre.0 as int
        })
        &&& off_post.1 as int == (if captured_now {
            input.mouse_y - cy
        } else {
            off_pre.1 as int
        })
        &&& post.pos_x as int == (if dragging {
            input.mouse_x - off_post.0
        } else {
            cx
        })
        &&& post.pos_y as int == (if dragging {
            input.mouse_y - off_post.1
        } else {
            cy
        })
        &&& f_post.hot_item == (if dragging {
            SelectedItem::Unavailable
        } else {
            claim.0
        })
        &&& f_post.active_item == (if !input.left_down && active2 == SelectedItem::Item(pre.id) {
            SelectedItem::Unclaimed
        } else {
            active2
        })
        &&& (match pre.kind {
            PopupKind::NewGame { difficulty } => ret == (if content_activated {
                Some(PopupReturn::NewGame { difficulty })
            } else {
                None::<PopupReturn>
            }),
            _ => ret is None,
        })
        &&& action == (if close {
            PopupAction::Close
        } else if f_pre.active_item == SelectedItem::Unclaimed && f_post.active_item
            == SelectedItem::Item(pre.id) {
            PopupAction::Front
        } else {
            PopupAction::Stay
        })
    }

    /// Clamping one axis: never past the far edge, never before `low`.
    pub open spec fn spec_clamp(pos: int, size: int, screen: int, low: int) -> int {
        let a = if pos > screen - size {
            screen - size
        } else {
            pos
        };
        if a < low {
            low
        } else {
            a
        }
    }
}

/// The latest index whose action equals `want`, mirroring a loop that
/// overwrites its pick on every match.
pub open spec fn spec_last_action(actions: Seq<PopupAction>, want: PopupAction) -> Option<int>
    decreases actions.len(),
{
    if actions.len() == 0 {
        None
    } else if actions.last() == want {
        Some(actions.len() - 1)
    } else {
        spec_last_action(actions.drop_last(), want)
    }
}

proof fn lemma_last_action_bounds(actions: Seq<PopupAction>, want: PopupAction)
    ensures
        match spec_last_action(actions, want) {
            Some(j) => 0 <= j < actions.len() && actions[j] == want,
            None => true,
        },
    decreases actions.len(),
{
    if actions.len() > 0 && actions.last() != want {
        lemma_last_action_bounds(actions.drop_last(), want);
    }
}

/// The values present in a sequence of optional returns, in order.
pub open spec fn spec_somes(rets: Seq<Option<PopupReturn>>) -> Seq<PopupReturn>
    decreases rets.len(),
{
    if rets.len() == 0 {
        Seq::empty()
    } else {
        let rest = spec_somes(rets.drop_last());
        match rets.last() {
            Some(v) => rest.push(v),
            None => rest,
        }
    }
}

/// A record of one frame of the stack: the popups as their updates left
/// them (in visit order, front first), each one's action and return,
/// and the focus and drag-offset values threaded between the steps.
pub struct PopupsTrace {
    pub stepped: Seq<Popup>,
    pub actions: Seq<PopupAction>,
    pub rets: Seq<Option<PopupReturn>>,
    pub focus_chain: Seq<FocusModel>,
    pub off_chain: Seq<(i32, i32)>,
}

/// What one frame of `Popups::update` did, witnessed by a trace: each
/// popup stepped exactly once by `Popup::spec_update_post`, front to
/// back (stack index `n-1-j` at step `j`), the shared focus and drag
/// offset passed from step to step; then the latest Close request
/// honoured by removal, else the latest Front request by raising; the
/// outcome collecting every returned value in visit order.
pub open spec fn spec_update_trace(
    pre: Popups,
    post: Popups,
    f_pre: FocusModel,
    f_post: FocusModel,
    input: InputSnapshot,
    screen_w: int,
    screen_h: int,
    menubar_h: int,
    content: Seq<(bool, bool)>,
    outcome: Seq<PopupReturn>,
    g: PopupsTrace,
) -> bool {
    let n = pre.popups@.len() as int;
    &&& g.stepped.len() == n
    &&& g.actions.len() == n
    &&& g.rets.len() == n
    &&& g.focus_chain.len() == n + 1
    &&& g.off_chain.len() == n + 1
    &&& g.focus_chain[0] == f_pre
    &&& g.focus_chain[n] == f_post
    &&& g.off_chain[0] == pre.popup_drag_offset
    &&& g.off_chain[n] == post.popup_drag_offset
    &&& (forall|j: int|
        0 <= j < n ==> Popup::spec_update_post(
            pre.popups@[n - 1 - j],
            #[trigger] g.stepped[j],
            g.off_chain[j],
            g.off_chain[j + 1],
            g.focus_chain[j],
            g.focus_chain[j + 1],
            input,
            screen_w,
            screen_h,
            menubar_h,
            content[n - 1 - j].0,
            content[n - 1 - j].1,
            g.actions[j],
            g.rets[j],
        ))
    &&& ({
        let by_idx = Seq::new(n as nat, |k: int| g.stepped[n - 1 - k]);
        post.popups@ == match spec_last_action(g.actions, PopupAction::Close) {
            Some(jc) => by_idx.remove(n - 1 - jc),
            None => match spec_last_action(g.actions, PopupAction::Front) {
                Some(jf) => by_idx.remove(n - 1 - jf).push(by_idx[n - 1 - jf]),
                None => by_idx,
            },
        }
    })
    &&& outcome == spec_somes(g.rets)
}

/// The z-ordered stack of open popups, stored back-to-front: the last
/// element is the frontmost surface. One shared drag offset serves
/// whichever popup is being dragged, since only one can hold capture.
pub struct Popups {
    pub popups: Vec<Popup>,
    pub popup_drag_offset: (i32, i32),
}

impl Popups {
    pub fn new() -> (p: Popups)
        ensures
            p.popups@.len() == 0,
            p.popup_drag_offset == (0i32, 0i32),
    {
        Popups { popups: Vec::new(), popup_drag_offset: (0, 0) }
    }

    /// Opens a popup of the given kind, first discarding any popup of
    /// the same kind so each kind is open at most once; the newcomer
    /// lands at the front of the stack.
    pub fn add(&mut self, kind: PopupKind, screen_w: i32, screen_h: i32, id: Id)
        requires
            0 <= screen_w <= 100000,
            0 <= screen_h <= 100000,
        ensures
            ({
                let p = final(self).popups@.last();
                &&& final(self).popups@ == spec_discard_kind(old(self).popups@, kind).push(p)
                &&& p.kind == kind
                &&& p.id == id
                &&& (p.size_w as int, p.size_h as int) == Popup::spec_size_of(kind)
                &&& p.pos_x as int == (if screen_w - p.size_w >= 0 {
                    (screen_w - p.size_w) / 2
                } else {
                    0int
                })
                &&& p.pos_y as int == (if screen_h - p.size_h >= 0 {
                    (screen_h - p.size_h) / 2
                } else {
                    0int
                })
            }),
            final(self).popup_drag_offset == old(self).popup_drag_offset,
    {
        let mut kept: Vec<Popup> = Vec::new();
        let n = self.popups.len();
        let mut i: usize = 0;
        while i < n
            invariant
                i <= n,
                n == self.popups@.len(),
                self.popups@ == old(self).popups@,
                self.popup_drag_offset == old(self).popup_drag_offset,
                kept@ == spec_discard_kind(self.popups@.subrange(0, i as int), kind),
            decreases n - i,
        {
            let ghost pre_slice = self.popups@.subrange(0, i as int);
            let keep = !kinds_match(&self.popups[i].kind, &kind);
            if keep {
                let p = Popup {
                    pos_x: self.popups[i].pos_x,
                    pos_y: self.popups[i].pos_y,
                    size_w: self.popups[i].size_w,
                    size_h: self.popups[i].size_h,
                    kind: self.popups[i].kind,
                    id: self.popups[i].id,
                };
                proof {
                    assert(p == self.popups@[i as int]);
                }
                kept.push(p);
            }
            proof {
                let next_slice = self.popups@.subrange(0, i + 1);
                assert(next_slice.drop_last() =~= pre_slice);
                assert(next_slice.last() == self.popups@[i as int]);
            }
            i += 1;
        }
        proof {
            assert(self.popups@.subrange(0, n as int) =~= self.popups@);
        }
        kept.push(Popup::new(kind, screen_w, screen_h, id));
        self.popups = kept;
    }

    /// Whether every popup's geometry and the shared drag offset are in
    /// screen range; `update` keeps this.
    pub open spec fn stack_ok(self) -> bool {
        &&& (forall|i: int|
            0 <= i < self.popups@.len() ==> {
                let p = #[trigger] self.popups@[i];
                &&& pos_ok(p.pos_x as int)
                &&& pos_ok(p.pos_y as int)
                &&& 0 <= p.size_w <= 100000
                &&& 0 <= p.size_h <= 100000
            })
        &&& off_ok(self.popup_drag_offset.0 as int)
        &&& off_ok(self.popup_drag_offset.1 as int)
    }

    /// One frame of the whole stack, visited front-to-back — the
    /// reverse of storage order — so the frontmost popup's widgets
    /// resolve hover and capture before anything beneath them: the
    /// occlusion rule applied to whole surfaces. Afterwards the latest
    /// Close request is honoured by removal, else the latest Front
    /// request by raising. `content` carries each popup's inner-control
    /// outcome, index-aligned with the stack. The trace existential
    /// pins every step: what each popup became, in which order the
    /// focus and the drag offset were threaded through them, which
    /// popup left or rose, and which values came back.
    pub fn update(
        &mut self,
        content: &Vec<(bool, bool)>,
        focus: &mut FocusModel,
        input: &InputSnapshot,
        screen_w: i32,
        screen_h: i32,
        menubar_height: i32,
        titlebar_height: i32,
    ) -> (outcome: Vec<PopupReturn>)
        requires
            old(self).stack_ok(),
            content@.len() == old(self).popups@.len(),
            0 <= screen_w <= 100000,
            0 <= screen_h <= 100000,
            0 <= menubar_height <= 100000,
            0 <= titlebar_height <= 100000,
            coord_ok(input.mouse_x as int),
            coord_ok(input.mouse_y as int),
        ensures
            final(self).stack_ok(),
            exists|g: PopupsTrace|
                spec_update_trace(
                    *old(self),
                    *final(self),
                    *old(focus),
                    *final(focus),
                    *input,
                    screen_w as int,
                    screen_h as int,
                    menubar_height as int,
                    content@,
                    outcome@,
                    g,
                ),
    {
        let mut outcome: Vec<PopupReturn> = Vec::new();
        let mut close: Option<usize> = None;
        let mut front: Option<usize> = None;
        let n = self.popups.len();
        let ghost mut stepped: Seq<Popup> = Seq::empty();
        let ghost mut actions: Seq<PopupAction> = Seq::empty();
        let ghost mut rets: Seq<Option<PopupReturn>> = Seq::empty();
        let ghost mut fchain: Seq<FocusModel> = seq![*focus];
        let ghost mut ochain: Seq<(i32, i32)> = seq![self.popup_drag_offset];
        let mut j: usize = 0;
        while j < n
            invariant
                j <= n,
                n == old(self).popups@.len(),
                self.popups@.len() == n,
                self.stack_ok(),
                content@.len() == n,
                0 <= screen_w <= 100000,
                0 <= screen_h <= 100000,
                0 <= menubar_height <= 100000,
                0 <= titlebar_height <= 100000,
                coord_ok(input.mouse_x as int),
                coord_ok(input.mouse_y as int),
                stepped.len() == j,
                actions.len() == j,
                rets.len() == j,
                fchain.len() == j + 1,
                ochain.len() == j + 1,
                fchain[0] == *old(focus),
                fchain[j as int] == *focus,
                ochain[0] == old(self).popup_drag_offset,
                ochain[j as int] == self.popup_drag_offset,
                forall|k: int|
                    0 <= k < n ==> #[trigger] self.popups@[k] == (if k >= n - j {
                        stepped[n - 1 - k]
                    } else {
                        old(self).popups@[k]
                    }),
                forall|j2: int|
                    0 <= j2 < j ==> Popup::spec_update_post(
                        old(self).popups@[n - 1 - j2],
                        #[trigger] stepped[j2],
                        ochain[j2],
                        ochain[j2 + 1],
                        fchain[j2],
                        fchain[j2 + 1],
                        *input,
                        screen_w as int,
                        screen_h as int,
                        menubar_height as int,
                        content@[n - 1 - j2].0,
                        content@[n - 1 - j2].1,
                        actions[j2],
                        rets[j2],
                    ),
                close == (match spec_last_action(actions, PopupAction::Close) {
                    Some(jc) => Some((n - 1 - jc) as usize),
                    None => None::<usize>,
                }),
                front == (match spec_last_action(actions, PopupAction::Front) {
                    Some(jf) => Some((n - 1 - jf) as usize),
                    None => None::<usize>,
                }),
                outcome@ == spec_somes(rets),
            decreases n - j,
        {
            let idx = n - 1 - j;
            let ghost pre_stack = self.popups@;
            let mut p = self.popups.remove(idx);
            let mut off = self.popup_drag_offset;
            let (action, ret) = p.update(
                &mut off,
                focus,
                input,
                screen_w,
                screen_h,
                menubar_height,
                titlebar_height,
                content[idx].0,
                content[idx].1,
            );
            self.popup_drag_offset = off;
            let ghost pv = p;
            let ghost old_actions = actions;
            let ghost old_rets = rets;
            self.popups.insert(idx, p);
            proof {
                assert(self.popups@ =~= pre_stack.update(idx as int, pv));
                stepped = stepped.push(pv);
                actions = actions.push(action);
                rets = rets.push(ret);
                fchain = fchain.push(*focus);
                ochain = ochain.push(self.popup_drag_offset);
                assert(actions.drop_last() =~= old_actions);
                assert(rets.drop_last() =~= old_rets);
                assert(actions.last() == action);
                assert(rets.last() == ret);
            }
            match action {
                PopupAction::Close => {
                    close = Some(idx);
                },
                PopupAction::Front => {
                    front = Some(idx);
                },
                PopupAction::Stay => {},
            }
            match ret {
                Some(rv) => {
                    outcome.push(rv);
                },
                None => {},
            }
            proof {
                assert(spec_somes(rets) == match ret {
                    Some(v) => spec_somes(old_rets).push(v),
                    None => spec_somes(old_rets),
                });
            }
            j += 1;
        }
        let ghost s_end = self.popups@;
        proof {
            assert(s_end =~= Seq::new(n as nat, |k: int| stepped[n - 1 - k]));
            lemma_last_action_bounds(actions, PopupAction::Close);
            lemma_last_action_bounds(actions, PopupAction::Front);
        }
        match close {
            Some(c) => {
                self.remove_at(c);
            },
            None => {
                match front {
                    Some(f) => {
                        self.raise(f);
                    },
                    None => {},
                }
            },
        }
        proof {
            let by_idx = Seq::new(n as nat, |k: int| stepped[n - 1 - k]);
            assert(s_end == by_idx);
            let gw = PopupsTrace { stepped, actions, rets, focus_chain: fchain, off_chain: ochain };
            assert(spec_update_trace(
                *old(self),
                *self,
                *old(focus),
                *focus,
                *input,
                screen_w as int,
                screen_h as int,
                menubar_height as int,
                content@,
                outcome@,
                gw,
            ));
        }
        outcome
    }

    /// Removes the popup at `i` from the stack.
    pub fn remove_at(&mut self, i: usize)
        requires
            (i as int) < old(self).popups@.len(),
        ensures
            final(self).popups@ == old(self).popups@.remove(i as int),
            final(self).popup_drag_offset == old(self).popup_drag_offset,
    {
        self.popups.remove(i);
    }

    /// Raises the popup at `i` to the front: it moves to the end of the
    /// stack and everything else keeps its relative order.
    pub fn raise(&mut self, i: usize)
        requires
            (i as int) < old(self).popups@.len(),
        ensures
            final(self).popups@ == old(self).popups@.remove(i as int).push(
                old(self).popups@[i as int],
            ),
            final(self).popup_drag_offset == old(self).popup_drag_offset,
    {
        let p = self.popups.remove(i);
        self.popups.push(p);
    }
}

} // verus!
