use vstd::prelude::*;

verus! {

/// A stable 64-bit widget handle; equality is its only operation.
pub type Id = u64;

#[derive(Clone, Copy, PartialEq, Eq, Structural, Debug)]
pub enum MouseButton {
    Left,
    Middle,
    Right,
}

/// Everything a frame knows about the pointer, captured once before any
/// widget runs: position, and for each button the three independent
/// bits pressed-this-frame, held-this-frame, released-this-frame.
#[derive(Clone, Copy, PartialEq, Eq, Structural, Debug)]
pub struct InputSnapshot {
    pub mouse_x: i32,
    pub mouse_y: i32,
    pub left_pressed: bool,
    pub left_down: bool,
    pub left_released: bool,
    pub middle_pressed: bool,
    pub middle_down: bool,
    pub middle_released: bool,
    pub right_pressed: bool,
    pub right_down: bool,
    pub right_released: bool,
}

impl InputSnapshot {
    /// A snapshot with the pointer at the origin and no button activity.
    pub fn idle() -> (s: InputSnapshot)
        ensures
            s == (InputSnapshot {
                mouse_x: 0,
                mouse_y: 0,
                left_pressed: false,
                left_down: false,
                left_released: false,
                middle_pressed: false,
                middle_down: false,
                middle_released: false,
                right_pressed: false,
                right_down: false,
                right_released: false,
            }),
    {
        InputSnapshot {
            mouse_x: 0,
            mouse_y: 0,
            left_pressed: false,
            left_down: false,
            left_released: false,
            middle_pressed: false,
            middle_down: false,
            middle_released: false,
            right_pressed: false,
            right_down: false,
            right_released: false,
        }
    }

    pub open spec fn spec_down(self, b: MouseButton) -> bool {
        match b {
            MouseButton::Left => self.left_down,
            MouseButton::Middle => self.middle_down,
            MouseButton::Right => self.right_down,
        }
    }

    pub open spec fn spec_pressed(self, b: MouseButton) -> bool {
        match b {
            MouseButton::Left => self.left_pressed,
            MouseButton::Middle => self.middle_pressed,
            MouseButton::Right => self.right_pressed,
        }
    }

    pub open spec fn spec_released(self, b: MouseButton) -> bool {
        match b {
            MouseButton::Left => self.left_released,
            MouseButton::Middle => self.middle_released,
            MouseButton::Right => self.right_released,
        }
    }

    pub fn mouse_down(&self, b: MouseButton) -> (r: bool)
        ensures
            r == self.spec_down(b),
    {
        match b {
            MouseButton::Left => self.left_down,
            MouseButton::Middle => self.middle_down,
            MouseButton::Right => self.right_down,
        }
    }

    pub fn mouse_pressed(&self, b: MouseButton) -> (r: bool)
        ensures
            r == self.spec_pressed(b),
    {
        match b {
            MouseButton::Left => self.left_pressed,
            MouseButton::Middle => self.middle_pressed,
            MouseButton::Right => self.right_pressed,
        }
    }

    pub fn mouse_released(&self, b: MouseButton) -> (r: bool)
        ensures
            r == self.spec_released(b),
    {
        match b {
            MouseButton::Left => self.left_released,
            MouseButton::Middle => self.middle_released,
            MouseButton::Right => self.right_released,
        }
    }

    pub fn any_down(&self) -> (r: bool)
        ensures
            r == (self.left_down || self.middle_down || self.right_down),
    {
        self.left_down || self.middle_down || self.right_down
    }

    pub fn any_released(&self) -> (r: bool)
        ensures
            r == (self.left_released || self.middle_released || self.right_released),
    {
        self.left_released || self.middle_released || self.right_released
    }

    /// Whether the pointer lies in the axis-aligned rectangle at
    /// `(rx, ry)` of size `rw` by `rh`, edges on the left and top
    /// included. Coordinates stay in screen range, so the sums fit.
    pub fn mouse_in_rect(&self, rx: i32, ry: i32, rw: i32, rh: i32) -> (r: bool)
        requires
            -1000000 <= rx <= 1000000,
            -1000000 <= ry <= 1000000,
            0 <= rw <= 1000000,
            0 <= rh <= 1000000,
        ensures
            r == (rx <= self.mouse_x < rx + rw && ry <= self.mouse_y < ry + rh),
    {
        rx <= self.mouse_x && self.mouse_x < rx + rw && ry <= self.mouse_y && self.mouse_y < ry
            + rh
    }
}

/// Who owns a pointer role this instant: nobody yet, a region that
/// absorbs the role without being a widget, or one specific widget.
/// `Unavailable` is a real state of its own, distinguishable at the
/// type level from "no claim yet".
#[derive(Clone, Copy, PartialEq, Eq, Structural, Debug)]
pub enum SelectedItem {
    Unclaimed,
    Unavailable,
    Item(Id),
}

impl SelectedItem {
    pub fn is_unclaimed(&self) -> (r: bool)
        ensures
            r == (*self == SelectedItem::Unclaimed),
    {
        match self {
            SelectedItem::Unclaimed => true,
            _ => false,
        }
    }

    pub fn is_item(&self, id: Id) -> (r: bool)
        ensures
            r == (*self == SelectedItem::Item(id)),
    {
        match self {
            SelectedItem::Item(own) => *own == id,
            _ => false,
        }
    }
}

/// What a simple click-widget learned from one frame of the protocol.
#[derive(Clone, Copy, PartialEq, Eq, Structural, Debug)]
pub enum ButtonState {
    Clicked,
    Released,
    Held,
    Hovered,
    Idle,
}

/// The tri-state hot/active pointer-ownership protocol. Exactly one
/// widget may be hot, and independently exactly one active, per frame;
/// both roles are claimed first-come-first-served, so visiting widgets
/// front-to-back each frame is the occlusion rule.
#[derive(Clone, Copy, PartialEq, Eq, Structural, Debug)]
pub struct FocusModel {
    pub hot_item: SelectedItem,
    pub active_item: SelectedItem,
}

impl FocusModel {
    /// One first-claim-wins step: an unclaimed slot goes to a willing
    /// claimant; any other slot stays put. The returned flag tells the
    /// claimant whether it is now the holder.
    pub open spec fn spec_claim(cur: SelectedItem, id: Id, wants: bool) -> (SelectedItem, bool) {
        if cur == SelectedItem::Unclaimed && wants {
            (SelectedItem::Item(id), true)
        } else {
            (cur, cur == SelectedItem::Item(id))
        }
    }

    pub fn new() -> (m: FocusModel)
        ensures
            m.hot_item == SelectedItem::Unclaimed,
            m.active_item == SelectedItem::Unclaimed,
    {
        FocusModel { hot_item: SelectedItem::Unclaimed, active_item: SelectedItem::Unclaimed }
    }

    /// Starts a frame: hover ownership is re-derived from scratch each
    /// frame. A widget's capture persists until its owner lets go, but
    /// an `Unavailable` capture only ever absorbed the rest of one
    /// frame, so it lapses here.
    pub fn new_frame(&mut self)
        ensures
            final(self).hot_item == SelectedItem::Unclaimed,
            final(self).active_item == if old(self).active_item == SelectedItem::Unavailable {
                SelectedItem::Unclaimed
            } else {
                old(self).active_item
            },
    {
        self.hot_item = SelectedItem::Unclaimed;
        if self.active_item == SelectedItem::Unavailable {
            self.active_item = SelectedItem::Unclaimed;
        }
    }

    /// Claims hover for `id` when it is hovered and nothing in front of
    /// it claimed first; returns whether `id` holds hover now.
    pub fn claim_hot(&mut self, id: Id, is_hovered: bool) -> (r: bool)
        ensures
            (final(self).hot_item, r) == Self::spec_claim(old(self).hot_item, id, is_hovered),
            final(self).active_item == old(self).active_item,
    {
        if self.hot_item.is_unclaimed() && is_hovered {
            self.hot_item = SelectedItem::Item(id);
            true
        } else {
            self.hot_item.is_item(id)
        }
    }

    /// Claims capture for `id`, normally gated on being hot with a press
    /// edge this frame; returns whether `id` holds capture now.
    pub fn claim_active(&mut self, id: Id, should_activate: bool) -> (r: bool)
        ensures
            (final(self).active_item, r) == Self::spec_claim(
                old(self).active_item,
                id,
                should_activate,
            ),
            final(self).hot_item == old(self).hot_item,
    {
        if self.active_item.is_unclaimed() && should_activate {
            self.active_item = SelectedItem::Item(id);
            true
        } else {
            self.active_item.is_item(id)
        }
    }

    /// Absorbs hover for the rest of the frame: a container (a dropdown
    /// box, a popup body) blocks the pointer from reaching whatever sits
    /// beneath it without becoming an interactive widget itself.
    pub fn block_hot(&mut self)
        ensures
            final(self).hot_item == SelectedItem::Unavailable,
            final(self).active_item == old(self).active_item,
    {
        self.hot_item = SelectedItem::Unavailable;
    }

    /// Absorbs capture for the rest of the frame.
    pub fn block_active(&mut self)
        ensures
            final(self).active_item == SelectedItem::Unavailable,
            final(self).hot_item == old(self).hot_item,
    {
        self.active_item = SelectedItem::Unavailable;
    }

    /// Lets `id` drop its own capture; anyone else's capture is none of
    /// its business and stays.
    pub fn release_active(&mut self, id: Id)
        ensures
            final(self).hot_item == old(self).hot_item,
            final(self).active_item == if old(self).active_item == SelectedItem::Item(id) {
                SelectedItem::Unclaimed
            } else {
                old(self).active_item
            },
    {
        if self.active_item.is_item(id) {
            self.active_item = SelectedItem::Unclaimed;
        }
    }

    /// One whole frame of the protocol for a click-widget: claim hover,
    /// then capture on a left press while hot, hold capture while the
    /// button stays down, and let go on release, reporting `Released`
    /// only when the release happens back over the widget.
    pub open spec fn spec_button_state(
        m: FocusModel,
        id: Id,
        hovered: bool,
        input: InputSnapshot,
    ) -> (FocusModel, ButtonState) {
        let claimed = Self::spec_claim(m.hot_item, id, hovered);
        let m1 = FocusModel { hot_item: claimed.0, ..m };
        let is_hot = claimed.1;
        if is_hot && m1.active_item == SelectedItem::Unclaimed && input.left_pressed {
            (FocusModel { active_item: SelectedItem::Item(id), ..m1 }, ButtonState::Clicked)
        } else if m1.active_item == SelectedItem::Item(id) && input.left_released {
            (
                FocusModel { active_item: SelectedItem::Unclaimed, ..m1 },
                if is_hot {
                    ButtonState::Released
                } else {
                    ButtonState::Idle
                },
            )
        } else if m1.active_item == SelectedItem::Item(id) {
            (m1, ButtonState::Held)
        } else if is_hot {
            (m1, ButtonState::Hovered)
        } else {
            (m1, ButtonState::Idle)
        }
    }

    pub fn button_state(&mut self, id: Id, hovered: bool, input: &InputSnapshot) -> (r: ButtonState)
        ensures
            (*final(self), r) == Self::spec_button_state(*old(self), id, hovered, *input),
    {
        let is_hot = self.claim_hot(id, hovered);
        if is_hot && self.active_item.is_unclaimed() && input.left_pressed {
            self.active_item = SelectedItem::Item(id);
            ButtonState::Clicked
        } else if self.active_item.is_item(id) && input.left_released {
            self.active_item = SelectedItem::Unclaimed;
            if is_hot {
                ButtonState::Released
            } else {
                ButtonState::Idle
            }
        } else if self.active_item.is_item(id) {
            ButtonState::Held
        } else if is_hot {
            ButtonState::Hovered
        } else {
            ButtonState::Idle
        }
    }
}

/// Occlusion by processing order: when two overlapping widgets are both
/// hovered, the one visited first — the front one — takes hover, and
/// the later claim cannot displace it.
pub proof fn lemma_first_claim_wins(m: FocusModel, a: Id, b: Id)
    requires
        m.hot_item == SelectedItem::Unclaimed,
        a != b,
    ensures
        ({
            let first = FocusModel::spec_claim(m.hot_item, a, true);
            let second = FocusModel::spec_claim(first.0, b, true);
            first.1 && !second.1 && second.0 == SelectedItem::Item(a)
        }),
{
}

/// Capture persists: while widget `x` holds capture, no claim by any
/// other widget — hovered or not, pressing or not — takes it away;
/// and `x` itself keeps it for as long as the button stays down.
pub proof fn lemma_active_persists(
    m: FocusModel,
    x: Id,
    y: Id,
    hovered: bool,
    input: InputSnapshot,
)
    requires
        m.active_item == SelectedItem::Item(x),
        y != x,
    ensures
        FocusModel::spec_claim(m.active_item, y, hovered).0 == SelectedItem::Item(x),
        FocusModel::spec_button_state(m, y, hovered, input).0.active_item == SelectedItem::Item(x),
        !input.left_released ==> FocusModel::spec_button_state(
            m,
            x,
            hovered,
            input,
        ).0.active_item == SelectedItem::Item(x),
{
}

/// Capture ends exactly at the originating button's release: when the
/// left button comes up, the holder's own frame lets the capture go.
pub proof fn lemma_release_frees(m: FocusModel, x: Id, hovered: bool, input: InputSnapshot)
    requires
        m.active_item == SelectedItem::Item(x),
        input.left_released,
    ensures
        FocusModel::spec_button_state(m, x, hovered, input).0.active_item
            == SelectedItem::Unclaimed,
{
}

} // verus!
