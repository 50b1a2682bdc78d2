use vstd::prelude::*;

verus! {

use crate::focus::{FocusModel, InputSnapshot, SelectedItem, ButtonState, Id};
use crate::identity::{hash_string, spec_hash_bytes};
use vstd::utf8::encode_utf8;

/// Adds two layout coordinates, saturating instead of wrapping: menu
/// layout is cosmetic and must never abort.
pub open spec fn spec_sat_add(a: int, b: int) -> int {
    if a + b > u32::MAX {
        u32::MAX as int
    } else {
        a + b
    }
}

fn sat_add(a: u32, b: u32) -> (r: u32)
    ensures
        r as int == spec_sat_add(a as int, b as int),
{
    if a <= u32::MAX - b {
        a + b
    } else {
        u32::MAX
    }
}

/// One top-level menu entry as the menubar retains it: the identity
/// hashed from its label, the label's measured width and height, and
/// the width of its dropdown.
pub struct MenuItem {
    pub id: Id,
    pub width: u32,
    pub height: u32,
    pub dropdown_width: u32,
}

/// The horizontal menu along the top edge: items laid out left to
/// right, at most one dropdown open, opened by a click and switched to
/// by hover while any dropdown is open.
pub struct Menubar {
    pub height: u32,
    pub items: Vec<MenuItem>,
    pub current_item_index: usize,
    pub item_current: Option<Id>,
    pub item_current_prev: Option<Id>,
    pub item_current_x: u32,
    pub item_next_x: u32,
    pub dropdown_width: u32,
    pub dropdown_id: Id,
    pub dropdown_start_y: u32,
    pub dropdown_cur_y: u32,
    pub dropdown_next_y: u32,
    pub dropdown_max_y: u32,
    pub dropdown_rect: (i32, i32, i32, i32),
}

impl Menubar {
    pub fn new() -> (m: Menubar)
        ensures
            m.items@.len() == 0,
            m.item_current is None,
            m.height == 0,
    {
        Menubar {
            height: 0,
            items: Vec::new(),
            current_item_index: 0,
            item_current: None,
            item_current_prev: None,
            item_current_x: 0,
            item_next_x: 0,
            dropdown_width: 0,
            dropdown_id: 0,
            dropdown_start_y: 0,
            dropdown_cur_y: 0,
            dropdown_next_y: 0,
            dropdown_max_y: 0,
            dropdown_rect: (0, 0, 0, 0),
        }
    }

    pub fn height(&self) -> (r: u32)
        ensures
            r == self.height,
    {
        self.height
    }

    /// Starts a frame of the menubar: derives each item's identity from
    /// its label text and resets the left-to-right layout cursor. Each
    /// entry arrives as its label plus its measured width, height, and
    /// dropdown width.
    pub fn begin(&mut self, labels: &Vec<(String, u32, u32, u32)>)
        ensures
            final(self).items@.len() == labels@.len(),
            forall|i: int|
                0 <= i < labels@.len() ==> {
                    let it = #[trigger] final(self).items@[i];
                    &&& it.id == spec_hash_bytes(encode_utf8(labels@[i].0@))
                    &&& it.width == labels@[i].1
                    &&& it.height == labels@[i].2
                    &&& it.dropdown_width == labels@[i].3
                },
            final(self).current_item_index == 0,
            final(self).item_current == old(self).item_current,
            final(self).item_current_prev == old(self).item_current,
            final(self).item_next_x == 0,
            final(self).height == old(self).height,
    {
        self.items = Vec::new();
        let mut i: usize = 0;
        while i < labels.len()
            invariant
                i <= labels@.len(),
                self.items@.len() == i,
                *self == (Menubar { items: self.items, ..*old(self) }),
                forall|k: int|
                    0 <= k < i ==> {
                        let it = #[trigger] self.items@[k];
                        &&& it.id == spec_hash_bytes(encode_utf8(labels@[k].0@))
                        &&& it.width == labels@[k].1
                        &&& it.height == labels@[k].2
                        &&& it.dropdown_width == labels@[k].3
                    },
            decreases labels@.len() - i,
        {
            let id = hash_string(labels[i].0.as_str());
            self.items.push(
                MenuItem {
                    id,
                    width: labels[i].1,
                    height: labels[i].2,
                    dropdown_width: labels[i].3,
                },
            );
            i += 1;
        }
        self.current_item_index = 0;
        self.item_current_prev = self.item_current;
        self.item_next_x = 0;
    }

    /// One top-level item, visited in layout order. The item becomes
    /// current — its dropdown opens — when it is clicked, or when it is
    /// hovered while some dropdown is already open. Returns whether its
    /// dropdown is open, so the caller emits the dropdown's entries.
    pub fn item(&mut self, focus: &mut FocusModel, input: &InputSnapshot) -> (r: bool)
        requires
            -100000 <= input.mouse_x <= 100000,
            -100000 <= input.mouse_y <= 100000,
        ensures
            old(self).current_item_index >= old(self).items@.len() ==> (!r && *final(self) == *old(
                self,
            ) && *final(focus) == *old(focus)),
            old(self).current_item_index < old(self).items@.len() ==> ({
                let it = old(self).items@[old(self).current_item_index as int];
                let x = old(self).item_next_x;
                let hovered = {
                    &&& x <= 100000 && it.width <= 100000 && it.height <= 100000
                    &&& x <= input.mouse_x < x + it.width
                    &&& 0 <= input.mouse_y < it.height
                };
                let step = FocusModel::spec_button_state(*old(focus), it.id, hovered, *input);
                &&& *final(focus) == step.0
                &&& final(self).item_current == (if (step.1 == ButtonState::Hovered && old(
                    self,
                ).item_current is Some) || step.1 == ButtonState::Clicked {
                    Some(it.id)
                } else {
                    old(self).item_current
                })
                &&& r == (final(self).item_current == Some(it.id))
                &&& final(self).current_item_index == old(self).current_item_index + 1
                &&& final(self).dropdown_id == it.id.wrapping_add(1)
                &&& final(self).dropdown_width == it.dropdown_width
                &&& final(self).item_current_x == x
                &&& final(self).item_next_x as int == spec_sat_add(x as int, it.width as int)
                &&& final(self).height as int == (if old(self).height >= it.height {
                    old(self).height as int
                } else {
                    it.height as int
                })
            }),
    {
        if self.current_item_index >= self.items.len() {
            return false;
        }
        let it = MenuItem {
            id: self.items[self.current_item_index].id,
            width: self.items[self.current_item_index].width,
            height: self.items[self.current_item_index].height,
            dropdown_width: self.items[self.current_item_index].dropdown_width,
        };
        self.current_item_index = self.current_item_index + 1;
        let x = self.item_next_x;
        self.item_current_x = x;
        self.item_next_x = sat_add(x, it.width);
        if it.height > self.height {
            self.height = it.height;
        }
        self.dropdown_id = it.id.wrapping_add(1);
        self.dropdown_width = it.dropdown_width;
        self.dropdown_start_y = sat_add(self.height, 1);
        self.dropdown_next_y = self.dropdown_start_y;
        self.dropdown_max_y = 0;

        let hovered = x <= 100000 && it.width <= 100000 && it.height <= 100000
            && input.mouse_in_rect(x as i32, 0, it.width as i32, it.height as i32);
        let bs = focus.button_state(it.id, hovered, input);
        let open_before = match self.item_current {
            Some(_) => true,
            None => false,
        };
        if (bs == ButtonState::Hovered && open_before) || bs == ButtonState::Clicked {
            self.item_current = Some(it.id);
        }
        match self.item_current {
            Some(cur) => cur == it.id,
            None => false,
        }
    }

    /// The rectangle `finish_item` publishes for an open dropdown: the
    /// laid-out entries from the bar's lower edge down, two pixels of
    /// border, each coordinate clamped into screen range.
    pub open spec fn spec_dropdown_rect(pre: Menubar) -> (int, int, int, int) {
        let x = if pre.item_current_x <= 100000 {
            pre.item_current_x as int
        } else {
            100000
        };
        let y = if pre.height <= 100000 {
            pre.height as int
        } else {
            100000
        };
        let w = if pre.dropdown_width <= 99998 {
            pre.dropdown_width + 2
        } else {
            100000
        };
        let grown = spec_sat_add(pre.dropdown_max_y as int, 2);
        let raw_h = if grown >= pre.dropdown_start_y {
            grown - pre.dropdown_start_y
        } else {
            0
        };
        let h = if raw_h <= 100000 {
            raw_h
        } else {
            100000
        };
        (x, y, w, h)
    }

    /// Ends one top-level item: fixes this frame's dropdown rectangle
    /// and, when the open dropdown lies under the pointer and nothing
    /// in front claimed hover, absorbs hover so surfaces beneath the
    /// dropdown cannot claim it. An item that laid out no entries has
    /// no dropdown and publishes an empty rectangle instead.
    pub fn finish_item(&mut self, focus: &mut FocusModel, input: &InputSnapshot)
        requires
            -100000 <= input.mouse_x <= 100000,
            -100000 <= input.mouse_y <= 100000,
        ensures
            *final(self) == (Menubar { dropdown_rect: final(self).dropdown_rect, ..*old(self) }),
            old(self).dropdown_max_y == 0 ==> (final(self).dropdown_rect == (0i32, 0i32, 0i32,
            0i32) && *final(focus) == *old(focus)),
            old(self).dropdown_max_y != 0 ==> ({
                let rect = Self::spec_dropdown_rect(*old(self));
                let inside = {
                    &&& old(focus).hot_item == SelectedItem::Unclaimed
                    &&& rect.0 <= input.mouse_x < rect.0 + rect.2
                    &&& rect.1 <= input.mouse_y < rect.1 + rect.3
                };
                &&& final(self).dropdown_rect.0 as int == rect.0
                &&& final(self).dropdown_rect.1 as int == rect.1
                &&& final(self).dropdown_rect.2 as int == rect.2
                &&& final(self).dropdown_rect.3 as int == rect.3
                &&& *final(focus) == (if inside {
                    FocusModel { hot_item: SelectedItem::Unavailable, ..*old(focus) }
                } else {
                    *old(focus)
                })
            }),
    {
        if self.dropdown_max_y == 0 {
            self.dropdown_rect = (0, 0, 0, 0);
            return;
        }
        let x = if self.item_current_x <= 100000 {
            self.item_current_x as i32
        } else {
            100000
        };
        let y = if self.height <= 100000 {
            self.height as i32
        } else {
            100000
        };
        let w = if self.dropdown_width <= 99998 {
            self.dropdown_width as i32 + 2
        } else {
            100000
        };
        let grown = sat_add(self.dropdown_max_y, 2);
        let raw_h = if grown >= self.dropdown_start_y {
            grown - self.dropdown_start_y
        } else {
            0
        };
        let h = if raw_h <= 100000 {
            raw_h as i32
        } else {
            100000
        };
        self.dropdown_rect = (x, y, w, h);
        if focus.hot_item.is_unclaimed() && input.mouse_in_rect(x, y, w, h) {
            focus.block_hot();
        }
    }

    /// Everything one dropdown entry does in a frame: the layout
    /// cursor's advance, the entry's claims on hover and capture under
    /// the running identity, the capture let go when the left button is
    /// up, the trigger signal — this entry holds hover and capture and
    /// the button is up — and the dropdown closing on a trigger.
    pub open spec fn spec_dropdown_item_post(
        pre: Menubar,
        post: Menubar,
        f_pre: FocusModel,
        f_post: FocusModel,
        entry_h: u32,
        input: InputSnapshot,
        r: bool,
    ) -> bool {
        let id = pre.dropdown_id;
        let cur_y = pre.dropdown_next_y;
        let hovered = {
            &&& pre.item_current_x <= 100000
            &&& cur_y <= 100000
            &&& pre.dropdown_width <= 100000
            &&& entry_h <= 100000
            &&& pre.item_current_x <= input.mouse_x < pre.item_current_x + pre.dropdown_width
            &&& cur_y <= input.mouse_y < cur_y + entry_h
        };
        let claim = FocusModel::spec_claim(f_pre.hot_item, id, hovered);
        let active1 = if claim.1 && input.left_down {
            FocusModel::spec_claim(f_pre.active_item, id, true).0
        } else {
            f_pre.active_item
        };
        let released = claim.1 && active1 == SelectedItem::Item(id) && !input.left_down;
        let next_y = spec_sat_add(cur_y as int, entry_h as int);
        &&& post.dropdown_id == id.wrapping_add(1)
        &&& post.dropdown_cur_y == cur_y
        &&& post.dropdown_next_y as int == next_y
        &&& post.dropdown_max_y as int == (if next_y > pre.dropdown_max_y as int {
            next_y
        } else {
            pre.dropdown_max_y as int
        })
        &&& post.item_current == (if released {
            None::<Id>
        } else {
            pre.item_current
        })
        &&& post == (Menubar {
            dropdown_id: post.dropdown_id,
            dropdown_cur_y: post.dropdown_cur_y,
            dropdown_next_y: post.dropdown_next_y,
            dropdown_max_y: post.dropdown_max_y,
            item_current: post.item_current,
            ..pre
        })
        &&& f_post.hot_item == claim.0
        &&& f_post.active_item == (if !input.left_down && active1 == SelectedItem::Item(id) {
            SelectedItem::Unclaimed
        } else {
            active1
        })
        &&& r == released
    }

    /// One dropdown entry of the open dropdown, `entry_h` tall. Entry
    /// identities run from the dropdown's base identity upward, one per
    /// entry in visit order. Returns true when the entry is triggered:
    /// the pointer rests on it, it holds capture, and the button is up —
    /// which also closes the dropdown and lets the capture go.
    pub fn dropdown_item(&mut self, entry_h: u32, focus: &mut FocusModel, input: &InputSnapshot)
        -> (r: bool)
        requires
            -100000 <= input.mouse_x <= 100000,
            -100000 <= input.mouse_y <= 100000,
        ensures
            Self::spec_dropdown_item_post(
                *old(self),
                *final(self),
                *old(focus),
                *final(focus),
                entry_h,
                *input,
                r,
            ),
    {
        self.dropdown_cur_y = self.dropdown_next_y;
        let id = self.dropdown_id;
        self.dropdown_id = id.wrapping_add(1);
        self.dropdown_next_y = sat_add(self.dropdown_cur_y, entry_h);
        if self.dropdown_next_y > self.dropdown_max_y {
            self.dropdown_max_y = self.dropdown_next_y;
        }
        let hoverable = self.item_current_x <= 100000 && self.dropdown_cur_y <= 100000
            && self.dropdown_width <= 100000 && entry_h <= 100000;
        let hovered = hoverable && input.mouse_in_rect(
            self.item_current_x as i32,
            self.dropdown_cur_y as i32,
            self.dropdown_width as i32,
            entry_h as i32,
        );
        let hot = focus.claim_hot(id, hovered);
        if hot && input.left_down {
            focus.claim_active(id, true);
        }
        let released = focus.hot_item.is_item(id) && focus.active_item.is_item(id)
            && !input.left_down;
        // the capture ends with the originating button
        if !input.left_down {
            focus.release_active(id);
        }
        if released {
            self.item_current = None;
        }
        released
    }

    /// A plain dropdown entry.
    pub fn dropdown(&mut self, entry_h: u32, focus: &mut FocusModel, input: &InputSnapshot) -> (r:
        bool)
        requires
            -100000 <= input.mouse_x <= 100000,
            -100000 <= input.mouse_y <= 100000,
        ensures
            Self::spec_dropdown_item_post(
                *old(self),
                *final(self),
                *old(focus),
                *final(focus),
                entry_h,
                *input,
                r,
            ),
    {
        self.dropdown_item(entry_h, focus, input)
    }

    /// A dropdown entry with a radio mark; the mark is the caller's to
    /// draw, the selection logic is the entry's.
    pub fn dropdown_radio(
        &mut self,
        entry_h: u32,
        qualifier: bool,
        focus: &mut FocusModel,
        input: &InputSnapshot,
    ) -> (r: bool)
        requires
            -100000 <= input.mouse_x <= 100000,
            -100000 <= input.mouse_y <= 100000,
        ensures
            Self::spec_dropdown_item_post(
                *old(self),
                *final(self),
                *old(focus),
                *final(focus),
                entry_h,
                *input,
                r,
            ),
    {
        let _ = qualifier;
        self.dropdown_item(entry_h, focus, input)
    }

    /// A dropdown entry that flips a boolean when triggered.
    pub fn dropdown_toggle(
        &mut self,
        entry_h: u32,
        value: &mut bool,
        focus: &mut FocusModel,
        input: &InputSnapshot,
    ) -> (r: bool)
        requires
            -100000 <= input.mouse_x <= 100000,
            -100000 <= input.mouse_y <= 100000,
        ensures
            Self::spec_dropdown_item_post(
                *old(self),
                *final(self),
                *old(focus),
                *final(focus),
                entry_h,
                *input,
                r,
            ),
            r ==> *final(value) == !*old(value),
            !r ==> *final(value) == *old(value),
    {
        let pressed = self.dropdown_item(entry_h, focus, input);
        if pressed {
            *value = !*value;
        }
        pressed
    }

    /// A horizontal rule between dropdown entries: layout only.
    pub fn dropdown_separator(&mut self, sep_h: u32)
        ensures
            final(self).dropdown_cur_y == old(self).dropdown_next_y,
            final(self).dropdown_next_y as int == spec_sat_add(
                old(self).dropdown_next_y as int,
                sep_h as int,
            ),
            final(self).item_current == old(self).item_current,
            final(self).items@ == old(self).items@,
    {
        self.dropdown_cur_y = self.dropdown_next_y;
        self.dropdown_next_y = sat_add(self.dropdown_cur_y, sep_h);
        if self.dropdown_next_y > self.dropdown_max_y {
            self.dropdown_max_y = self.dropdown_next_y;
        }
    }

    /// Ends the menubar's frame: a left press anywhere that is neither
    /// a menu item nor the open dropdown closes the dropdown and absorbs
    /// capture for the rest of the frame.
    pub fn finish(&mut self, focus: &mut FocusModel, input: &InputSnapshot)
        requires
            -100000 <= input.mouse_x <= 100000,
            -100000 <= input.mouse_y <= 100000,
        ensures
            ({
                let rx = old(self).dropdown_rect.0;
                let ry = old(self).dropdown_rect.1;
                let rw = old(self).dropdown_rect.2;
                let rh = old(self).dropdown_rect.3;
                let in_dropdown = {
                    &&& 0 <= rw <= 100000 && 0 <= rh <= 100000
                    &&& -100000 <= rx <= 100000 && -100000 <= ry <= 100000
                    &&& rx <= input.mouse_x < rx + rw
                    &&& ry <= input.mouse_y < ry + rh
                };
                let outside_click = old(self).item_current is Some && old(
                    self,
                ).item_current_prev is Some && input.left_pressed && !in_dropdown;
                if outside_click {
                    final(self).item_current is None && final(focus).active_item
                        == SelectedItem::Unavailable
                } else {
                    final(self).item_current == old(self).item_current && *final(focus) == *old(
                        focus,
                    )
                }
            }),
            final(self).items@ == old(self).items@,
            final(self).height == old(self).height,
    {
        let open_now = match self.item_current {
            Some(_) => true,
            None => false,
        };
        let open_before = match self.item_current_prev {
            Some(_) => true,
            None => false,
        };
        let (rx, ry, rw, rh) = self.dropdown_rect;
        let in_dropdown = 0 <= rw && rw <= 100000 && 0 <= rh && rh <= 100000 && -100000 <= rx
            && rx <= 100000 && -100000 <= ry && ry <= 100000 && input.mouse_in_rect(rx, ry, rw, rh);
        if open_now && open_before && input.left_pressed && !in_dropdown {
            focus.block_active();
            self.item_current = None;
        }
    }
}

} // verus!
