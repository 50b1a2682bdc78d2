use fox_mines::button::{Button, MousePressMode, PressMode, State};
use fox_mines::element::{counter_digits, timer_digits, CounterDigit, MinesweeperElement};
use fox_mines::focus::{ButtonState, FocusModel, InputSnapshot, SelectedItem};
use fox_mines::identity::hash_string;
use fox_mines::menubar::Menubar;
use fox_mines::minefield::{hovered_cell, tile_pos, Minefield};
use fox_mines::minesweeper::{GameState, Minesweeper, SetFlagMode, Tile};
use fox_mines::popups::{Popup, PopupAction, PopupKind, Popups};

fn pressed_input() -> InputSnapshot {
    let mut i = InputSnapshot::idle();
    i.left_pressed = true;
    i.left_down = true;
    i
}

fn released_input() -> InputSnapshot {
    let mut i = InputSnapshot::idle();
    i.left_released = true;
    i
}

#[test]
fn front_widget_takes_hover_first() {
    // two overlapping widgets, both hovered: only the one processed
    // first becomes hot this frame
    let mut focus = FocusModel::new();
    assert!(focus.claim_hot(1, true));
    assert!(!focus.claim_hot(2, true));
    assert_eq!(focus.hot_item, SelectedItem::Item(1));
}

#[test]
fn capture_persists_until_release() {
    let mut focus = FocusModel::new();
    assert!(focus.claim_active(7, true));
    // pointer wanders outside widget 7 and over widget 9: the capture
    // stays with 7 whatever 9 does
    assert!(!focus.claim_active(9, true));
    assert_eq!(focus.active_item, SelectedItem::Item(7));
    let held = InputSnapshot::idle();
    let st = focus.button_state(9, true, &held);
    assert_eq!(st, ButtonState::Hovered);
    assert_eq!(focus.active_item, SelectedItem::Item(7));
    // only the originating button's release lets go
    let st = focus.button_state(7, false, &released_input());
    assert_eq!(st, ButtonState::Idle);
    assert_eq!(focus.active_item, SelectedItem::Unclaimed);
}

#[test]
fn button_state_click_and_release_cycle() {
    let mut focus = FocusModel::new();
    assert_eq!(focus.button_state(3, true, &pressed_input()), ButtonState::Clicked);
    focus.new_frame();
    let mut held = InputSnapshot::idle();
    held.left_down = true;
    assert_eq!(focus.button_state(3, true, &held), ButtonState::Held);
    focus.new_frame();
    assert_eq!(focus.button_state(3, true, &released_input()), ButtonState::Released);
    assert_eq!(focus.active_item, SelectedItem::Unclaimed);
}

#[test]
fn unavailable_blocks_later_claims() {
    let mut focus = FocusModel::new();
    focus.block_hot();
    assert!(!focus.claim_hot(4, true));
    assert_eq!(focus.hot_item, SelectedItem::Unavailable);
}

#[test]
fn button_machine_follows_the_transition_table() {
    let mut b = Button::new(PressMode::Release, false);
    assert_eq!(b.state, State::Idle);
    // off the rectangle: always idle
    b.update(false, MousePressMode::Down);
    assert_eq!(b.state, State::Idle);
    // press over it: depressed
    b.update(true, MousePressMode::Down);
    assert_eq!(b.state, State::Depressed);
    // held without an edge: stays depressed
    b.update(true, MousePressMode::Neither);
    assert_eq!(b.state, State::Depressed);
    // release over it: hovered, and a release-mode button fires
    b.update(true, MousePressMode::Up);
    assert_eq!(b.state, State::Hovered);
    assert!(b.pressed());
    // read-and-clear: it cannot fire twice for one event
    assert!(!b.pressed());
}

#[test]
fn immediate_button_fires_on_the_press_edge() {
    let mut b = Button::new(PressMode::Immediate, false);
    b.update(true, MousePressMode::Down);
    assert!(b.pressed());
    b.update(true, MousePressMode::Up);
    assert!(!b.pressed());
}

#[test]
fn disabled_button_ignores_everything() {
    let mut b = Button::new(PressMode::Immediate, true);
    b.update(true, MousePressMode::Down);
    assert_eq!(b.state, State::Disabled);
    assert!(!b.pressed());
}

#[test]
fn unread_press_survives_frames() {
    let mut b = Button::new(PressMode::Immediate, false);
    b.update(true, MousePressMode::Down);
    b.update(false, MousePressMode::Neither);
    b.update(false, MousePressMode::Neither);
    assert!(b.pressed());
}

#[test]
fn left_release_digs_the_hovered_cell() {
    let mut game = Minesweeper::new(5, 5, 2);
    game.start_with_mines(&vec![20, 22], 2);
    let mut field = Minefield::new(42);
    let mut chorded: Vec<usize> = Vec::new();
    let r = field.interact(true, 21, &mut chorded, &mut game, &released_input());
    assert_eq!(r, Some(21));
    assert_eq!(game.board[21], Tile::Revealed(2));
    assert_eq!(game.state, GameState::Win);
}

#[test]
fn right_press_plants_then_drag_sweeps_flags_away() {
    let mut game = Minesweeper::new(5, 5, 2);
    game.start_with_mines(&vec![20, 22], 2);
    let mut field = Minefield::new(42);
    let mut chorded: Vec<usize> = Vec::new();
    let mut press = InputSnapshot::idle();
    press.right_pressed = true;
    press.right_down = true;
    // a press flags once
    field.interact(true, 20, &mut chorded, &mut game, &press);
    assert_eq!(game.board[20], Tile::Flagged);
    // the press edge passed but the button stays down over another
    // flagged cell: removal mode sweeps it away
    field.interact(true, 21, &mut chorded, &mut game, &press);
    assert_eq!(game.board[21], Tile::Flagged);
    let mut held = InputSnapshot::idle();
    held.right_down = true;
    held.right_pressed = true;
    // pressing on a flagged cell chooses removal
    field.interact(true, 21, &mut chorded, &mut game, &held);
    assert_eq!(game.board[21], Tile::Unopened);
    let mut drag = InputSnapshot::idle();
    drag.right_down = true;
    // and while the button stays down, dragging keeps removing
    field.interact(true, 20, &mut chorded, &mut game, &drag);
    assert_eq!(game.board[20], Tile::Unopened);
}

#[test]
fn chord_gesture_fires_on_first_release() {
    let mut game = Minesweeper::new(5, 5, 2);
    game.start_with_mines(&vec![16, 18], 2);
    game.dig(17);
    game.set_flag(SetFlagMode::Flag, 16);
    game.set_flag(SetFlagMode::Flag, 18);
    let mut field = Minefield::new(42);
    let mut chorded: Vec<usize> = Vec::new();
    // middle button held over cell 17: the gesture arms and marks the
    // pending tiles, and nothing is dug or flagged meanwhile
    let mut hold = InputSnapshot::idle();
    hold.middle_down = true;
    let r = field.interact(true, 17, &mut chorded, &mut game, &hold);
    assert_eq!(r, None);
    assert!(field.chording);
    assert!(field.about_to_dig());
    assert!(chorded.contains(&21) && chorded.contains(&22) && chorded.contains(&23));
    assert_eq!(game.board[21], Tile::Unopened);
    // the first release fires the chord
    let mut rel = InputSnapshot::idle();
    rel.middle_released = true;
    let r = field.interact(true, 17, &mut chorded, &mut game, &rel);
    assert_eq!(r, None);
    assert!(field.chorded);
    assert_eq!(game.board[21], Tile::Revealed(1));
    assert_eq!(game.board[22], Tile::Revealed(2));
    assert_eq!(game.board[23], Tile::Revealed(1));
    // with every button up the gesture disarms, suppressing the
    // trailing release from acting as a plain click
    let r = field.interact(true, 17, &mut chorded, &mut game, &InputSnapshot::idle());
    assert_eq!(r, None);
    assert!(!field.chorded && !field.chording);
}

#[test]
fn minefield_capture_ends_when_buttons_come_up() {
    let mut game = Minesweeper::new(5, 5, 2);
    game.start_with_mines(&vec![20, 22], 2);
    let mut field = Minefield::new(42);
    let mut focus = FocusModel::new();
    let mut chorded: Vec<usize> = Vec::new();
    // press over a cell: the minefield takes hover and capture
    let mut down = InputSnapshot::idle();
    down.left_pressed = true;
    down.left_down = true;
    field.update(true, 21, &mut chorded, &mut game, &mut focus, &down);
    assert_eq!(focus.active_item, SelectedItem::Item(42));
    // release: the dig lands and the capture lapses with the button
    focus.new_frame();
    let (explosion, _) = field.update(true, 21, &mut chorded, &mut game, &mut focus, &released_input());
    assert_eq!(explosion, None);
    assert_eq!(game.board[21], Tile::Revealed(2));
    assert_eq!(focus.active_item, SelectedItem::Unclaimed);
    // the next frame another widget can claim capture again
    focus.new_frame();
    assert!(focus.claim_active(7, true));
}

#[test]
fn popup_capture_ends_when_the_button_comes_up() {
    let mut p = Popup::new(PopupKind::About, 200, 150, 5);
    let mut focus = FocusModel::new();
    let mut off = (0, 0);
    let mut input = pressed_input();
    input.mouse_x = 60;
    input.mouse_y = 40;
    p.update(&mut off, &mut focus, &input, 200, 150, 10, 8, false, false);
    assert_eq!(focus.active_item, SelectedItem::Item(5));
    // the drag ends on release, freeing the capture for the next click
    focus.new_frame();
    let mut input = released_input();
    input.mouse_x = 61;
    input.mouse_y = 41;
    p.update(&mut off, &mut focus, &input, 200, 150, 10, 8, false, false);
    assert_eq!(focus.active_item, SelectedItem::Unclaimed);
}

#[test]
fn menubar_absorbed_capture_lapses_next_frame() {
    let mut focus = FocusModel::new();
    focus.block_active();
    assert_eq!(focus.active_item, SelectedItem::Unavailable);
    // an absorbed click blocks only the rest of its own frame
    focus.new_frame();
    assert_eq!(focus.active_item, SelectedItem::Unclaimed);
}

#[test]
fn pointer_to_cell_mapping_rejects_the_outside() {
    assert_eq!(hovered_cell(10, 10, 10, 10, 9, 5, 5), Some(0));
    assert_eq!(hovered_cell(28, 19, 10, 10, 9, 5, 5), Some(7));
    assert_eq!(hovered_cell(9, 10, 10, 10, 9, 5, 5), None);
    assert_eq!(hovered_cell(10 + 45, 10, 10, 10, 9, 5, 5), None);
    assert_eq!(tile_pos(7, 9, 5), (18, 9));
}

#[test]
fn popup_stack_keeps_one_popup_per_kind() {
    let mut stack = Popups::new();
    stack.add(PopupKind::About, 200, 150, 1);
    stack.add(PopupKind::Exit, 200, 150, 2);
    assert_eq!(stack.popups.len(), 2);
    // a second About replaces the first and comes to the front
    stack.add(PopupKind::About, 200, 150, 3);
    assert_eq!(stack.popups.len(), 2);
    assert_eq!(stack.popups[1].id, 3);
    assert_eq!(stack.popups[0].id, 2);
}

#[test]
fn raising_a_popup_moves_it_to_the_front() {
    let mut stack = Popups::new();
    stack.add(PopupKind::About, 200, 150, 1);
    stack.add(PopupKind::Exit, 200, 150, 2);
    stack.add(PopupKind::Win, 200, 150, 3);
    stack.raise(0);
    assert_eq!(stack.popups[0].id, 2);
    assert_eq!(stack.popups[1].id, 3);
    assert_eq!(stack.popups[2].id, 1);
    stack.remove_at(1);
    assert_eq!(stack.popups.len(), 2);
    assert_eq!(stack.popups[0].id, 2);
    assert_eq!(stack.popups[1].id, 1);
}

#[test]
fn dragging_a_popup_follows_the_pointer() {
    let mut p = Popup::new(PopupKind::About, 200, 150, 5);
    assert_eq!((p.pos_x, p.pos_y), (50, 35));
    let mut focus = FocusModel::new();
    let mut off = (0, 0);
    // press inside the popup: it captures the drag and asks to be front
    let mut input = pressed_input();
    input.mouse_x = 60;
    input.mouse_y = 40;
    let (action, ret) = p.update(&mut off, &mut focus, &input, 200, 150, 10, 8, false, false);
    assert_eq!(action, PopupAction::Front);
    assert_eq!(ret, None);
    assert_eq!(focus.active_item, SelectedItem::Item(5));
    assert_eq!(off, (10, 5));
    // next frame the pointer moved; the popup follows it exactly
    focus.new_frame();
    let mut input = InputSnapshot::idle();
    input.left_down = true;
    input.mouse_x = 90;
    input.mouse_y = 70;
    p.update(&mut off, &mut focus, &input, 200, 150, 10, 8, false, false);
    assert_eq!((p.pos_x, p.pos_y), (80, 65));
}

#[test]
fn popup_clamps_below_the_menubar() {
    let mut p = Popup::new(PopupKind::Win, 200, 150, 5);
    p.pos_y = -30;
    let mut focus = FocusModel::new();
    let mut off = (0, 0);
    p.update(&mut off, &mut focus, &InputSnapshot::idle(), 200, 150, 12, 8, false, false);
    assert_eq!(p.pos_y, 12);
}

#[test]
fn close_request_closes_the_popup() {
    let mut p = Popup::new(PopupKind::Exit, 200, 150, 5);
    let mut focus = FocusModel::new();
    let mut off = (0, 0);
    let (action, _) = p.update(&mut off, &mut focus, &InputSnapshot::idle(), 200, 150, 10, 8, true, false);
    assert_eq!(action, PopupAction::Close);
}

#[test]
fn menubar_opens_on_click_and_switches_on_hover() {
    let mut bar = Menubar::new();
    let labels = vec![
        (String::from("Game"), 30u32, 10u32, 60u32),
        (String::from("Help"), 30u32, 10u32, 60u32),
    ];
    let mut focus = FocusModel::new();
    // frame 1: click the first item
    focus.new_frame();
    bar.begin(&labels);
    let mut input = pressed_input();
    input.mouse_x = 5;
    input.mouse_y = 5;
    assert!(bar.item(&mut focus, &input));
    assert!(!bar.item(&mut focus, &input));
    // frame 2: merely hovering the second item switches the dropdown;
    // the first item still reports open until the switch happens
    focus.new_frame();
    bar.begin(&labels);
    let mut input = InputSnapshot::idle();
    input.mouse_x = 35;
    input.mouse_y = 5;
    assert!(bar.item(&mut focus, &input));
    assert!(bar.item(&mut focus, &input));
    assert_eq!(bar.item_current, Some(hash_string("Help")));
}

#[test]
fn click_outside_the_dropdown_closes_it() {
    let mut bar = Menubar::new();
    let labels = vec![(String::from("Game"), 30u32, 10u32, 60u32)];
    let mut focus = FocusModel::new();
    focus.new_frame();
    bar.begin(&labels);
    let mut input = pressed_input();
    input.mouse_x = 5;
    input.mouse_y = 5;
    assert!(bar.item(&mut focus, &input));
    bar.finish_item(&mut focus, &input);
    bar.finish(&mut focus, &input);
    // frame 2: click far away from both the items and the dropdown
    focus.new_frame();
    bar.begin(&labels);
    let mut input = pressed_input();
    input.mouse_x = 150;
    input.mouse_y = 90;
    bar.item(&mut focus, &input);
    bar.finish_item(&mut focus, &input);
    bar.finish(&mut focus, &input);
    assert_eq!(bar.item_current, None);
    assert_eq!(focus.active_item, SelectedItem::Unavailable);
}

#[test]
fn identity_is_deterministic_and_label_sensitive() {
    assert_eq!(hash_string(""), 0xcbf29ce484222325);
    assert_eq!(hash_string("Game"), hash_string("Game"));
    assert_ne!(hash_string("Game"), hash_string("Help"));
}

#[test]
fn counter_shows_digits_blanks_and_dashes() {
    let d = counter_digits(Some(10), 10);
    assert_eq!(d, vec![CounterDigit::Digit(0), CounterDigit::Digit(1)]);
    // leading zeros beyond the units digit stay blank
    let d = counter_digits(Some(5), 99);
    assert_eq!(d, vec![CounterDigit::Digit(5), CounterDigit::Empty]);
    // an unknown value shows dashes everywhere
    let d = counter_digits(None, 100);
    assert_eq!(d, vec![CounterDigit::Dash, CounterDigit::Dash, CounterDigit::Dash]);
    // the counter always has at least two slots
    let d = counter_digits(Some(0), 0);
    assert_eq!(d, vec![CounterDigit::Digit(0), CounterDigit::Empty]);
}

#[test]
fn timer_splits_minutes_and_seconds() {
    let (digits, lit) = timer_digits(Some(75_000));
    assert_eq!(digits, vec![None, Some(1), Some(1), Some(5)]);
    assert!(lit);
    // over ten minutes the tens-of-minutes digit appears
    let (digits, _) = timer_digits(Some(725_000));
    assert_eq!(digits, vec![Some(1), Some(2), Some(0), Some(5)]);
    // the display freezes at 99:59
    let (digits, _) = timer_digits(Some(7_000_000));
    assert_eq!(digits, vec![Some(9), Some(9), Some(5), Some(9)]);
    let (digits, lit) = timer_digits(None);
    assert_eq!(digits, vec![None, None, None, None]);
    assert!(!lit);
}

#[test]
fn element_timer_runs_only_while_playing() {
    let mut e = MinesweeperElement::new();
    // before the first dig there is no time to show
    e.update(500, false);
    assert_eq!(e.timer_ms, None);
    e.game = Minesweeper::new(5, 5, 2);
    assert!(e.game.start_with_mines(&vec![20, 22], 2));
    e.update(500, false);
    assert_eq!(e.timer_ms, Some(500));
    e.update(700, false);
    assert_eq!(e.timer_ms, Some(1200));
    // winning freezes the clock
    assert!(e.game.dig(21));
    assert_eq!(e.game.state, GameState::Win);
    e.update(900, false);
    assert_eq!(e.timer_ms, Some(1200));
}

#[test]
fn new_game_request_latches_until_read() {
    let mut e = MinesweeperElement::new();
    assert!(!e.requesting_new_game());
    e.update(16, true);
    e.update(16, false);
    assert!(e.requesting_new_game());
    assert!(!e.requesting_new_game());
}
