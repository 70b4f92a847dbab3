use cricket_rs::ui::UiState;

#[test]
fn new_state_has_first_tab_in_focus_and_no_scroll() {
    let state = UiState::new(3);
    assert_eq!(state.focused_tab, 0);
    assert_eq!(state.scrd_scroll, vec![(0, 0), (0, 0), (0, 0)]);
    let none = UiState::new(0);
    assert_eq!(none.focused_tab, 0);
    assert_eq!(none.scrd_scroll, vec![]);
}

#[test]
fn focus_moves_right_up_to_the_last_tab() {
    let mut state = UiState::new(3);
    state.add_focused_tab(1);
    assert_eq!(state.focused_tab, 1);
    state.add_focused_tab(1);
    assert_eq!(state.focused_tab, 2);
    state.add_focused_tab(1);
    assert_eq!(state.focused_tab, 2);
    assert_eq!(state.scrd_scroll, vec![(0, 0), (0, 0), (0, 0)]);
}

#[test]
fn focus_may_step_beyond_the_last_tab_in_one_move() {
    let mut state = UiState::new(3);
    state.add_focused_tab(5);
    assert_eq!(state.focused_tab, 5);
    state.add_focused_tab(1);
    assert_eq!(state.focused_tab, 5);

    let mut wide = UiState::new(2);
    wide.add_focused_tab(usize::MAX);
    assert_eq!(wide.focused_tab, usize::MAX);

    let mut one = UiState::new(1);
    one.add_focused_tab(1);
    assert_eq!(one.focused_tab, 0);
}

#[test]
fn focus_moves_left_down_to_the_first_tab() {
    let mut state = UiState::new(4);
    state.add_focused_tab(3);
    state.sub_focused_tab(1);
    assert_eq!(state.focused_tab, 2);
    state.sub_focused_tab(5);
    assert_eq!(state.focused_tab, 0);
    state.sub_focused_tab(1);
    assert_eq!(state.focused_tab, 0);
    let mut none = UiState::new(0);
    none.sub_focused_tab(1);
    assert_eq!(none.focused_tab, 0);
}

#[test]
fn scroll_stops_two_lines_before_its_limit() {
    let mut state = UiState::new(2);
    state.add_focused_tab(1);
    state.update_scroll_max_length(5);
    assert_eq!(state.scrd_scroll, vec![(0, 0), (0, 5)]);
    state.add_scrd_scroll(1);
    assert_eq!(state.current_scroll_value(), 1);
    state.add_scrd_scroll(1);
    state.add_scrd_scroll(1);
    assert_eq!(state.current_scroll_value(), 3);
    state.add_scrd_scroll(1);
    assert_eq!(state.current_scroll_value(), 3);
    assert_eq!(state.scrd_scroll, vec![(0, 0), (3, 5)]);
}

#[test]
fn scroll_may_step_beyond_its_limit_in_one_move() {
    let mut state = UiState::new(1);
    state.update_scroll_max_length(10);
    state.add_scrd_scroll(20);
    assert_eq!(state.current_scroll_value(), 20);
    state.add_scrd_scroll(1);
    assert_eq!(state.current_scroll_value(), 20);

    let mut far = UiState::new(1);
    far.update_scroll_max_length(u16::MAX);
    far.add_scrd_scroll(u16::MAX - 3);
    far.add_scrd_scroll(7);
    assert_eq!(far.current_scroll_value(), u16::MAX);

    let mut tight = UiState::new(1);
    tight.update_scroll_max_length(2);
    tight.add_scrd_scroll(1);
    assert_eq!(tight.current_scroll_value(), 0);
}

#[test]
fn scroll_moves_up_to_the_top() {
    let mut state = UiState::new(2);
    state.update_scroll_max_length(30);
    state.add_scrd_scroll(12);
    state.sub_scrd_scroll(5);
    assert_eq!(state.current_scroll_value(), 7);
    state.sub_scrd_scroll(8);
    assert_eq!(state.current_scroll_value(), 0);
    state.sub_scrd_scroll(1);
    assert_eq!(state.current_scroll_value(), 0);
    assert_eq!(state.scrd_scroll, vec![(0, 30), (0, 0)]);
}

#[test]
fn each_tab_keeps_its_own_scroll() {
    let mut state = UiState::new(3);
    state.update_scroll_max_length(10);
    state.add_scrd_scroll(4);
    state.add_focused_tab(2);
    state.update_scroll_max_length(20);
    state.add_scrd_scroll(9);
    assert_eq!(state.scrd_scroll, vec![(4, 10), (0, 0), (9, 20)]);
    assert_eq!(state.current_scroll_value(), 9);
    state.sub_focused_tab(2);
    assert_eq!(state.current_scroll_value(), 4);
    state.update_scroll_max_length(3);
    assert_eq!(state.scrd_scroll, vec![(4, 3), (0, 0), (9, 20)]);
}

#[test]
fn tick_removes_positions_one_after_the_other() {
    let mut state = UiState::new(5);
    for tab in 0..5u16 {
        state.update_scroll_max_length(10 + tab);
        state.add_focused_tab(1);
    }
    assert_eq!(state.scrd_scroll, vec![(0, 10), (0, 11), (0, 12), (0, 13), (0, 14)]);

    state.update_on_tick(&[]);
    assert_eq!(state.scrd_scroll.len(), 5);
    assert_eq!(state.focused_tab, 4);

    state.update_on_tick(&[1]);
    assert_eq!(state.scrd_scroll, vec![(0, 10), (0, 12), (0, 13), (0, 14)]);

    state.update_on_tick(&[0, 1]);
    assert_eq!(state.scrd_scroll, vec![(0, 12), (0, 14)]);

    state.update_on_tick(&[1, 0]);
    assert_eq!(state.scrd_scroll, vec![]);
    assert_eq!(state.focused_tab, 4);
}
