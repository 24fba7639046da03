use chat_core::app::App;
use chat_core::scroll::Scrolling;
use chat_core::state::State;

#[test]
fn channel_switch_is_insert_like() {
    let s = State::ChannelSwitch;
    assert!(s.in_insert_mode());
    assert_eq!(s.category(), "Insert modes");
}

#[test]
fn insert_like_modes() {
    assert!(State::Insert.in_insert_mode());
    assert!(State::MessageSearch.in_insert_mode());
    assert!(!State::Normal.in_insert_mode());
    assert!(!State::Help.in_insert_mode());
}

#[test]
fn category_of_plain_modes_is_display_name() {
    assert_eq!(State::Normal.category(), "Normal");
    assert_eq!(State::Help.category(), "Help");
    assert_eq!(State::Insert.category(), "Insert modes");
    assert_eq!(State::MessageSearch.category(), "Insert modes");
}

#[test]
fn display_names() {
    assert_eq!(State::Normal.display_name(), "Normal");
    assert_eq!(State::Insert.display_name(), "Insert");
    assert_eq!(State::Help.display_name(), "Help");
    assert_eq!(State::ChannelSwitch.display_name(), "Channel");
    assert_eq!(State::MessageSearch.display_name(), "Search");
}

#[test]
fn scroll_round_trip_not_inverted() {
    let mut s = Scrolling::new(false);
    s.jump_to(5);
    s.up();
    assert_eq!(s.get_offset(), 6);
    s.down();
    assert_eq!(s.get_offset(), 5);
}

#[test]
fn scroll_round_trip_inverted() {
    let mut s = Scrolling::new(true);
    s.jump_to(5);
    s.up();
    assert_eq!(s.get_offset(), 4);
    s.down();
    assert_eq!(s.get_offset(), 5);
}

#[test]
fn scroll_at_origin_stays_put() {
    let mut s = Scrolling::new(false);
    s.up();
    assert_eq!(s.get_offset(), 0);
    s.down();
    assert_eq!(s.get_offset(), 0);
    let mut t = Scrolling::new(true);
    t.up();
    t.down();
    assert_eq!(t.get_offset(), 0);
}

#[test]
fn scroll_inverted_from_one_reaches_origin_and_holds() {
    let mut s = Scrolling::new(true);
    s.jump_to(1);
    s.up();
    assert_eq!(s.get_offset(), 0);
    s.down();
    assert_eq!(s.get_offset(), 0);
}

#[test]
fn clear_messages_resets_offset_and_history() {
    let mut app = App::new(16, State::Normal, false);
    app.add_message("first".to_string());
    app.add_message("second".to_string());
    app.scrolling.jump_to(7);
    app.clear_messages();
    assert_eq!(app.messages.len(), 0);
    assert_eq!(app.scrolling.get_offset(), 0);
}

#[test]
fn clear_messages_on_empty_app() {
    let mut app = App::new(4, State::Help, true);
    app.clear_messages();
    assert_eq!(app.messages.len(), 0);
    assert_eq!(app.scrolling.get_offset(), 0);
}

#[test]
fn history_evicts_oldest_first() {
    let mut app = App::new(2, State::Normal, false);
    app.add_message("a".to_string());
    app.add_message("b".to_string());
    app.add_message("c".to_string());
    assert_eq!(app.messages.len(), 2);
    assert_eq!(app.messages[0], "b");
    assert_eq!(app.messages[1], "c");
}

#[test]
fn history_with_zero_capacity_stays_empty() {
    let mut app = App::new(0, State::Normal, false);
    app.add_message("a".to_string());
    assert_eq!(app.messages.len(), 0);
}

#[test]
fn set_state_overwrites_mode() {
    let mut app = App::new(4, State::Normal, false);
    app.set_state(State::ChannelSwitch);
    assert_eq!(app.state, State::ChannelSwitch);
    app.set_state(State::Normal);
    assert_eq!(app.state, State::Normal);
}
