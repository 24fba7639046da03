use chat_core::following::{FollowingWidget, Key, TerminalAction};

fn names(items: &[&str]) -> Vec<String> {
    items.iter().map(|s| s.to_string()).collect()
}

#[test]
fn pok_filters_to_pokimane_and_commits_lowercase() {
    let mut w = FollowingWidget::new(names(&["Asmongold", "Ludwig", "Pokimane"]));
    w.apply_search_edit("pok");
    assert_eq!(
        w.filtered_following,
        Some(vec!["Pokimane".to_string()])
    );
    assert_eq!(w.state.selected, Some(0));
    let action = w.event(Key::Enter);
    assert_eq!(
        action,
        Some(TerminalAction::Commit("pokimane".to_string()))
    );
    assert!(w.is_focused());
    assert_eq!(w.state.selected, None);
}

#[test]
fn empty_backing_list_never_panics_or_selects() {
    for key in [Key::Esc, Key::Enter, Key::ScrollUp, Key::ScrollDown, Key::Other] {
        let mut w = FollowingWidget::new(Vec::new());
        assert_eq!(w.state.selected, None);
        let _ = w.event(key);
        assert_eq!(w.state.selected, None);
        w.apply_search_edit("anything");
        assert_eq!(w.state.selected, None);
    }
}

#[test]
fn filtering_twice_gives_the_same_visible_set() {
    let mut w = FollowingWidget::new(names(&["abc", "axbycz", "zzz"]));
    w.apply_search_edit("abc");
    let first = w.filtered_following.clone();
    assert_eq!(first, Some(names(&["abc", "axbycz"])));
    w.apply_search_edit("abc");
    assert_eq!(w.filtered_following, first);
}

#[test]
fn empty_query_shows_every_item_in_order() {
    let mut w = FollowingWidget::new(names(&["abc", "axbycz", "zzz"]));
    w.apply_search_edit("abc");
    let rows = w.refresh_filter("");
    assert_eq!(w.filtered_following, None);
    assert_eq!(rows.len(), 3);
    assert_eq!(rows[0].label, "abc");
    assert_eq!(rows[1].label, "axbycz");
    assert_eq!(rows[2].label, "zzz");
    assert!(rows.iter().all(|r| r.highlighted.is_empty()));
}

#[test]
fn commit_under_filter_resolves_from_visible_not_backing() {
    let mut w = FollowingWidget::new(names(&["Asmongold", "Ludwig", "Pokimane"]));
    w.apply_search_edit("o");
    assert_eq!(
        w.filtered_following,
        Some(names(&["Asmongold", "Pokimane"]))
    );
    w.next();
    assert_eq!(w.state.selected, Some(1));
    let action = w.event(Key::Enter);
    // index 1 of the visible list, not "ludwig", index 1 of the backing list
    assert_eq!(
        action,
        Some(TerminalAction::Commit("pokimane".to_string()))
    );
}

#[test]
fn matcher_positions_follow_the_query() {
    let mut w = FollowingWidget::new(names(&["axbycz"]));
    let rows = w.refresh_filter("abc");
    assert_eq!(rows.len(), 1);
    assert_eq!(rows[0].highlighted, vec![0, 2, 4]);
    let none_rows = w.refresh_filter("abx");
    assert_eq!(none_rows.len(), 0);
    assert_eq!(w.filtered_following, Some(Vec::new()));
}

#[test]
fn cursor_saturates_at_both_ends() {
    let mut w = FollowingWidget::new(names(&["a", "b", "c"]));
    w.unselect();
    w.next();
    assert_eq!(w.state.selected, Some(0));
    w.next();
    w.next();
    w.next();
    assert_eq!(w.state.selected, Some(2));
    w.previous();
    w.previous();
    w.previous();
    assert_eq!(w.state.selected, Some(0));
    w.unselect();
    w.previous();
    assert_eq!(w.state.selected, Some(0));
}

#[test]
fn escape_clears_selection_then_leaves() {
    let mut w = FollowingWidget::new(names(&["a", "b"]));
    assert_eq!(w.state.selected, Some(0));
    let first = w.event(Key::Esc);
    assert_eq!(first, None);
    assert_eq!(w.state.selected, None);
    assert!(!w.is_focused());
    let second = w.event(Key::Esc);
    assert_eq!(second, Some(TerminalAction::BackOneLayer));
    assert!(w.is_focused());
}

#[test]
fn enter_with_stale_selection_over_empty_view_is_a_no_op() {
    let mut w = FollowingWidget::new(names(&["abc"]));
    assert_eq!(w.state.selected, Some(0));
    w.apply_search_edit("qqq");
    assert_eq!(w.filtered_following, Some(Vec::new()));
    let action = w.event(Key::Enter);
    assert_eq!(action, None);
    assert!(!w.is_focused());
}

#[test]
fn other_keys_are_forwarded_to_the_search_input() {
    let mut w = FollowingWidget::new(names(&["abc"]));
    let action = w.event(Key::Other);
    assert_eq!(action, Some(TerminalAction::ForwardInput));
}

#[test]
fn position_display_is_one_based_over_the_visible_list() {
    let mut w = FollowingWidget::new(names(&["Asmongold", "Ludwig", "Pokimane"]));
    assert_eq!(w.position_display(), (1, 3));
    w.next();
    assert_eq!(w.position_display(), (2, 3));
    w.apply_search_edit("o");
    assert_eq!(w.position_display(), (1, 2));
    w.unselect();
    assert_eq!(w.position_display(), (1, 2));
}

#[test]
fn clearing_the_filter_reclamps_the_cursor() {
    let mut w = FollowingWidget::new(names(&["Asmongold", "Ludwig", "Pokimane"]));
    w.apply_search_edit("o");
    w.next();
    assert_eq!(w.state.selected, Some(1));
    let _ = w.refresh_filter("");
    assert_eq!(w.filtered_following, None);
    assert_eq!(w.state.selected, Some(1));
    w.apply_search_edit("pok");
    assert_eq!(w.state.selected, Some(0));
}
