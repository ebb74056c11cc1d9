use kazeterm::profile::Profile;
use kazeterm::session::{Session, TabRemoval, TabSpec, TerminalCloseOutcome};
use kazeterm::split_pane::SplitDirection;

fn tab(title: &str) -> TabSpec {
    TabSpec {
        title: String::from(title),
        shell_path: String::from("/bin/sh"),
        shell_name: String::from("sh"),
    }
}

fn session_with_tabs(titles: &[&str], close_on_last_tab: bool) -> Session {
    let mut s = Session::new(close_on_last_tab);
    for t in titles {
        s.insert_new_tab(tab(t));
    }
    s
}

#[test]
fn scenario_remove_before_and_after_active() {
    // Tabs [A, B, C], active position 1 (B).
    let mut s = session_with_tabs(&["A", "B", "C"], true);
    s.set_active_tab(1);
    let a_id = s.items[0].index;
    let c_id = s.items[2].index;

    // Removing A (before the active tab) shifts the active position to 0.
    assert!(matches!(s.remove_tab_by(a_id, tab("fresh")), TabRemoval::Removed));
    assert_eq!(s.items.len(), 2);
    assert_eq!(s.items[0].title, "B");
    assert_eq!(s.items[1].title, "C");
    assert_eq!(s.active_tab_ix, Some(0));

    // Removing C (after the active tab) leaves the active position alone.
    assert!(matches!(s.remove_tab_by(c_id, tab("fresh")), TabRemoval::Removed));
    assert_eq!(s.items.len(), 1);
    assert_eq!(s.items[0].title, "B");
    assert_eq!(s.active_tab_ix, Some(0));
}

#[test]
fn remove_active_tab_clamps_position() {
    // Removing the active tab selects the same position, clamped to the
    // new length.
    let mut s = session_with_tabs(&["A", "B", "C"], true);
    s.set_active_tab(2);
    let c_id = s.items[2].index;
    assert!(matches!(s.remove_tab_by(c_id, tab("fresh")), TabRemoval::Removed));
    assert_eq!(s.active_tab_ix, Some(1));

    let mut s = session_with_tabs(&["A", "B", "C"], true);
    s.set_active_tab(1);
    let b_id = s.items[1].index;
    assert!(matches!(s.remove_tab_by(b_id, tab("fresh")), TabRemoval::Removed));
    assert_eq!(s.active_tab_ix, Some(1));
    assert_eq!(s.items[1].title, "C");
}

#[test]
fn stale_tab_id_is_a_no_op() {
    let mut s = session_with_tabs(&["A", "B"], true);
    s.set_active_tab(0);
    assert!(matches!(s.remove_tab_by(999, tab("fresh")), TabRemoval::NotFound));
    assert_eq!(s.items.len(), 2);
    assert_eq!(s.active_tab_ix, Some(0));
}

#[test]
fn last_tab_policy_close_window() {
    let mut s = session_with_tabs(&["A"], true);
    let a_id = s.items[0].index;
    assert!(matches!(s.remove_tab_by(a_id, tab("fresh")), TabRemoval::CloseWindow));
    assert_eq!(s.items.len(), 0);
    assert_eq!(s.active_tab_ix, None);
}

#[test]
fn last_tab_policy_opens_fresh_tab() {
    let mut s = session_with_tabs(&["A"], false);
    let a_id = s.items[0].index;
    match s.remove_tab_by(a_id, tab("fresh")) {
        TabRemoval::OpenedFresh { new_index } => {
            assert_eq!(s.items.len(), 1);
            assert_eq!(s.items[0].title, "fresh");
            assert_eq!(s.items[0].index, new_index);
            assert_eq!(s.active_tab_ix, Some(0));
            // The replacement got a fresh id, not the removed one.
            assert!(new_index > a_id);
        },
        _ => panic!("expected a fresh tab to be opened"),
    }
}

#[test]
fn move_tab_rebases_active_position() {
    // Moving the active tab keeps it selected at its new place.
    let mut s = session_with_tabs(&["A", "B", "C", "D"], true);
    s.set_active_tab(1);
    s.move_tab(1, 3);
    let titles: Vec<&str> = s.items.iter().map(|i| i.title.as_str()).collect();
    assert_eq!(titles, vec!["A", "C", "D", "B"]);
    assert_eq!(s.active_tab_ix, Some(3));

    // Moving a tab across the active one shifts it by one.
    let mut s = session_with_tabs(&["A", "B", "C", "D"], true);
    s.set_active_tab(2);
    s.move_tab(0, 3);
    let titles: Vec<&str> = s.items.iter().map(|i| i.title.as_str()).collect();
    assert_eq!(titles, vec!["B", "C", "D", "A"]);
    assert_eq!(s.active_tab_ix, Some(1));

    // A move that does not straddle the active position leaves it alone.
    let mut s = session_with_tabs(&["A", "B", "C", "D"], true);
    s.set_active_tab(0);
    s.move_tab(2, 3);
    assert_eq!(s.active_tab_ix, Some(0));

    // Out-of-range positions are a no-op.
    let mut s = session_with_tabs(&["A", "B"], true);
    s.move_tab(0, 5);
    let titles: Vec<&str> = s.items.iter().map(|i| i.title.as_str()).collect();
    assert_eq!(titles, vec!["A", "B"]);
}

#[test]
fn rename_with_whitespace_clears_custom_title() {
    let mut s = session_with_tabs(&["auto"], true);
    let id = s.items[0].index;

    s.rename_tab(id, Some(String::from("mine")));
    assert_eq!(s.items[0].display_title(), "mine");

    // An all-whitespace rename behaves identically to clearing.
    s.rename_tab(id, Some(String::from(" \t\n ")));
    assert_eq!(s.items[0].display_title(), "auto");
    assert!(s.items[0].custom_title.is_none());

    s.rename_tab(id, Some(String::from("mine")));
    s.rename_tab(id, None);
    assert_eq!(s.items[0].display_title(), "auto");
    assert!(s.items[0].custom_title.is_none());
}

#[test]
fn auto_title_updates_respect_custom_title() {
    let mut s = session_with_tabs(&["auto"], true);
    let handle = s.items[0].index;

    // Without an override the auto title follows the terminal.
    assert!(s.update_tab_title(handle, String::from("vim")));
    assert_eq!(s.items[0].display_title(), "vim");

    // An identical update is not a change.
    assert!(!s.update_tab_title(handle, String::from("vim")));

    // While a custom title is set, updates are ignored.
    s.rename_tab(s.items[0].index, Some(String::from("mine")));
    assert!(!s.update_tab_title(handle, String::from("emacs")));
    assert_eq!(s.items[0].display_title(), "mine");
    assert_eq!(s.items[0].title, "vim");

    // A stale handle is a no-op.
    assert!(!s.update_tab_title(9999, String::from("zsh")));
}

#[test]
fn split_and_close_through_session() {
    let mut s = session_with_tabs(&["A"], true);
    let first_handle = s.items[0].index;

    let new_handle = s.split_pane(SplitDirection::Vertical).unwrap();
    assert!(new_handle > first_handle);
    assert_eq!(s.items[0].split_container.root.count_panes(), 2);
    assert_eq!(s.active_terminal(), Some(new_handle));

    let other = s.split_pane_horizontal().unwrap();
    assert_eq!(s.items[0].split_container.root.count_panes(), 3);
    assert_eq!(s.active_terminal(), Some(other));

    assert!(s.close_active_pane());
    assert_eq!(s.items[0].split_container.root.count_panes(), 2);

    assert!(s.close_active_pane());
    assert_eq!(s.items[0].split_container.root.count_panes(), 1);

    // The last pane of the tab refuses the pane-close path.
    assert!(!s.close_active_pane());
    assert_eq!(s.items.len(), 1);
}

#[test]
fn terminal_exit_closes_pane_or_whole_tab() {
    let mut s = session_with_tabs(&["A", "B"], false);
    s.set_active_tab(0);
    let b_handle = s.items[1].index;

    // Tab B gains a second pane; its first terminal exiting closes just
    // that pane.
    s.set_active_tab(1);
    let b_second = s.split_pane(SplitDirection::Vertical).unwrap();
    s.set_active_tab(0);
    assert!(matches!(
        s.handle_terminal_closed(b_handle, tab("fresh")),
        TerminalCloseOutcome::PaneClosed
    ));
    assert_eq!(s.items.len(), 2);
    assert_eq!(s.items[1].split_container.root.count_panes(), 1);

    // The remaining pane exiting removes the whole tab.
    assert!(matches!(
        s.handle_terminal_closed(b_second, tab("fresh")),
        TerminalCloseOutcome::TabClosed(TabRemoval::Removed)
    ));
    assert_eq!(s.items.len(), 1);
    assert_eq!(s.items[0].title, "A");

    // A stale handle is a no-op.
    assert!(matches!(
        s.handle_terminal_closed(9999, tab("fresh")),
        TerminalCloseOutcome::NotFound
    ));
    assert_eq!(s.items.len(), 1);
}

#[test]
fn sole_pane_of_sole_tab_degenerates_into_tab_removal() {
    let mut s = session_with_tabs(&["only"], true);
    let handle = s.items[0].index;
    assert!(matches!(
        s.handle_terminal_closed(handle, tab("fresh")),
        TerminalCloseOutcome::TabClosed(TabRemoval::CloseWindow)
    ));
    assert_eq!(s.items.len(), 0);
}

#[test]
fn tab_selection_cycles_with_wraparound() {
    let mut s = session_with_tabs(&["A", "B", "C"], true);
    s.set_active_tab(2);
    s.select_next_tab();
    assert_eq!(s.active_tab_ix, Some(0));
    s.select_previous_tab();
    assert_eq!(s.active_tab_ix, Some(2));
    s.select_previous_tab();
    assert_eq!(s.active_tab_ix, Some(1));
    // Selecting a position outside the list is a no-op.
    s.set_active_tab(7);
    assert_eq!(s.active_tab_ix, Some(1));
}

#[test]
fn duplicate_tab_reopens_same_shell() {
    let mut s = Session::new(true);
    s.insert_new_tab(TabSpec {
        title: String::from("bash"),
        shell_path: String::from("/usr/bin/bash"),
        shell_name: String::from("bash"),
    });
    let id = s.items[0].index;
    let profiles: Vec<Profile> = Vec::new();
    let ssh_hosts: Vec<String> = Vec::new();
    let r = s.duplicate_tab(id, Some(String::from("/tmp")), &profiles, &ssh_hosts, "sh");
    let (new_index, args, wd) = r.unwrap();
    assert_eq!(s.items.len(), 2);
    assert_eq!(s.items[1].index, new_index);
    // The duplicated tab opens "what you'd type to return here": the source
    // tab's shell path, resolved as a profile name (here: no such profile,
    // no such ssh host, so the default shell).
    assert_eq!(s.items[1].title, "/usr/bin/bash");
    assert_eq!(s.items[1].shell_path, "sh");
    assert!(args.is_empty());
    assert_eq!(wd, Some(String::from("/tmp")));
    assert_eq!(s.active_tab_ix, Some(1));

    // A stale id duplicates nothing.
    assert!(s.duplicate_tab(999, None, &profiles, &ssh_hosts, "sh").is_none());
}

#[test]
fn close_active_tab_removes_the_selected_one() {
    let mut s = session_with_tabs(&["A", "B", "C"], true);
    s.set_active_tab(1);
    assert!(matches!(s.close_active_tab(tab("fresh")), TabRemoval::Removed));
    let titles: Vec<&str> = s.items.iter().map(|i| i.title.as_str()).collect();
    assert_eq!(titles, vec!["A", "C"]);
    assert_eq!(s.active_tab_ix, Some(1));
}

#[test]
fn list_tabs_reports_ids_and_display_titles() {
    let mut s = session_with_tabs(&["A", "B"], true);
    s.rename_tab(s.items[1].index, Some(String::from("custom")));
    let listed = s.list_tabs();
    assert_eq!(listed.len(), 2);
    assert_eq!(listed[0], (s.items[0].index, String::from("A")));
    assert_eq!(listed[1], (s.items[1].index, String::from("custom")));
}
