use kazeterm::split_pane::{PaneId, SplitContainer, SplitDirection, SplitPane};

fn leaf(id: usize, terminal: usize) -> SplitPane {
    SplitPane::new_terminal(PaneId(id), terminal)
}

fn split(direction: SplitDirection, first: SplitPane, second: SplitPane) -> SplitPane {
    SplitPane::Split {
        direction,
        first: Box::new(first),
        second: Box::new(second),
        ratio: 500,
    }
}

#[test]
fn scenario_split_twice_then_close_middle_and_last() {
    // One leaf L0 (pane id 0), then split vertically: the tree becomes
    // Split(vertical, Leaf(L0), Leaf(L1)) with L1 active.
    let mut c = SplitContainer::new(10);
    assert_eq!(c.active_pane_id, Some(PaneId(0)));
    let new_id = c.split_active_pane(SplitDirection::Vertical, 11);
    assert_eq!(new_id, Some(PaneId(1)));
    assert_eq!(c.active_pane_id, Some(PaneId(1)));
    let expected = split(SplitDirection::Vertical, leaf(0, 10), leaf(1, 11));
    assert!(c.root.tree_equals(&expected));

    // Split L1 horizontally: Split(vertical, Leaf(L0),
    // Split(horizontal, Leaf(L1), Leaf(L2))), active L2.
    let new_id = c.split_active_pane(SplitDirection::Horizontal, 12);
    assert_eq!(new_id, Some(PaneId(2)));
    assert_eq!(c.active_pane_id, Some(PaneId(2)));
    let expected = split(
        SplitDirection::Vertical,
        leaf(0, 10),
        split(SplitDirection::Horizontal, leaf(1, 11), leaf(2, 12)),
    );
    assert!(c.root.tree_equals(&expected));
    assert!(c.is_well_formed());

    // Close L1 (not the active pane), resolved by its terminal handle:
    // the tree collapses to Split(vertical, Leaf(L0), Leaf(L2)) and the
    // active pane stays L2.
    assert!(c.close_pane_by_terminal_index(11));
    let expected = split(SplitDirection::Vertical, leaf(0, 10), leaf(2, 12));
    assert!(c.root.tree_equals(&expected));
    assert_eq!(c.active_pane_id, Some(PaneId(2)));
    assert!(c.is_well_formed());

    // Close L2 (the active pane): a single leaf L0 remains, no split node
    // is left over, and the active pane is repaired to L0.
    assert!(c.close_active_pane());
    assert!(c.root.tree_equals(&leaf(0, 10)));
    assert_eq!(c.active_pane_id, Some(PaneId(0)));
    assert!(c.is_well_formed());
}

#[test]
fn close_decrements_leaf_count_by_one() {
    let mut c = SplitContainer::new(20);
    c.split_active_pane(SplitDirection::Vertical, 21);
    c.split_active_pane(SplitDirection::Horizontal, 22);
    c.split_active_pane(SplitDirection::Vertical, 23);
    assert_eq!(c.root.count_panes(), 4);

    // Closing an existing pane removes exactly one leaf.
    assert!(c.close_active_pane());
    assert_eq!(c.root.count_panes(), 3);

    // Closing a stale pane id changes nothing.
    let before = c.root.deep_clone();
    let result = c.root.close_pane(PaneId(99));
    assert!(!result.closed);
    assert!(result.replacement.is_none());
    assert!(c.root.tree_equals(&before));
    assert_eq!(c.root.count_panes(), 3);
}

#[test]
fn split_then_close_sibling_restores_tree() {
    // Build a nested tree, remember its shape, split a middle leaf, close
    // the newly created sibling, and expect the identical tree back.
    let mut c = SplitContainer::new(30);
    c.split_active_pane(SplitDirection::Vertical, 31);
    c.split_active_pane(SplitDirection::Horizontal, 32);
    c.set_active_pane(PaneId(1));
    let before = c.root.deep_clone();

    let new_id = c.split_active_pane(SplitDirection::Vertical, 33).unwrap();
    assert!(!c.root.tree_equals(&before));
    let result = c.root.close_pane(new_id);
    assert!(result.closed);
    if let Some(replacement) = result.replacement {
        c.root = replacement;
    }
    assert!(c.root.tree_equals(&before));
}

#[test]
fn deep_close_keeps_untouched_subtrees() {
    // Depth-four nesting: split repeatedly on one side, then close a pane
    // in the middle of the chain. No split node may be left with a missing
    // child and every other subtree must survive.
    let mut c = SplitContainer::new(40);
    c.split_active_pane(SplitDirection::Vertical, 41);
    c.split_active_pane(SplitDirection::Vertical, 42);
    c.split_active_pane(SplitDirection::Vertical, 43);
    // Tree: Split(L0, Split(L1, Split(L2, L3))), active pane id 3.
    c.set_active_pane(PaneId(2));
    assert!(c.close_active_pane());
    let expected = split(
        SplitDirection::Vertical,
        leaf(0, 40),
        split(SplitDirection::Vertical, leaf(1, 41), leaf(3, 43)),
    );
    assert!(c.root.tree_equals(&expected));
    assert_eq!(c.root.count_panes(), 3);
    assert!(c.is_well_formed());
}

#[test]
fn last_pane_is_never_closed_by_pane_close() {
    let mut c = SplitContainer::new(50);
    assert!(!c.close_active_pane());
    assert!(!c.close_pane_by_terminal_index(50));
    assert!(c.root.tree_equals(&leaf(0, 50)));
    assert_eq!(c.active_pane_id, Some(PaneId(0)));
}

#[test]
fn closing_non_active_pane_keeps_active() {
    let mut c = SplitContainer::new(60);
    c.split_active_pane(SplitDirection::Horizontal, 61);
    assert_eq!(c.active_pane_id, Some(PaneId(1)));
    // Close pane id 0 via its terminal handle; the active pane (id 1)
    // still resolves, so it must not change.
    assert!(c.close_pane_by_terminal_index(60));
    assert_eq!(c.active_pane_id, Some(PaneId(1)));
    assert!(c.root.tree_equals(&leaf(1, 61)));
}

#[test]
fn find_and_enumerate_panes() {
    let mut c = SplitContainer::new(70);
    c.split_active_pane(SplitDirection::Vertical, 71);
    c.split_active_pane(SplitDirection::Horizontal, 72);
    assert_eq!(c.root.find_terminal(PaneId(0)), Some(70));
    assert_eq!(c.root.find_terminal(PaneId(2)), Some(72));
    assert_eq!(c.root.find_terminal(PaneId(9)), None);
    assert_eq!(c.root.find_pane_by_terminal_index(71), Some(PaneId(1)));
    assert_eq!(c.root.find_pane_by_terminal_index(99), None);
    let all = c.all_terminals();
    let pairs: Vec<(usize, usize)> = all.iter().map(|(id, t)| (id.0, *t)).collect();
    assert_eq!(pairs, vec![(0, 70), (1, 71), (2, 72)]);
    assert_eq!(c.get_active_terminal(), Some(72));
}

#[test]
fn pane_ids_are_never_reused() {
    let mut c = SplitContainer::new(80);
    c.split_active_pane(SplitDirection::Vertical, 81);
    assert!(c.close_active_pane());
    // Pane id 1 was closed; a new split must get id 2, not 1 again.
    let new_id = c.split_active_pane(SplitDirection::Vertical, 82);
    assert_eq!(new_id, Some(PaneId(2)));
    assert_eq!(c.root.find_terminal(PaneId(1)), None);
}
