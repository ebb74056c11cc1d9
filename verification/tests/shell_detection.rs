use kazeterm::shell::{
    detect_container_shells, detect_shells, fallback_shell, get_default_shell,
    get_shell_candidates, select_available_shells,
};

#[test]
fn test_detect_shells_returns_non_empty() {
    let shells = detect_shells();
    // Should always find at least one shell on any system
    assert!(!shells.is_empty(), "Should detect at least one shell");
}

#[test]
fn test_get_default_shell() {
    let default = get_default_shell();
    assert!(default.is_some(), "Should have a default shell");
}

#[test]
fn test_fallback_shell_is_valid() {
    let fallback = fallback_shell();
    assert!(!fallback.is_empty(), "Fallback shell should not be empty");
}

#[test]
fn detected_shells_have_no_duplicate_commands() {
    let shells = detect_shells();
    for (i, a) in shells.iter().enumerate() {
        assert!(!a.name.is_empty());
        assert!(!a.command.is_empty());
        for b in shells.iter().skip(i + 1) {
            assert_ne!(a.command, b.command);
        }
    }
}

#[test]
fn probe_outcomes_select_candidates_in_priority_order() {
    let candidates = get_shell_candidates();
    let available = vec![false, true, false, false, true];
    let selected = select_available_shells(&candidates, &available);
    assert_eq!(selected.len(), 2);
    assert_eq!(selected[0].name, "Zsh");
    assert_eq!(selected[0].command, "zsh");
    assert_eq!(selected[1].name, "sh");
    assert_eq!(selected[1].command, "sh");

    let none = select_available_shells(&candidates, &vec![false; 5]);
    assert!(none.is_empty());
}

#[test]
fn container_listings_become_labelled_shells() {
    let docker = "web\ndb\n";
    let podman = "  sandbox  \n\n";
    let shells = detect_container_shells(Some(docker), Some(podman), None);
    assert_eq!(shells.len(), 3);
    assert_eq!(shells[0].name, "[Docker] web");
    assert_eq!(shells[0].command, "docker exec -it web /bin/sh");
    assert_eq!(shells[1].name, "[Docker] db");
    assert_eq!(shells[1].command, "docker exec -it db /bin/sh");
    // White space around a container name is trimmed, and blank lines are
    // skipped.
    assert_eq!(shells[2].name, "[Podman] sandbox");
    assert_eq!(shells[2].command, "podman exec -it sandbox /bin/sh");
}

#[test]
fn distrobox_listing_skips_header_and_name_column() {
    let listing = "ID | NAME | STATUS | IMAGE\n1 | ubuntu | Up | ubuntu:24.04\n2 |  | Up | x\n3 | NAME | Up | y\n4 | arch | Up | arch\n";
    let shells = detect_container_shells(None, None, Some(listing));
    assert_eq!(shells.len(), 2);
    assert_eq!(shells[0].name, "[Distrobox] ubuntu");
    assert_eq!(shells[0].command, "distrobox enter ubuntu");
    assert_eq!(shells[1].name, "[Distrobox] arch");
    assert_eq!(shells[1].command, "distrobox enter arch");
}

#[test]
fn absent_listings_yield_no_container_shells() {
    let shells = detect_container_shells(None, None, None);
    assert!(shells.is_empty());
    let shells = detect_container_shells(Some(""), Some("\n"), Some(""));
    assert!(shells.is_empty());
}
