use kazeterm::profile::{
    file_stem, get_default_profile, get_profile, get_shell, shell_display_name, to_lowercase,
    Profile,
};
use kazeterm::session::resolve_tab_spec;
use kazeterm::text::is_blank;
use kazeterm::term_state::{
    get_default_shell_icon_path, is_decorative_character, DisplayCursor, MinimapState,
    ScrollbarState,
};
use kazeterm::text::{split_char, split_lines, trim};

fn sample_profiles() -> Vec<Profile> {
    vec![
        Profile {
            name: String::from("one"),
            shell: String::from("sh"),
            working_directory: None,
        },
        Profile {
            name: String::from("two"),
            shell: String::from("bash"),
            working_directory: Some(String::from("/tmp")),
        },
    ]
}

#[test]
fn profile_lookup_prefers_configured_default() {
    let profiles = sample_profiles();
    assert_eq!(get_profile(&profiles, "one"), Some(0));
    assert_eq!(get_profile(&profiles, "missing"), None);

    // The configured default wins; a missing default falls back to the
    // first profile; no profiles at all yield nothing.
    assert_eq!(get_default_profile(&profiles, &Some(String::from("two"))), Some(1));
    assert_eq!(get_default_profile(&profiles, &Some(String::from("zzz"))), Some(0));
    assert_eq!(get_default_profile(&profiles, &None), Some(0));
    assert_eq!(get_default_profile(&Vec::new(), &None), None);

    assert_eq!(get_shell(&profiles, &Some(String::from("two")), None, "zsh"), "bash");
    assert_eq!(
        get_shell(&Vec::new(), &None, Some(String::from("/bin/fish")), "zsh"),
        "/bin/fish"
    );
    assert_eq!(get_shell(&Vec::new(), &None, None, "zsh"), "zsh");
}

#[test]
fn resolving_a_known_profile_uses_its_shell() {
    let profiles = sample_profiles();
    let hosts: Vec<String> = Vec::new();
    let (tab, args, wd) = resolve_tab_spec(Some("two"), None, &profiles, &hosts, "sh");
    assert_eq!(tab.title, "two");
    assert_eq!(tab.shell_path, "bash");
    assert_eq!(tab.shell_name, "bash");
    assert!(args.is_empty());
    // The profile's working directory is used when the caller passes none.
    assert_eq!(wd, Some(String::from("/tmp")));

    // A caller-supplied working directory wins over the profile's.
    let (_, _, wd) = resolve_tab_spec(
        Some("two"),
        Some(String::from("/home")),
        &profiles,
        &hosts,
        "sh",
    );
    assert_eq!(wd, Some(String::from("/home")));
}

#[test]
fn resolving_an_ssh_host_opens_ssh() {
    let profiles: Vec<Profile> = Vec::new();
    let hosts = vec![String::from("build-box")];
    let (tab, args, wd) = resolve_tab_spec(Some("build-box"), None, &profiles, &hosts, "sh");
    assert_eq!(tab.title, "build-box");
    assert_eq!(tab.shell_path, "ssh");
    assert_eq!(args, vec![String::from("build-box")]);
    assert_eq!(wd, None);
}

#[test]
fn resolving_without_profile_uses_default_shell() {
    let profiles: Vec<Profile> = Vec::new();
    let hosts: Vec<String> = Vec::new();
    let (tab, args, _) = resolve_tab_spec(None, None, &profiles, &hosts, "/usr/bin/ZSH");
    // The title and display name are the lowercase stem of the shell path.
    assert_eq!(tab.shell_path, "/usr/bin/ZSH");
    assert_eq!(tab.shell_name, "zsh");
    assert_eq!(tab.title, "zsh");
    assert!(args.is_empty());
}

#[test]
fn file_stem_strips_directory_and_extension() {
    assert_eq!(file_stem("/usr/bin/bash"), Some("bash"));
    assert_eq!(file_stem("pwsh.exe"), Some("pwsh"));
    assert_eq!(file_stem("archive.tar.gz"), Some("archive.tar"));
    assert_eq!(file_stem(".bashrc"), Some(".bashrc"));
    assert_eq!(file_stem("a/b/"), None);
    assert_eq!(file_stem(".."), None);
    assert_eq!(file_stem("."), None);
}

#[test]
fn lowercase_goes_through_the_real_folding() {
    // Would fail if the lowercase wrapper handed its argument back
    // unchanged.
    assert_eq!(to_lowercase("PowerShell"), "powershell");
    assert_eq!(to_lowercase(""), "");
    assert_eq!(shell_display_name("C:/Shells/PWSH.exe"), "pwsh");
}

#[test]
fn blank_detection_covers_unicode_whitespace() {
    assert!(is_blank(""));
    assert!(is_blank(" \t\r\n"));
    assert!(is_blank("\u{00A0}\u{2003}"));
    assert!(!is_blank(" x "));
}

#[test]
fn splitting_and_trimming_behave_like_std() {
    let lines = split_lines("a\nb\n");
    assert_eq!(lines, vec![String::from("a"), String::from("b")]);
    let lines = split_lines("a\n\nb");
    assert_eq!(lines, vec![String::from("a"), String::from(""), String::from("b")]);
    assert!(split_lines("").is_empty());

    let parts = split_char("1 | ubuntu | Up", '|');
    assert_eq!(
        parts,
        vec![String::from("1 "), String::from(" ubuntu "), String::from(" Up")]
    );

    assert_eq!(trim("  spaced\tout  "), "spaced\tout");
    assert_eq!(trim("\r\n"), "");
    assert_eq!(trim("solid"), "solid");
}

#[test]
fn ssh_hosts_come_from_host_lines_without_patterns() {
    let config = "# comment\nHost build-box deploy*\n  HostName 10.0.0.2\nhost second third!\nHOST  spaced\nMatch all\n";
    let hosts = kazeterm::profile::get_ssh_hosts(config);
    assert_eq!(
        hosts,
        vec![
            String::from("build-box"),
            String::from("second"),
            String::from("spaced")
        ]
    );
    assert!(kazeterm::profile::get_ssh_hosts("").is_empty());
}

#[test]
fn whitespace_fields_are_split_like_std() {
    let fields = kazeterm::profile::split_fields("  Host\tone  two ");
    assert_eq!(
        fields,
        vec![String::from("Host"), String::from("one"), String::from("two")]
    );
    assert!(kazeterm::profile::split_fields("  \t ").is_empty());
}

#[test]
fn terminal_state_metrics_and_flags() {
    let s = ScrollbarState::new(100, 20, 0, 80);
    assert_eq!(s.total_lines, 100);
    assert_eq!(s.visible_lines, 20);
    assert!(s.should_show());
    let s = ScrollbarState::new(20, 20, 0, 0);
    assert!(!s.should_show());

    let m = MinimapState::new(100, 20, 40, 80);
    assert_eq!(m.display_offset, 40);
    assert_eq!(m.history_size, 80);

    let c = DisplayCursor::from(-3, 7, 10);
    assert_eq!(c.line(), 7);
    assert_eq!(c.col(), 7);

    assert!(is_decorative_character('\u{2502}'));
    assert!(is_decorative_character('\u{E0B0}'));
    assert!(!is_decorative_character('A'));

    assert_eq!(get_default_shell_icon_path(), "icons/square-terminal.svg");
}
