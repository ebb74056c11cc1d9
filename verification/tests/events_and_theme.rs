use kazeterm::events::{AppEvent, JsonEvent};
use kazeterm::theme::{rgb_for_index, ThemeColorsConfig, ThemeMode};

#[test]
fn test_event_debug_format() {
    let event = AppEvent::NewTerminalWithDefaultProfile;
    assert!(format!("{:?}", event).contains("NewTerminalWithDefaultProfile"));

    let event = AppEvent::NewTerminalWithProfile {
        profile_name: "bash".to_string(),
        working_directory: Some("/home".to_string()),
    };
    assert!(format!("{:?}", event).contains("bash"));
}

#[test]
fn test_json_event_to_app_event() {
    let json_event = JsonEvent::NewTerminalWithDefaultProfile;
    let app_event: AppEvent = json_event.into();
    assert!(matches!(app_event, AppEvent::NewTerminalWithDefaultProfile));

    let json_event = JsonEvent::SwitchToTab { position: 3 };
    let app_event: AppEvent = json_event.into();
    assert!(matches!(app_event, AppEvent::SwitchToTab { position: 3 }));
}

#[test]
fn test_event_discriminant() {
    assert_eq!(
        AppEvent::NewTerminalWithDefaultProfile.discriminant(),
        "NewTerminalWithDefaultProfile"
    );
    assert_eq!(
        AppEvent::NewTerminalWithProfile {
            profile_name: "bash".into(),
            working_directory: None,
        }
        .discriminant(),
        "NewTerminalWithProfile"
    );
    assert_eq!(
        AppEvent::SwitchToTab { position: 0 }.discriminant(),
        "SwitchToTab"
    );
    assert_eq!(
        AppEvent::Custom {
            name: "x".into(),
            data: "y".into()
        }
        .discriminant(),
        "Custom"
    );
}

#[test]
fn json_events_map_onto_matching_app_events() {
    let app: AppEvent = JsonEvent::CloseTab { tab_index: 7 }.into();
    assert!(matches!(app, AppEvent::CloseTab { tab_index: 7 }));
    let app: AppEvent = JsonEvent::SendTextToTerminal { text: "ls\n".into() }.into();
    assert!(matches!(app, AppEvent::SendTextToTerminal { text } if text == "ls\n"));
    let app: AppEvent = JsonEvent::SplitVertical.into();
    assert_eq!(app.discriminant(), "SplitVertical");
}

#[test]
fn theme_colors_config_default_populates_all_fields() {
    let cfg = ThemeColorsConfig::default();
    // Ensure none of the fields are left as None
    assert!(cfg.terminal_background.is_some());
    assert!(cfg.terminal_foreground.is_some());
    assert!(cfg.terminal_cursor.is_some());
    assert!(cfg.terminal_ansi_black.is_some());
    assert!(cfg.terminal_ansi_bright_white.is_some());
    assert!(cfg.background.is_some());
    assert!(cfg.surface_background.is_some());
    assert!(cfg.text.is_some());
    assert!(cfg.text_muted.is_some());
    assert!(cfg.border.is_some());
    assert!(cfg.tab_active_background.is_some());
    assert!(cfg.tab_inactive_background.is_some());
    assert!(cfg.title_bar_background.is_some());
}

#[test]
fn default_theme_colors_match_expected_hex() {
    let cfg = ThemeColorsConfig::default();
    assert_eq!(cfg.terminal_background.unwrap(), "#282C33FF");
    assert_eq!(cfg.terminal_foreground.unwrap(), "#DCE0E5FF");
    assert_eq!(cfg.terminal_cursor.unwrap(), "#74ADE8FF");
    assert_eq!(cfg.terminal_ansi_red.unwrap(), "#D07277FF");
    assert_eq!(cfg.title_bar_background.unwrap(), "#2F343EFF");
}

#[test]
fn rgb_for_index_inverts_formula() {
    // r=1,g=2,b=3
    let index = 16 + 36 * 1 + 6 * 2 + 3;
    assert_eq!(rgb_for_index(index as u8), (1, 2, 3));

    // extremes
    assert_eq!(rgb_for_index(16), (0, 0, 0));
    assert_eq!(rgb_for_index(231), (5, 5, 5));
}

#[test]
fn theme_mode_defaults_to_dark() {
    assert_eq!(ThemeMode::default(), ThemeMode::Dark);
    assert_ne!(ThemeMode::Light, ThemeMode::Dark);
}

#[test]
fn embedded_theme_names_are_filtered_and_stripped() {
    let paths = vec![
        String::from("themes/one dark.toml"),
        String::from("fonts/mono.ttf"),
        String::from("themes/light.toml"),
        String::from("themes/nested/x.toml"),
        String::from("icons/square-terminal.svg"),
    ];
    let names = kazeterm::theme::list_themes(&paths);
    assert_eq!(
        names,
        vec![
            String::from("one dark"),
            String::from("light"),
            String::from("nested/x")
        ]
    );
}
