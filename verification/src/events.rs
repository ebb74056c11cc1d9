//! Application events: what the surrounding application and external event
//! sources (stdin, a socket) can ask the session to do, and the JSON-facing
//! form those requests arrive in.

use vstd::prelude::*;

verus! {

/// Where external events are read from. Events can always be sent
/// programmatically; this only configures the extra source.
#[derive(Debug, Clone)]
pub enum EventSourceConfig {
    /// No external event source.
    Disabled,
    /// Read events from standard input, one JSON object per line.
    Stdio,
    /// Read events from a Unix domain socket at the given path.
    Socket { path: String },
}

/// A request to the application, from any source.
#[derive(Debug, Clone)]
pub enum AppEvent {
    /// Create a new terminal tab with the default profile.
    NewTerminalWithDefaultProfile,
    /// Create a new terminal tab with a specific profile.
    NewTerminalWithProfile { profile_name: String, working_directory: Option<String> },
    /// Close the active tab.
    CloseActiveTab,
    /// Close a specific tab by its id.
    CloseTab { tab_index: usize },
    /// Switch to the next tab.
    NextTab,
    /// Switch to the previous tab.
    PreviousTab,
    /// Switch to a specific tab by position.
    SwitchToTab { position: usize },
    /// Split the active pane top-and-bottom.
    SplitHorizontal,
    /// Split the active pane side-by-side.
    SplitVertical,
    /// Close the active pane within a split.
    CloseActivePane,
    /// Toggle search bar visibility.
    ToggleSearch,
    /// Show the about dialog.
    ShowAboutDialog,
    /// Reload configuration.
    ReloadConfig,
    /// Focus the active terminal.
    FocusActiveTerminal,
    /// Send text to the active terminal.
    SendTextToTerminal { text: String },
    /// Custom event with arbitrary data, for extensions.
    Custom { name: String, data: String },
}

/// The discriminant of each event: the key handlers are registered under.
pub open spec fn spec_discriminant(e: AppEvent) -> Seq<char> {
    match e {
        AppEvent::NewTerminalWithDefaultProfile => "NewTerminalWithDefaultProfile"@,
        AppEvent::NewTerminalWithProfile { .. } => "NewTerminalWithProfile"@,
        AppEvent::CloseActiveTab => "CloseActiveTab"@,
        AppEvent::CloseTab { .. } => "CloseTab"@,
        AppEvent::NextTab => "NextTab"@,
        AppEvent::PreviousTab => "PreviousTab"@,
        AppEvent::SwitchToTab { .. } => "SwitchToTab"@,
        AppEvent::SplitHorizontal => "SplitHorizontal"@,
        AppEvent::SplitVertical => "SplitVertical"@,
        AppEvent::CloseActivePane => "CloseActivePane"@,
        AppEvent::ToggleSearch => "ToggleSearch"@,
        AppEvent::ShowAboutDialog => "ShowAboutDialog"@,
        AppEvent::ReloadConfig => "ReloadConfig"@,
        AppEvent::FocusActiveTerminal => "FocusActiveTerminal"@,
        AppEvent::SendTextToTerminal { .. } => "SendTextToTerminal"@,
        AppEvent::Custom { .. } => "Custom"@,
    }
}

impl AppEvent {
    /// Returns a string discriminant used as the key for subscriber lookup.
    pub fn discriminant(&self) -> (r: &'static str)
        ensures
            r@ == spec_discriminant(*self),
    {
        match self {
            AppEvent::NewTerminalWithDefaultProfile => "NewTerminalWithDefaultProfile",
            AppEvent::NewTerminalWithProfile { .. } => "NewTerminalWithProfile",
            AppEvent::CloseActiveTab => "CloseActiveTab",
            AppEvent::CloseTab { .. } => "CloseTab",
            AppEvent::NextTab => "NextTab",
            AppEvent::PreviousTab => "PreviousTab",
            AppEvent::SwitchToTab { .. } => "SwitchToTab",
            AppEvent::SplitHorizontal => "SplitHorizontal",
            AppEvent::SplitVertical => "SplitVertical",
            AppEvent::CloseActivePane => "CloseActivePane",
            AppEvent::ToggleSearch => "ToggleSearch",
            AppEvent::ShowAboutDialog => "ShowAboutDialog",
            AppEvent::ReloadConfig => "ReloadConfig",
            AppEvent::FocusActiveTerminal => "FocusActiveTerminal",
            AppEvent::SendTextToTerminal { .. } => "SendTextToTerminal",
            AppEvent::Custom { .. } => "Custom",
        }
    }
}

/// The JSON-facing form of an [`AppEvent`], as external sources send it:
/// one object per line, tagged by event name.
#[derive(Debug)]
pub enum JsonEvent {
    NewTerminalWithDefaultProfile,
    NewTerminalWithProfile { profile_name: String, working_directory: Option<String> },
    CloseActiveTab,
    CloseTab { tab_index: usize },
    NextTab,
    PreviousTab,
    SwitchToTab { position: usize },
    SplitHorizontal,
    SplitVertical,
    CloseActivePane,
    ToggleSearch,
    ShowAboutDialog,
    ReloadConfig,
    FocusActiveTerminal,
    SendTextToTerminal { text: String },
    Custom { name: String, data: String },
}

/// The application event a JSON event stands for: the same variant with the
/// same payload.
pub open spec fn spec_app_event_of(json: JsonEvent) -> AppEvent {
    match json {
        JsonEvent::NewTerminalWithDefaultProfile => AppEvent::NewTerminalWithDefaultProfile,
        JsonEvent::NewTerminalWithProfile { profile_name, working_directory } => (
        AppEvent::NewTerminalWithProfile { profile_name, working_directory }),
        JsonEvent::CloseActiveTab => AppEvent::CloseActiveTab,
        JsonEvent::CloseTab { tab_index } => (AppEvent::CloseTab { tab_index }),
        JsonEvent::NextTab => AppEvent::NextTab,
        JsonEvent::PreviousTab => AppEvent::PreviousTab,
        JsonEvent::SwitchToTab { position } => (AppEvent::SwitchToTab { position }),
        JsonEvent::SplitHorizontal => AppEvent::SplitHorizontal,
        JsonEvent::SplitVertical => AppEvent::SplitVertical,
        JsonEvent::CloseActivePane => AppEvent::CloseActivePane,
        JsonEvent::ToggleSearch => AppEvent::ToggleSearch,
        JsonEvent::ShowAboutDialog => AppEvent::ShowAboutDialog,
        JsonEvent::ReloadConfig => AppEvent::ReloadConfig,
        JsonEvent::FocusActiveTerminal => AppEvent::FocusActiveTerminal,
        JsonEvent::SendTextToTerminal { text } => (AppEvent::SendTextToTerminal { text }),
        JsonEvent::Custom { name, data } => (AppEvent::Custom { name, data }),
    }
}

impl core::convert::From<JsonEvent> for AppEvent {
    /// The application event this JSON event stands for.
    fn from(json: JsonEvent) -> (r: AppEvent) {
        match json {
            JsonEvent::NewTerminalWithDefaultProfile => AppEvent::NewTerminalWithDefaultProfile,
            JsonEvent::NewTerminalWithProfile { profile_name, working_directory } => (
            AppEvent::NewTerminalWithProfile { profile_name, working_directory }),
            JsonEvent::CloseActiveTab => AppEvent::CloseActiveTab,
            JsonEvent::CloseTab { tab_index } => AppEvent::CloseTab { tab_index },
            JsonEvent::NextTab => AppEvent::NextTab,
            JsonEvent::PreviousTab => AppEvent::PreviousTab,
            JsonEvent::SwitchToTab { position } => AppEvent::SwitchToTab { position },
            JsonEvent::SplitHorizontal => AppEvent::SplitHorizontal,
            JsonEvent::SplitVertical => AppEvent::SplitVertical,
            JsonEvent::CloseActivePane => AppEvent::CloseActivePane,
            JsonEvent::ToggleSearch => AppEvent::ToggleSearch,
            JsonEvent::ShowAboutDialog => AppEvent::ShowAboutDialog,
            JsonEvent::ReloadConfig => AppEvent::ReloadConfig,
            JsonEvent::FocusActiveTerminal => AppEvent::FocusActiveTerminal,
            JsonEvent::SendTextToTerminal { text } => AppEvent::SendTextToTerminal { text },
            JsonEvent::Custom { name, data } => AppEvent::Custom { name, data },
        }
    }
}

impl vstd::std_specs::convert::FromSpecImpl<JsonEvent> for AppEvent {
    open spec fn obeys_from_spec() -> bool {
        true
    }

    open spec fn from_spec(json: JsonEvent) -> AppEvent {
        spec_app_event_of(json)
    }
}

/// What kind of watched file changed on disk.
#[derive(Debug, Clone, PartialEq, Eq, Hash, Structural)]
pub enum FileChangeType {
    /// The main config file changed.
    Config,
    /// A theme file changed.
    Theme,
}

} // verus!
