//! Session-layout library for a multi-tab, multi-pane terminal application.
//!
//! The library owns the set of open tabs, the split arrangement of terminal
//! panes within each tab, and the single active selection (active tab plus
//! active pane). Every structural operation — splitting a pane, closing a
//! pane, adding, removing, moving and renaming tabs, and the dispatch of
//! asynchronous notifications keyed by stable handles — is verified against
//! a mathematical model of the pane tree and the tab list.
//!
//! Around that core stand the session's collaborators' plain data and
//! rules: shell profiles and their resolution, shell detection, application
//! events, and theme data.

pub mod events;
pub mod profile;
pub mod session;
pub mod shell;
pub mod split_pane;
pub mod term_state;
pub mod text;
pub mod theme;
