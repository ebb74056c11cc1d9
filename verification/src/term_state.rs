//! Plain state carried around the terminal view: input-method state,
//! scrollbar and minimap metrics, cursor coordinates, and the events that
//! flow between the terminal collaborator and the session.

use vstd::prelude::*;

verus! {

/// Input-method composition state: the text being composed and its
/// selected range, in UTF-16 code units.
pub struct ImeState {
    pub marked_text: String,
    pub marked_range_utf16: Option<(usize, usize)>,
}

/// Scrollbar state: how much content there is and where the view sits.
#[derive(Clone, Debug)]
pub struct ScrollbarState {
    /// Total number of lines in the terminal (visible plus history).
    pub total_lines: usize,
    /// Number of visible lines.
    pub visible_lines: usize,
    /// Current scroll offset (0 at the bottom, `history_size` at the top).
    pub display_offset: usize,
    /// History size: the largest scroll offset.
    pub history_size: usize,
}

impl ScrollbarState {
    pub fn new(total_lines: usize, visible_lines: usize, display_offset: usize, history_size: usize) -> (r:
        Self)
        ensures
            r == (ScrollbarState { total_lines, visible_lines, display_offset, history_size }),
    {
        ScrollbarState { total_lines, visible_lines, display_offset, history_size }
    }

    /// Whether the scrollbar should be shown: only when there is history to
    /// scroll back into.
    pub fn should_show(&self) -> (r: bool)
        ensures
            r == (self.history_size > 0),
    {
        self.history_size > 0
    }
}

/// Minimap state: the same content metrics as the scrollbar.
#[derive(Clone, Debug)]
pub struct MinimapState {
    /// Total number of lines in the terminal (visible plus history).
    pub total_lines: usize,
    /// Number of visible lines.
    pub visible_lines: usize,
    /// Current scroll offset (0 at the bottom, `history_size` at the top).
    pub display_offset: usize,
    /// History size: the largest scroll offset.
    pub history_size: usize,
}

impl MinimapState {
    pub fn new(total_lines: usize, visible_lines: usize, display_offset: usize, history_size: usize) -> (r:
        Self)
        ensures
            r == (MinimapState { total_lines, visible_lines, display_offset, history_size }),
    {
        MinimapState { total_lines, visible_lines, display_offset, history_size }
    }
}

/// Upward-flowing events from the terminal engine, for changing the title
/// and such.
#[derive(Clone, Debug)]
pub enum Event {
    TitleChanged,
    CloseTerminal,
    Bell,
    Wakeup,
    BlinkChanged(bool),
    SelectionsChanged,
    NewNavigationTarget(Option<String>),
    Open(String),
}

/// Whether a mouse selection is still being dragged out or has ended.
#[derive(PartialEq, Eq, Structural)]
pub enum SelectionPhase {
    Selecting,
    Ended,
}

/// Events a terminal view sends up to the session: a title update, a
/// repaint request, or the exit of the underlying process, keyed by the
/// terminal's stable index.
#[derive(Clone, Debug)]
pub enum TerminalEvent {
    UpdateTab,
    Wakeup,
    CloseTerminal(usize),
}

/// A cursor position in displayed coordinates. In grid coordinates, lines
/// above the viewport are negative; the display offset shifts them into
/// view.
pub struct DisplayCursor {
    line: i32,
    col: usize,
}

impl DisplayCursor {
    /// The displayed position of a grid point: the line shifted by the
    /// display offset.
    pub fn from(line: i32, col: usize, display_offset: usize) -> (r: Self)
        requires
            display_offset <= i32::MAX,
            line + display_offset <= i32::MAX,
        ensures
            r.spec_line() == line + display_offset,
            r.spec_col() == col,
    {
        DisplayCursor { line: line + (display_offset as i32), col }
    }

    /// The displayed line.
    pub closed spec fn spec_line(self) -> int {
        self.line as int
    }

    /// The displayed column.
    pub closed spec fn spec_col(self) -> int {
        self.col as int
    }

    pub fn line(&self) -> (r: i32)
        ensures
            r == self.spec_line(),
    {
        self.line
    }

    pub fn col(&self) -> (r: usize)
        ensures
            r == self.spec_col(),
    {
        self.col
    }
}

/// Whether the character draws box, block, shape or powerline decoration,
/// which is rendered as-is rather than contrast-adjusted.
pub open spec fn spec_is_decorative(u: u32) -> bool {
    ||| (0x2500 <= u <= 0x257F)  // box drawing
    ||| (0x2580 <= u <= 0x259F)  // block elements
    ||| (0x25A0 <= u <= 0x25FF)  // geometric shapes
    ||| (0xE0B0 <= u <= 0xE0B7)  // powerline triangles and half circles
    ||| (0xE0B8 <= u <= 0xE0BF)  // powerline corner triangles
    ||| (0xE0C0 <= u <= 0xE0CA)  // powerline flames, pixelated, ice
    ||| (0xE0CC <= u <= 0xE0D1)  // powerline honeycombs and lego
    ||| (0xE0D2 <= u <= 0xE0D7)  // powerline trapezoids, inverted triangles
}

/// Whether the character draws box, block, shape or powerline decoration.
pub fn is_decorative_character(ch: char) -> (r: bool)
    ensures
        r == spec_is_decorative(ch as u32),
{
    let u = ch as u32;
    (0x2500 <= u && u <= 0x257F) || (0x2580 <= u && u <= 0x259F) || (0x25A0 <= u && u <= 0x25FF)
        || (0xE0B0 <= u && u <= 0xE0B7) || (0xE0B8 <= u && u <= 0xE0BF) || (0xE0C0 <= u && u
        <= 0xE0CA) || (0xE0CC <= u && u <= 0xE0D1) || (0xE0D2 <= u && u <= 0xE0D7)
}

/// The default icon shown for a shell when none can be derived from the
/// shell's own executable.
pub fn get_default_shell_icon_path() -> (r: &'static str)
    ensures
        r@ == "icons/square-terminal.svg"@,
{
    "icons/square-terminal.svg"
}

} // verus!
