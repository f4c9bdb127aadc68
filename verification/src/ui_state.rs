//! Screen-level user-interface state, kept apart from the transport layer.

use vstd::prelude::*;

verus! {

/// Which top-level screen is shown.
#[derive(Clone, Copy, PartialEq, Eq, Structural, Debug)]
pub enum Screen {
    Home,
    Chat,
}

/// Which panel currently receives keyboard input.
#[derive(Clone, Copy, PartialEq, Eq, Structural, Debug)]
pub enum Focus {
    Chat,
    Input,
    Visualization,
}

/// All state that only affects presentation: the screen, the input line,
/// scroll position, popup selection and display toggles.
pub struct UIState {
    pub screen: Screen,
    pub input: String,
    pub scroll_offset: usize,
    pub is_loading: bool,
    pub status_message: Option<String>,
    pub command_selection: Option<usize>,
    pub debug_mode: bool,
    pub send_animation: u8,
    pub total_chat_lines: usize,
    pub focus: Focus,
    pub show_visualization: bool,
    pub hovered_point: Option<usize>,
    pub show_raw_markdown: bool,
}

impl Default for Screen {
    fn default() -> (r: Self)
        ensures
            r == Screen::Home,
    {
        Screen::Home
    }
}

impl Default for Focus {
    fn default() -> (r: Self)
        ensures
            r == Focus::Input,
    {
        Focus::Input
    }
}

/// The state a freshly opened session starts in: the home screen, an empty
/// input line, input focus, and every toggle off.
pub open spec fn initial_ui_state(s: UIState) -> bool {
    &&& s.screen == Screen::Home
    &&& s.input@ == Seq::<char>::empty()
    &&& s.scroll_offset == 0
    &&& !s.is_loading
    &&& s.status_message is None
    &&& s.command_selection is None
    &&& !s.debug_mode
    &&& s.send_animation == 0
    &&& s.total_chat_lines == 0
    &&& s.focus == Focus::Input
    &&& !s.show_visualization
    &&& s.hovered_point is None
    &&& !s.show_raw_markdown
}

impl Default for UIState {
    fn default() -> (r: Self)
        ensures
            initial_ui_state(r),
    {
        UIState {
            screen: Screen::Home,
            input: String::new(),
            scroll_offset: 0,
            is_loading: false,
            status_message: None,
            command_selection: None,
            debug_mode: false,
            send_animation: 0,
            total_chat_lines: 0,
            focus: Focus::Input,
            show_visualization: false,
            hovered_point: None,
            show_raw_markdown: false,
        }
    }
}

impl UIState {
    pub fn new() -> (r: Self)
        ensures
            initial_ui_state(r),
    {
        Self::default()
    }
}

} // verus!
