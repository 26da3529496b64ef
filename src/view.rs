//! The state of the interactive view and how a key press changes it. Reading
//! keys and drawing happen outside; they hand each key to `handle_key_event`.
use crate::graphemes::{
    end_rows, graphemes_of, next_row, next_rows, previous_row, previous_rows, rows_of, selected_code_point,
    start_rows, StatefulGraphemes,
};
use crate::settings::Settings;
use vstd::prelude::*;

verus! {

/// Relies on `String::pop`: removes and returns the last character, if any.
#[verifier::external_body]
fn pop_char(s: &mut String) -> (r: Option<char>)
    ensures
        old(s)@.len() == 0 ==> r.is_none() && final(s)@ == old(s)@,
        old(s)@.len() > 0 ==> r == Some(old(s)@.last()) && final(s)@ == old(s)@.drop_last(),
{
    s.pop()
}

/// A key press, as far as the views tell keys apart.
#[derive(Debug, Clone, Copy, PartialEq, Eq)]
pub enum Key {
    Esc,
    Up,
    Down,
    PageUp,
    PageDown,
    Left,
    Right,
    Enter,
    Backspace,
    Char(char),
    /// A character typed with the control key held.
    Control(char),
    Other,
}

/// What the whole application keeps between key presses.
#[derive(Debug)]
pub struct ApplicationState {
    pub keep_running: bool,
    pub selected_font_path: Option<String>,
    pub settings: Settings,
}

impl ApplicationState {
    pub fn new(settings: Settings) -> (r: Self)
        ensures
            r.keep_running,
            r.selected_font_path.is_none(),
            r.settings == settings,
    {
        ApplicationState { keep_running: true, selected_font_path: None, settings }
    }
}

/// Collects typed text.
#[derive(Debug)]
pub struct InputHandler {
    pub user_input: String,
}

impl InputHandler {
    pub fn new() -> (r: Self)
        ensures
            r.user_input@.len() == 0,
    {
        InputHandler { user_input: String::new() }
    }

    /// Escape stops the application, a character is appended, backspace
    /// removes the last character; other keys change nothing.
    pub fn handle_event(&mut self, key: Key, state: &mut ApplicationState)
        ensures
            final(state).keep_running == (old(state).keep_running && key != Key::Esc),
            final(state).selected_font_path == old(state).selected_font_path,
            final(state).settings == old(state).settings,
            final(self).user_input@ == (match key {
                Key::Char(c) => old(self).user_input@.push(c),
                Key::Backspace => if old(self).user_input@.len() > 0 {
                    old(self).user_input@.drop_last()
                } else {
                    old(self).user_input@
                },
                _ => old(self).user_input@,
            }),
    {
        match key {
            Key::Esc => {
                state.keep_running = false;
            },
            Key::Char(c) => {
                crate::text::push_char(&mut self.user_input, c);
            },
            Key::Backspace => {
                pop_char(&mut self.user_input);
            },
            _ => {},
        }
    }
}

/// Sets up and tears down the terminal around the interactive loop.
#[derive(Debug)]
pub struct Renderer {}

impl Renderer {
    pub fn new() -> (r: Self) {
        Renderer {  }
    }
}

/// The typed text, its grapheme rows, and the character whose details are shown.
pub struct GraphemeView {
    pub user_input: String,
    pub graphemes: StatefulGraphemes,
    pub showing_detail: Option<char>,
}

/// Whether `g` holds the rows of `text`.
pub open spec fn rows_match(g: StatefulGraphemes, text: Seq<char>) -> bool {
    &&& g.rows_view() == rows_of(graphemes_of(text))
    &&& g.starts() == start_rows(graphemes_of(text))
    &&& g.ends() == end_rows(graphemes_of(text))
    &&& g.selected_row() == (if g.rows_view().len() > 0 { Some(0int) } else { None })
}

/// The detail shown after asking for the selected character's details.
pub open spec fn detail_after_update(g: StatefulGraphemes, shown: Option<char>) -> Option<char> {
    match selected_code_point(g) {
        Some(c) => Some(c),
        None => shown,
    }
}

impl GraphemeView {
    /// The key help: how to quit and, while details are shown, how to hide them.
    pub fn draw_help_text(&self) -> (r: &'static str)
        ensures
            self.showing_detail.is_some() ==> r@ == "esc: quit | q: hide detail"@,
            self.showing_detail.is_none() ==> r@ == "esc: quit"@,
    {
        if self.showing_detail.is_some() {
            "esc: quit | q: hide detail"
        } else {
            "esc: quit"
        }
    }

    pub fn new() -> (r: Self)
        ensures
            r.user_input@.len() == 0,
            r.showing_detail.is_none(),
            rows_match(r.graphemes, Seq::empty()),
    {
        let user_input = String::new();
        let graphemes = StatefulGraphemes::new(user_input.as_str());
        GraphemeView { user_input, graphemes, showing_detail: None }
    }

    /// Shows the details of the selected character, when a code point row is selected.
    pub fn update_showing_detail(&mut self)
        ensures
            final(self).showing_detail == detail_after_update(old(self).graphemes, old(self).showing_detail),
            final(self).user_input == old(self).user_input,
            final(self).graphemes == old(self).graphemes,
    {
        if let Some(chr) = self.graphemes.selected_code_point() {
            self.showing_detail = Some(chr);
        }
    }

    fn rebuild_rows(&mut self)
        ensures
            rows_match(final(self).graphemes, final(self).user_input@),
            final(self).user_input == old(self).user_input,
            final(self).showing_detail == old(self).showing_detail,
    {
        self.graphemes = StatefulGraphemes::new(self.user_input.as_str());
    }

    /// Escape stops the application. Up and down move the selection by one
    /// grapheme step and, while details are shown, show those of the newly
    /// selected character; enter shows them. While details are shown, `q`
    /// hides them and other typing is ignored; otherwise a character is
    /// appended to the text and backspace removes the last one, and the rows
    /// are laid out again.
    pub fn handle_key_event(&mut self, key: Key, app_state: &mut ApplicationState)
        ensures
            final(app_state).keep_running == (old(app_state).keep_running && key != Key::Esc),
            final(app_state).selected_font_path == old(app_state).selected_font_path,
            final(app_state).settings == old(app_state).settings,
            key == Key::Up ==> final(self).graphemes.selected_row() == previous_row(
                old(self).graphemes.rows_view().len(),
                old(self).graphemes.starts(),
                old(self).graphemes.selected_row(),
            ) && final(self).showing_detail == (if old(self).showing_detail.is_some() {
                detail_after_update(final(self).graphemes, old(self).showing_detail)
            } else {
                None
            }),
            key == Key::Down ==> final(self).graphemes.selected_row() == next_row(
                old(self).graphemes.rows_view().len(),
                old(self).graphemes.ends(),
                old(self).graphemes.selected_row(),
            ) && final(self).showing_detail == (if old(self).showing_detail.is_some() {
                detail_after_update(final(self).graphemes, old(self).showing_detail)
            } else {
                None
            }),
            key == Key::Enter ==> final(self).showing_detail == detail_after_update(
                old(self).graphemes,
                old(self).showing_detail,
            ),
            (key is Char && old(self).showing_detail.is_some()) ==> final(self).user_input
                == old(self).user_input && final(self).showing_detail == (if key == Key::Char('q') {
                None
            } else {
                old(self).showing_detail
            }),
            key matches Key::Char(c) ==> (old(self).showing_detail.is_none() ==> final(self).user_input@
                == old(self).user_input@.push(c) && rows_match(final(self).graphemes, final(self).user_input@)),
            (key == Key::Backspace && old(self).showing_detail.is_none()) ==> final(self).user_input@
                == (if old(self).user_input@.len() > 0 {
                old(self).user_input@.drop_last()
            } else {
                old(self).user_input@
            }) && rows_match(final(self).graphemes, final(self).user_input@),
            (key == Key::Backspace && old(self).showing_detail.is_some()) ==> final(self).user_input
                == old(self).user_input,
            !(key is Up || key is Down || key is Enter || key is Char || key is Backspace)
                ==> final(self).user_input == old(self).user_input && final(self).showing_detail
                == old(self).showing_detail,
    {
        match key {
            Key::Esc => {
                app_state.keep_running = false;
            },
            Key::Up => {
                self.graphemes.select_previous();
                if self.showing_detail.is_some() {
                    self.update_showing_detail();
                }
            },
            Key::Down => {
                self.graphemes.select_next();
                if self.showing_detail.is_some() {
                    self.update_showing_detail();
                }
            },
            Key::Enter => self.update_showing_detail(),
            Key::Char(c) => {
                if self.showing_detail.is_some() {
                    if c == 'q' {
                        self.showing_detail = None;
                    }
                    return ;
                }
                crate::text::push_char(&mut self.user_input, c);
                self.rebuild_rows();
            },
            Key::Backspace => {
                if self.showing_detail.is_some() {
                    return ;
                }
                pop_char(&mut self.user_input);
                self.rebuild_rows();
            },
            _ => {},
        }
    }
}

/// How many rows a page key moves.
pub const PAGE_CONTROL_STEP_SIZE: usize = 10;

/// What the caller does to the character detail after a key press.
#[derive(Debug, Clone, Copy, PartialEq, Eq)]
pub enum DetailAction {
    /// Nothing.
    Keep,
    /// Show the details of this character.
    Show(char),
    /// Hide the details.
    Hide,
    /// Select the previous preview font, then remember its path.
    PreviousFont,
    /// Select the next preview font, then remember its path.
    NextFont,
    /// Scroll the property list up.
    ScrollUp,
    /// Scroll the property list down.
    ScrollDown,
}

/// The terminal interface's main view: the typed text, its grapheme rows,
/// and whether character details are shown.
pub struct MainView {
    pub user_input: String,
    pub graphemes: StatefulGraphemes,
    pub showing_detail: bool,
}

/// The action after the selection moved: the selected character's details
/// while details are shown and a code point row is selected.
pub open spec fn after_move(g: StatefulGraphemes, showing: bool) -> DetailAction {
    if showing {
        match selected_code_point(g) {
            Some(c) => DetailAction::Show(c),
            None => DetailAction::Keep,
        }
    } else {
        DetailAction::Keep
    }
}

impl MainView {
    /// The key help for the status bar: how to hide and scroll the details
    /// while they are shown, else how to quit.
    pub fn help_text(&self) -> (r: &'static str)
        ensures
            self.showing_detail ==> r@ == "[ESC]: Hide Detail | [C-D][C-U]: Scroll Detail"@,
            !self.showing_detail ==> r@ == "[ESC]: Quit"@,
    {
        if self.showing_detail {
            "[ESC]: Hide Detail | [C-D][C-U]: Scroll Detail"
        } else {
            "[ESC]: Quit"
        }
    }

    pub fn new(user_input: String) -> (r: Self)
        ensures
            r.user_input@ == user_input@,
            !r.showing_detail,
            rows_match(r.graphemes, user_input@),
    {
        let graphemes = StatefulGraphemes::new(user_input.as_str());
        MainView { user_input, graphemes, showing_detail: false }
    }

    fn show_selected(&mut self) -> (r: DetailAction)
        ensures
            r == (match selected_code_point(old(self).graphemes) {
                Some(c) => DetailAction::Show(c),
                None => DetailAction::Keep,
            }),
            final(self).showing_detail == (old(self).showing_detail || selected_code_point(
                old(self).graphemes,
            ).is_some()),
            final(self).graphemes == old(self).graphemes,
            final(self).user_input == old(self).user_input,
    {
        match self.graphemes.selected_code_point() {
            Some(chr) => {
                self.showing_detail = true;
                DetailAction::Show(chr)
            },
            None => DetailAction::Keep,
        }
    }

    fn after_selection_moved(&mut self) -> (r: DetailAction)
        ensures
            r == after_move(old(self).graphemes, old(self).showing_detail),
            final(self).showing_detail == old(self).showing_detail,
            final(self).graphemes == old(self).graphemes,
            final(self).user_input == old(self).user_input,
    {
        if self.showing_detail {
            self.show_selected()
        } else {
            DetailAction::Keep
        }
    }

    fn rebuild_rows(&mut self)
        ensures
            rows_match(final(self).graphemes, final(self).user_input@),
            final(self).user_input == old(self).user_input,
            final(self).showing_detail == old(self).showing_detail,
    {
        self.graphemes = StatefulGraphemes::new(self.user_input.as_str());
    }

    /// Escape hides the details, or stops the application when none are
    /// shown. Up, down and the page keys move the selection by one or ten
    /// grapheme steps and, while details are shown, show those of the newly
    /// selected character; enter shows them. Left and right change the
    /// preview font while details are shown. Control-u and control-d scroll
    /// the details; other characters are appended to the text and backspace
    /// removes the last one, and the rows are laid out again.
    pub fn handle_key_event(&mut self, key: Key, app_state: &mut ApplicationState) -> (r: DetailAction)
        ensures
            final(app_state).keep_running == (old(app_state).keep_running && !(key == Key::Esc
                && !old(self).showing_detail)),
            final(app_state).selected_font_path == old(app_state).selected_font_path,
            final(app_state).settings == old(app_state).settings,
            key == Key::Esc ==> !final(self).showing_detail && r == (if old(self).showing_detail {
                DetailAction::Hide
            } else {
                DetailAction::Keep
            }),
            key == Key::Up ==> final(self).graphemes.selected_row() == previous_row(
                old(self).graphemes.rows_view().len(),
                old(self).graphemes.starts(),
                old(self).graphemes.selected_row(),
            ) && r == after_move(final(self).graphemes, old(self).showing_detail),
            key == Key::PageUp ==> final(self).graphemes.selected_row() == previous_rows(
                old(self).graphemes.rows_view().len(),
                old(self).graphemes.starts(),
                old(self).graphemes.selected_row(),
                PAGE_CONTROL_STEP_SIZE as nat,
            ) && r == after_move(final(self).graphemes, old(self).showing_detail),
            key == Key::Down ==> final(self).graphemes.selected_row() == next_row(
                old(self).graphemes.rows_view().len(),
                old(self).graphemes.ends(),
                old(self).graphemes.selected_row(),
            ) && r == after_move(final(self).graphemes, old(self).showing_detail),
            key == Key::PageDown ==> final(self).graphemes.selected_row() == next_rows(
                old(self).graphemes.rows_view().len(),
                old(self).graphemes.ends(),
                old(self).graphemes.selected_row(),
                PAGE_CONTROL_STEP_SIZE as nat,
            ) && r == after_move(final(self).graphemes, old(self).showing_detail),
            key == Key::Left ==> r == (if old(self).showing_detail {
                DetailAction::PreviousFont
            } else {
                DetailAction::Keep
            }),
            key == Key::Right ==> r == (if old(self).showing_detail {
                DetailAction::NextFont
            } else {
                DetailAction::Keep
            }),
            key == Key::Enter ==> r == (match selected_code_point(old(self).graphemes) {
                Some(c) => DetailAction::Show(c),
                None => DetailAction::Keep,
            }),
            (key == Key::Control('u') && old(self).showing_detail) ==> r == DetailAction::ScrollUp
                && final(self).user_input == old(self).user_input,
            (key == Key::Control('d') && old(self).showing_detail) ==> r == DetailAction::ScrollDown
                && final(self).user_input == old(self).user_input,
            key matches Key::Char(c) ==> r == DetailAction::Keep && final(self).user_input@
                == old(self).user_input@.push(c) && rows_match(final(self).graphemes, final(self).user_input@),
            key == Key::Backspace ==> r == DetailAction::Keep && final(self).user_input@ == (if old(
                self,
            ).user_input@.len() > 0 {
                old(self).user_input@.drop_last()
            } else {
                old(self).user_input@
            }) && rows_match(final(self).graphemes, final(self).user_input@),
    {
        match key {
            Key::Esc => {
                if self.showing_detail {
                    self.showing_detail = false;
                    DetailAction::Hide
                } else {
                    app_state.keep_running = false;
                    DetailAction::Keep
                }
            },
            Key::Up => {
                self.graphemes.select_previous();
                self.after_selection_moved()
            },
            Key::PageUp => {
                self.graphemes.select_previous_n(PAGE_CONTROL_STEP_SIZE);
                self.after_selection_moved()
            },
            Key::Down => {
                self.graphemes.select_next();
                self.after_selection_moved()
            },
            Key::PageDown => {
                self.graphemes.select_next_n(PAGE_CONTROL_STEP_SIZE);
                self.after_selection_moved()
            },
            Key::Left => if self.showing_detail {
                DetailAction::PreviousFont
            } else {
                DetailAction::Keep
            },
            Key::Right => if self.showing_detail {
                DetailAction::NextFont
            } else {
                DetailAction::Keep
            },
            Key::Enter => self.show_selected(),
            Key::Control(c) => {
                if c == 'u' && self.showing_detail {
                    return DetailAction::ScrollUp;
                }
                if c == 'd' && self.showing_detail {
                    return DetailAction::ScrollDown;
                }
                crate::text::push_char(&mut self.user_input, c);
                self.rebuild_rows();
                DetailAction::Keep
            },
            Key::Char(c) => {
                crate::text::push_char(&mut self.user_input, c);
                self.rebuild_rows();
                DetailAction::Keep
            },
            Key::Backspace => {
                pop_char(&mut self.user_input);
                self.rebuild_rows();
                DetailAction::Keep
            },
            Key::Other => DetailAction::Keep,
        }
    }
}

} // verus!
