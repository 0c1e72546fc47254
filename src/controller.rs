//! The interaction controller: one key event changes the state, and at
//! most asks the caller to refresh.

use vstd::prelude::*;
use crate::app::{
    other_panel, query_edited, selected_next, selected_previous, sort_changed, App, InputMode,
};
use crate::sort::successor;

verus! {

/// The keys the dashboard tells apart.
#[derive(Debug, Clone, Copy, PartialEq, Eq, Structural)]
pub enum Key {
    Char(char),
    Tab,
    Up,
    Down,
    Esc,
    Enter,
    Backspace,
    Other,
}

/// What the caller has to do after a key.
#[derive(Debug, Clone, Copy, PartialEq, Eq, Structural)]
pub enum Command {
    Nothing,
    Refresh,
}

/// `b` is `a` after `key` while the search query is being typed: Esc leaves
/// the mode and clears the query, Enter leaves the mode, Backspace and
/// characters edit the query; other keys do nothing.
pub open spec fn search_key_handled(a: App, b: App, key: Key) -> bool {
    match key {
        Key::Esc => query_edited(App { input_mode: InputMode::Normal, ..a }, b, Seq::empty()),
        Key::Enter => b == (App { input_mode: InputMode::Normal, ..a }),
        Key::Backspace => query_edited(
            a,
            b,
            if a.search_query@.len() == 0 {
                a.search_query@
            } else {
                a.search_query@.drop_last()
            },
        ),
        Key::Char(c) => query_edited(a, b, a.search_query@.push(c)),
        _ => b == a,
    }
}

/// `b` is `a` after `key` in normal mode.
pub open spec fn normal_key_handled(a: App, b: App, key: Key) -> bool {
    if key == Key::Char('q') {
        b == (App { running: false, ..a })
    } else if key == Key::Tab {
        b == (App { active_panel: other_panel(a.active_panel), ..a })
    } else if key == Key::Up || key == Key::Char('k') {
        selected_previous(a, b)
    } else if key == Key::Down || key == Key::Char('j') {
        selected_next(a, b)
    } else if key == Key::Char('s') {
        sort_changed(a, b, successor(a.sort_field), a.sort_ascending)
    } else if key == Key::Char('S') {
        sort_changed(a, b, a.sort_field, !a.sort_ascending)
    } else if key == Key::Char('/') {
        b == (App { input_mode: InputMode::Search, ..a })
    } else if key == Key::Char('?') {
        b == (App { show_help: true, ..a })
    } else if key == Key::Esc && a.search_query@.len() > 0 {
        query_edited(a, b, Seq::empty())
    } else {
        b == a
    }
}

/// `b` and `r` are what `key` does to `a`: while help is shown any key only
/// closes it; in search mode only query editing and leaving the mode work;
/// in normal mode 'r' asks for a refresh and changes nothing else.
pub open spec fn key_handled(a: App, b: App, key: Key, r: Command) -> bool {
    if a.show_help {
        b == (App { show_help: false, ..a }) && r == Command::Nothing
    } else if a.input_mode == InputMode::Search {
        search_key_handled(a, b, key) && r == Command::Nothing
    } else {
        normal_key_handled(a, b, key) && (r == Command::Refresh <==> key == Key::Char('r'))
    }
}

impl App {
    /// Applies one key to the state.
    pub fn handle_key(&mut self, key: Key) -> (r: Command)
        ensures
            key_handled(*old(self), *final(self), key, r),
    {
        if self.show_help {
            self.toggle_help();
            return Command::Nothing;
        }
        match self.input_mode {
            InputMode::Search => {
                match key {
                    Key::Esc => {
                        self.exit_search_mode();
                        self.clear_search();
                    },
                    Key::Enter => self.exit_search_mode(),
                    Key::Backspace => self.pop_search_char(),
                    Key::Char(c) => self.push_search_char(c),
                    _ => {},
                }
                Command::Nothing
            },
            InputMode::Normal => {
                match key {
                    Key::Char('q') => self.quit(),
                    Key::Tab => self.next_panel(),
                    Key::Up | Key::Char('k') => self.select_previous(),
                    Key::Down | Key::Char('j') => self.select_next(),
                    Key::Char('r') => return Command::Refresh,
                    Key::Char('s') => self.cycle_sort(),
                    Key::Char('S') => self.toggle_sort_order(),
                    Key::Char('/') => self.enter_search_mode(),
                    Key::Char('?') => self.toggle_help(),
                    Key::Esc => {
                        if !self.search_query.as_str().is_empty() {
                            self.clear_search();
                        }
                    },
                    _ => {},
                }
                Command::Nothing
            },
        }
    }
}

/// While the help overlay is shown, a key closes it and does nothing else:
/// not even the quit key stops the dashboard.
pub proof fn lemma_help_swallows_key(a: App, b: App, key: Key, r: Command)
    requires
        a.show_help,
        key_handled(a, b, key, r),
    ensures
        !b.show_help,
        r == Command::Nothing,
        b == (App { show_help: false, ..a }),
        b.running == a.running,
{
}

} // verus!
