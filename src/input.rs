use vstd::prelude::*;
use crate::app::{App, ProcessAction};
use crate::process::SortOrder;

verus! {

/// A decoded key press.
#[derive(Clone, Copy, Debug, PartialEq, Eq, Structural)]
pub enum Key {
    Char(char),
    Up,
    Down,
    Enter,
    Esc,
    Backspace,
    Other,
}

/// The one state-engine call that a key press stands for.
#[derive(Clone, Copy, Debug, PartialEq, Eq, Structural)]
pub enum Intent {
    Next,
    Previous,
    ToggleDetails,
    ToggleHelp,
    EnterSearch,
    ExitSearch,
    ClearSearch,
    SearchChar(char),
    SearchBackspace,
    Sort(SortOrder),
    Faster,
    Slower,
    Request(ProcessAction),
    Confirm,
    Cancel,
    Quit,
    Ignore,
}

/// What a key means in the confirmation prompt.
pub open spec fn confirming_intent(key: Key) -> Intent {
    match key {
        Key::Char(c) => if c == 'y' || c == 'Y' {
            Intent::Confirm
        } else if c == 'n' || c == 'N' {
            Intent::Cancel
        } else {
            Intent::Ignore
        },
        Key::Esc => Intent::Cancel,
        _ => Intent::Ignore,
    }
}

/// What a key means while a query is typed.
pub open spec fn searching_intent(key: Key) -> Intent {
    match key {
        Key::Char(c) => Intent::SearchChar(c),
        Key::Backspace => Intent::SearchBackspace,
        Key::Enter => Intent::ExitSearch,
        Key::Esc => Intent::ClearSearch,
        _ => Intent::Ignore,
    }
}

/// What a key means while the help overlay is up: only closing it.
pub open spec fn help_intent(key: Key) -> Intent {
    match key {
        Key::Char(c) => if c == '?' { Intent::ToggleHelp } else { Intent::Ignore },
        Key::Esc => Intent::ToggleHelp,
        _ => Intent::Ignore,
    }
}

/// What a key means in normal mode.
pub open spec fn normal_intent(details: bool, selected: bool, key: Key) -> Intent {
    match key {
        Key::Up => Intent::Previous,
        Key::Down => Intent::Next,
        Key::Enter => if selected { Intent::ToggleDetails } else { Intent::Ignore },
        Key::Esc => if details { Intent::ToggleDetails } else { Intent::Ignore },
        Key::Char(c) => {
            if c == 'q' || c == 'Q' {
                if details { Intent::Ignore } else { Intent::Quit }
            } else if c == 'j' {
                Intent::Next
            } else if c == 'k' {
                Intent::Previous
            } else if c == '?' {
                Intent::ToggleHelp
            } else if c == '/' {
                Intent::EnterSearch
            } else if c == 'c' {
                Intent::Sort(SortOrder::Cpu)
            } else if c == 'm' {
                Intent::Sort(SortOrder::Memory)
            } else if c == 'p' {
                Intent::Sort(SortOrder::Pid)
            } else if c == 't' {
                Intent::Sort(SortOrder::RunTime)
            } else if c == '+' || c == '=' {
                Intent::Faster
            } else if c == '-' {
                Intent::Slower
            } else if c == 'K' {
                Intent::Request(ProcessAction::Kill)
            } else if c == 's' {
                Intent::Request(ProcessAction::Suspend)
            } else if c == 'r' {
                Intent::Request(ProcessAction::Resume)
            } else {
                Intent::Ignore
            }
        },
        _ => Intent::Ignore,
    }
}

/// The intent of `key`: the confirmation prompt takes it first, then search,
/// then the help overlay, which lets nothing through but its own closing,
/// then normal mode.
pub open spec fn intent_spec(
    confirming: bool,
    searching: bool,
    help: bool,
    details: bool,
    selected: bool,
    key: Key,
) -> Intent {
    if confirming {
        confirming_intent(key)
    } else if searching {
        searching_intent(key)
    } else if help {
        help_intent(key)
    } else {
        normal_intent(details, selected, key)
    }
}

fn char_intent(c: char) -> (r: Intent)
    requires
        c != 'q' && c != 'Q',
    ensures
        r == normal_intent(false, false, Key::Char(c)),
{
    if c == 'j' {
        Intent::Next
    } else if c == 'k' {
        Intent::Previous
    } else if c == '?' {
        Intent::ToggleHelp
    } else if c == '/' {
        Intent::EnterSearch
    } else if c == 'c' {
        Intent::Sort(SortOrder::Cpu)
    } else if c == 'm' {
        Intent::Sort(SortOrder::Memory)
    } else if c == 'p' {
        Intent::Sort(SortOrder::Pid)
    } else if c == 't' {
        Intent::Sort(SortOrder::RunTime)
    } else if c == '+' || c == '=' {
        Intent::Faster
    } else if c == '-' {
        Intent::Slower
    } else if c == 'K' {
        Intent::Request(ProcessAction::Kill)
    } else if c == 's' {
        Intent::Request(ProcessAction::Suspend)
    } else if c == 'r' {
        Intent::Request(ProcessAction::Resume)
    } else {
        Intent::Ignore
    }
}

/// The intent of `key` in the given modes.
pub fn intent_for(
    confirming: bool,
    searching: bool,
    help: bool,
    details: bool,
    selected: bool,
    key: Key,
) -> (r: Intent)
    ensures
        r == intent_spec(confirming, searching, help, details, selected, key),
{
    if confirming {
        match key {
            Key::Char(c) => if c == 'y' || c == 'Y' {
                Intent::Confirm
            } else if c == 'n' || c == 'N' {
                Intent::Cancel
            } else {
                Intent::Ignore
            },
            Key::Esc => Intent::Cancel,
            _ => Intent::Ignore,
        }
    } else if searching {
        match key {
            Key::Char(c) => Intent::SearchChar(c),
            Key::Backspace => Intent::SearchBackspace,
            Key::Enter => Intent::ExitSearch,
            Key::Esc => Intent::ClearSearch,
            _ => Intent::Ignore,
        }
    } else if help {
        match key {
            Key::Char(c) => if c == '?' { Intent::ToggleHelp } else { Intent::Ignore },
            Key::Esc => Intent::ToggleHelp,
            _ => Intent::Ignore,
        }
    } else {
        match key {
            Key::Up => Intent::Previous,
            Key::Down => Intent::Next,
            Key::Enter => if selected { Intent::ToggleDetails } else { Intent::Ignore },
            Key::Esc => if details { Intent::ToggleDetails } else { Intent::Ignore },
            Key::Char(c) => {
                if c == 'q' || c == 'Q' {
                    if details { Intent::Ignore } else { Intent::Quit }
                } else {
                    char_intent(c)
                }
            },
            _ => Intent::Ignore,
        }
    }
}

impl App {
    /// The intent of `key` in the current modes.
    pub fn key_intent(&self, key: Key) -> (r: Intent)
        ensures
            r == intent_spec(
                self.confirmation.is_some(),
                self.search_mode,
                self.show_help,
                self.show_details,
                self.selected_process.is_some(),
                key,
            ),
    {
        intent_for(
            self.confirmation.is_some(),
            self.search_mode,
            self.show_help,
            self.show_details,
            self.selected_process.is_some(),
            key,
        )
    }
}

} // verus!
