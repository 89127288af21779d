//! The console's prompt and information area: what a frame of input does to
//! them. Drawing and reading keys are left to the caller, which hands over
//! what was pressed and carries out what is returned.
use vstd::prelude::*;

use crate::history::{pushed, stepped_down, stepped_up, CommandHistory};
use crate::text::{chars_of, owned, views};

verus! {

/// The log area above the prompt.
pub struct ConsoleInformationAreaState {
    pub is_open: bool,
    pub log_history: Vec<String>,
}

impl Default for ConsoleInformationAreaState {
    /// Closed, with no log lines.
    fn default() -> (res: Self)
        ensures
            !res.is_open,
            res.log_history@.len() == 0,
    {
        ConsoleInformationAreaState { is_open: false, log_history: Vec::new() }
    }
}

impl ConsoleInformationAreaState {
    /// Appends the captured log lines, oldest first.
    pub fn record_logs(&mut self, logs: Vec<String>)
        ensures
            final(self).is_open == old(self).is_open,
            views(final(self).log_history@) == views(old(self).log_history@) + views(logs@),
    {
        let mut i: usize = 0;
        while i < logs.len()
            invariant
                i <= logs@.len(),
                self.is_open == old(self).is_open,
                views(self.log_history@) == views(old(self).log_history@) + views(logs@.take(i as int)),
            decreases logs@.len() - i,
        {
            let ghost before = self.log_history@;
            self.log_history.push(owned(logs[i].as_str()));
            proof {
                assert(views(self.log_history@) =~= views(before).push(logs@[i as int]@));
                assert(views(logs@.take(i + 1)) =~= views(logs@.take(i as int)).push(logs@[i as int]@));
            }
            i += 1;
        }
        assert(logs@.take(logs@.len() as int) =~= logs@);
    }
}

/// The command line of the console, and the focus changes it has asked for.
pub struct ConsolePromptState {
    pub input_text: String,
    pub request_focus: bool,
    pub surrender_focus: bool,
}

impl Default for ConsolePromptState {
    /// An empty prompt that starts without the keyboard focus.
    fn default() -> (res: Self)
        ensures
            res.input_text@.len() == 0,
            !res.request_focus,
            res.surrender_focus,
    {
        ConsolePromptState { input_text: String::new(), request_focus: false, surrender_focus: true }
    }
}

/// Opens or closes the information area. Opening it asks for the prompt to
/// take the keyboard focus; closing it asks for the focus to be given up.
pub fn toggle_information_area(info: &mut ConsoleInformationAreaState, prompt: &mut ConsolePromptState)
    ensures
        final(info).is_open == !old(info).is_open,
        final(info).log_history == old(info).log_history,
        final(prompt).input_text == old(prompt).input_text,
        final(prompt).request_focus == (old(prompt).request_focus || !old(info).is_open),
        final(prompt).surrender_focus == (old(prompt).surrender_focus || old(info).is_open),
{
    if !info.is_open {
        prompt.request_focus = true;
    } else {
        prompt.surrender_focus = true;
    }
    info.is_open = !info.is_open;
}

impl ConsolePromptState {
    /// The focus changes asked for since the last frame, as (take the focus,
    /// give up the focus); both requests are cleared.
    pub fn take_focus_requests(&mut self) -> (res: (bool, bool))
        ensures
            res == (old(self).request_focus, old(self).surrender_focus),
            !final(self).request_focus,
            !final(self).surrender_focus,
            final(self).input_text == old(self).input_text,
    {
        let res = (self.request_focus, self.surrender_focus);
        self.request_focus = false;
        self.surrender_focus = false;
        res
    }

    /// Browses the command history while the prompt has the focus: the up
    /// arrow recalls an older command (the typed text is kept as the draft),
    /// otherwise the down arrow a newer one or the draft. When the text was
    /// replaced, the number of its characters is returned, where the cursor
    /// goes.
    pub fn browse_history(&mut self, history: &mut CommandHistory, up: bool, down: bool) -> (res: Option<usize>)
        ensures
            final(self).request_focus == old(self).request_focus,
            final(self).surrender_focus == old(self).surrender_focus,
            up ==> final(history)@ == stepped_up(old(history)@, old(self).input_text@).0,
            up ==> match stepped_up(old(history)@, old(self).input_text@).1 {
                Some(e) => final(self).input_text@ == e && res == Some(e.len() as usize),
                None => final(self).input_text == old(self).input_text && res is None,
            },
            !up && down ==> final(history)@ == stepped_down(old(history)@).0
                && final(self).input_text@ == stepped_down(old(history)@).1
                && res == Some(stepped_down(old(history)@).1.len() as usize),
            !up && !down ==> final(history)@ == old(history)@ && final(self).input_text
                == old(self).input_text && res is None,
    {
        if up {
            match history.navigate_up(self.input_text.as_str()) {
                Some(entry) => {
                    let n = chars_of(entry.as_str()).len();
                    self.input_text = entry;
                    Some(n)
                },
                None => None,
            }
        } else if down {
            let entry = history.navigate_down();
            let n = chars_of(entry.as_str()).len();
            self.input_text = entry;
            Some(n)
        } else {
            None
        }
    }

    /// Submits the typed command when `submit` was pressed and the prompt is
    /// not empty: the command is recorded in the history and returned, and
    /// the prompt is cleared.
    pub fn submit(&mut self, history: &mut CommandHistory, submit: bool) -> (res: Option<String>)
        ensures
            final(self).request_focus == old(self).request_focus,
            final(self).surrender_focus == old(self).surrender_focus,
            submit && old(self).input_text@.len() > 0 ==> (res matches Some(c) && c@ == old(self).input_text@),
            submit && old(self).input_text@.len() > 0 ==> final(self).input_text@.len() == 0
                && final(history)@ == pushed(old(history)@, old(self).input_text@),
            !(submit && old(self).input_text@.len() > 0) ==> res is None && final(self).input_text
                == old(self).input_text && final(history)@ == old(history)@,
    {
        if submit && !self.input_text.as_str().is_empty() {
            let command = owned(self.input_text.as_str());
            history.push(owned(self.input_text.as_str()));
            self.input_text = String::new();
            Some(command)
        } else {
            None
        }
    }
}

} // verus!
