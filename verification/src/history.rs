//! The console's command history: the commands entered so far, a cursor for
//! browsing them with the arrow keys, and the draft that was being typed when
//! browsing began.
use vstd::prelude::*;

use crate::text::{owned, push_char, views};

verus! {

/// The abstract state of a [`CommandHistory`].
pub struct HistoryModel {
    /// The remembered commands, oldest first.
    pub entries: Seq<Seq<char>>,
    /// The entry being shown while browsing, if any.
    pub cursor: Option<nat>,
    /// The input that was in the prompt when browsing began.
    pub draft: Seq<char>,
}

impl HistoryModel {
    /// The cursor, when present, points at an entry.
    pub open spec fn wf(self) -> bool {
        match self.cursor {
            Some(c) => c < self.entries.len(),
            None => true,
        }
    }
}

/// The history after `command` was submitted: it is appended unless it
/// repeats the newest entry, and browsing stops.
pub open spec fn pushed(h: HistoryModel, command: Seq<char>) -> HistoryModel {
    HistoryModel {
        entries: if h.entries.len() > 0 && h.entries.last() == command {
            h.entries
        } else {
            h.entries.push(command)
        },
        cursor: None,
        draft: h.draft,
    }
}

/// One step towards older entries while `input` is in the prompt: the new
/// state and the entry to show, if any.
pub open spec fn stepped_up(h: HistoryModel, input: Seq<char>) -> (HistoryModel, Option<
    Seq<char>,
>) {
    if h.entries.len() == 0 {
        (h, None)
    } else {
        match h.cursor {
            None => (
                HistoryModel {
                    entries: h.entries,
                    cursor: Some((h.entries.len() - 1) as nat),
                    draft: input,
                },
                Some(h.entries.last()),
            ),
            Some(c) => if c == 0 {
                (h, None)
            } else {
                (
                    HistoryModel {
                        entries: h.entries,
                        cursor: Some((c - 1) as nat),
                        draft: h.draft,
                    },
                    Some(h.entries[c - 1]),
                )
            },
        }
    }
}

/// One step towards newer entries: the new state and the text to show; past
/// the newest entry the draft comes back and browsing stops.
pub open spec fn stepped_down(h: HistoryModel) -> (HistoryModel, Seq<char>) {
    match h.cursor {
        None => (h, h.draft),
        Some(c) => if c + 1 >= h.entries.len() {
            (HistoryModel { entries: h.entries, cursor: None, draft: h.draft }, h.draft)
        } else {
            (
                HistoryModel { entries: h.entries, cursor: Some(c + 1), draft: h.draft },
                h.entries[c + 1 as int],
            )
        },
    }
}

/// The text of the history file: each entry on a line of its own.
pub open spec fn history_file_text(entries: Seq<Seq<char>>) -> Seq<char>
    decreases entries.len(),
{
    if entries.len() == 0 {
        Seq::empty()
    } else {
        history_file_text(entries.drop_last()) + entries.last().push('\n')
    }
}

/// The non-empty lines, in order.
pub open spec fn nonempty_lines(lines: Seq<Seq<char>>) -> Seq<Seq<char>> {
    lines.filter(|l: Seq<char>| l.len() > 0)
}

/// Right after a command is submitted, browsing back shows that command.
pub proof fn law_up_after_push_recalls_command(h: HistoryModel, command: Seq<char>, input: Seq<
    char,
>)
    requires
        h.wf(),
    ensures
        stepped_up(pushed(h, command), input).1 == Some(command),
{
}

/// Submitting the same command twice in a row records it once.
pub proof fn law_push_twice_same_as_once(h: HistoryModel, command: Seq<char>)
    ensures
        pushed(pushed(h, command), command) == pushed(h, command),
{
}

/// Browsing never changes the recorded commands, and every step keeps the
/// cursor on an entry.
pub proof fn law_steps_keep_entries_and_wf(h: HistoryModel, input: Seq<char>, command: Seq<char>)
    requires
        h.wf(),
    ensures
        stepped_up(h, input).0.entries == h.entries,
        stepped_down(h).0.entries == h.entries,
        stepped_up(h, input).0.wf(),
        stepped_down(h).0.wf(),
        pushed(h, command).wf(),
{
}

/// A step down undoes a step up that moved: the cursor comes back, and the
/// text shown is what was shown before the step up (the typed input when
/// browsing had not begun).
pub proof fn law_down_undoes_up(h: HistoryModel, input: Seq<char>)
    requires
        h.wf(),
        stepped_up(h, input).1 is Some,
    ensures
        stepped_down(stepped_up(h, input).0).0.cursor == h.cursor,
        stepped_down(stepped_up(h, input).0).0.entries == h.entries,
        h.cursor is None ==> stepped_down(stepped_up(h, input).0).1 == input,
        h.cursor is Some ==> stepped_down(stepped_up(h, input).0).1 == h.entries[h.cursor->0 as int],
{
}

/// Stepping down when not browsing shows the draft and changes nothing.
pub proof fn law_down_when_idle_shows_draft(h: HistoryModel)
    requires
        h.cursor is None,
    ensures
        stepped_down(h) == (h, h.draft),
{
}

/// The pieces of `u` between its line breaks: one more than it has line
/// breaks.
pub open spec fn line_pieces(u: Seq<char>) -> Seq<Seq<char>>
    decreases u.len(),
{
    if u.len() == 0 {
        seq![Seq::empty()]
    } else if u.last() == '\n' {
        line_pieces(u.drop_last()).push(Seq::empty())
    } else {
        let p = line_pieces(u.drop_last());
        p.update(p.len() - 1, p.last().push(u.last()))
    }
}

/// The lines of a text, as a line reader yields them: the text is split at
/// each `\n`, and a final `\n` ends the last line instead of starting an
/// empty one. (A reader also drops a `\r` before a line break; texts
/// without `\r` are unaffected.)
pub open spec fn split_lines(t: Seq<char>) -> Seq<Seq<char>> {
    if t.len() == 0 {
        Seq::empty()
    } else if t.last() == '\n' {
        line_pieces(t.drop_last())
    } else {
        line_pieces(t)
    }
}

proof fn lemma_pieces_extend(u: Seq<char>, x: Seq<char>)
    requires
        forall|i: int| 0 <= i < x.len() ==> x[i] != '\n',
    ensures
        line_pieces(u + x).len() == line_pieces(u).len(),
        line_pieces(u + x) == line_pieces(u).update(
            line_pieces(u).len() - 1,
            line_pieces(u).last() + x,
        ),
    decreases x.len(),
{
    lemma_pieces_nonempty(u);
    if x.len() == 0 {
        assert(u + x =~= u);
        assert(line_pieces(u).last() + x =~= line_pieces(u).last());
        assert(line_pieces(u).update(line_pieces(u).len() - 1, line_pieces(u).last()) =~= line_pieces(u));
    } else {
        let y = x.drop_last();
        lemma_pieces_extend(u, y);
        assert((u + x).drop_last() =~= u + y);
        assert((u + x).last() == x.last());
        let p = line_pieces(u);
        let q = line_pieces(u + y);
        assert(x.last() == x[x.len() - 1]);
        assert(x.last() != '\n');
        assert(line_pieces(u + x) == q.update(q.len() - 1, q.last().push(x.last())));
        assert(q.last() == p.last() + y);
        assert((p.last() + y).push(x.last()) =~= p.last() + x);
        assert(line_pieces(u + x) =~= p.update(p.len() - 1, p.last() + x));
    }
}

proof fn lemma_pieces_nonempty(u: Seq<char>)
    ensures
        line_pieces(u).len() >= 1,
    decreases u.len(),
{
    if u.len() > 0 {
        lemma_pieces_nonempty(u.drop_last());
    }
}

proof fn lemma_file_text_lines(entries: Seq<Seq<char>>)
    requires
        forall|k: int, i: int| 0 <= k < entries.len() && 0 <= i < entries[k].len() ==> entries[k][i] != '\n',
    ensures
        split_lines(history_file_text(entries)) == entries,
    decreases entries.len(),
{
    if entries.len() > 0 {
        let rest = entries.drop_last();
        let x = entries.last();
        let t = history_file_text(entries);
        assert(t == history_file_text(rest) + x.push('\n'));
        assert(t.last() == '\n');
        assert(t.drop_last() =~= history_file_text(rest) + x);
        lemma_file_text_lines(rest);
        let w = history_file_text(rest);
        lemma_pieces_extend(w, x);
        if rest.len() == 0 {
            assert(w =~= Seq::<char>::empty());
            assert(line_pieces(w) == seq![Seq::<char>::empty()]);
            assert(Seq::<char>::empty() + x =~= x);
            assert(line_pieces(w + x) =~= seq![x]);
            assert(entries =~= seq![x]);
        } else {
            assert(w.len() > 0) by {
                assert(w == history_file_text(rest.drop_last()) + rest.last().push('\n'));
            }
            assert(w == history_file_text(rest.drop_last()) + rest.last().push('\n'));
            assert(w.last() == '\n');
            assert(line_pieces(w) == line_pieces(w.drop_last()).push(Seq::empty()));
            assert(split_lines(w) == line_pieces(w.drop_last()));
            assert(line_pieces(w + x) =~= rest.push(x));
            assert(entries =~= rest.push(x));
        }
    }
}

proof fn lemma_nonempty_lines_keep_all(lines: Seq<Seq<char>>)
    requires
        forall|k: int| 0 <= k < lines.len() ==> lines[k].len() > 0,
    ensures
        nonempty_lines(lines) == lines,
    decreases lines.len(),
{
    reveal_with_fuel(Seq::filter, 1);
    if lines.len() > 0 {
        lemma_nonempty_lines_keep_all(lines.drop_last());
        assert(lines.drop_last().push(lines.last()) =~= lines);
    } else {
        assert(nonempty_lines(lines) =~= lines);
    }
}

/// A history survives being saved and read back: when no command is empty
/// or holds a line break, the non-empty lines of the history file are the
/// commands, in order.
pub proof fn law_history_file_round_trip(entries: Seq<Seq<char>>)
    requires
        forall|k: int| 0 <= k < entries.len() ==> entries[k].len() > 0,
        forall|k: int, i: int| 0 <= k < entries.len() && 0 <= i < entries[k].len() ==> entries[k][i] != '\n',
    ensures
        nonempty_lines(split_lines(history_file_text(entries))) == entries,
{
    lemma_file_text_lines(entries);
    lemma_nonempty_lines_keep_all(entries);
}

/// The command history of the console.
pub struct CommandHistory {
    entries: Vec<String>,
    cursor: Option<usize>,
    draft: String,
}

impl View for CommandHistory {
    type V = HistoryModel;

    closed spec fn view(&self) -> HistoryModel {
        HistoryModel {
            entries: views(self.entries@),
            cursor: match self.cursor {
                Some(c) => Some(c as nat),
                None => None,
            },
            draft: self.draft@,
        }
    }
}

impl CommandHistory {
    #[verifier::type_invariant]
    closed spec fn cursor_in_range(&self) -> bool {
        match self.cursor {
            Some(c) => c < self.entries@.len(),
            None => true,
        }
    }

    /// The history read from the lines of the history file: the empty lines
    /// are left out, and browsing has not begun.
    pub fn load(lines: Vec<String>) -> (res: Self)
        ensures
            res@.entries == nonempty_lines(views(lines@)),
            res@.cursor is None,
            res@.draft == Seq::<char>::empty(),
            res@.wf(),
    {
        let ghost all = views(lines@);
        let mut entries: Vec<String> = Vec::new();
        let mut i: usize = 0;
        while i < lines.len()
            invariant
                i <= lines@.len(),
                all == views(lines@),
                views(entries@) == nonempty_lines(all.take(i as int)),
            decreases lines@.len() - i,
        {
            assert(all.take(i + 1).drop_last() =~= all.take(i as int));
            let line = owned(lines[i].as_str());
            if !line.as_str().is_empty() {
                entries.push(line);
            } else {
                proof {
                    assert(line@.len() == 0);
                }
            }
            proof {
                reveal_with_fuel(Seq::filter, 1);
                assert(views(entries@) =~= nonempty_lines(all.take(i + 1)));
            }
            i += 1;
        }
        assert(all.take(lines@.len() as int) =~= all);
        CommandHistory { entries, cursor: None, draft: String::new() }
    }

    /// Records a submitted command: it is appended unless it repeats the
    /// newest entry, and browsing stops.
    pub fn push(&mut self, command: String)
        ensures
            final(self)@ == pushed(old(self)@, command@),
            final(self)@.wf(),
    {
        let n = self.entries.len();
        let repeats = n > 0 && self.entries[n - 1] == command;
        self.cursor = None;
        if !repeats {
            let mut entries: Vec<String> = Vec::new();
            std::mem::swap(&mut entries, &mut self.entries);
            entries.push(command);
            self.entries = entries;
            proof {
                assert(views(self.entries@) =~= views(old(self).entries@).push(command@));
            }
        } else {
            proof {
                assert(self.entries@[n - 1]@ == command@);
            }
        }
    }

    /// Moves one entry back in time, remembering `current_input` as the draft
    /// when browsing begins; `None` when there is nothing older.
    pub fn navigate_up(&mut self, current_input: &str) -> (res: Option<String>)
        ensures
            final(self)@ == stepped_up(old(self)@, current_input@).0,
            final(self)@.wf(),
            match (res, stepped_up(old(self)@, current_input@).1) {
                (Some(r), Some(e)) => r@ == e,
                (None, None) => true,
                _ => false,
            },
    {
        proof {
            use_type_invariant(&*self);
        }
        let n = self.entries.len();
        if n == 0 {
            return None;
        }
        let new_cursor = match self.cursor {
            None => {
                self.draft = owned(current_input);
                n - 1
            },
            Some(c) => {
                if c == 0 {
                    return None;
                }
                c - 1
            },
        };
        self.cursor = Some(new_cursor);
        Some(owned(self.entries[new_cursor].as_str()))
    }

    /// Moves one entry forward in time; past the newest entry the draft is
    /// returned and browsing stops.
    pub fn navigate_down(&mut self) -> (res: String)
        ensures
            final(self)@ == stepped_down(old(self)@).0,
            final(self)@.wf(),
            res@ == stepped_down(old(self)@).1,
    {
        proof {
            use_type_invariant(&*self);
        }
        match self.cursor {
            None => owned(self.draft.as_str()),
            Some(c) => {
                let n = self.entries.len();
                assert(c < n);
                if c + 1 >= n {
                    self.cursor = None;
                    owned(self.draft.as_str())
                } else {
                    self.cursor = Some(c + 1);
                    owned(self.entries[c + 1].as_str())
                }
            },
        }
    }

    /// The text to write to the history file: every entry followed by a
    /// line break.
    pub fn file_text(&self) -> (res: String)
        ensures
            res@ == history_file_text(self@.entries),
    {
        let ghost all = views(self.entries@);
        let mut res = String::new();
        let mut i: usize = 0;
        while i < self.entries.len()
            invariant
                i <= self.entries@.len(),
                all == views(self.entries@),
                res@ == history_file_text(all.take(i as int)),
            decreases self.entries@.len() - i,
        {
            assert(all.take(i + 1).drop_last() =~= all.take(i as int));
            res = res.concat(self.entries[i].as_str());
            push_char(&mut res, '\n');
            i += 1;
        }
        assert(all.take(self.entries@.len() as int) =~= all);
        res
    }
}

} // verus!
