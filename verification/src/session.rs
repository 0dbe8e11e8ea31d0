//! The record that a board keeps of its session: the line being entered, the lines entered so
//! far, what is shown of them and of their outcomes, the file of the board, and whether the
//! board has changes that are not saved.
//!
//! Each event of the session is one function here, from the record before to the record after.
//! What an event takes from outside, such as the outcome of a line or the file that was chosen,
//! is handed in. A file that is opened is entered again line by line: each line becomes the
//! line being entered and is recorded with its outcome.

use crate::board::board_name;
use crate::board::can_be_stem;
use crate::board::echo_text;
use crate::board::get_board_name;
use crate::board::is_plain_name;
use crate::board::plain_stem;
use crate::board::outcome_text;
use crate::board::OutputHistoryItem;
use crate::board::OutputHistoryItemType;
use vstd::prelude::*;

verus! {

/// The record of a session.
#[derive(Debug, Clone, PartialEq)]
pub struct Session {
    /// The line that is being entered.
    pub repl_input: String,
    /// The lines that were entered, oldest first.
    pub repl_input_history: Vec<String>,
    /// What is shown: each line with its outcome behind it, oldest first.
    pub repl_output_history: Vec<OutputHistoryItem>,
    /// Whether the place where lines are entered is to be in focus.
    pub repl_should_input_be_in_focus: bool,
    /// The file in which the board is kept, if it is kept in one.
    pub current_open_file_path: Option<String>,
    /// Whether the board has changes that are not saved.
    pub board_has_unsaved_changes: bool,
}

/// What a [`Session`] holds, over sequences.
pub struct SessionView {
    pub input: Seq<char>,
    pub inputs: Seq<Seq<char>>,
    pub outputs: Seq<(Seq<char>, OutputHistoryItemType)>,
    pub in_focus: bool,
    pub path: Option<Seq<char>>,
    pub unsaved: bool,
}

/// The texts of `lines`, in order.
pub open spec fn line_views(lines: Seq<String>) -> Seq<Seq<char>> {
    lines.map_values(|s: String| s@)
}

/// The entries of `items` as pairs of text and kind, in order.
pub open spec fn item_views(items: Seq<OutputHistoryItem>) -> Seq<
    (Seq<char>, OutputHistoryItemType),
> {
    items.map_values(|item: OutputHistoryItem| (item.value@, item.kind))
}

impl View for Session {
    type V = SessionView;

    open spec fn view(&self) -> SessionView {
        SessionView {
            input: self.repl_input@,
            inputs: line_views(self.repl_input_history@),
            outputs: item_views(self.repl_output_history@),
            in_focus: self.repl_should_input_be_in_focus,
            path: match self.current_open_file_path {
                Some(path) => Some(path@),
                None => None,
            },
            unsaved: self.board_has_unsaved_changes,
        }
    }
}

/// The kind of entry that an outcome is.
pub open spec fn outcome_kind(succeeded: bool) -> OutputHistoryItemType {
    if succeeded {
        OutputHistoryItemType::OkOutput
    } else {
        OutputHistoryItemType::ErrOutput
    }
}

impl SessionView {
    /// A session that has just begun: nothing entered, nothing shown, no file, no change.
    pub open spec fn fresh() -> SessionView {
        SessionView {
            input: Seq::empty(),
            inputs: Seq::empty(),
            outputs: Seq::empty(),
            in_focus: true,
            path: None,
            unsaved: false,
        }
    }

    /// The line being entered and its outcome are shown.
    pub open spec fn recorded(self, shown: Seq<char>, succeeded: bool) -> SessionView {
        SessionView {
            outputs: self.outputs.push(
                (echo_text(self.input), OutputHistoryItemType::PreviousInput),
            ).push((outcome_text(shown), outcome_kind(succeeded))),
            ..self
        }
    }

    /// The line being entered is submitted: a board that is kept in a file now has a change,
    /// the line joins the lines entered and is shown with its outcome, and the place for the
    /// next line is empty and in focus.
    pub open spec fn submitted(self, shown: Seq<char>, succeeded: bool) -> SessionView {
        SessionView {
            input: Seq::empty(),
            inputs: self.inputs.push(self.input),
            in_focus: true,
            unsaved: self.unsaved || self.path is Some,
            ..self.recorded(shown, succeeded)
        }
    }

    /// The histories are cleared: a board that is kept in a file now has a change.
    pub open spec fn cleared(self) -> SessionView {
        SessionView {
            inputs: Seq::empty(),
            outputs: Seq::empty(),
            unsaved: self.unsaved || self.path is Some,
            ..self
        }
    }

    /// The board was saved. A board without a file takes the file that was chosen, if one was
    /// chosen; either way the board counts as saved.
    pub open spec fn saved(self, chosen: Option<Seq<char>>) -> SessionView {
        SessionView {
            path: if self.path is Some {
                self.path
            } else {
                chosen
            },
            unsaved: false,
            ..self
        }
    }

    /// The board was saved under a file of its own choice, which becomes its file.
    pub open spec fn saved_as(self, path: Seq<char>) -> SessionView {
        SessionView { path: Some(path), ..self }
    }

    /// A file was chosen to be opened: what was entered and shown gives way.
    pub open spec fn open_begun(self) -> SessionView {
        SessionView { input: Seq::empty(), inputs: Seq::empty(), outputs: Seq::empty(), ..self }
    }

    /// The chosen file was read: its lines are the lines entered, and it is the board's file.
    pub open spec fn opened(self, path: Seq<char>, lines: Seq<Seq<char>>) -> SessionView {
        SessionView { inputs: lines, path: Some(path), ..self }
    }
}

impl Session {
    /// A session that has just begun.
    pub fn new() -> (r: Session)
        ensures
            r@ == SessionView::fresh(),
    {
        let r = Session {
            repl_input: String::new(),
            repl_input_history: Vec::new(),
            repl_output_history: Vec::new(),
            repl_should_input_be_in_focus: true,
            current_open_file_path: None,
            board_has_unsaved_changes: false,
        };
        proof {
            assert(line_views(r.repl_input_history@) == Seq::<Seq<char>>::empty());
            assert(item_views(r.repl_output_history@) == Seq::<
                (Seq<char>, OutputHistoryItemType),
            >::empty());
        }
        r
    }

    /// The name of the board: see [`get_board_name`].
    pub fn name(&self) -> (r: String)
        ensures
            match self@.path {
                Some(path) => r@ == board_name(None, self@.unsaved) || exists|stem: Seq<char>|
                    can_be_stem(stem, path) && r@ == #[trigger] board_name(
                        Some(stem),
                        self@.unsaved,
                    ),
                None => r@ == board_name(None, self@.unsaved),
            },
            match self@.path {
                Some(path) => is_plain_name(path) ==> r@ == board_name(
                    Some(plain_stem(path)),
                    self@.unsaved,
                ),
                None => true,
            },
    {
        let path = match &self.current_open_file_path {
            Some(path) => Some(path.clone()),
            None => None,
        };
        get_board_name(path, self.board_has_unsaved_changes)
    }

    /// The line being entered becomes `text`.
    pub fn change_input(&mut self, text: String)
        ensures
            final(self)@ == (SessionView { input: text@, ..old(self)@ }),
    {
        self.repl_input = text;
    }

    /// Shows the line being entered and behind it its outcome: `shown` is what shows the result
    /// or the failure, `succeeded` tells which of the two it is.
    pub fn record(&mut self, shown: &str, succeeded: bool)
        ensures
            final(self)@ == old(self)@.recorded(shown@, succeeded),
    {
        let ghost before = item_views(self.repl_output_history@);
        let echo = OutputHistoryItem::echo(self.repl_input.as_str());
        let outcome = OutputHistoryItem::outcome(shown, succeeded);
        self.repl_output_history.push(echo);
        self.repl_output_history.push(outcome);
        proof {
            assert(item_views(self.repl_output_history@) == before.push(
                (echo_text(old(self).repl_input@), OutputHistoryItemType::PreviousInput),
            ).push((outcome_text(shown@), outcome_kind(succeeded))));
        }
    }

    /// Submits the line being entered, whose outcome is `shown`.
    pub fn submit(&mut self, shown: &str, succeeded: bool)
        ensures
            final(self)@ == old(self)@.submitted(shown@, succeeded),
    {
        if self.current_open_file_path.is_some() {
            self.board_has_unsaved_changes = true;
        }
        let ghost lines = line_views(self.repl_input_history@);
        self.repl_input_history.push(self.repl_input.clone());
        proof {
            assert(line_views(self.repl_input_history@) == lines.push(old(self).repl_input@));
        }
        self.record(shown, succeeded);
        self.repl_input = String::new();
        self.repl_should_input_be_in_focus = true;
    }

    /// Clears the lines entered and what is shown.
    pub fn clear(&mut self)
        ensures
            final(self)@ == old(self)@.cleared(),
    {
        if self.current_open_file_path.is_some() {
            self.board_has_unsaved_changes = true;
        }
        self.repl_input_history = Vec::new();
        self.repl_output_history = Vec::new();
        proof {
            assert(line_views(self.repl_input_history@) == Seq::<Seq<char>>::empty());
            assert(item_views(self.repl_output_history@) == Seq::<
                (Seq<char>, OutputHistoryItemType),
            >::empty());
        }
    }

    /// Notes that the board was saved: to its file, or to the file `chosen` where it had none.
    pub fn saved(&mut self, chosen: Option<String>)
        ensures
            final(self)@ == old(self)@.saved(
                match chosen {
                    Some(path) => Some(path@),
                    None => None,
                },
            ),
    {
        if self.current_open_file_path.is_none() {
            self.current_open_file_path = chosen;
        }
        self.board_has_unsaved_changes = false;
    }

    /// Notes that the board was saved to the file `path`, which is its file from now on.
    pub fn saved_as(&mut self, path: String)
        ensures
            final(self)@ == old(self)@.saved_as(path@),
    {
        self.current_open_file_path = Some(path);
    }

    /// Makes room for a file that is about to be opened.
    pub fn begin_open(&mut self)
        ensures
            final(self)@ == old(self)@.open_begun(),
    {
        self.repl_input = String::new();
        self.repl_input_history = Vec::new();
        self.repl_output_history = Vec::new();
        proof {
            assert(line_views(self.repl_input_history@) == Seq::<Seq<char>>::empty());
            assert(item_views(self.repl_output_history@) == Seq::<
                (Seq<char>, OutputHistoryItemType),
            >::empty());
        }
    }

    /// Takes the lines of the file `path`, which was read, as the lines entered.
    pub fn opened(&mut self, path: String, lines: Vec<String>)
        ensures
            final(self)@ == old(self)@.opened(path@, line_views(lines@)),
    {
        self.repl_input_history = lines;
        self.current_open_file_path = Some(path);
    }
}

} // verus!
