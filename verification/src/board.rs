//! What a board shows around the engine: its name, and the history of lines and outcomes.

use crate::text::append;
use crate::text::chars_of;
use crate::text::copy_range;
use crate::text::ends_with;
use crate::text::has_prefix;
use crate::text::has_suffix;
use crate::text::starts_with;
use crate::text::string_of;
use std::path::Path;
use vstd::prelude::*;

verus! {

/// What an entry of the history is.
#[derive(Debug, Clone, Copy, PartialEq, Eq, Structural)]
pub enum OutputHistoryItemType {
    /// A line as it was entered.
    PreviousInput,
    /// The outcome of a line that had a result.
    OkOutput,
    /// The outcome of a line that failed.
    ErrOutput,
}

/// An entry of the history: its text, and what it is.
#[derive(Debug, Clone, PartialEq)]
pub struct OutputHistoryItem {
    pub value: String,
    pub kind: OutputHistoryItemType,
}

/// The name of a board that was never saved.
pub open spec fn untitled() -> Seq<char> {
    seq!['u', 'n', 't', 'i', 't', 'l', 'e', 'd']
}

/// The name of a board: the stem of its file's name, or `untitled` where there is none, and
/// a star behind it while the board has changes that are not saved.
pub open spec fn board_name(stem: Option<Seq<char>>, unsaved: bool) -> Seq<char> {
    let name = match stem {
        Some(text) => text,
        None => untitled(),
    };
    if unsaved {
        name.push('*')
    } else {
        name
    }
}

/// `part` stands somewhere in `whole`, in one piece.
pub open spec fn is_part_of(part: Seq<char>, whole: Seq<char>) -> bool {
    exists|i: int| 0 <= i && i + part.len() <= whole.len() && #[trigger] whole.subrange(
        i,
        i + part.len(),
    ) == part
}

/// A path that is one plain name: not empty, without a slash, a backslash or a colon, and
/// neither `.` nor `..`.
pub open spec fn is_plain_name(path: Seq<char>) -> bool {
    &&& path.len() > 0
    &&& !path.contains('/')
    &&& !path.contains('\\')
    &&& !path.contains(':')
    &&& path != seq!['.']
    &&& path != seq!['.', '.']
}

/// The place of the last point of `name`, or -1 where it has none.
pub open spec fn last_dot(name: Seq<char>) -> int
    decreases name.len(),
{
    if name.len() == 0 {
        -1
    } else if name.last() == '.' {
        name.len() - 1
    } else {
        last_dot(name.drop_last())
    }
}

/// The stem of a plain name: what stands before its last point, or the whole name where it
/// has no point or only one at its front.
pub open spec fn plain_stem(name: Seq<char>) -> Seq<char> {
    if last_dot(name) > 0 {
        name.subrange(0, last_dot(name))
    } else {
        name
    }
}

/// What can be the stem of the file name of a path: a piece of the path that is not empty. It
/// holds no slash unless the path holds a backslash, and of a plain name it is the stem of
/// that name.
pub open spec fn can_be_stem(stem: Seq<char>, path: Seq<char>) -> bool {
    &&& stem.len() > 0
    &&& is_part_of(stem, path)
    &&& !path.contains('\\') ==> !stem.contains('/')
    &&& is_plain_name(path) ==> stem == plain_stem(path)
}

/// How a line begins that asks for a curve to be drawn.
pub open spec fn draw_open() -> Seq<char> {
    seq!['d', 'r', 'a', 'w', '(']
}

/// The equation of a line that asks for a curve to be drawn: what stands between `draw(` at
/// its beginning and `)` at its end.
pub open spec fn drawn(input: Seq<char>) -> Option<Seq<char>> {
    if input.len() >= 6 && has_prefix(input, draw_open()) && has_suffix(input, seq![')']) {
        Some(input.subrange(5, input.len() - 1))
    } else {
        None
    }
}

/// The text of the history entry for a line that was entered.
pub open spec fn echo_text(input: Seq<char>) -> Seq<char> {
    seq!['>', '>', '>', ' '] + input + seq!['\n']
}

/// The text of the history entry for an outcome.
pub open spec fn outcome_text(shown: Seq<char>) -> Seq<char> {
    seq!['=', '>', ' '] + shown + seq!['\n']
}

/// The stem of the file name of a path, by `Path::file_stem`: the last component of the path
/// without its extension, if the path has a last component that is a name. Which characters
/// part the components depends on the platform. On every platform the stem is a piece of the
/// path and not empty; the slash parts components wherever no backslash says otherwise; and a
/// path that is one plain name has a stem, which is the name up to its last point, or the
/// whole name where the only point stands at its front.
#[verifier::external_body]
fn file_stem(path: &str) -> (r: Option<String>)
    ensures
        r matches Some(stem) ==> can_be_stem(stem@, path@),
        is_plain_name(path@) ==> r is Some,
{
    match Path::new(path).file_stem() {
        Some(stem) => Some(stem.to_string_lossy().into_owned()),
        None => None,
    }
}

/// The name of a board whose file name has the stem `stem`.
pub fn name_of_board(stem: Option<String>, board_has_unsaved_changes: bool) -> (r: String)
    ensures
        r@ == board_name(
            match stem {
                Some(text) => Some(text@),
                None => None,
            },
            board_has_unsaved_changes,
        ),
{
    let mut out: Vec<char> = match stem {
        Some(text) => chars_of(text.as_str()),
        None => {
            let word: [char; 8] = ['u', 'n', 't', 'i', 't', 'l', 'e', 'd'];
            proof {
                assert(word@ == untitled());
            }
            copy_range(word.as_slice(), 0, 8)
        },
    };
    proof {
        assert(untitled().subrange(0, 8) == untitled());
    }
    if board_has_unsaved_changes {
        out.push('*');
    }
    string_of(out.as_slice())
}

/// The name of the board that is kept in the file `file_path`, or of a board that is kept in
/// no file. A path that ends in no file name gives the name of a board without a file.
pub fn get_board_name(file_path: Option<String>, board_has_unsaved_changes: bool) -> (r: String)
    ensures
        match file_path {
            Some(path) => r@ == board_name(None, board_has_unsaved_changes) || exists|
                stem: Seq<char>,
            |
                can_be_stem(stem, path@) && r@ == #[trigger] board_name(
                    Some(stem),
                    board_has_unsaved_changes,
                ),
            None => r@ == board_name(None, board_has_unsaved_changes),
        },
        match file_path {
            Some(path) => is_plain_name(path@) ==> r@ == board_name(
                Some(plain_stem(path@)),
                board_has_unsaved_changes,
            ),
            None => true,
        },
{
    let stem = match file_path {
        Some(path) => file_stem(path.as_str()),
        None => None,
    };
    name_of_board(stem, board_has_unsaved_changes)
}

/// The equation of a line that asks for a curve to be drawn, if `input` is such a line.
pub fn draw_equation(input: &str) -> (r: Option<String>)
    ensures
        match r {
            Some(equation) => drawn(input@) == Some(equation@),
            None => drawn(input@) is None,
        },
{
    let chars = chars_of(input);
    let open: [char; 5] = ['d', 'r', 'a', 'w', '('];
    let close: [char; 1] = [')'];
    proof {
        assert(open@ == draw_open());
        assert(close@ == seq![')']);
    }
    if chars.len() >= 6 && starts_with(chars.as_slice(), open.as_slice()) && ends_with(
        chars.as_slice(),
        close.as_slice(),
    ) {
        Some(string_of(copy_range(chars.as_slice(), 5, chars.len() - 1).as_slice()))
    } else {
        None
    }
}

impl OutputHistoryItem {
    /// The entry for a line that was entered.
    pub fn echo(input: &str) -> (r: OutputHistoryItem)
        ensures
            r.value@ == echo_text(input@),
            r.kind == OutputHistoryItemType::PreviousInput,
    {
        let mut out: Vec<char> = Vec::new();
        out.push('>');
        out.push('>');
        out.push('>');
        out.push(' ');
        append(&mut out, chars_of(input).as_slice());
        out.push('\n');
        proof {
            assert(out@ == echo_text(input@));
        }
        OutputHistoryItem {
            value: string_of(out.as_slice()),
            kind: OutputHistoryItemType::PreviousInput,
        }
    }

    /// The entry for the outcome of a line: `shown` is what shows the result or the failure,
    /// `succeeded` tells which of the two it is.
    pub fn outcome(shown: &str, succeeded: bool) -> (r: OutputHistoryItem)
        ensures
            r.value@ == outcome_text(shown@),
            r.kind == if succeeded {
                OutputHistoryItemType::OkOutput
            } else {
                OutputHistoryItemType::ErrOutput
            },
    {
        let mut out: Vec<char> = Vec::new();
        out.push('=');
        out.push('>');
        out.push(' ');
        append(&mut out, chars_of(shown).as_slice());
        out.push('\n');
        proof {
            assert(out@ == outcome_text(shown@));
        }
        OutputHistoryItem {
            value: string_of(out.as_slice()),
            kind: if succeeded {
                OutputHistoryItemType::OkOutput
            } else {
                OutputHistoryItemType::ErrOutput
            },
        }
    }
}

} // verus!
