//! The decoder of point and list literals.
//!
//! A point literal is `Point((x, y))` with two numbers. The items of a list literal stand
//! between commas; a comma inside parentheses belongs to its item. Each item is read, with the
//! space around it taken off, as a point, else as a number, else as a truth value; an item
//! that is none of these is left out, and the list is made of the others.

use crate::number::float_literal;
use crate::number::is_float_literal;
use crate::number::Number;
use crate::number::NumberView;
use crate::text::chars_of;
use crate::text::copy_range;
use crate::text::ends_with;
use crate::text::has_prefix;
use crate::text::has_suffix;
use crate::text::same_text;
use crate::text::starts_with;
use crate::text::trim;
use crate::text::trimmed;
use crate::value::lemma_result_views_push;
use crate::value::result_views;
use crate::value::truth_text;
use crate::value::Array;
use crate::value::Point;
use crate::value::PointView;
use crate::value::ReplResult;
use crate::value::ReplResultView;
use vstd::prelude::*;

verus! {

/// How a point literal begins.
pub open spec fn point_open() -> Seq<char> {
    seq!['P', 'o', 'i', 'n', 't', '(', '(']
}

/// How a point literal ends.
pub open spec fn point_close() -> Seq<char> {
    seq![')', ')']
}

/// The position of the first comma of `s` from `from` on, or the length of `s` where there
/// is none.
pub open spec fn next_comma(s: Seq<char>, from: int) -> int
    decreases s.len() - from,
{
    if from < 0 || from >= s.len() {
        s.len() as int
    } else if s[from] == ',' {
        from
    } else {
        next_comma(s, from + 1)
    }
}

/// The point that a text spells: after trimming, `Point((`, two numbers with one comma
/// between them and space around them at will, and `))`.
pub open spec fn point_of(text: Seq<char>) -> Option<PointView> {
    let t = trimmed(text);
    if t.len() >= 9 && has_prefix(t, point_open()) && has_suffix(t, point_close()) {
        let inside = t.subrange(7, t.len() - 2);
        let comma = next_comma(inside, 0);
        let x = trimmed(inside.subrange(0, comma));
        let y = trimmed(inside.subrange(comma + 1, inside.len() as int));
        if comma < inside.len() && next_comma(inside, comma + 1) == inside.len()
            && is_float_literal(x) && is_float_literal(y) {
            Some(PointView { x: NumberView::Literal(x), y: NumberView::Literal(y) })
        } else {
            None
        }
    } else {
        None
    }
}

/// The result that an item of a list spells: a point, else a number, else a truth value.
pub open spec fn item_of(text: Seq<char>) -> Option<ReplResultView> {
    if point_of(text) is Some {
        Some(ReplResultView::Point(point_of(text)->0))
    } else if is_float_literal(text) {
        Some(ReplResultView::Number(NumberView::Literal(text)))
    } else if text == truth_text(true) {
        Some(ReplResultView::Boolean(true))
    } else if text == truth_text(false) {
        Some(ReplResultView::Boolean(false))
    } else {
        None
    }
}

/// How deep in parentheses the position `i` of `s` lies: each `(` before it counts one up,
/// each `)` one down, but never below zero.
pub open spec fn depth_at(s: Seq<char>, i: int) -> nat
    decreases i,
{
    if i <= 0 || i > s.len() {
        0
    } else {
        let before = depth_at(s, i - 1);
        if s[i - 1] == '(' {
            before + 1
        } else if s[i - 1] == ')' && before > 0 {
            (before - 1) as nat
        } else {
            before
        }
    }
}

/// A comma outside all parentheses, which parts two items.
pub open spec fn is_separator(s: Seq<char>, i: int) -> bool {
    0 <= i < s.len() && s[i] == ',' && depth_at(s, i) == 0
}

/// The position of the first separator of `s` from `from` on, or the length of `s` where
/// there is none.
pub open spec fn next_separator(s: Seq<char>, from: int) -> int
    decreases s.len() - from,
{
    if from < 0 || from >= s.len() {
        s.len() as int
    } else if is_separator(s, from) {
        from
    } else {
        next_separator(s, from + 1)
    }
}

/// The item that the piece `piece` contributes to a list: one item or none.
pub open spec fn contribution(piece: Seq<char>) -> Seq<ReplResultView> {
    match item_of(trimmed(piece)) {
        Some(item) => seq![item],
        None => Seq::empty(),
    }
}

/// The items of the list whose text is `s`, from the position `from` on: what the piece up to
/// the next separator contributes, then the items behind that separator. Nothing is left to
/// contribute behind the last character.
pub open spec fn items_from(s: Seq<char>, from: int) -> Seq<ReplResultView>
    decreases s.len() - from,
{
    if from < 0 || from >= s.len() {
        Seq::empty()
    } else {
        let end = next_separator(s, from);
        proof {
            lemma_next_separator_bounds(s, from);
        }
        if end >= s.len() {
            contribution(s.subrange(from, end))
        } else {
            contribution(s.subrange(from, end)) + items_from(s, end + 1)
        }
    }
}

/// The items of the list whose text is `values`, after trimming.
pub open spec fn decoded(values: Seq<char>) -> Seq<ReplResultView> {
    items_from(trimmed(values), 0)
}

/// The next separator lies at or behind the start of the search, within the text or at its
/// end, and no separator lies before it.
pub proof fn lemma_next_separator_bounds(s: Seq<char>, from: int)
    requires
        0 <= from <= s.len(),
    ensures
        from <= next_separator(s, from) <= s.len(),
        next_separator(s, from) < s.len() ==> is_separator(s, next_separator(s, from)),
        forall|j: int| from <= j < next_separator(s, from) ==> !is_separator(s, j),
    decreases s.len() - from,
{
    if from < s.len() && !is_separator(s, from) {
        lemma_next_separator_bounds(s, from + 1);
    }
}

/// Where no separator lies between `from` and `end`, and one lies at `end` or the text ends
/// there, `end` is the next separator from `from`.
pub(crate) proof fn lemma_next_separator_at(s: Seq<char>, from: int, end: int)
    requires
        0 <= from <= end <= s.len(),
        forall|j: int| from <= j < end ==> !is_separator(s, j),
        end < s.len() ==> is_separator(s, end),
    ensures
        next_separator(s, from) == end,
    decreases end - from,
{
    if from < end {
        lemma_next_separator_at(s, from + 1, end);
    }
}

/// Where no comma lies between `from` and `end`, and one lies at `end` or the text ends
/// there, `end` is the next comma from `from`.
pub(crate) proof fn lemma_next_comma_at(s: Seq<char>, from: int, end: int)
    requires
        0 <= from <= end <= s.len(),
        forall|j: int| from <= j < end ==> s[j] != ',',
        end < s.len() ==> s[end] == ',',
    ensures
        next_comma(s, from) == end,
    decreases end - from,
{
    if from < end {
        lemma_next_comma_at(s, from + 1, end);
    }
}

/// The position of the first comma of `s` from `from` on, or the length of `s`.
fn find_comma(s: &[char], from: usize) -> (r: usize)
    requires
        from <= s@.len(),
    ensures
        r == next_comma(s@, from as int),
        from <= r <= s@.len(),
{
    let mut i: usize = from;
    while i < s.len() && s[i] != ','
        invariant
            from <= i <= s@.len(),
            forall|j: int| from <= j < i ==> s@[j] != ',',
        decreases s@.len() - i,
    {
        i += 1;
    }
    proof {
        lemma_next_comma_at(s@, from as int, i as int);
    }
    i
}

/// The point that `value` spells, if it spells one.
pub fn read_point(value: &[char]) -> (r: Option<Point>)
    ensures
        match r {
            Some(p) => point_of(value@) == Some(p@),
            None => point_of(value@) is None,
        },
{
    let t = trim(value);
    let open: [char; 7] = ['P', 'o', 'i', 'n', 't', '(', '('];
    let close: [char; 2] = [')', ')'];
    proof {
        assert(open@ == point_open());
        assert(close@ == point_close());
    }
    if t.len() < 9 || !starts_with(t.as_slice(), open.as_slice()) || !ends_with(
        t.as_slice(),
        close.as_slice(),
    ) {
        return None;
    }
    let inside = copy_range(t.as_slice(), 7, t.len() - 2);
    let comma = find_comma(inside.as_slice(), 0);
    if comma >= inside.len() {
        return None;
    }
    if find_comma(inside.as_slice(), comma + 1) != inside.len() {
        return None;
    }
    let x = trim(copy_range(inside.as_slice(), 0, comma).as_slice());
    let y = trim(copy_range(inside.as_slice(), comma + 1, inside.len()).as_slice());
    if float_literal(x.as_slice()) && float_literal(y.as_slice()) {
        Some(
            Point {
                x: Number::from_literal(x.as_slice()),
                y: Number::from_literal(y.as_slice()),
            },
        )
    } else {
        None
    }
}

/// The result that the item `value` spells, if it spells one.
pub fn read_value(value: &[char]) -> (r: Option<ReplResult>)
    ensures
        match r {
            Some(item) => item_of(value@) == Some(item@),
            None => item_of(value@) is None,
        },
{
    match read_point(value) {
        Some(p) => {
            return Some(ReplResult::Point(p));
        },
        None => {},
    }
    if float_literal(value) {
        return Some(ReplResult::Number(Number::from_literal(value)));
    }
    let yes: [char; 4] = ['t', 'r', 'u', 'e'];
    let no: [char; 5] = ['f', 'a', 'l', 's', 'e'];
    proof {
        assert(yes@ == truth_text(true));
        assert(no@ == truth_text(false));
    }
    if same_text(value, yes.as_slice()) {
        Some(ReplResult::Boolean(true))
    } else if same_text(value, no.as_slice()) {
        Some(ReplResult::Boolean(false))
    } else {
        None
    }
}

/// Adds to `out` what the piece `s[from..end]` contributes.
fn contribute(s: &[char], from: usize, end: usize, out: &mut Vec<ReplResult>)
    requires
        from <= end <= s@.len(),
    ensures
        result_views(final(out)@) == result_views(old(out)@) + contribution(
            s@.subrange(from as int, end as int),
        ),
{
    let piece = copy_range(s, from, end);
    let item = read_value(trim(piece.as_slice()).as_slice());
    match item {
        Some(found) => {
            proof {
                lemma_result_views_push(out@, found);
                assert(result_views(out@).push(found@) == result_views(out@) + seq![found@]);
            }
            out.push(found);
        },
        None => {
            proof {
                assert(result_views(out@) + Seq::<ReplResultView>::empty() == result_views(out@));
            }
        },
    }
}

/// The items of the list whose text is `values`: the text is trimmed and parted at the commas
/// that lie outside all parentheses, and each piece is read by [`read_value`].
pub fn read_items(values: &[char]) -> (r: Vec<ReplResult>)
    ensures
        result_views(r@) == decoded(values@),
{
    let trimmed_values = trim(values);
    let s = trimmed_values.as_slice();
    let n = s.len();
    let mut out: Vec<ReplResult> = Vec::new();
    let mut start: usize = 0;
    let mut depth: usize = 0;
    let mut i: usize = 0;
    proof {
        assert(result_views(out@) + items_from(s@, 0) == items_from(s@, 0));
    }
    while i < n
        invariant
            start <= i <= n == s@.len(),
            depth == depth_at(s@, i as int),
            depth <= i,
            forall|j: int| start <= j < i ==> !is_separator(s@, j),
            items_from(s@, 0) == result_views(out@) + items_from(s@, start as int),
        decreases n - i,
    {
        let c = s[i];
        let ghost before = depth;
        if c == '(' {
            depth += 1;
        } else if c == ')' && depth > 0 {
            depth -= 1;
        }
        if c == ',' && depth == 0 {
            let ghost gathered = result_views(out@);
            proof {
                assert(before == 0);
                lemma_next_separator_at(s@, start as int, i as int);
            }
            contribute(s, start, i, &mut out);
            proof {
                let here = contribution(s@.subrange(start as int, i as int));
                assert(gathered + (here + items_from(s@, i + 1)) == (gathered + here) + items_from(
                    s@,
                    i + 1,
                ));
            }
            start = i + 1;
        }
        i += 1;
    }
    if start < n {
        let ghost gathered = result_views(out@);
        proof {
            lemma_next_separator_at(s@, start as int, n as int);
        }
        contribute(s, start, n, &mut out);
        proof {
            let here = contribution(s@.subrange(start as int, n as int));
            assert(items_from(s@, n + 1) == Seq::<ReplResultView>::empty());
            assert(gathered + (here + Seq::<ReplResultView>::empty()) == gathered + here);
        }
    } else {
        proof {
            assert(result_views(out@) + Seq::<ReplResultView>::empty() == result_views(out@));
        }
    }
    out
}

/// The point that `value` spells, if it spells one.
pub fn parse_point(value: &str) -> (r: Option<Point>)
    ensures
        match r {
            Some(p) => point_of(value@) == Some(p@),
            None => point_of(value@) is None,
        },
{
    read_point(chars_of(value).as_slice())
}

/// The result that the item `value` spells, if it spells one: a point, else a number, else a
/// truth value. Space around the item is not taken off here.
pub fn parse_value(value: &str) -> (r: Option<ReplResult>)
    ensures
        match r {
            Some(item) => item_of(value@) == Some(item@),
            None => item_of(value@) is None,
        },
{
    read_value(chars_of(value).as_slice())
}

/// The list whose items are written in `values`.
pub fn decode_list(values: &str) -> (r: Array)
    ensures
        r@ == decoded(values@),
{
    Array { items: read_items(chars_of(values).as_slice()) }
}

} // verus!
