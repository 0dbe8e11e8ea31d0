//! Writing a decoded list and reading it again.
//!
//! The items of a list that was decoded can be written as the items of a list literal, and
//! that literal decodes to the very same items. This file states that law and proves it.

use crate::decoder::contribution;
use crate::decoder::decoded;
use crate::decoder::depth_at;
use crate::decoder::is_separator;
use crate::decoder::item_of;
use crate::decoder::items_from;
use crate::decoder::lemma_next_comma_at;
use crate::decoder::lemma_next_separator_at;
use crate::decoder::lemma_next_separator_bounds;
use crate::decoder::next_separator;
use crate::decoder::point_close;
use crate::decoder::point_open;
use crate::number::digit_run;
use crate::number::is_decimal;
use crate::number::is_digit;
use crate::number::is_float_literal;
use crate::number::is_sign;
use crate::number::is_special;
use crate::number::lowered;
use crate::number::spells;
use crate::number::NumberView;
use crate::text::has_prefix;
use crate::text::is_whitespace;
use crate::text::trimmed;
use crate::token::is_basic_letter;
use crate::value::comma_space;
use crate::value::joined;
use crate::value::list_source;
use crate::value::number_text;
use crate::value::source_text;
use crate::value::source_texts;
use crate::value::truth_text;
use crate::value::PointView;
use crate::value::ReplResultView;
use vstd::prelude::*;

verus! {

/// A result as a list literal can hold it: a truth value, a number as it was written, or a
/// point of two such numbers.
pub open spec fn is_item(v: ReplResultView) -> bool {
    match v {
        ReplResultView::Boolean(_) => true,
        ReplResultView::Number(n) => is_written(n),
        ReplResultView::Point(p) => is_written(p.x) && is_written(p.y),
        _ => false,
    }
}

/// A number as it was written: a literal that reads as a number.
pub open spec fn is_written(n: NumberView) -> bool {
    n matches NumberView::Literal(text) && is_float_literal(text)
}

/// A character that can stand in a number: a digit, a sign, a point or a letter.
pub open spec fn is_number_char(c: char) -> bool {
    is_digit(c) || is_sign(c) || c == '.' || is_basic_letter(c)
}

/// A text in which no parenthesis, no comma and no white space stands.
pub open spec fn is_plain(t: Seq<char>) -> bool {
    forall|i: int|
        0 <= i < t.len() ==> #[trigger] t[i] != '(' && t[i] != ')' && t[i] != ',' && !is_whitespace(
            t[i],
        )
}

/// A text that stands as one piece of a list: no comma in it lies outside its parentheses,
/// and it closes every parenthesis that it opens.
pub open spec fn is_unit(t: Seq<char>) -> bool {
    &&& forall|i: int| 0 <= i < t.len() ==> !is_separator(t, i)
    &&& depth_at(t, t.len() as int) == 0
}

/// A text that is one piece of a list and reads as `item`: it is not empty, no space stands
/// at either end of it, and it is a unit.
#[verifier::opaque]
pub open spec fn spells_item(t: Seq<char>, item: ReplResultView) -> bool {
    &&& t.len() > 0
    &&& !is_whitespace(t[0])
    &&& !is_whitespace(t.last())
    &&& is_unit(t)
    &&& item_of(t) == Some(item)
}

/// All characters of a run of digits are digits.
proof fn lemma_digit_run(s: Seq<char>, from: int)
    requires
        0 <= from <= s.len(),
    ensures
        from <= digit_run(s, from) <= s.len(),
        forall|i: int| from <= i < digit_run(s, from) ==> is_digit(#[trigger] s[i]),
    decreases s.len() - from,
{
    if from < s.len() && is_digit(s[from]) {
        lemma_digit_run(s, from + 1);
    }
}

/// A decimal number is made of number characters, is not empty, and begins with a digit or a
/// point.
proof fn lemma_decimal_chars(s: Seq<char>)
    requires
        is_decimal(s),
    ensures
        s.len() > 0,
        is_digit(s[0]) || s[0] == '.',
        forall|i: int| 0 <= i < s.len() ==> is_number_char(#[trigger] s[i]),
{
    lemma_digit_run(s, 0);
    let whole = digit_run(s, 0);
    let pointed = whole < s.len() && s[whole] == '.';
    if pointed {
        lemma_digit_run(s, whole + 1);
    }
    let end = if pointed {
        digit_run(s, whole + 1)
    } else {
        whole
    };
    if end < s.len() {
        let e = s.subrange(end, s.len() as int);
        let k: int = if e.len() > 1 && is_sign(e[1]) {
            2
        } else {
            1
        };
        lemma_digit_run(e, k);
        assert forall|i: int| 0 <= i < s.len() implies is_number_char(#[trigger] s[i]) by {
            if i >= end {
                assert(s[i] == e[i - end]);
                if i - end == 0 {
                    assert(lowered(e[0]) == 'e');
                }
            }
        }
    }
}

/// A word for a special value is made of letters and begins with `i` or `n`, capital or
/// small.
proof fn lemma_special_chars(s: Seq<char>)
    requires
        is_special(s),
    ensures
        s.len() > 0,
        s[0] != 'P',
        forall|i: int| 0 <= i < s.len() ==> is_number_char(#[trigger] s[i]),
{
    let inf = seq!['i', 'n', 'f'];
    let infinity = seq!['i', 'n', 'f', 'i', 'n', 'i', 't', 'y'];
    let nan = seq!['n', 'a', 'n'];
    let word = if spells(s, inf) {
        inf
    } else if spells(s, infinity) {
        infinity
    } else {
        nan
    };
    assert(spells(s, word));
    assert forall|i: int| 0 <= i < s.len() implies is_number_char(#[trigger] s[i]) by {
        assert(lowered(s[i]) == word[i]);
        assert(is_basic_letter(word[i]));
    }
    assert(lowered(s[0]) == word[0]);
}

/// A text that reads as a number is made of number characters, is not empty, and does not
/// begin with a capital `P`.
proof fn lemma_float_literal_chars(t: Seq<char>)
    requires
        is_float_literal(t),
    ensures
        t.len() > 0,
        t[0] != 'P',
        forall|i: int| 0 <= i < t.len() ==> is_number_char(#[trigger] t[i]),
        is_plain(t),
{
    let signed = t.len() > 0 && is_sign(t[0]);
    let body = if signed {
        t.drop_first()
    } else {
        t
    };
    if is_special(body) {
        lemma_special_chars(body);
    } else {
        lemma_decimal_chars(body);
    }
    assert forall|i: int| 0 <= i < t.len() implies is_number_char(#[trigger] t[i]) by {
        if signed && i > 0 {
            assert(t[i] == body[i - 1]);
        }
    }
    assert forall|i: int| 0 <= i < t.len() implies #[trigger] t[i] != '(' && t[i] != ')' && t[i]
        != ',' && !is_whitespace(t[i]) by {
        assert(is_number_char(t[i]));
    }
}

/// A text with no space at either end is its own trimming.
proof fn lemma_trimmed_identity(t: Seq<char>)
    requires
        t.len() > 0 ==> !is_whitespace(t[0]) && !is_whitespace(t.last()),
    ensures
        trimmed(t) == t,
{
}

/// Space in front of a text does not count for its trimming.
proof fn lemma_trimmed_after_space(c: char, t: Seq<char>)
    requires
        is_whitespace(c),
    ensures
        trimmed(seq![c] + t) == trimmed(t),
{
    let s = seq![c] + t;
    assert(s[0] == c);
    assert(s.drop_first() == t);
}

/// Over characters that are no parentheses the depth does not change.
proof fn lemma_depth_flat(s: Seq<char>, from: int, to: int)
    requires
        0 <= from <= to <= s.len(),
        forall|i: int| from <= i < to ==> #[trigger] s[i] != '(' && s[i] != ')',
    ensures
        depth_at(s, to) == depth_at(s, from),
    decreases to - from,
{
    if from < to {
        lemma_depth_flat(s, from, to - 1);
    }
}

/// The depth within a text is its depth within a longer text that holds it behind a front
/// which leaves no parenthesis open.
proof fn lemma_depth_embedded(front: Seq<char>, t: Seq<char>, back: Seq<char>, i: int)
    requires
        0 <= i <= t.len(),
        depth_at(front + t + back, front.len() as int) == 0,
    ensures
        depth_at(front + t + back, front.len() + i) == depth_at(t, i),
    decreases i,
{
    if i > 0 {
        lemma_depth_embedded(front, t, back, i - 1);
        assert((front + t + back)[front.len() + i - 1] == t[i - 1]);
    }
}

/// A plain text is a unit.
proof fn lemma_plain_is_unit(t: Seq<char>)
    requires
        is_plain(t),
    ensures
        is_unit(t),
{
    lemma_depth_flat(t, 0, t.len() as int);
}

/// A text that reads as a number spells that number as an item.
proof fn lemma_number_spells_item(t: Seq<char>)
    requires
        is_float_literal(t),
    ensures
        spells_item(t, ReplResultView::Number(NumberView::Literal(t))),
{
    reveal(spells_item);
    lemma_float_literal_chars(t);
    lemma_plain_is_unit(t);
    lemma_trimmed_identity(t);
    if has_prefix(t, point_open()) {
        assert(t.subrange(0, 7)[0] == t[0]);
        assert(point_open()[0] == 'P');
    }
}

/// The text of a truth value spells that truth value as an item.
proof fn lemma_truth_spells_item(b: bool)
    ensures
        spells_item(truth_text(b), ReplResultView::Boolean(b)),
{
    reveal(spells_item);
    let t = truth_text(b);
    assert(is_plain(t));
    lemma_plain_is_unit(t);
    lemma_trimmed_identity(t);
    assert(!is_special(t));
    assert(digit_run(t, 0) == 0);
    assert(!is_decimal(t));
    assert(!is_float_literal(t));
    if !b {
        assert(truth_text(false).len() != truth_text(true).len());
    }
}

/// The text of a point of two written numbers spells that point as an item.
proof fn lemma_point_spells_item(x: Seq<char>, y: Seq<char>)
    requires
        is_float_literal(x),
        is_float_literal(y),
    ensures
        spells_item(
            point_open() + x + comma_space() + y + point_close(),
            ReplResultView::Point(
                PointView { x: NumberView::Literal(x), y: NumberView::Literal(y) },
            ),
        ),
{
    reveal(spells_item);
    lemma_float_literal_chars(x);
    lemma_float_literal_chars(y);
    let a = x.len() as int;
    let b = y.len() as int;
    let p = point_open() + x + comma_space() + y + point_close();
    let n = p.len() as int;
    assert(n == a + b + 11);
    assert forall|i: int| 0 <= i < 7 implies #[trigger] p[i] == point_open()[i] by {}
    assert forall|i: int| 7 <= i < 7 + a implies #[trigger] p[i] == x[i - 7] by {}
    assert(p[7 + a] == ',');
    assert(p[8 + a] == ' ');
    assert forall|i: int| 9 + a <= i < 9 + a + b implies #[trigger] p[i] == y[i - 9 - a] by {}
    assert(p[9 + a + b] == ')');
    assert(p[10 + a + b] == ')');
    assert(p.last() == p[n - 1]);
    lemma_trimmed_identity(p);
    assert(p.subrange(0, 7) == point_open());
    assert(p.subrange(n - 2, n) == point_close());
    let inside = p.subrange(7, n - 2);
    assert(inside == x + comma_space() + y);
    assert forall|j: int| 0 <= j < a implies inside[j] != ',' by {
        assert(inside[j] == x[j]);
    }
    assert(inside[a] == ',');
    lemma_next_comma_at(inside, 0, a);
    assert forall|j: int| a + 1 <= j < inside.len() implies inside[j] != ',' by {
        if j > a + 1 {
            assert(inside[j] == y[j - a - 2]);
        }
    }
    lemma_next_comma_at(inside, a + 1, inside.len() as int);
    assert(inside.subrange(0, a) == x);
    assert(x.last() == x[a - 1]);
    lemma_trimmed_identity(x);
    assert(inside.subrange(a + 1, inside.len() as int) == seq![' '] + y);
    lemma_trimmed_after_space(' ', y);
    assert(y.last() == y[b - 1]);
    lemma_trimmed_identity(y);
    // The depth is zero over `Point`, two between the parentheses, and zero at the end.
    lemma_depth_flat(p, 0, 5);
    assert(depth_at(p, 6) == 1);
    assert(depth_at(p, 7) == 2);
    assert forall|i: int| 7 <= i <= 9 + a + b implies depth_at(p, i) == 2 by {
        assert forall|j: int| 7 <= j < i implies #[trigger] p[j] != '(' && p[j] != ')' by {
            if j < 7 + a {
                assert(p[j] == x[j - 7]);
            } else if j >= 9 + a {
                assert(p[j] == y[j - 9 - a]);
            }
        }
        lemma_depth_flat(p, 7, i);
    }
    assert(depth_at(p, 9 + a + b) == 2);
    assert(depth_at(p, 10 + a + b) == 1);
    assert(depth_at(p, 11 + a + b) == 0);
    assert forall|i: int| 0 <= i < n implies !is_separator(p, i) by {
        if i < 7 {
            assert(p[i] == point_open()[i]);
        } else if i < 7 + a {
            assert(p[i] == x[i - 7]);
        } else if i == 7 + a {
            assert(depth_at(p, i) == 2);
        } else if i == 8 + a {
        } else if i < 9 + a + b {
            assert(p[i] == y[i - 9 - a]);
        } else {
        }
    }
}

/// What can be an item has a source text, and that text spells the item.
proof fn lemma_source_spells_item(item: ReplResultView)
    requires
        is_item(item),
    ensures
        source_text(item) is Some,
        spells_item(source_text(item)->0, item),
{
    match item {
        ReplResultView::Boolean(b) => {
            lemma_truth_spells_item(b);
        },
        ReplResultView::Number(n) => {
            lemma_number_spells_item(number_text(n));
        },
        ReplResultView::Point(p) => {
            lemma_point_spells_item(number_text(p.x), number_text(p.y));
            assert(point_open() + number_text(p.x) + comma_space() + number_text(p.y)
                + point_close() == source_text(item)->0);
        },
        _ => {},
    }
}

/// The empty text is no item.
proof fn lemma_empty_is_no_item()
    ensures
        item_of(Seq::<char>::empty()) is None,
        contribution(Seq::<char>::empty()) == Seq::<ReplResultView>::empty(),
{
    let e = Seq::<char>::empty();
    assert(trimmed(e) == e);
    assert(!is_special(e));
    assert(digit_run(e, 0) == 0);
    assert(!is_decimal(e));
    assert(e != truth_text(true));
    assert(e != truth_text(false));
}

/// A position of a text is a separator of it just when it is one of a longer text that holds
/// the text behind a front which leaves no parenthesis open.
proof fn lemma_separator_embedded(front: Seq<char>, u: Seq<char>, back: Seq<char>, j: int)
    requires
        0 <= j < u.len(),
        depth_at(front + u + back, front.len() as int) == 0,
    ensures
        is_separator(front + u + back, front.len() + j) == is_separator(u, j),
{
    lemma_depth_embedded(front, u, back, j);
    assert((front + u + back)[front.len() + j] == u[j]);
}

/// The next separator in the tail of a text, behind a front which leaves no parenthesis open,
/// is the next separator of the tail alone.
proof fn lemma_next_separator_embedded(front: Seq<char>, u: Seq<char>, k: int)
    requires
        0 <= k <= u.len(),
        depth_at(front + u, front.len() as int) == 0,
    ensures
        next_separator(front + u, front.len() + k) == front.len() + next_separator(u, k),
    decreases u.len() - k,
{
    if k < u.len() {
        assert(front + u + Seq::<char>::empty() == front + u);
        lemma_separator_embedded(front, u, Seq::empty(), k);
        if !is_separator(u, k) {
            lemma_next_separator_embedded(front, u, k + 1);
        }
    }
}

/// The items in the tail of a text, behind a front which leaves no parenthesis open, are the
/// items of the tail alone.
proof fn lemma_items_embedded(front: Seq<char>, u: Seq<char>, k: int)
    requires
        0 <= k <= u.len(),
        depth_at(front + u, front.len() as int) == 0,
    ensures
        items_from(front + u, front.len() + k) == items_from(u, k),
    decreases u.len() - k,
{
    if k < u.len() {
        let w = front + u;
        let end = next_separator(u, k);
        lemma_next_separator_bounds(u, k);
        lemma_next_separator_embedded(front, u, k);
        assert(w.subrange(front.len() + k, front.len() + end) == u.subrange(k, end));
        if end < u.len() {
            lemma_items_embedded(front, u, end + 1);
        }
    }
}

/// A space at the front of a piece does not count: the items from a space on are the items
/// from behind it on.
proof fn lemma_space_is_skipped(w: Seq<char>, k: int)
    requires
        0 <= k < w.len(),
        is_whitespace(w[k]),
    ensures
        items_from(w, k) == items_from(w, k + 1),
{
    let end = next_separator(w, k);
    lemma_next_separator_bounds(w, k);
    assert(!is_separator(w, k));
    assert(end == next_separator(w, k + 1));
    let piece = w.subrange(k, end);
    assert(piece == seq![w[k]] + w.subrange(k + 1, end));
    lemma_trimmed_after_space(w[k], w.subrange(k + 1, end));
    if k + 1 == w.len() {
        assert(w.subrange(k + 1, end) == Seq::<char>::empty());
        lemma_empty_is_no_item();
        assert(trimmed(Seq::<char>::empty()) == Seq::<char>::empty());
    }
}

/// What is known of a text that spells an item: it is not empty, no space stands at either
/// end of it, it is a unit, and as a piece of a list it contributes the item.
proof fn lemma_spelled(t: Seq<char>, item: ReplResultView)
    requires
        spells_item(t, item),
    ensures
        t.len() > 0,
        !is_whitespace(t[0]),
        !is_whitespace(t.last()),
        is_unit(t),
        contribution(t) == seq![item],
{
    reveal(spells_item);
    lemma_trimmed_identity(t);
}

/// A text that spells an item decodes to that item alone.
proof fn lemma_single_piece(first: Seq<char>, item: ReplResultView)
    requires
        spells_item(first, item),
    ensures
        items_from(first, 0) == seq![item],
{
    lemma_spelled(first, item);
    let n = first.len() as int;
    lemma_next_separator_at(first, 0, n);
    assert(first.subrange(0, n) == first);
}

/// A text that spells an item, with a comma, a space and more text behind it, decodes to
/// that item and then to the items of the text behind.
proof fn lemma_first_piece(first: Seq<char>, rest: Seq<char>, item: ReplResultView)
    requires
        spells_item(first, item),
    ensures
        items_from(first + comma_space() + rest, 0) == seq![item] + items_from(rest, 0),
{
    lemma_spelled(first, item);
    let w = first + comma_space() + rest;
    let n = first.len() as int;
    let back = comma_space() + rest;
    let none = Seq::<char>::empty();
    assert(none + first + back == w);
    // No separator stands within the first text, and one stands right behind it.
    assert forall|j: int| 0 <= j < n implies !is_separator(w, j) by {
        lemma_separator_embedded(none, first, back, j);
    }
    lemma_depth_embedded(none, first, back, n);
    assert(w[n] == ',');
    assert(w[n + 1] == ' ');
    assert(is_separator(w, n));
    lemma_next_separator_at(w, 0, n);
    assert(w.subrange(0, n) == first);
    assert(items_from(w, 0) == contribution(first) + items_from(w, n + 1));
    // Behind the separator stands a space, and behind that the rest.
    lemma_space_is_skipped(w, n + 1);
    lemma_depth_flat(w, n, n + 2);
    let front = first + comma_space();
    assert(front + rest == w);
    lemma_items_embedded(front, rest, 0);
}

/// Texts that are not empty, joined, begin as the first of them begins and end as the last
/// of them ends.
proof fn lemma_joined_ends(texts: Seq<Seq<char>>, separator: Seq<char>)
    requires
        texts.len() > 0,
        forall|i: int| 0 <= i < texts.len() ==> (#[trigger] texts[i]).len() > 0,
    ensures
        joined(texts, separator).len() > 0,
        joined(texts, separator)[0] == texts[0][0],
        joined(texts, separator).last() == texts.last().last(),
    decreases texts.len(),
{
    if texts.len() > 1 {
        let others = texts.drop_first();
        assert forall|i: int| 0 <= i < others.len() implies (#[trigger] others[i]).len() > 0 by {
            assert(others[i] == texts[i + 1]);
        }
        lemma_joined_ends(others, separator);
        assert(others.last() == texts.last());
        let w = joined(texts, separator);
        let rest = joined(others, separator);
        assert(w == texts[0] + separator + rest);
        assert(w.last() == rest.last());
        assert(w[0] == texts[0][0]);
    }
}

/// Texts that each spell an item, joined by comma and space, decode to those items.
proof fn lemma_joined_decodes(texts: Seq<Seq<char>>, items: Seq<ReplResultView>)
    requires
        texts.len() == items.len(),
        forall|i: int| 0 <= i < texts.len() ==> spells_item(#[trigger] texts[i], items[i]),
    ensures
        items_from(joined(texts, comma_space()), 0) == items,
    decreases texts.len(),
{
    if texts.len() == 0 {
        assert(items == Seq::<ReplResultView>::empty());
    } else if texts.len() == 1 {
        assert(spells_item(texts[0], items[0]));
        lemma_single_piece(texts[0], items[0]);
        assert(items == seq![items[0]]);
    } else {
        let others = texts.drop_first();
        assert forall|i: int| 0 <= i < others.len() implies spells_item(
            #[trigger] others[i],
            items.drop_first()[i],
        ) by {
            assert(others[i] == texts[i + 1]);
            assert(items.drop_first()[i] == items[i + 1]);
        }
        lemma_joined_decodes(others, items.drop_first());
        assert(spells_item(texts[0], items[0]));
        lemma_first_piece(texts[0], joined(others, comma_space()), items[0]);
        assert(items == seq![items[0]] + items.drop_first());
    }
}

/// What a text spells as an item can be an item.
proof fn lemma_item_of_is_item(text: Seq<char>)
    ensures
        item_of(text) matches Some(item) ==> is_item(item),
        forall|i: int| 0 <= i < contribution(text).len() ==> is_item(#[trigger] contribution(text)[i]),
{
}

/// Every item of a decoded list can be an item.
pub(crate) proof fn lemma_items_are_items(s: Seq<char>, from: int)
    requires
        0 <= from <= s.len(),
    ensures
        forall|i: int|
            0 <= i < items_from(s, from).len() ==> is_item(#[trigger] items_from(s, from)[i]),
    decreases s.len() - from,
{
    if from < s.len() {
        let end = next_separator(s, from);
        lemma_next_separator_bounds(s, from);
        let here = contribution(s.subrange(from, end));
        lemma_item_of_is_item(s.subrange(from, end));
        if end < s.len() {
            lemma_items_are_items(s, end + 1);
            let behind = items_from(s, end + 1);
            assert(items_from(s, from) == here + behind);
            assert forall|i: int| 0 <= i < items_from(s, from).len() implies is_item(
                #[trigger] items_from(s, from)[i],
            ) by {
                if i < here.len() {
                    assert((here + behind)[i] == here[i]);
                } else {
                    assert((here + behind)[i] == behind[i - here.len()]);
                }
            }
        } else {
            assert(items_from(s, from) == here);
        }
    }
}

/// Writing what was decoded and decoding what was written gives the same list: the items of
/// a decoded list have a source text, and that text decodes to the same items, as many and
/// each the same. Pieces that spelled no item are not among the items, and so not in the text.
pub proof fn law_source_round_trip(values: Seq<char>)
    ensures
        list_source(decoded(values)) is Some,
        decoded(list_source(decoded(values))->0) == decoded(values),
{
    let items = decoded(values);
    lemma_items_are_items(trimmed(values), 0);
    assert forall|i: int| 0 <= i < items.len() implies source_text(#[trigger] items[i]) is Some
        && spells_item(source_text(items[i])->0, items[i]) by {
        lemma_source_spells_item(items[i]);
    }
    let texts = source_texts(items)->0;
    lemma_joined_decodes(texts, items);
    let w = joined(texts, comma_space());
    if texts.len() > 0 {
        assert forall|i: int| 0 <= i < texts.len() implies (#[trigger] texts[i]).len() > 0 by {
            lemma_spelled(texts[i], items[i]);
        }
        lemma_joined_ends(texts, comma_space());
        lemma_spelled(texts[0], items[0]);
        lemma_spelled(texts[texts.len() - 1], items[texts.len() - 1]);
        assert(texts.last() == texts[texts.len() - 1]);
    }
    lemma_trimmed_identity(w);
}

} // verus!
