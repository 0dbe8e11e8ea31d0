//! What the engine gives back for a line: a structured result, or the kind of its failure.

use crate::number::Number;
use crate::number::NumberForm;
use crate::number::NumberView;
use crate::radix::digits_of;
use crate::radix::write_digits;
use crate::text::append;
use crate::text::chars_of;
use evalexpr::EvalexprError;
use vstd::prelude::*;

verus! {

/// A point of the plane.
#[derive(Debug, Clone, PartialEq)]
pub struct Point {
    pub x: Number,
    pub y: Number,
}

/// What a [`Point`] holds, over sequences.
pub struct PointView {
    pub x: NumberView,
    pub y: NumberView,
}

impl View for Point {
    type V = PointView;

    open spec fn view(&self) -> PointView {
        PointView { x: self.x@, y: self.y@ }
    }
}

/// An ordered list of results.
#[derive(Debug, PartialEq)]
pub struct Array {
    pub items: Vec<ReplResult>,
}

/// The result of a line.
#[derive(Debug, PartialEq)]
pub enum ReplResult {
    Empty,
    Boolean(bool),
    Number(Number),
    String(String),
    Point(Point),
    List(Array),
}

/// What a [`ReplResult`] holds, over sequences.
pub enum ReplResultView {
    Empty,
    Boolean(bool),
    Number(NumberView),
    Text(Seq<char>),
    Point(PointView),
    List(Seq<ReplResultView>),
}

/// Why a line has no result.
#[derive(Debug, PartialEq)]
pub enum ReplError {
    /// A value was of another kind than the one expected: a tuple that is to be a point has
    /// fewer than two items, or one of the two is no number.
    InvalidType,
    /// What was handed to the engine is not what it asked for.
    InvalidArgument,
    /// The evaluator refused the line, with this error.
    Evaluator(EvalexprError),
}

/// The views of the results of `list`, in order.
pub open spec fn result_views(list: Seq<ReplResult>) -> Seq<ReplResultView>
    decreases list,
{
    if list.len() == 0 {
        Seq::empty()
    } else {
        result_views(list.drop_last()).push(list.last().model())
    }
}

impl ReplResult {
    /// The result over sequences.
    pub open spec fn model(self) -> ReplResultView
        decreases self,
    {
        match self {
            ReplResult::Empty => ReplResultView::Empty,
            ReplResult::Boolean(b) => ReplResultView::Boolean(b),
            ReplResult::Number(n) => ReplResultView::Number(n@),
            ReplResult::String(text) => ReplResultView::Text(text@),
            ReplResult::Point(p) => ReplResultView::Point(p@),
            ReplResult::List(list) => ReplResultView::List(result_views(list.items@)),
        }
    }
}

impl View for ReplResult {
    type V = ReplResultView;

    open spec fn view(&self) -> ReplResultView {
        self.model()
    }
}

impl View for Array {
    type V = Seq<ReplResultView>;

    open spec fn view(&self) -> Seq<ReplResultView> {
        result_views(self.items@)
    }
}

/// The views of a list that grew by one result.
pub(crate) proof fn lemma_result_views_push(list: Seq<ReplResult>, item: ReplResult)
    ensures
        result_views(list.push(item)) == result_views(list).push(item@),
{
    assert(list.push(item).drop_last() == list);
}

/// The views of a list are as many as the list, and each is the view of its result.
pub(crate) proof fn lemma_result_views_index(list: Seq<ReplResult>)
    ensures
        result_views(list).len() == list.len(),
        forall|i: int| 0 <= i < list.len() ==> (#[trigger] result_views(list)[i]) == list[i]@,
    decreases list.len(),
{
    if list.len() > 0 {
        lemma_result_views_index(list.drop_last());
    }
}

/// The text of a number: a literal as it was written, a bit pattern as `0x` and its digits in
/// base sixteen.
pub open spec fn number_text(n: NumberView) -> Seq<char> {
    match n {
        NumberView::Literal(text) => text,
        NumberView::Bits(bits) => seq!['0', 'x'] + digits_of(bits as int, 16, true),
    }
}

/// The texts of `texts` in order, with `separator` between each two.
pub open spec fn joined(texts: Seq<Seq<char>>, separator: Seq<char>) -> Seq<char>
    decreases texts.len(),
{
    if texts.len() == 0 {
        Seq::empty()
    } else if texts.len() == 1 {
        texts[0]
    } else {
        texts[0] + separator + joined(texts.drop_first(), separator)
    }
}

/// A comma and a space, which stand between the items of a list.
pub open spec fn comma_space() -> Seq<char> {
    seq![',', ' ']
}

/// The text of a truth value.
pub open spec fn truth_text(b: bool) -> Seq<char> {
    if b {
        seq!['t', 'r', 'u', 'e']
    } else {
        seq!['f', 'a', 'l', 's', 'e']
    }
}

/// The text from which a result is read again as an item of a list. Only a truth value, a
/// number and a point can be written as items.
pub open spec fn source_text(item: ReplResultView) -> Option<Seq<char>> {
    match item {
        ReplResultView::Boolean(b) => Some(truth_text(b)),
        ReplResultView::Number(n) => Some(number_text(n)),
        ReplResultView::Point(p) => Some(
            seq!['P', 'o', 'i', 'n', 't', '(', '('] + number_text(p.x) + comma_space()
                + number_text(p.y) + seq![')', ')'],
        ),
        _ => None,
    }
}

/// The source texts of `items`, in order, where each of them has one.
pub open spec fn source_texts(items: Seq<ReplResultView>) -> Option<Seq<Seq<char>>> {
    if forall|i: int| 0 <= i < items.len() ==> source_text(#[trigger] items[i]) is Some {
        Some(Seq::new(items.len(), |i: int| source_text(items[i])->0))
    } else {
        None
    }
}

/// The items of a list as they are written between the parentheses of a list literal.
pub open spec fn list_source(items: Seq<ReplResultView>) -> Option<Seq<char>> {
    match source_texts(items) {
        Some(texts) => Some(joined(texts, comma_space())),
        None => None,
    }
}

/// A result of a kind that a list literal can hold: a truth value, a number or a point.
pub open spec fn can_be_listed(item: ReplResultView) -> bool {
    item is Boolean || item is Number || item is Point
}

/// The text of a number.
pub fn write_number(n: &Number) -> (out: Vec<char>)
    ensures
        out@ == number_text(n@),
{
    match n.form() {
        NumberForm::Literal(text) => chars_of(text.as_str()),
        NumberForm::Bits(bits) => {
            let mut out: Vec<char> = Vec::new();
            out.push('0');
            out.push('x');
            let digits = write_digits(bits, 16, true);
            append(&mut out, digits.as_slice());
            out
        },
    }
}

/// The text of a truth value.
pub fn write_truth(b: bool) -> (out: Vec<char>)
    ensures
        out@ == truth_text(b),
{
    let mut out: Vec<char> = Vec::new();
    if b {
        out.push('t');
        out.push('r');
        out.push('u');
        out.push('e');
    } else {
        out.push('f');
        out.push('a');
        out.push('l');
        out.push('s');
        out.push('e');
    }
    out
}

impl ReplResult {
    /// The text from which this result is read again as an item of a list, where it is a truth
    /// value, a number or a point.
    pub fn to_source(&self) -> (r: Option<Vec<char>>)
        ensures
            match r {
                Some(out) => source_text(self@) == Some(out@),
                None => source_text(self@) is None,
            },
    {
        match self {
            ReplResult::Boolean(b) => Some(write_truth(*b)),
            ReplResult::Number(n) => Some(write_number(n)),
            ReplResult::Point(p) => {
                let mut out: Vec<char> = Vec::new();
                let open: [char; 7] = ['P', 'o', 'i', 'n', 't', '(', '('];
                let between: [char; 2] = [',', ' '];
                let close: [char; 2] = [')', ')'];
                append(&mut out, open.as_slice());
                append(&mut out, write_number(&p.x).as_slice());
                append(&mut out, between.as_slice());
                append(&mut out, write_number(&p.y).as_slice());
                append(&mut out, close.as_slice());
                proof {
                    assert(open@ == seq!['P', 'o', 'i', 'n', 't', '(', '(']);
                    assert(between@ == comma_space());
                    assert(close@ == seq![')', ')']);
                }
                Some(out)
            },
            _ => None,
        }
    }
}

/// What is left of a joined text once the first `i` of `texts` have been written: nothing
/// behind the last text, the whole before the first, and else a separator and the texts from
/// the `i`th on.
pub open spec fn join_rest(texts: Seq<Seq<char>>, separator: Seq<char>, i: int) -> Seq<char> {
    if i >= texts.len() {
        Seq::empty()
    } else if i == 0 {
        joined(texts, separator)
    } else {
        separator + joined(texts.skip(i), separator)
    }
}

/// Writing one more text takes it, and the separator before it, off what is left.
pub(crate) proof fn lemma_join_step(texts: Seq<Seq<char>>, separator: Seq<char>, i: int)
    requires
        0 <= i < texts.len(),
    ensures
        join_rest(texts, separator, i) == (if i == 0 {
            Seq::<char>::empty()
        } else {
            separator
        }) + texts[i] + join_rest(texts, separator, i + 1),
{
    let tail = texts.skip(i);
    assert(tail[0] == texts[i]);
    assert(tail.drop_first() == texts.skip(i + 1));
    if i == 0 {
        assert(tail == texts);
    }
    if tail.len() == 1 {
        assert(joined(tail, separator) == texts[i]);
    } else {
        assert(joined(tail, separator) == texts[i] + separator + joined(
            texts.skip(i + 1),
            separator,
        ));
    }
}

impl Array {
    /// The items as they are written between the parentheses of a list literal, where every
    /// item is a truth value, a number or a point.
    pub fn to_source(&self) -> (r: Option<String>)
        ensures
            match r {
                Some(out) => list_source(self@) == Some(out@),
                None => list_source(self@) is None,
            },
    {
        let ghost items = self@;
        let mut out: Vec<char> = Vec::new();
        let mut i: usize = 0;
        proof {
            lemma_result_views_index(self.items@);
        }
        while i < self.items.len()
            invariant
                i <= self.items@.len(),
                items == self@,
                items.len() == self.items@.len(),
                forall|j: int| 0 <= j < items.len() ==> (#[trigger] items[j]) == self.items@[j]@,
                forall|j: int| 0 <= j < i ==> source_text(#[trigger] items[j]) is Some,
                source_texts(items) is Some ==> joined(source_texts(items)->0, comma_space())
                    == out@ + join_rest(source_texts(items)->0, comma_space(), i as int),
            decreases self.items@.len() - i,
        {
            let text = match self.items[i].to_source() {
                Some(text) => text,
                None => {
                    return None;
                },
            };
            let ghost before = out@;
            if i > 0 {
                out.push(',');
                out.push(' ');
            }
            append(&mut out, text.as_slice());
            proof {
                if source_texts(items) is Some {
                    let texts = source_texts(items)->0;
                    lemma_join_step(texts, comma_space(), i as int);
                    assert(texts[i as int] == text@);
                    if i > 0 {
                        assert(out@ == before + comma_space() + text@);
                    }
                }
            }
            i += 1;
        }
        Some(crate::text::string_of(out.as_slice()))
    }
}

/// The texts of `texts` as sequences, in order.
pub open spec fn text_views(texts: Seq<Vec<char>>) -> Seq<Seq<char>> {
    texts.map_values(|t: Vec<char>| t@)
}

/// The texts of `texts` in order, with `separator` between each two.
pub fn join(texts: &Vec<Vec<char>>, separator: &[char]) -> (out: Vec<char>)
    ensures
        out@ == joined(text_views(texts@), separator@),
{
    let ghost views = text_views(texts@);
    let mut out: Vec<char> = Vec::new();
    let mut i: usize = 0;
    proof {
        assert(out@ + join_rest(views, separator@, 0) == joined(views, separator@));
    }
    while i < texts.len()
        invariant
            i <= texts@.len(),
            views == text_views(texts@),
            joined(views, separator@) == out@ + join_rest(views, separator@, i as int),
        decreases texts@.len() - i,
    {
        let ghost before = out@;
        if i > 0 {
            append(&mut out, separator);
        }
        append(&mut out, texts[i].as_slice());
        proof {
            lemma_join_step(views, separator@, i as int);
            assert(views[i as int] == texts@[i as int]@);
            let head = if i == 0 {
                Seq::<char>::empty()
            } else {
                separator@
            };
            assert(out@ == before + head + views[i as int]);
            assert(before + (head + views[i as int] + join_rest(views, separator@, i + 1)) == out@
                + join_rest(views, separator@, i + 1));
        }
        i += 1;
    }
    proof {
        assert(out@ + Seq::<char>::empty() == out@);
    }
    out
}

} // verus!
