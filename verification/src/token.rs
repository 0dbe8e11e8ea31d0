//! The tokenizer: from a line of text to its tokens.
//!
//! Space and newline separate tokens. A digit starts a numeral, which runs on over numeric
//! characters and points; a letter of the basic alphabet starts a word, which runs on over
//! alphabetic characters. The word `let` is the keyword, every other word a name. The nine
//! punctuation characters are tokens of their own, and any other character is passed over in
//! silence. A numeral that does not read as a number makes the whole line fail.

use crate::number::digit;
use crate::number::float_literal;
use crate::number::is_digit;
use crate::number::is_float_literal;
use crate::number::Number;
use crate::number::NumberView;
use crate::text::chars_of;
use crate::text::copy_range;
use crate::text::same_text;
use crate::text::string_of;
use vstd::prelude::*;

verus! {

/// A lexical token.
#[derive(Debug, Clone, PartialEq)]
pub enum Token {
    /// The keyword `let`.
    Let,
    /// A name of a variable or of a function.
    Identifier(String),
    /// A numeral, as written.
    Number(Number),
    Plus,
    Minus,
    Multiply,
    Divide,
    Assign,
    OpenParen,
    CloseParen,
    Comma,
    Semicolon,
    /// The end of the line.
    Eof,
}

/// What a [`Token`] holds, over sequences.
pub enum TokenView {
    Let,
    Identifier(Seq<char>),
    Number(NumberView),
    Plus,
    Minus,
    Multiply,
    Divide,
    Assign,
    OpenParen,
    CloseParen,
    Comma,
    Semicolon,
    Eof,
}

impl View for Token {
    type V = TokenView;

    open spec fn view(&self) -> TokenView {
        match self {
            Token::Let => TokenView::Let,
            Token::Identifier(name) => TokenView::Identifier(name@),
            Token::Number(n) => TokenView::Number(n@),
            Token::Plus => TokenView::Plus,
            Token::Minus => TokenView::Minus,
            Token::Multiply => TokenView::Multiply,
            Token::Divide => TokenView::Divide,
            Token::Assign => TokenView::Assign,
            Token::OpenParen => TokenView::OpenParen,
            Token::CloseParen => TokenView::CloseParen,
            Token::Comma => TokenView::Comma,
            Token::Semicolon => TokenView::Semicolon,
            Token::Eof => TokenView::Eof,
        }
    }
}

/// Why a line has no tokens.
#[derive(Debug, Clone, Copy, PartialEq, Eq, Structural)]
pub enum LexError {
    /// A numeral does not read as a number: it has more than one point, or a numeric character
    /// that is no decimal digit.
    MalformedNumeral,
}

/// The views of the tokens of `tokens`, in order.
pub open spec fn views(tokens: Seq<Token>) -> Seq<TokenView> {
    tokens.map_values(|t: Token| t@)
}

/// What `char::is_numeric` says of a character: whether it is in one of the Unicode general
/// categories for numbers.
pub uninterp spec fn numeric_char(c: char) -> bool;

/// What `char::is_alphabetic` says of a character: whether it has the Unicode property
/// `Alphabetic`.
pub uninterp spec fn alphabetic_char(c: char) -> bool;

/// A letter of the basic alphabet, capital or small.
pub open spec fn is_basic_letter(c: char) -> bool {
    'a' <= c <= 'z' || 'A' <= c <= 'Z'
}

/// A character over which a numeral runs on, the point aside: among the 128 characters of the
/// basic set the ten decimal digits, and beyond them what `char::is_numeric` accepts.
pub open spec fn is_numeral_char(c: char) -> bool {
    if (c as u32) < 128 {
        is_digit(c)
    } else {
        numeric_char(c)
    }
}

/// A character over which a word runs on: among the 128 characters of the basic set the 52
/// letters, and beyond them what `char::is_alphabetic` accepts.
pub open spec fn is_word_char(c: char) -> bool {
    if (c as u32) < 128 {
        is_basic_letter(c)
    } else {
        alphabetic_char(c)
    }
}

/// A character that is a token by itself, and that token.
pub open spec fn punctuation_of(c: char) -> Option<TokenView> {
    if c == '+' {
        Some(TokenView::Plus)
    } else if c == '-' {
        Some(TokenView::Minus)
    } else if c == '*' {
        Some(TokenView::Multiply)
    } else if c == '/' {
        Some(TokenView::Divide)
    } else if c == '(' {
        Some(TokenView::OpenParen)
    } else if c == ')' {
        Some(TokenView::CloseParen)
    } else if c == ',' {
        Some(TokenView::Comma)
    } else if c == ';' {
        Some(TokenView::Semicolon)
    } else if c == '=' {
        Some(TokenView::Assign)
    } else {
        None
    }
}

/// The end of the longest run of numeric characters and points of `s` that starts at `from`.
pub open spec fn numeral_run(s: Seq<char>, from: int) -> int
    decreases s.len() - from,
{
    if 0 <= from < s.len() && (is_numeral_char(s[from]) || s[from] == '.') {
        numeral_run(s, from + 1)
    } else {
        from
    }
}

/// The end of the longest run of alphabetic characters of `s` that starts at `from`.
pub open spec fn word_run(s: Seq<char>, from: int) -> int
    decreases s.len() - from,
{
    if 0 <= from < s.len() && is_word_char(s[from]) {
        word_run(s, from + 1)
    } else {
        from
    }
}

/// The token for a word.
pub open spec fn word_token(word: Seq<char>) -> TokenView {
    if word == seq!['l', 'e', 't'] {
        TokenView::Let
    } else {
        TokenView::Identifier(word)
    }
}

/// `first`, followed by `rest` where there is a rest.
pub open spec fn followed_by(first: Seq<TokenView>, rest: Option<Seq<TokenView>>) -> Option<
    Seq<TokenView>,
> {
    match rest {
        Some(tokens) => Some(first + tokens),
        None => None,
    }
}

/// The tokens of `s` from the position `at` on, closed by the end marker; `None` where a
/// numeral from there on is malformed.
pub open spec fn tokens_from(s: Seq<char>, at: int) -> Option<Seq<TokenView>>
    decreases s.len() - at,
{
    if at < 0 || at >= s.len() {
        Some(seq![TokenView::Eof])
    } else if punctuation_of(s[at]) is Some {
        followed_by(seq![punctuation_of(s[at])->0], tokens_from(s, at + 1))
    } else if is_digit(s[at]) {
        let end = numeral_run(s, at + 1);
        let text = s.subrange(at, end);
        proof {
            lemma_numeral_run_bounds(s, at + 1);
        }
        if is_float_literal(text) {
            followed_by(
                seq![TokenView::Number(NumberView::Literal(text))],
                tokens_from(s, end),
            )
        } else {
            None
        }
    } else if is_basic_letter(s[at]) {
        let end = word_run(s, at + 1);
        proof {
            lemma_word_run_bounds(s, at + 1);
        }
        followed_by(seq![word_token(s.subrange(at, end))], tokens_from(s, end))
    } else {
        tokens_from(s, at + 1)
    }
}

/// The tokens of the line `s`.
pub open spec fn tokens_of(s: Seq<char>) -> Option<Seq<TokenView>> {
    tokens_from(s, 0)
}

/// A run of numeral characters ends at or after its start, within the text.
pub proof fn lemma_numeral_run_bounds(s: Seq<char>, from: int)
    requires
        0 <= from <= s.len(),
    ensures
        from <= numeral_run(s, from) <= s.len(),
    decreases s.len() - from,
{
    if from < s.len() && (is_numeral_char(s[from]) || s[from] == '.') {
        lemma_numeral_run_bounds(s, from + 1);
    }
}

/// A run of alphabetic characters ends at or after its start, within the text.
pub proof fn lemma_word_run_bounds(s: Seq<char>, from: int)
    requires
        0 <= from <= s.len(),
    ensures
        from <= word_run(s, from) <= s.len(),
    decreases s.len() - from,
{
    if from < s.len() && is_word_char(s[from]) {
        lemma_word_run_bounds(s, from + 1);
    }
}

/// Whether `c` is a numeric character, by `char::is_numeric`. Of the 128 characters of the
/// basic set, that function accepts the ten decimal digits and no other.
#[verifier::external_body]
fn numeric(c: char) -> (r: bool)
    ensures
        r == numeric_char(c),
        (c as u32) < 128 ==> r == is_digit(c),
{
    c.is_numeric()
}

/// Whether `c` is an alphabetic character, by `char::is_alphabetic`. Of the 128 characters of
/// the basic set, that function accepts the 52 letters and no other.
#[verifier::external_body]
fn alphabetic(c: char) -> (r: bool)
    ensures
        r == alphabetic_char(c),
        (c as u32) < 128 ==> r == is_basic_letter(c),
{
    c.is_alphabetic()
}

/// Whether `c` is a letter of the basic alphabet.
pub fn basic_letter(c: char) -> (r: bool)
    ensures
        r == is_basic_letter(c),
{
    ('a' <= c && c <= 'z') || ('A' <= c && c <= 'Z')
}

/// The token that `c` is by itself, if it is one.
pub fn punctuation(c: char) -> (r: Option<Token>)
    ensures
        match r {
            Some(t) => punctuation_of(c) == Some(t@),
            None => punctuation_of(c) is None,
        },
{
    if c == '+' {
        Some(Token::Plus)
    } else if c == '-' {
        Some(Token::Minus)
    } else if c == '*' {
        Some(Token::Multiply)
    } else if c == '/' {
        Some(Token::Divide)
    } else if c == '(' {
        Some(Token::OpenParen)
    } else if c == ')' {
        Some(Token::CloseParen)
    } else if c == ',' {
        Some(Token::Comma)
    } else if c == ';' {
        Some(Token::Semicolon)
    } else if c == '=' {
        Some(Token::Assign)
    } else {
        None
    }
}

/// The end of the run of numeral characters of `s` that starts at `from`.
fn scan_numeral(s: &[char], from: usize) -> (end: usize)
    requires
        from <= s@.len(),
    ensures
        end == numeral_run(s@, from as int),
        from <= end <= s@.len(),
{
    let mut i: usize = from;
    while i < s.len() && (s[i] == '.' || numeric(s[i]))
        invariant
            from <= i <= s@.len(),
            numeral_run(s@, from as int) == numeral_run(s@, i as int),
        decreases s@.len() - i,
    {
        i += 1;
    }
    i
}

/// The end of the run of alphabetic characters of `s` that starts at `from`.
fn scan_word(s: &[char], from: usize) -> (end: usize)
    requires
        from <= s@.len(),
    ensures
        end == word_run(s@, from as int),
        from <= end <= s@.len(),
{
    let mut i: usize = from;
    while i < s.len() && alphabetic(s[i])
        invariant
            from <= i <= s@.len(),
            word_run(s@, from as int) == word_run(s@, i as int),
        decreases s@.len() - i,
    {
        i += 1;
    }
    i
}

/// The token for the word `word`.
fn token_of_word(word: &[char]) -> (t: Token)
    ensures
        t@ == word_token(word@),
{
    let keyword: [char; 3] = ['l', 'e', 't'];
    proof {
        assert(keyword@ == seq!['l', 'e', 't']);
    }
    if same_text(word, keyword.as_slice()) {
        Token::Let
    } else {
        Token::Identifier(string_of(word))
    }
}

/// The tokens of the line `input`, closed by the end marker. The line fails where one of its
/// numerals does not read as a number.
pub fn tokenize(input: &str) -> (r: Result<Vec<Token>, LexError>)
    ensures
        match r {
            Ok(tokens) => tokens_of(input@) == Some(views(tokens@)),
            Err(_) => tokens_of(input@) is None,
        },
{
    let chars = chars_of(input);
    let s = chars.as_slice();
    let n = s.len();
    let mut out: Vec<Token> = Vec::new();
    let mut i: usize = 0;
    proof {
        assert(views(out@) + tokens_from(s@, 0)->0 == tokens_from(s@, 0)->0);
    }
    while i < n
        invariant
            i <= n == s@.len(),
            s@ == input@,
            tokens_from(s@, 0) == followed_by(views(out@), tokens_from(s@, i as int)),
        decreases n - i,
    {
        let c = s[i];
        let ghost before = views(out@);
        let ghost here = tokens_from(s@, i as int);
        let next: usize;
        let mut found: Option<Token> = punctuation(c);
        if found.is_some() {
            next = i + 1;
        } else if digit(c) {
            let end = scan_numeral(s, i + 1);
            let text = copy_range(s, i, end);
            if !float_literal(text.as_slice()) {
                return Err(LexError::MalformedNumeral);
            }
            found = Some(Token::Number(Number::from_literal(text.as_slice())));
            next = end;
        } else if basic_letter(c) {
            let end = scan_word(s, i + 1);
            let word = copy_range(s, i, end);
            found = Some(token_of_word(word.as_slice()));
            next = end;
        } else {
            next = i + 1;
        }
        match found {
            Some(token) => {
                proof {
                    let rest = tokens_from(s@, next as int);
                    assert(here == followed_by(seq![token@], rest));
                    assert(views(out@.push(token)) == before.push(token@));
                    if rest is Some {
                        assert(before + (seq![token@] + rest->0) == before.push(token@) + rest->0);
                    }
                }
                out.push(token);
            },
            None => {},
        }
        i = next;
    }
    proof {
        assert(views(out@.push(Token::Eof)) == views(out@).push(TokenView::Eof));
        assert(views(out@) + seq![TokenView::Eof] == views(out@).push(TokenView::Eof));
    }
    out.push(Token::Eof);
    Ok(out)
}

} // verus!
