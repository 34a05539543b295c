//! The lexeme data model and the character classes that drive scanning.

use vstd::prelude::*;
use vstd::string::StringExecFns;

verus! {

/// A classified, indivisible unit of source text.
#[derive(Debug, PartialEq)]
pub enum Lexeme {
    /// No more characters remain.
    EOF,
    /// A carriage return immediately followed by a line feed, consumed as one
    /// unit.
    CRLF,
    /// A carriage return not followed by a line feed.
    CR,
    /// A line feed not preceded by a carriage return.
    LF,
    /// A maximal non-empty run of ASCII letters, case preserved.
    Word(String),
    /// A maximal non-empty run of spaces and horizontal tabs.
    Whitespace(String),
    /// Exactly one character from the fixed punctuation set.
    Symbol(char),
    /// Reserved for a maximal run of decimal digits.  No scan branch produces
    /// it yet: a digit in the input is reported as a scan error, since its
    /// classification is deliberately left open.
    Number(u32),
}

/// The mathematical shape of a lexeme: the same variants, with text carried
/// as a sequence of characters.
pub enum LexemeModel {
    EOF,
    CRLF,
    CR,
    LF,
    Word(Seq<char>),
    Whitespace(Seq<char>),
    Symbol(char),
    Number(u32),
}

impl View for Lexeme {
    type V = LexemeModel;

    open spec fn view(&self) -> LexemeModel {
        match self {
            Lexeme::EOF => LexemeModel::EOF,
            Lexeme::CRLF => LexemeModel::CRLF,
            Lexeme::CR => LexemeModel::CR,
            Lexeme::LF => LexemeModel::LF,
            Lexeme::Word(s) => LexemeModel::Word(s@),
            Lexeme::Whitespace(s) => LexemeModel::Whitespace(s@),
            Lexeme::Symbol(c) => LexemeModel::Symbol(*c),
            Lexeme::Number(n) => LexemeModel::Number(*n),
        }
    }
}

/// The lexeme carries text or a symbol that can be appended to a buffer.
pub open spec fn formattable(m: LexemeModel) -> bool {
    match m {
        LexemeModel::Word(_) => true,
        LexemeModel::Whitespace(_) => true,
        LexemeModel::Symbol(_) => true,
        _ => false,
    }
}

/// The characters a formattable lexeme contributes to a buffer.
pub open spec fn formatted(m: LexemeModel) -> Seq<char>
    recommends
        formattable(m),
{
    match m {
        LexemeModel::Word(s) => s,
        LexemeModel::Whitespace(s) => s,
        LexemeModel::Symbol(c) => seq![c],
        _ => Seq::empty(),
    }
}

impl Lexeme {
    /// Appends the lexeme's text to `buf`.  Only lexemes that carry text —
    /// words, whitespace runs and symbols — can be formatted.
    pub fn push_to(&self, buf: &mut String)
        requires
            formattable(self@),
        ensures
            final(buf)@ == old(buf)@ + formatted(self@),
    {
        match self {
            Lexeme::Word(s) => buf.append(s.as_str()),
            Lexeme::Whitespace(s) => buf.append(s.as_str()),
            Lexeme::Symbol(c) => push_char(buf, *c),
            _ => proof {
                assert(false);
            },
        }
    }
}

/// A copy of the lexeme with the same model.
pub fn clone_lexeme(l: &Lexeme) -> (r: Lexeme)
    ensures
        r@ == l@,
{
    match l {
        Lexeme::EOF => Lexeme::EOF,
        Lexeme::CRLF => Lexeme::CRLF,
        Lexeme::CR => Lexeme::CR,
        Lexeme::LF => Lexeme::LF,
        Lexeme::Word(s) => Lexeme::Word(s.clone()),
        Lexeme::Whitespace(s) => Lexeme::Whitespace(s.clone()),
        Lexeme::Symbol(c) => Lexeme::Symbol(*c),
        Lexeme::Number(n) => Lexeme::Number(*n),
    }
}

/// Relies on `String::push`: appends one character to the string.
#[verifier::external_body]
pub fn push_char(s: &mut String, c: char)
    ensures
        final(s)@ == old(s)@.push(c),
{
    s.push(c);
}

/// An ASCII letter, `A` to `Z` or `a` to `z`.
pub open spec fn spec_is_letter(ch: char) -> bool {
    ('A' <= ch && ch <= 'Z') || ('a' <= ch && ch <= 'z')
}

/// An ASCII letter, `A` to `Z` or `a` to `z`.
#[verifier::when_used_as_spec(spec_is_letter)]
pub fn is_letter(ch: char) -> (r: bool)
    ensures
        r == spec_is_letter(ch),
{
    ('A' <= ch && ch <= 'Z') || ('a' <= ch && ch <= 'z')
}

/// A decimal digit, `0` to `9`.  The scanner does not route digits anywhere
/// yet; see `Lexeme::Number`.
pub open spec fn spec_is_digit(ch: char) -> bool {
    '0' <= ch && ch <= '9'
}

/// A decimal digit, `0` to `9`.
#[verifier::when_used_as_spec(spec_is_digit)]
pub fn is_digit(ch: char) -> (r: bool)
    ensures
        r == spec_is_digit(ch),
{
    '0' <= ch && ch <= '9'
}

/// A space or a horizontal tab.
pub open spec fn spec_is_whitespace(ch: char) -> bool {
    ch == ' ' || ch == '\t'
}

/// A space or a horizontal tab.
#[verifier::when_used_as_spec(spec_is_whitespace)]
pub fn is_whitespace(ch: char) -> (r: bool)
    ensures
        r == spec_is_whitespace(ch),
{
    ch == ' ' || ch == '\t'
}

/// One of the fixed punctuation characters.
pub open spec fn spec_is_symbol(ch: char) -> bool {
    ||| ch == '"'
    ||| ch == '\''
    ||| ch == '!'
    ||| ch == ','
    ||| ch == '$'
    ||| ch == '%'
    ||| ch == '+'
    ||| ch == '-'
    ||| ch == '*'
    ||| ch == '/'
    ||| ch == '('
    ||| ch == ')'
    ||| ch == '='
}

/// One of the fixed punctuation characters.
#[verifier::when_used_as_spec(spec_is_symbol)]
pub fn is_symbol(ch: char) -> (r: bool)
    ensures
        r == spec_is_symbol(ch),
{
    ch == '"' || ch == '\'' || ch == '!' || ch == ',' || ch == '$' || ch == '%' || ch == '+'
        || ch == '-' || ch == '*' || ch == '/' || ch == '(' || ch == ')' || ch == '='
}

} // verus!
