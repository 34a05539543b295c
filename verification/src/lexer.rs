//! The scanner: turns one or more characters from the character source into
//! exactly one lexeme per call, by maximal munch within one character class.

use vstd::prelude::*;
use crate::lexeme::{
    is_letter, is_symbol, is_whitespace, spec_is_letter, spec_is_symbol, spec_is_whitespace,
    Lexeme, LexemeModel, push_char,
};
use crate::reader::{CharSource, RowCol};

verus! {

/// The length of the longest prefix of `s` whose characters all satisfy `p`.
pub open spec fn run_len(s: Seq<char>, p: spec_fn(char) -> bool) -> int
    decreases s.len(),
{
    if s.len() == 0 || !p(s[0]) {
        0
    } else {
        1 + run_len(s.skip(1), p)
    }
}

pub proof fn lemma_run_len_bounds(s: Seq<char>, p: spec_fn(char) -> bool)
    ensures
        0 <= run_len(s, p) <= s.len(),
    decreases s.len(),
{
    if s.len() != 0 && p(s[0]) {
        lemma_run_len_bounds(s.skip(1), p);
    }
}

/// Every character of the run satisfies `p`, and the run is maximal: the
/// first character after it, if any, fails `p`.
pub proof fn lemma_run_chars(s: Seq<char>, p: spec_fn(char) -> bool)
    ensures
        0 <= run_len(s, p) <= s.len(),
        forall|i: int| 0 <= i < run_len(s, p) ==> p(#[trigger] s[i]),
        run_len(s, p) < s.len() ==> !p(s[run_len(s, p)]),
    decreases s.len(),
{
    lemma_run_len_bounds(s, p);
    if s.len() != 0 && p(s[0]) {
        lemma_run_chars(s.skip(1), p);
        assert forall|i: int| 0 <= i < run_len(s, p) implies p(#[trigger] s[i]) by {
            if i > 0 {
                assert(s.skip(1)[i - 1] == s[i]);
            }
        }
        if run_len(s, p) < s.len() {
            assert(s.skip(1)[run_len(s, p) - 1] == s[run_len(s, p)]);
        }
    }
}

/// A prefix of length `j` whose characters all satisfy `p`, followed by
/// nothing or by a character that fails `p`, is exactly the run.
pub proof fn lemma_run_len_exact(s: Seq<char>, p: spec_fn(char) -> bool, j: int)
    requires
        0 <= j <= s.len(),
        forall|i: int| 0 <= i < j ==> p(#[trigger] s[i]),
        j < s.len() ==> !p(s[j]),
    ensures
        run_len(s, p) == j,
    decreases j,
{
    if j == 0 {
    } else {
        assert(p(s[0]));
        assert forall|i: int| 0 <= i < j - 1 implies p(#[trigger] s.skip(1)[i]) by {
            assert(s.skip(1)[i] == s[i + 1]);
        }
        if j - 1 < s.skip(1).len() {
            assert(s.skip(1)[j - 1] == s[j]);
        }
        lemma_run_len_exact(s.skip(1), p, j - 1);
    }
}

/// The letter class, as a function value for `run_len`.
pub open spec fn letter_pred() -> spec_fn(char) -> bool {
    |c: char| spec_is_letter(c)
}

/// The space/tab class, as a function value for `run_len`.
pub open spec fn space_pred() -> spec_fn(char) -> bool {
    |c: char| spec_is_whitespace(c)
}

/// The letter run at the head of `s`.
pub open spec fn letter_run(s: Seq<char>) -> int {
    run_len(s, letter_pred())
}

/// The space/tab run at the head of `s`.
pub open spec fn space_run(s: Seq<char>) -> int {
    run_len(s, space_pred())
}

/// A character the scanner recognizes as the start of some lexeme.
pub open spec fn char_recognized(c: char) -> bool {
    spec_is_letter(c) || spec_is_whitespace(c) || spec_is_symbol(c) || c == '\n' || c == '\r'
}

/// One scan step succeeds: the input is exhausted or starts with a
/// recognized character.
pub open spec fn scan_ok(s: Seq<char>) -> bool {
    s.len() == 0 || char_recognized(s[0])
}

/// How many characters one scan step consumes from `s`.  A failed step
/// consumes the one offending character.
pub open spec fn scan_len(s: Seq<char>) -> int {
    if s.len() == 0 {
        0
    } else if spec_is_letter(s[0]) {
        letter_run(s)
    } else if spec_is_whitespace(s[0]) {
        space_run(s)
    } else if spec_is_symbol(s[0]) {
        1
    } else if s[0] == '\n' {
        1
    } else if s[0] == '\r' {
        if s.len() >= 2 && s[1] == '\n' {
            2
        } else {
            1
        }
    } else {
        1
    }
}

/// The lexeme one successful scan step produces from `s`.
pub open spec fn scan_lexeme(s: Seq<char>) -> LexemeModel {
    if s.len() == 0 {
        LexemeModel::EOF
    } else if spec_is_letter(s[0]) {
        LexemeModel::Word(s.take(letter_run(s)))
    } else if spec_is_whitespace(s[0]) {
        LexemeModel::Whitespace(s.take(space_run(s)))
    } else if spec_is_symbol(s[0]) {
        LexemeModel::Symbol(s[0])
    } else if s[0] == '\n' {
        LexemeModel::LF
    } else if s[0] == '\r' {
        if s.len() >= 2 && s[1] == '\n' {
            LexemeModel::CRLF
        } else {
            LexemeModel::CR
        }
    } else {
        LexemeModel::EOF
    }
}

/// The error of a failed scan step: the offending character and the position
/// at which it stood.
#[derive(Clone, Copy, Debug, PartialEq, Eq, Structural)]
pub struct LexError {
    pub ch: char,
    pub pos: RowCol,
}

/// Which character class a scanning run collects.
#[derive(Clone, Copy)]
enum RunClass {
    Letters,
    Spaces,
}

/// The predicate a run class stands for.
spec fn class_pred(class: RunClass) -> spec_fn(char) -> bool {
    match class {
        RunClass::Letters => letter_pred(),
        RunClass::Spaces => space_pred(),
    }
}

/// Whether `ch` belongs to the run class.
fn class_matches(class: RunClass, ch: char) -> (r: bool)
    ensures
        r == class_pred(class)(ch),
{
    match class {
        RunClass::Letters => is_letter(ch),
        RunClass::Spaces => is_whitespace(ch),
    }
}

/// The scanner.  Each call to `read` classifies the next run of input into
/// exactly one lexeme and never scans past the lexeme it produces.
pub struct Lexer {
    reader: CharSource,
    last_pos: RowCol,
}

impl Lexer {
    /// The whole input text.
    pub closed spec fn text(self) -> Seq<char> {
        self.reader.text()
    }

    /// How many characters have been consumed so far.
    pub closed spec fn at(self) -> int {
        self.reader.at()
    }

    /// The characters not yet consumed.
    pub open spec fn remaining(self) -> Seq<char> {
        self.text().skip(self.at())
    }

    /// The position of the next unconsumed character.
    pub closed spec fn pos_spec(self) -> RowCol {
        self.reader.pos_spec()
    }

    /// The position recorded at the start of the most recent `read`.
    pub closed spec fn last_pos_spec(self) -> RowCol {
        self.last_pos
    }

    pub closed spec fn wf(self) -> bool {
        self.reader.wf()
    }

    /// A well-formed scanner sits inside its text.
    pub proof fn lemma_bounds(self)
        requires
            self.wf(),
        ensures
            0 <= self.at() <= self.text().len(),
            self.remaining().len() == self.text().len() - self.at(),
    {
        self.reader.lemma_bounds();
    }

    /// The position a well-formed scanner reports is the one reached after
    /// the consumed prefix of the text.
    pub proof fn lemma_pos(self)
        requires
            self.wf(),
        ensures
            self.pos_spec() == crate::reader::pos_after(self.text().take(self.at())),
    {
        self.reader.lemma_pos();
    }

    /// A scanner over the given source, positioned at its start.
    pub fn new(reader: CharSource) -> (r: Lexer)
        requires
            reader.wf(),
        ensures
            r.wf(),
            r.text() == reader.text(),
            r.at() == reader.at(),
            r.last_pos_spec() == (RowCol { row: 1, col: 1 }),
    {
        Lexer { reader, last_pos: RowCol::new() }
    }

    /// Scans the next lexeme.  Exactly the characters of that lexeme are
    /// consumed; on an unrecognized character the scan fails, having
    /// consumed just that character.  The position at which the lexeme (or
    /// the offending character) started is recorded for `last_pos`.
    pub fn read(&mut self) -> (r: Result<Lexeme, LexError>)
        requires
            old(self).wf(),
        ensures
            final(self).wf(),
            final(self).text() == old(self).text(),
            final(self).last_pos_spec() == old(self).pos_spec(),
            scan_ok(old(self).remaining()) ==> (r matches Ok(lx)
                && lx@ == scan_lexeme(old(self).remaining())
                && final(self).at() == old(self).at() + scan_len(old(self).remaining())),
            !scan_ok(old(self).remaining()) ==> (r matches Err(e)
                && e.ch == old(self).remaining()[0]
                && e.pos == old(self).pos_spec()
                && final(self).at() == old(self).at() + 1),
    {
        self.last_pos = self.reader.pos();
        let ghost s = self.remaining();
        proof {
            assert(s == old(self).remaining());
        }
        let x = self.reader.read_and_consume();
        match x {
            None => {
                proof {
                    assert(s.len() == 0);
                    assert(scan_lexeme(s) == LexemeModel::EOF);
                }
                Ok(Lexeme::EOF)
            },
            Some(ch) => {
                proof {
                    old(self).lemma_bounds();
                    assert(s.len() > 0 && ch == s[0]);
                    assert(self.remaining() =~= s.skip(1));
                }
                if is_letter(ch) {
                    let w = self.read_while(ch, RunClass::Letters);
                    proof {
                        lemma_scan_run(s, letter_pred());
                    }
                    Ok(Lexeme::Word(w))
                } else if is_whitespace(ch) {
                    let w = self.read_while(ch, RunClass::Spaces);
                    proof {
                        lemma_scan_run(s, space_pred());
                    }
                    Ok(Lexeme::Whitespace(w))
                } else if is_symbol(ch) {
                    Ok(Lexeme::Symbol(ch))
                } else if ch == '\n' {
                    Ok(Lexeme::LF)
                } else if ch == '\r' {
                    let ghost s1 = s.skip(1);
                    let r = self.read_cr_lf();
                    proof {
                        if s1.len() > 0 {
                            assert(s1[0] == s[1]);
                        }
                    }
                    r
                } else {
                    Err(LexError { ch, pos: self.last_pos })
                }
            },
        }
    }

    /// The position at which the most recently returned lexeme started.
    pub fn last_pos(&self) -> (r: RowCol)
        ensures
            r == self.last_pos_spec(),
    {
        self.last_pos
    }

    /// Collects the maximal run of the class that `initial` opened.
    /// `initial` is already consumed; the run continues through the source by
    /// peek-then-consume, stopping at the first character outside the class
    /// or at end of input.
    fn read_while(&mut self, initial: char, class: RunClass) -> (r: String)
        requires
            old(self).wf(),
        ensures
            final(self).wf(),
            final(self).text() == old(self).text(),
            final(self).last_pos_spec() == old(self).last_pos_spec(),
            r@ == seq![initial] + old(self).remaining().take(
                run_len(old(self).remaining(), class_pred(class)),
            ),
            final(self).at() == old(self).at() + run_len(
                old(self).remaining(),
                class_pred(class),
            ),
    {
        let mut result = String::new();
        push_char(&mut result, initial);
        let ghost s = old(self).remaining();
        let ghost p = class_pred(class);
        let ghost j: int = 0;
        proof {
            old(self).lemma_bounds();
            assert(result@ =~= seq![initial] + s.take(0));
        }
        loop
            invariant
                self.wf(),
                self.text() == old(self).text(),
                self.last_pos_spec() == old(self).last_pos_spec(),
                s == old(self).remaining(),
                p == class_pred(class),
                0 <= old(self).at(),
                old(self).at() + s.len() == old(self).text().len(),
                0 <= j <= s.len(),
                self.at() == old(self).at() + j,
                forall|i: int| 0 <= i < j ==> p(#[trigger] s[i]),
                result@ == seq![initial] + s.take(j),
            ensures
                self.wf(),
                self.text() == old(self).text(),
                self.last_pos_spec() == old(self).last_pos_spec(),
                0 <= j <= s.len(),
                self.at() == old(self).at() + j,
                result@ == seq![initial] + s.take(j),
                run_len(s, p) == j,
            decreases s.len() - j,
        {
            let x = self.reader.peek();
            match x {
                Some(ch) => {
                    proof {
                        self.lemma_bounds();
                        assert(j < s.len());
                        assert(self.remaining()[0] == self.text()[self.at()]);
                        assert(s[j] == old(self).text()[old(self).at() + j]);
                        assert(ch == s[j]);
                    }
                    if class_matches(class, ch) {
                        push_char(&mut result, ch);
                        self.reader.consume();
                        proof {
                            assert(s.take(j + 1) =~= s.take(j).push(s[j]));
                            assert(result@ =~= seq![initial] + s.take(j + 1));
                            j = j + 1;
                        }
                    } else {
                        proof {
                            lemma_run_len_exact(s, p, j);
                        }
                        break ;
                    }
                },
                None => {
                    proof {
                        self.lemma_bounds();
                        assert(j == s.len());
                        lemma_run_len_exact(s, p, j);
                    }
                    break ;
                },
            }
        }
        result
    }

    /// Classifies a carriage return that has just been consumed: a line feed
    /// directly after it is consumed too and the pair is one `CRLF`;
    /// anything else is left unconsumed and the lone return is a `CR`.
    fn read_cr_lf(&mut self) -> (r: Result<Lexeme, LexError>)
        requires
            old(self).wf(),
        ensures
            final(self).wf(),
            final(self).text() == old(self).text(),
            final(self).last_pos_spec() == old(self).last_pos_spec(),
            old(self).remaining().len() > 0 && old(self).remaining()[0] == '\n' ==> (r matches Ok(
                lx,
            ) && lx@ == LexemeModel::CRLF && final(self).at() == old(self).at() + 1),
            !(old(self).remaining().len() > 0 && old(self).remaining()[0] == '\n') ==> (r matches Ok(
                lx,
            ) && lx@ == LexemeModel::CR && final(self).at() == old(self).at()),
    {
        let next = self.reader.peek();
        match next {
            Some(ch) => {
                if ch == '\n' {
                    self.reader.consume();
                    Ok(Lexeme::CRLF)
                } else {
                    Ok(Lexeme::CR)
                }
            },
            None => Ok(Lexeme::CR),
        }
    }
}

/// Law: an input consisting solely of letters scans as exactly one `Word`
/// holding the entire input, after which only `EOF` remains.
pub proof fn lemma_scan_all_letters(s: Seq<char>)
    requires
        s.len() > 0,
        forall|i: int| 0 <= i < s.len() ==> spec_is_letter(#[trigger] s[i]),
    ensures
        scan_ok(s),
        scan_lexeme(s) == LexemeModel::Word(s),
        scan_len(s) == s.len(),
        scan_lexeme(s.skip(s.len() as int)) == LexemeModel::EOF,
{
    assert forall|i: int| 0 <= i < s.len() implies letter_pred()(#[trigger] s[i]) by {}
    lemma_run_len_exact(s, letter_pred(), s.len() as int);
    assert(s.take(s.len() as int) =~= s);
}

/// Law: an input consisting solely of spaces and tabs scans as exactly one
/// `Whitespace` holding the entire input, after which only `EOF` remains.
pub proof fn lemma_scan_all_whitespace(s: Seq<char>)
    requires
        s.len() > 0,
        forall|i: int| 0 <= i < s.len() ==> spec_is_whitespace(#[trigger] s[i]),
    ensures
        scan_ok(s),
        scan_lexeme(s) == LexemeModel::Whitespace(s),
        scan_len(s) == s.len(),
        scan_lexeme(s.skip(s.len() as int)) == LexemeModel::EOF,
{
    assert forall|i: int| 0 <= i < s.len() implies space_pred()(#[trigger] s[i]) by {}
    lemma_run_len_exact(s, space_pred(), s.len() as int);
    assert(s.take(s.len() as int) =~= s);
}

/// Law: `Word` and `Whitespace` lexemes are never empty, and a scan of a
/// non-empty input always consumes at least the initiating character.
pub proof fn lemma_scan_nonempty(s: Seq<char>)
    requires
        scan_ok(s),
    ensures
        scan_lexeme(s) matches LexemeModel::Word(w) ==> w.len() > 0,
        scan_lexeme(s) matches LexemeModel::Whitespace(w) ==> w.len() > 0,
        s.len() > 0 ==> scan_len(s) > 0,
        scan_len(s) <= s.len(),
{
    if s.len() > 0 {
        if spec_is_letter(s[0]) {
            lemma_run_chars(s, letter_pred());
            assert(letter_pred()(s[0]));
            assert(letter_run(s) >= 1);
        } else if spec_is_whitespace(s[0]) {
            lemma_run_chars(s, space_pred());
            assert(space_pred()(s[0]));
            assert(space_run(s) >= 1);
        }
    }
}

/// Law: two adjacent punctuation characters scan as two separate one-character
/// `Symbol` lexemes, never as a combined one.
pub proof fn lemma_scan_adjacent_symbols(s: Seq<char>)
    requires
        s.len() >= 2,
        spec_is_symbol(s[0]),
        spec_is_symbol(s[1]),
    ensures
        scan_ok(s),
        scan_lexeme(s) == LexemeModel::Symbol(s[0]),
        scan_len(s) == 1,
        scan_ok(s.skip(1)),
        scan_lexeme(s.skip(1)) == LexemeModel::Symbol(s[1]),
        scan_len(s.skip(1)) == 1,
{
    assert(s.skip(1)[0] == s[1]);
}

/// Law: line-ending classification.  A carriage return directly followed by a
/// line feed scans as one `CRLF` covering both characters; a lone line feed
/// scans as `LF`; a carriage return not followed by a line feed scans as `CR`
/// covering just itself.
pub proof fn lemma_scan_line_endings(s: Seq<char>)
    requires
        s.len() > 0,
        s[0] == '\r' || s[0] == '\n',
    ensures
        scan_ok(s),
        s[0] == '\n' ==> scan_lexeme(s) == LexemeModel::LF && scan_len(s) == 1,
        s[0] == '\r' && s.len() >= 2 && s[1] == '\n' ==> scan_lexeme(s) == LexemeModel::CRLF
            && scan_len(s) == 2,
        s[0] == '\r' && !(s.len() >= 2 && s[1] == '\n') ==> scan_lexeme(s) == LexemeModel::CR
            && scan_len(s) == 1,
{
}

/// For input starting inside a run class, the scan of the whole input
/// decomposes into the first character and the run of the rest.
proof fn lemma_scan_run(s: Seq<char>, p: spec_fn(char) -> bool)
    requires
        s.len() > 0,
        p(s[0]),
    ensures
        run_len(s, p) == 1 + run_len(s.skip(1), p),
        seq![s[0]] + s.skip(1).take(run_len(s.skip(1), p)) =~= s.take(run_len(s, p)),
    decreases s.len(),
{
    lemma_run_len_bounds(s.skip(1), p);
    let n = run_len(s.skip(1), p);
    assert forall|i: int| 0 <= i < 1 + n implies (seq![s[0]] + s.skip(1).take(n))[i] == s.take(
        1 + n,
    )[i] by {
        if i > 0 {
            assert(s.skip(1)[i - 1] == s[i]);
        }
    }
}

} // verus!
