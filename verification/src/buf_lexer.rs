//! The buffered lexer: a one-token-lookahead cursor over the scanner, with
//! conditional-consume primitives for a recursive-descent parser.

use vstd::prelude::*;
use crate::lexeme::{clone_lexeme, Lexeme, LexemeModel};
use crate::lexer::{
    lemma_run_chars, lemma_run_len_bounds, scan_len, scan_lexeme, scan_ok, space_pred, space_run,
    LexError, Lexer,
};
use crate::reader::{CharSource, RowCol};

verus! {

/// What a `demand_*` operation was looking for.
#[derive(Clone, Copy, Debug, PartialEq, Eq, Structural)]
pub enum Expectation {
    /// Any word.
    Word,
    /// This exact symbol.
    Symbol(char),
    /// A line ending or the end of the input.
    EolOrEof,
}

/// The error of a failed `read` or `demand_*` operation.
#[derive(Debug, PartialEq)]
pub enum ParseError {
    /// Scanning itself failed on an unrecognized character.
    Lex(LexError),
    /// The next lexeme did not have the demanded shape.  Carries what was
    /// expected and the lexeme actually found, which stays cached.
    Expected(Expectation, Lexeme),
}

/// A lexeme that ends a line: a line ending proper or the end of the input.
pub open spec fn is_eol_or_eof(m: LexemeModel) -> bool {
    ||| m is CR
    ||| m is CRLF
    ||| m is LF
    ||| m is EOF
}

/// The scanner with a single pending-lexeme slot.  `read` peeks (caching the
/// lexeme), `consume` commits to it; the `try_*` and `demand_*` helpers
/// combine the two into conditional grammar steps.
pub struct BufLexer {
    lexer: Lexer,
    pending: Option<Lexeme>,
}

impl BufLexer {
    /// The whole input text.
    pub closed spec fn text(self) -> Seq<char> {
        self.lexer.text()
    }

    /// How many characters the underlying scanner has consumed.
    pub closed spec fn at(self) -> int {
        self.lexer.at()
    }

    /// The characters the underlying scanner has not yet consumed.
    pub open spec fn remaining(self) -> Seq<char> {
        self.text().skip(self.at())
    }

    /// The position of the next unconsumed character.
    pub closed spec fn pos_spec(self) -> RowCol {
        self.lexer.pos_spec()
    }

    /// The cached lexeme, if one is pending.
    pub closed spec fn pending_model(self) -> Option<LexemeModel> {
        match self.pending {
            Some(l) => Some(l@),
            None => None,
        }
    }

    pub closed spec fn wf(self) -> bool {
        self.lexer.wf()
    }

    /// A well-formed cursor sits inside its text.
    pub proof fn lemma_bounds(self)
        requires
            self.wf(),
        ensures
            0 <= self.at() <= self.text().len(),
            self.remaining().len() == self.text().len() - self.at(),
    {
        self.lexer.lemma_bounds();
    }

    /// The position a well-formed cursor reports is the one reached after
    /// the consumed prefix of the text.
    pub proof fn lemma_pos(self)
        requires
            self.wf(),
        ensures
            self.pos_spec() == crate::reader::pos_after(self.text().take(self.at())),
    {
        self.lexer.lemma_pos();
    }

    /// `read` succeeds from this state: a lexeme is cached, or a fresh scan
    /// succeeds.
    pub open spec fn peek_ok(self) -> bool {
        self.pending_model() is Some || scan_ok(self.remaining())
    }

    /// The lexeme `read` delivers from this state.
    pub open spec fn peeked(self) -> LexemeModel {
        match self.pending_model() {
            Some(m) => m,
            None => scan_lexeme(self.remaining()),
        }
    }

    /// The scanner's cursor after `read` has filled the cache.
    pub open spec fn at_after_peek(self) -> int {
        match self.pending_model() {
            Some(m) => self.at(),
            None => self.at() + scan_len(self.remaining()),
        }
    }

    /// A failed fresh scan: the one offending character was consumed and
    /// nothing is cached.
    pub open spec fn scan_failure(self, post: BufLexer, e: ParseError) -> bool {
        &&& !self.peek_ok()
        &&& (e matches ParseError::Lex(le) && le.ch == self.remaining()[0] && le.pos
            == self.pos_spec())
        &&& post.at() == self.at() + 1
        &&& post.pending_model() is None
    }

    /// A cursor over the given source, positioned at its start, with nothing
    /// cached.
    pub fn new(reader: CharSource) -> (r: BufLexer)
        requires
            reader.wf(),
        ensures
            r.wf(),
            r.text() == reader.text(),
            r.at() == reader.at(),
            r.pending_model() is None,
    {
        BufLexer { lexer: Lexer::new(reader), pending: None }
    }

    /// Reads the next lexeme.  The lexeme is cached and no further scanning
    /// is done until `consume` is called: reading twice without consuming
    /// returns the identical lexeme and does not advance the source.
    pub fn read(&mut self) -> (r: Result<Lexeme, ParseError>)
        requires
            old(self).wf(),
        ensures
            final(self).wf(),
            final(self).text() == old(self).text(),
            old(self).peek_ok() ==> (r matches Ok(lx)
                && lx@ == old(self).peeked()
                && final(self).at() == old(self).at_after_peek()
                && final(self).pending_model() == Some(old(self).peeked())),
            !old(self).peek_ok() ==> (r matches Err(e) && old(self).scan_failure(*final(self), e)),
    {
        match &self.pending {
            Some(l) => Ok(clone_lexeme(l)),
            None => {
                match self.lexer.read() {
                    Ok(lx) => {
                        self.pending = Some(clone_lexeme(&lx));
                        Ok(lx)
                    },
                    Err(e) => Err(ParseError::Lex(e)),
                }
            },
        }
    }

    /// Consumes the previously read lexeme, allowing further reads.  It is
    /// the caller's obligation to have read before consuming.
    pub fn consume(&mut self)
        requires
            old(self).wf(),
            old(self).pending_model() is Some,
        ensures
            final(self).wf(),
            final(self).text() == old(self).text(),
            final(self).at() == old(self).at(),
            final(self).pos_spec() == old(self).pos_spec(),
            final(self).pending_model() is None,
    {
        self.pending = None;
    }

    /// Reads the next lexeme; if it is a word with exactly this text
    /// (case-sensitively), consumes it and reports true.  Otherwise the
    /// lexeme stays cached and the call reports false.
    pub fn try_consume_word(&mut self, word: &str) -> (r: Result<bool, ParseError>)
        requires
            old(self).wf(),
        ensures
            final(self).wf(),
            final(self).text() == old(self).text(),
            old(self).peek_ok() ==> ({
                let m = old(self).peeked();
                &&& final(self).at() == old(self).at_after_peek()
                &&& if m matches LexemeModel::Word(w) && w == word@ {
                    r matches Ok(b) && b == true && final(self).pending_model() is None
                } else {
                    r matches Ok(b) && b == false && final(self).pending_model() == Some(m)
                }
            }),
            !old(self).peek_ok() ==> (r matches Err(e) && old(self).scan_failure(*final(self), e)),
    {
        let lexeme = self.read()?;
        match lexeme {
            Lexeme::Word(w) => {
                let wanted = word.to_owned();
                if w == wanted {
                    self.consume();
                    Ok(true)
                } else {
                    Ok(false)
                }
            },
            _ => Ok(false),
        }
    }

    /// Reads the next lexeme; if it is exactly this symbol, consumes it and
    /// reports true.  Otherwise the lexeme stays cached and the call reports
    /// false.
    pub fn try_consume_symbol(&mut self, ch: char) -> (r: Result<bool, ParseError>)
        requires
            old(self).wf(),
        ensures
            final(self).wf(),
            final(self).text() == old(self).text(),
            old(self).peek_ok() ==> ({
                let m = old(self).peeked();
                &&& final(self).at() == old(self).at_after_peek()
                &&& if m matches LexemeModel::Symbol(c) && c == ch {
                    r matches Ok(b) && b == true && final(self).pending_model() is None
                } else {
                    r matches Ok(b) && b == false && final(self).pending_model() == Some(m)
                }
            }),
            !old(self).peek_ok() ==> (r matches Err(e) && old(self).scan_failure(*final(self), e)),
    {
        let lexeme = self.read()?;
        match lexeme {
            Lexeme::Symbol(c) => {
                if c == ch {
                    self.consume();
                    Ok(true)
                } else {
                    Ok(false)
                }
            },
            _ => Ok(false),
        }
    }

    /// Reads the next lexeme; a word is consumed and its text returned, and
    /// anything else is reported as an expectation error, the lexeme left
    /// cached for the caller to re-inspect.
    pub fn demand_word(&mut self) -> (r: Result<String, ParseError>)
        requires
            old(self).wf(),
        ensures
            final(self).wf(),
            final(self).text() == old(self).text(),
            old(self).peek_ok() ==> ({
                let m = old(self).peeked();
                &&& final(self).at() == old(self).at_after_peek()
                &&& (m matches LexemeModel::Word(w) ==> (r matches Ok(s) && s@ == w
                    && final(self).pending_model() is None))
                &&& (!(m is Word) ==> (r matches Err(e) && e matches ParseError::Expected(
                    exp,
                    found,
                ) && exp == Expectation::Word && found@ == m && final(self).pending_model() == Some(
                    m,
                )))
            }),
            !old(self).peek_ok() ==> (r matches Err(e) && old(self).scan_failure(*final(self), e)),
    {
        let lexeme = self.read()?;
        match lexeme {
            Lexeme::Word(w) => {
                self.consume();
                Ok(w)
            },
            other => Err(ParseError::Expected(Expectation::Word, other)),
        }
    }

    /// Reads the next lexeme; exactly this symbol is consumed, and anything
    /// else is reported as an expectation error, the lexeme left cached.
    pub fn demand_symbol(&mut self, ch: char) -> (r: Result<(), ParseError>)
        requires
            old(self).wf(),
        ensures
            final(self).wf(),
            final(self).text() == old(self).text(),
            old(self).peek_ok() ==> ({
                let m = old(self).peeked();
                &&& final(self).at() == old(self).at_after_peek()
                &&& if m matches LexemeModel::Symbol(c) && c == ch {
                    r matches Ok(u) && final(self).pending_model() is None
                } else {
                    r matches Err(e) && e matches ParseError::Expected(exp, found)
                        && exp == Expectation::Symbol(ch) && found@ == m
                        && final(self).pending_model() == Some(m)
                }
            }),
            !old(self).peek_ok() ==> (r matches Err(e) && old(self).scan_failure(*final(self), e)),
    {
        let lexeme = self.read()?;
        match lexeme {
            Lexeme::Symbol(c) => {
                if c == ch {
                    self.consume();
                    Ok(())
                } else {
                    Err(ParseError::Expected(Expectation::Symbol(ch), Lexeme::Symbol(c)))
                }
            },
            other => Err(ParseError::Expected(Expectation::Symbol(ch), other)),
        }
    }

    /// Reads the next lexeme; a line ending (`CR`, `CRLF`, `LF`) or the end
    /// of the input is consumed, and anything else is reported as an
    /// expectation error, the lexeme left cached.
    pub fn demand_eol_or_eof(&mut self) -> (r: Result<(), ParseError>)
        requires
            old(self).wf(),
        ensures
            final(self).wf(),
            final(self).text() == old(self).text(),
            old(self).peek_ok() ==> ({
                let m = old(self).peeked();
                &&& final(self).at() == old(self).at_after_peek()
                &&& if is_eol_or_eof(m) {
                    r matches Ok(u) && final(self).pending_model() is None
                } else {
                    r matches Err(e) && e matches ParseError::Expected(exp, found)
                        && exp == Expectation::EolOrEof && found@ == m
                        && final(self).pending_model() == Some(m)
                }
            }),
            !old(self).peek_ok() ==> (r matches Err(e) && old(self).scan_failure(*final(self), e)),
    {
        let lexeme = self.read()?;
        match lexeme {
            Lexeme::CR => {
                self.consume();
                Ok(())
            },
            Lexeme::CRLF => {
                self.consume();
                Ok(())
            },
            Lexeme::LF => {
                self.consume();
                Ok(())
            },
            Lexeme::EOF => {
                self.consume();
                Ok(())
            },
            other => Err(ParseError::Expected(Expectation::EolOrEof, other)),
        }
    }

    /// Reads and consumes while the lexeme is whitespace; stops, without
    /// consuming, at the first non-whitespace lexeme (which stays cached,
    /// `EOF` included).  Since runs are maximal, at most one whitespace
    /// lexeme can precede it.
    pub fn skip_whitespace(&mut self) -> (r: Result<(), ParseError>)
        requires
            old(self).wf(),
        ensures
            final(self).wf(),
            final(self).text() == old(self).text(),
            (old(self).pending_model() matches Some(m) && !(m is Whitespace)) ==> (r matches Ok(u)
                && final(self).at() == old(self).at() && final(self).pending_model() == old(
                self,
            ).pending_model()),
            (match old(self).pending_model() {
                Some(m) => m is Whitespace,
                None => true,
            }) ==> ({
                let s = old(self).remaining();
                let k = space_run(s);
                let s2 = s.skip(k);
                if scan_ok(s2) {
                    r matches Ok(u) && final(self).at() == old(self).at() + k + scan_len(s2)
                        && final(self).pending_model() == Some(scan_lexeme(s2)) && !(scan_lexeme(s2)
                        is Whitespace)
                } else {
                    r matches Err(e) && e matches ParseError::Lex(le) && le.ch == s2[0]
                        && final(self).at() == old(self).at() + k + 1
                        && final(self).pending_model() is None
                }
            }),
    {
        let ghost s = old(self).remaining();
        let ghost k = space_run(s);
        proof {
            old(self).lemma_bounds();
            lemma_run_chars(s, space_pred());
        }
        loop
            invariant_except_break
                (old(self).pending_model() matches Some(m) && !(m is Whitespace)) ==> *self == *old(
                    self,
                ),
                (match old(self).pending_model() {
                    Some(m) => m is Whitespace,
                    None => true,
                }) ==> ({
                    ||| *self == *old(self)
                    ||| (self.pending_model() is None && self.at() == old(self).at())
                    ||| (self.pending_model() is None && self.at() == old(self).at() + k)
                }),
            invariant
                self.wf(),
                self.text() == old(self).text(),
                s == old(self).remaining(),
                k == space_run(s),
                0 <= k <= s.len(),
                0 <= old(self).at(),
                old(self).at() + s.len() == old(self).text().len(),
            ensures
                self.wf(),
                self.text() == old(self).text(),
                (old(self).pending_model() matches Some(m) && !(m is Whitespace)) ==> (self.at()
                    == old(self).at() && self.pending_model() == old(self).pending_model()),
                (match old(self).pending_model() {
                    Some(m) => m is Whitespace,
                    None => true,
                }) ==> ({
                    let s2 = s.skip(k);
                    &&& scan_ok(s2)
                    &&& self.at() == old(self).at() + k + scan_len(s2)
                    &&& self.pending_model() == Some(scan_lexeme(s2))
                    &&& !(scan_lexeme(s2) is Whitespace)
                }),
            decreases self.remaining().len() + (if self.pending_model() is Some {
                1int
            } else {
                0int
            }),
        {
            proof {
                self.lemma_bounds();
                lemma_run_chars(s, space_pred());
                if self.pending_model() is None && self.at() == old(self).at() + k {
                    assert(self.remaining() =~= s.skip(k));
                }
                if self.pending_model() is None && self.at() == old(self).at() {
                    if k != 0 {
                        assert(space_pred()(s[0]));
                    } else {
                        assert(self.remaining() =~= s.skip(k));
                    }
                }
            }
            let ghost pre = *self;
            let step = self.read();
            let lexeme = match step {
                Ok(l) => l,
                Err(e) => {
                    proof {
                        assert(pre.pending_model() is None);
                        assert(!scan_ok(pre.remaining()));
                        if pre.at() == old(self).at() {
                            assert(!space_pred()(s[0]));
                            assert(k == 0);
                            assert(s.skip(0) =~= s);
                        }
                    }
                    return Err(e);
                },
            };
            match lexeme {
                Lexeme::Whitespace(_) => {
                    proof {
                        if pre.pending_model() is None {
                            assert(scan_lexeme(pre.remaining()) is Whitespace);
                            assert(pre.remaining().len() > 0);
                            lemma_run_len_bounds(pre.remaining().skip(1), space_pred());
                            assert(scan_len(pre.remaining()) >= 1);
                            if pre.at() == old(self).at() + k {
                                assert(false);
                            }
                            assert(space_pred()(s[0]));
                            assert(k == space_run(pre.remaining()));
                        }
                    }
                    self.consume();
                    proof {
                        self.lemma_bounds();
                    }
                },
                _ => {
                    proof {
                        if pre.pending_model() is None && pre.at() == old(self).at() {
                            assert(lexeme@ == scan_lexeme(s));
                            if k != 0 {
                                assert(scan_lexeme(s) is Whitespace);
                                assert(false);
                            }
                            assert(s.skip(0) =~= s);
                        }
                    }
                    break ;
                },
            }
        }
        Ok(())
    }
}

} // verus!
