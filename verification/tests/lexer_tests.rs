use basic_lexer::buf_lexer::{BufLexer, Expectation, ParseError};
use basic_lexer::lexeme::Lexeme;
use basic_lexer::lexer::{LexError, Lexer};
use basic_lexer::reader::{text_to_chars, CharSource, RowCol};

#[test]
fn test_lexer() {
    let input = "PRINT \"Hello, world!\"";
    let mut lexer = Lexer::new(CharSource::new(text_to_chars(input)));
    assert_eq!(lexer.read().unwrap(), Lexeme::Word("PRINT".to_string()));
    assert_eq!(lexer.read().unwrap(), Lexeme::Whitespace(" ".to_string()));
    assert_eq!(lexer.read().unwrap(), Lexeme::Symbol('"'));
    assert_eq!(lexer.read().unwrap(), Lexeme::Word("Hello".to_string()));
    assert_eq!(lexer.read().unwrap(), Lexeme::Symbol(','));
    assert_eq!(lexer.read().unwrap(), Lexeme::Whitespace(" ".to_string()));
    assert_eq!(lexer.read().unwrap(), Lexeme::Word("world".to_string()));
    assert_eq!(lexer.read().unwrap(), Lexeme::Symbol('!'));
    assert_eq!(lexer.read().unwrap(), Lexeme::Symbol('"'));
    assert_eq!(lexer.read().unwrap(), Lexeme::EOF);
}

#[test]
fn test_cr_lf() {
    let input = "Hi\r\n\n\r";
    let mut lexer = Lexer::new(CharSource::new(text_to_chars(input)));
    assert_eq!(lexer.read().unwrap(), Lexeme::Word("Hi".to_string()));
    assert_eq!(lexer.read().unwrap(), Lexeme::CRLF);
    assert_eq!(lexer.read().unwrap(), Lexeme::LF);
    assert_eq!(lexer.read().unwrap(), Lexeme::CR);
    assert_eq!(lexer.read().unwrap(), Lexeme::EOF);
}

#[test]
fn all_letters_is_one_word() {
    let mut lexer = Lexer::new(CharSource::new(text_to_chars("abcdXYZ")));
    assert_eq!(lexer.read().unwrap(), Lexeme::Word("abcdXYZ".to_string()));
    assert_eq!(lexer.read().unwrap(), Lexeme::EOF);
}

#[test]
fn all_spaces_is_one_whitespace() {
    let mut lexer = Lexer::new(CharSource::new(text_to_chars(" \t  \t")));
    assert_eq!(lexer.read().unwrap(), Lexeme::Whitespace(" \t  \t".to_string()));
    assert_eq!(lexer.read().unwrap(), Lexeme::EOF);
}

#[test]
fn adjacent_symbols_stay_separate() {
    let mut lexer = Lexer::new(CharSource::new(text_to_chars("+-")));
    assert_eq!(lexer.read().unwrap(), Lexeme::Symbol('+'));
    assert_eq!(lexer.read().unwrap(), Lexeme::Symbol('-'));
    assert_eq!(lexer.read().unwrap(), Lexeme::EOF);
}

#[test]
fn line_ending_classification() {
    let mut lexer = Lexer::new(CharSource::new(text_to_chars("\r\n")));
    assert_eq!(lexer.read().unwrap(), Lexeme::CRLF);
    assert_eq!(lexer.read().unwrap(), Lexeme::EOF);

    let mut lexer = Lexer::new(CharSource::new(text_to_chars("\n")));
    assert_eq!(lexer.read().unwrap(), Lexeme::LF);
    assert_eq!(lexer.read().unwrap(), Lexeme::EOF);

    let mut lexer = Lexer::new(CharSource::new(text_to_chars("\r")));
    assert_eq!(lexer.read().unwrap(), Lexeme::CR);
    assert_eq!(lexer.read().unwrap(), Lexeme::EOF);

    let mut lexer = Lexer::new(CharSource::new(text_to_chars("\rx")));
    assert_eq!(lexer.read().unwrap(), Lexeme::CR);
    assert_eq!(lexer.read().unwrap(), Lexeme::Word("x".to_string()));
}

#[test]
fn unrecognized_character_is_a_lex_error() {
    let mut lexer = Lexer::new(CharSource::new(text_to_chars("1")));
    assert_eq!(
        lexer.read(),
        Err(LexError { ch: '1', pos: RowCol { row: 1, col: 1 } })
    );
}

#[test]
fn lex_error_carries_the_position() {
    let mut lexer = Lexer::new(CharSource::new(text_to_chars("A@")));
    assert_eq!(lexer.read().unwrap(), Lexeme::Word("A".to_string()));
    assert_eq!(
        lexer.read(),
        Err(LexError { ch: '@', pos: RowCol { row: 1, col: 2 } })
    );
}

#[test]
fn last_pos_tracks_lexeme_starts() {
    let mut lexer = Lexer::new(CharSource::new(text_to_chars("AB \r\nC")));
    assert_eq!(lexer.read().unwrap(), Lexeme::Word("AB".to_string()));
    assert_eq!(lexer.last_pos(), RowCol { row: 1, col: 1 });
    assert_eq!(lexer.read().unwrap(), Lexeme::Whitespace(" ".to_string()));
    assert_eq!(lexer.last_pos(), RowCol { row: 1, col: 3 });
    assert_eq!(lexer.read().unwrap(), Lexeme::CRLF);
    assert_eq!(lexer.last_pos(), RowCol { row: 1, col: 4 });
    assert_eq!(lexer.read().unwrap(), Lexeme::Word("C".to_string()));
    assert_eq!(lexer.last_pos(), RowCol { row: 2, col: 1 });
}

#[test]
fn peek_is_idempotent() {
    let mut buf = BufLexer::new(CharSource::new(text_to_chars("PRINT X")));
    let first = buf.read().unwrap();
    let second = buf.read().unwrap();
    assert_eq!(first, second);
    assert_eq!(first, Lexeme::Word("PRINT".to_string()));
    buf.consume();
    assert_eq!(buf.read().unwrap(), Lexeme::Whitespace(" ".to_string()));
}

#[test]
fn try_consume_word_matches_exactly() {
    let mut buf = BufLexer::new(CharSource::new(text_to_chars("PRINT ")));
    assert_eq!(buf.try_consume_word("PRINT").unwrap(), true);
    assert_eq!(buf.read().unwrap(), Lexeme::Whitespace(" ".to_string()));

    let mut buf = BufLexer::new(CharSource::new(text_to_chars("PRINTS ")));
    assert_eq!(buf.try_consume_word("PRINT").unwrap(), false);
    assert_eq!(buf.read().unwrap(), Lexeme::Word("PRINTS".to_string()));
}

#[test]
fn try_consume_symbol_matches_exactly() {
    let mut buf = BufLexer::new(CharSource::new(text_to_chars("=1")));
    assert_eq!(buf.try_consume_symbol('+').unwrap(), false);
    assert_eq!(buf.try_consume_symbol('=').unwrap(), true);

    let mut buf = BufLexer::new(CharSource::new(text_to_chars("X")));
    assert_eq!(buf.try_consume_symbol('=').unwrap(), false);
    assert_eq!(buf.read().unwrap(), Lexeme::Word("X".to_string()));
}

#[test]
fn demand_word_consumes_or_reports() {
    let mut buf = BufLexer::new(CharSource::new(text_to_chars("LET x")));
    assert_eq!(buf.demand_word().unwrap(), "LET".to_string());

    let mut buf = BufLexer::new(CharSource::new(text_to_chars("=")));
    assert_eq!(
        buf.demand_word(),
        Err(ParseError::Expected(Expectation::Word, Lexeme::Symbol('=')))
    );
    assert_eq!(buf.read().unwrap(), Lexeme::Symbol('='));
}

#[test]
fn demand_symbol_fails_without_consuming() {
    let mut buf = BufLexer::new(CharSource::new(text_to_chars("+A")));
    assert_eq!(buf.read().unwrap(), Lexeme::Symbol('+'));
    assert_eq!(
        buf.demand_symbol('='),
        Err(ParseError::Expected(Expectation::Symbol('='), Lexeme::Symbol('+')))
    );
    assert_eq!(buf.read().unwrap(), Lexeme::Symbol('+'));
    assert_eq!(buf.demand_symbol('+'), Ok(()));
    assert_eq!(buf.read().unwrap(), Lexeme::Word("A".to_string()));
}

#[test]
fn demand_eol_or_eof_accepts_line_endings() {
    let mut buf = BufLexer::new(CharSource::new(text_to_chars("\r\nEND")));
    assert_eq!(buf.demand_eol_or_eof(), Ok(()));
    assert_eq!(
        buf.demand_eol_or_eof(),
        Err(ParseError::Expected(Expectation::EolOrEof, Lexeme::Word("END".to_string())))
    );
    assert_eq!(buf.demand_word().unwrap(), "END".to_string());
    assert_eq!(buf.demand_eol_or_eof(), Ok(()));
}

#[test]
fn skip_whitespace_stops_at_first_other_lexeme() {
    let mut buf = BufLexer::new(CharSource::new(text_to_chars("  \tPRINT")));
    buf.skip_whitespace().unwrap();
    assert_eq!(buf.read().unwrap(), Lexeme::Word("PRINT".to_string()));

    let mut buf = BufLexer::new(CharSource::new(text_to_chars(" X")));
    assert_eq!(buf.read().unwrap(), Lexeme::Whitespace(" ".to_string()));
    buf.skip_whitespace().unwrap();
    assert_eq!(buf.read().unwrap(), Lexeme::Word("X".to_string()));

    let mut buf = BufLexer::new(CharSource::new(text_to_chars("   ")));
    buf.skip_whitespace().unwrap();
    assert_eq!(buf.read().unwrap(), Lexeme::EOF);
}

#[test]
fn push_to_appends_the_lexeme_text() {
    let mut buf = "x".to_string();
    Lexeme::Word("ab".to_string()).push_to(&mut buf);
    assert_eq!(buf, "xab".to_string());
    Lexeme::Symbol('!').push_to(&mut buf);
    assert_eq!(buf, "xab!".to_string());
    Lexeme::Whitespace(" ".to_string()).push_to(&mut buf);
    assert_eq!(buf, "xab! ".to_string());
}
