use super::lexer_error::{LexErrorKind, LexerError, ParseTokenError};
use super::scan::{
    bare, col_at, double_lexeme, errors_from, identifier_lexeme, in_class, is_digit_byte,
    is_identifier_byte, is_identifier_start_byte, is_whitespace_byte, keyword_kind,
    lemma_ascii_text, lemma_identifier_is_ascii, lemma_lexeme_progress, lemma_number_is_ascii,
    lemma_position_bounds, lemma_token_stream_has_one_sentinel, lexeme_at, lexical_errors, line_at,
    number_lexeme, run_end, sentinel, slash_lexeme, string_close, string_lexeme, token_stream,
    tokens_from, whitespace_lexeme, ByteClass, Lexeme, Scanned, AMPERSAND, BACKSLASH, BANG,
    BAR, CARRIAGE_RETURN, COMMA, DIGIT_0, DIGIT_9, DOT, EQUAL, FORM_FEED, GREATER, LEFT_BRACE,
    LEFT_BRACKET, LEFT_PAREN, LESS, LINE_FEED, LOWER_A, LOWER_Z, MINUS, PLUS, QUOTE,
    RIGHT_BRACE, RIGHT_BRACKET, RIGHT_PAREN, SEMICOLON, SLASH, SPACE, STAR, TAB, UNDERSCORE,
    UPPER_A, UPPER_Z,
};
use super::token::{literal_model, token_models, well_formed, Token, TokenKind};
use vstd::prelude::*;
use vstd::slice::{slice_subrange, slice_to_vec};
use vstd::utf8::{decode_utf8, valid_utf8};

verus! {

/// Decodes `bytes` with `String::from_utf8`. Trusted: the call succeeds
/// exactly on valid UTF-8 and then yields the text that the bytes encode.
#[verifier::external_body]
fn decode_text(bytes: Vec<u8>) -> (r: Option<String>)
    ensures
        r is Some <==> valid_utf8(bytes@),
        r matches Some(text) ==> text@ == decode_utf8(bytes@),
{
    String::from_utf8(bytes).ok()
}

pub fn is_digit(b: u8) -> (r: bool)
    ensures
        r == is_digit_byte(b),
{
    DIGIT_0 <= b && b <= DIGIT_9
}

pub fn is_identifier_start(b: u8) -> (r: bool)
    ensures
        r == is_identifier_start_byte(b),
{
    (LOWER_A <= b && b <= LOWER_Z) || (UPPER_A <= b && b <= UPPER_Z) || b == UNDERSCORE
}

pub fn is_identifier_char(b: u8) -> (r: bool)
    ensures
        r == is_identifier_byte(b),
{
    is_identifier_start(b) || is_digit(b)
}

pub fn is_whitespace(b: u8) -> (r: bool)
    ensures
        r == is_whitespace_byte(b),
{
    b == SPACE || b == TAB || b == LINE_FEED || b == FORM_FEED || b == CARRIAGE_RETURN
}

/// Whether `b` belongs to `class`.
pub fn class_holds(class: ByteClass, b: u8) -> (r: bool)
    ensures
        r == in_class(class, b),
{
    match class {
        ByteClass::Digit => is_digit(b),
        ByteClass::Identifier => is_identifier_char(b),
        ByteClass::Whitespace => is_whitespace(b),
        ByteClass::NotNewline => b != LINE_FEED,
    }
}

fn spells(text: &String, word: &str) -> (r: bool)
    ensures
        r == (text@ == word@),
{
    let owned = word.to_owned();
    *text == owned
}

/// Looks `text` up in the keyword table, by exact match.
pub fn lookup_keyword(text: &String) -> (r: Option<TokenKind>)
    ensures
        r == keyword_kind(text@),
{
    if spells(text, "const") {
        Some(TokenKind::Const)
    } else if spells(text, "let") {
        Some(TokenKind::Let)
    } else if spells(text, "true") {
        Some(TokenKind::True)
    } else if spells(text, "false") {
        Some(TokenKind::False)
    } else if spells(text, "fn") {
        Some(TokenKind::Function)
    } else if spells(text, "return") {
        Some(TokenKind::Return)
    } else if spells(text, "for") {
        Some(TokenKind::For)
    } else if spells(text, "if") {
        Some(TokenKind::If)
    } else if spells(text, "else") {
        Some(TokenKind::Else)
    } else if spells(text, "type") {
        Some(TokenKind::Type)
    } else if spells(text, "import") {
        Some(TokenKind::Import)
    } else if spells(text, "from") {
        Some(TokenKind::From)
    } else if spells(text, "export") {
        Some(TokenKind::Export)
    } else if spells(text, "print") {
        Some(TokenKind::Print)
    } else {
        None
    }
}

/// What the result of scanning one lexeme says of the lexeme.
pub open spec fn scanned_model(r: Result<Token, ParseTokenError>) -> Scanned {
    match r {
        Ok(t) => Scanned::Token { kind: t.kind, literal: literal_model(t.literal) },
        Err(e) => Scanned::Error { error: e.kind },
    }
}

/// A scanner over a byte buffer. `start` is where the lexeme in hand begins
/// and `current` is the next byte to read; a position is kept for each.
pub struct Lexer<'a> {
    source: &'a [u8],
    start: usize,
    current: usize,
    line: u32,
    col: u32,
    current_line: u32,
    current_col: u32,
    swap: Option<String>,
}

impl<'a> Lexer<'a> {
    /// The bytes that the lexer scans.
    pub closed spec fn source(&self) -> Seq<u8> {
        self.source@
    }

    /// The cursors lie within the buffer, in order, and each position is
    /// that of its cursor.
    pub closed spec fn wf(&self) -> bool {
        &&& self.source@.len() < u32::MAX
        &&& self.start <= self.current <= self.source@.len()
        &&& self.line == line_at(self.source@, self.start as int)
        &&& self.col == col_at(self.source@, self.start as int)
        &&& self.current_line == line_at(self.source@, self.current as int)
        &&& self.current_col == col_at(self.source@, self.current as int)
    }

    /// The lexer is well formed and differs from `before` at most in its
    /// read cursor, which stands at `to`, and in its pending literal.
    spec fn advanced(&self, before: &Lexer<'a>, to: int) -> bool {
        &&& self.wf()
        &&& self.source == before.source
        &&& self.start == before.start
        &&& self.line == before.line
        &&& self.col == before.col
        &&& self.current == to
    }

    /// A lexer at the start of `source`. Positions are kept in 32 bits, so
    /// the buffer must be shorter than `u32::MAX` bytes.
    pub fn new(source: &'a [u8]) -> (lexer: Self)
        requires
            source@.len() < u32::MAX,
        ensures
            lexer.wf(),
            lexer.source() == source@,
    {
        Lexer {
            start: 0,
            current: 0,
            line: 1,
            col: 1,
            current_line: 1,
            current_col: 1,
            source,
            swap: None,
        }
    }

    fn token(&self, kind: TokenKind, literal: Option<String>) -> (t: Token)
        ensures
            t.kind == kind,
            t.literal == literal,
            t.line == self.line,
            t.col == self.col,
    {
        Token { kind, literal, line: self.line, col: self.col }
    }

    fn parse_error(&self, kind: LexErrorKind) -> (e: ParseTokenError)
        ensures
            e.kind == kind,
            e.line == self.line,
            e.col == self.col,
    {
        ParseTokenError { kind, line: self.line, col: self.col }
    }

    fn at_eof(&self) -> (r: bool)
        ensures
            r == (self.current >= self.source@.len()),
    {
        self.current >= self.source.len()
    }

    /// The byte `lookahead - 1` places after the read cursor, or 0 behind
    /// the end of the buffer. Never moves the cursor.
    fn peek_n(&self, lookahead: usize) -> (b: u8)
        requires
            self.wf(),
            lookahead >= 1,
        ensures
            self.current + lookahead - 1 < self.source@.len() ==> b == self.source@[
                self.current + lookahead - 1],
            self.current + lookahead - 1 >= self.source@.len() ==> b == 0,
    {
        if lookahead - 1 >= self.source.len() - self.current {
            return 0;
        }
        self.source[self.current + (lookahead - 1)]
    }

    /// Reads one byte and moves both the cursor and its position over it.
    fn advance(&mut self) -> (b: u8)
        requires
            old(self).wf(),
            old(self).current < old(self).source@.len(),
        ensures
            final(self).advanced(old(self), old(self).current + 1),
            final(self).swap == old(self).swap,
            b == old(self).source@[old(self).current as int],
    {
        let b = self.source[self.current];
        proof {
            lemma_position_bounds(self.source@, self.current as int);
        }
        if b == LINE_FEED {
            self.current_line = self.current_line + 1;
            self.current_col = 1;
        } else {
            self.current_col = self.current_col + 1;
        }
        self.current = self.current + 1;
        b
    }

    /// Reads on to the end of the run of `class` at the cursor.
    fn skip_run(&mut self, class: ByteClass)
        requires
            old(self).wf(),
        ensures
            final(self).advanced(
                old(self),
                run_end(old(self).source@, old(self).current as int, class),
            ),
            final(self).swap == old(self).swap,
    {
        while !self.at_eof() && class_holds(class, self.peek_n(1))
            invariant
                self.advanced(old(self), self.current as int),
                self.swap == old(self).swap,
                run_end(self.source@, self.current as int, class) == run_end(
                    old(self).source@,
                    old(self).current as int,
                    class,
                ),
            decreases self.source@.len() - self.current,
        {
            self.advance();
        }
    }

    /// After the first byte of an operator: takes the byte `expected` too if
    /// it is next, and tells which of the two operators was read.
    fn check_double(&mut self, expected: u8, double: TokenKind, single: TokenKind) -> (kind:
        TokenKind)
        requires
            old(self).wf(),
            old(self).current == old(self).start + 1,
        ensures
            final(self).advanced(
                old(self),
                double_lexeme(old(self).source@, old(self).start as int, expected, double, single).end,
            ),
            final(self).swap == old(self).swap,
            bare(kind) == double_lexeme(
                old(self).source@,
                old(self).start as int,
                expected,
                double,
                single,
            ).scanned,
    {
        if self.at_eof() {
            return single;
        }
        if self.peek_n(1) != expected {
            return single;
        }
        self.advance();
        double
    }

    /// After a slash: reads a comment to the end of its line if a second
    /// slash follows.
    fn check_comment(&mut self) -> (kind: TokenKind)
        requires
            old(self).wf(),
            old(self).current == old(self).start + 1,
        ensures
            final(self).advanced(
                old(self),
                slash_lexeme(old(self).source@, old(self).start as int).end,
            ),
            final(self).swap == old(self).swap,
            bare(kind) == slash_lexeme(
                old(self).source@,
                old(self).start as int,
            ).scanned,
    {
        if self.at_eof() || self.peek_n(1) != SLASH {
            return TokenKind::Slash;
        }
        self.skip_run(ByteClass::NotNewline);
        TokenKind::Comment
    }

    /// After one byte of whitespace: reads the rest of the run.
    fn eat_whitespace(&mut self) -> (kind: TokenKind)
        requires
            old(self).wf(),
            old(self).current == old(self).start + 1,
        ensures
            final(self).advanced(
                old(self),
                whitespace_lexeme(old(self).source@, old(self).start as int).end,
            ),
            final(self).swap == old(self).swap,
            bare(kind) == whitespace_lexeme(
                old(self).source@,
                old(self).start as int,
            ).scanned,
    {
        self.skip_run(ByteClass::Whitespace);
        TokenKind::Whitespace
    }

    /// What a scanning rule left behind agrees with `lexeme`: the cursor at
    /// its end and, on success, its kind and its payload in the pending
    /// slot; on failure, its error at the start of the lexeme.
    spec fn scanned_as(
        &self,
        before: &Lexer<'a>,
        r: Result<TokenKind, ParseTokenError>,
        lexeme: Lexeme,
    ) -> bool {
        &&& self.advanced(before, lexeme.end)
        &&& match r {
            Ok(kind) => lexeme.scanned == (Scanned::Token {
                kind,
                literal: literal_model(self.swap),
            }),
            Err(e) => lexeme.scanned == (Scanned::Error { error: e.kind }) && e.line
                == before.line && e.col == before.col,
        }
    }

    /// After the opening quote: reads a string literal up to its closing
    /// quote.
    fn eat_string(&mut self) -> (r: Result<TokenKind, ParseTokenError>)
        requires
            old(self).wf(),
            old(self).current == old(self).start + 1,
        ensures
            final(self).scanned_as(
                old(self),
                r,
                string_lexeme(old(self).source@, old(self).start as int),
            ),
    {
        while !self.at_eof() && self.peek_n(1) != QUOTE
            invariant
                self.advanced(old(self), self.current as int),
                self.current > self.start,
                string_close(self.source@, self.current as int) == string_close(
                    old(self).source@,
                    old(self).start + 1,
                ),
            decreases self.source@.len() - self.current,
        {
            let b = self.advance();
            if b == BACKSLASH && !self.at_eof() {
                self.advance();
            }
        }

        if self.at_eof() {
            return Err(self.parse_error(LexErrorKind::UnterminatedString));
        }
        let close = self.current;
        self.advance();

        let bytes = slice_to_vec(slice_subrange(self.source, self.start + 1, close));
        match decode_text(bytes) {
            Some(text) => {
                self.swap = Some(text);
                Ok(TokenKind::Str)
            },
            None => Err(self.parse_error(LexErrorKind::InvalidLiteralEncoding)),
        }
    }

    /// After the first digit: reads the rest of a number.
    fn eat_number(&mut self) -> (r: Result<TokenKind, ParseTokenError>)
        requires
            old(self).wf(),
            old(self).current == old(self).start + 1,
            is_digit_byte(old(self).source@[old(self).start as int]),
        ensures
            final(self).scanned_as(
                old(self),
                r,
                number_lexeme(old(self).source@, old(self).start as int),
            ),
    {
        self.skip_run(ByteClass::Digit);

        if self.peek_n(1) == DOT && is_digit(self.peek_n(2)) {
            self.advance();
            self.skip_run(ByteClass::Digit);
        }

        proof {
            lemma_number_is_ascii(self.source@, self.start as int);
            lemma_ascii_text(self.source@.subrange(self.start as int, self.current as int));
        }
        let bytes = slice_to_vec(slice_subrange(self.source, self.start, self.current));
        match decode_text(bytes) {
            Some(text) => {
                self.swap = Some(text);
                Ok(TokenKind::Num)
            },
            None => Err(self.parse_error(LexErrorKind::InvalidLiteralEncoding)),
        }
    }

    /// After the first byte of a word: reads the rest of it and looks it up
    /// among the keywords.
    fn eat_identifier(&mut self) -> (r: Result<TokenKind, ParseTokenError>)
        requires
            old(self).wf(),
            old(self).current == old(self).start + 1,
            is_identifier_start_byte(old(self).source@[old(self).start as int]),
        ensures
            final(self).scanned_as(
                old(self),
                r,
                identifier_lexeme(old(self).source@, old(self).start as int),
            ),
    {
        self.skip_run(ByteClass::Identifier);

        proof {
            lemma_identifier_is_ascii(self.source@, self.start as int);
            lemma_ascii_text(self.source@.subrange(self.start as int, self.current as int));
        }
        let bytes = slice_to_vec(slice_subrange(self.source, self.start, self.current));
        match decode_text(bytes) {
            Some(text) => {
                let kind = match lookup_keyword(&text) {
                    Some(keyword) => keyword,
                    None => TokenKind::Identifier,
                };
                self.swap = Some(text);
                Ok(kind)
            },
            None => Err(self.parse_error(LexErrorKind::InvalidLiteralEncoding)),
        }
    }

    /// Scans the one lexeme that starts at the cursor: moves the cursor to
    /// its end and returns its token or its error, at the position where it
    /// starts.
    fn start_match(&mut self) -> (r: Result<Token, ParseTokenError>)
        requires
            old(self).wf(),
            old(self).current == old(self).start,
            old(self).start < old(self).source@.len(),
            old(self).swap == None::<String>,
        ensures
            final(self).advanced(
                old(self),
                lexeme_at(old(self).source@, old(self).start as int).end,
            ),
            lexeme_at(old(self).source@, old(self).start as int).scanned == scanned_model(r),
            match r {
                Ok(t) => t.line == old(self).line && t.col == old(self).col,
                Err(e) => e.line == old(self).line && e.col == old(self).col,
            },
    {
        let b = self.advance();
        let kind = if b == LEFT_PAREN {
            TokenKind::LeftParen
        } else if b == RIGHT_PAREN {
            TokenKind::RightParen
        } else if b == LEFT_BRACE {
            TokenKind::LeftBrace
        } else if b == RIGHT_BRACE {
            TokenKind::RightBrace
        } else if b == LEFT_BRACKET {
            TokenKind::LeftBracket
        } else if b == RIGHT_BRACKET {
            TokenKind::RightBracket
        } else if b == COMMA {
            TokenKind::Comma
        } else if b == DOT {
            TokenKind::Dot
        } else if b == MINUS {
            TokenKind::Minus
        } else if b == PLUS {
            TokenKind::Plus
        } else if b == SEMICOLON {
            TokenKind::Semicolon
        } else if b == STAR {
            TokenKind::Star
        } else if b == BANG {
            self.check_double(EQUAL, TokenKind::BangEqual, TokenKind::Bang)
        } else if b == EQUAL {
            self.check_double(EQUAL, TokenKind::EqualEqual, TokenKind::Equal)
        } else if b == GREATER {
            self.check_double(EQUAL, TokenKind::GreaterEqual, TokenKind::Greater)
        } else if b == LESS {
            self.check_double(EQUAL, TokenKind::LessEqual, TokenKind::Less)
        } else if b == AMPERSAND {
            self.check_double(AMPERSAND, TokenKind::AmpersandAmpersand, TokenKind::Ampersand)
        } else if b == BAR {
            self.check_double(BAR, TokenKind::BarBar, TokenKind::Bar)
        } else if b == SLASH {
            self.check_comment()
        } else if is_whitespace(b) {
            self.eat_whitespace()
        } else if b == QUOTE {
            match self.eat_string() {
                Ok(kind) => kind,
                Err(e) => {
                    return Err(e);
                },
            }
        } else if is_digit(b) {
            match self.eat_number() {
                Ok(kind) => kind,
                Err(e) => {
                    return Err(e);
                },
            }
        } else if is_identifier_start(b) {
            match self.eat_identifier() {
                Ok(kind) => kind,
                Err(e) => {
                    return Err(e);
                },
            }
        } else {
            return Err(self.parse_error(LexErrorKind::UnknownCharacter(b)));
        };

        let literal = self.swap.take();
        Ok(self.token(kind, literal))
    }

    /// Scans the whole buffer from its first byte and returns every token,
    /// with the end-of-input sentinel last, beside every error. A lexeme
    /// that fails is left out of the tokens and the scan goes on behind it.
    pub fn scan(&mut self) -> (r: (Vec<Token>, LexerError))
        requires
            old(self).wf(),
        ensures
            final(self).wf(),
            final(self).source() == old(self).source(),
            token_models(r.0@) == token_stream(old(self).source()),
            r.1@ == lexical_errors(old(self).source()),
            well_formed(token_models(r.0@)),
    {
        let mut tokens: Vec<Token> = Vec::new();
        let mut errors: LexerError = LexerError::new();
        self.start = 0;
        self.current = 0;
        self.line = 1;
        self.col = 1;
        self.current_line = 1;
        self.current_col = 1;

        while !self.at_eof()
            invariant
                self.wf(),
                self.source == old(self).source,
                token_models(tokens@) + tokens_from(self.source@, self.current as int)
                    =~= tokens_from(self.source@, 0),
                errors@ + errors_from(self.source@, self.current as int) =~= errors_from(
                    self.source@,
                    0,
                ),
            decreases self.source@.len() - self.current,
        {
            self.start = self.current;
            self.line = self.current_line;
            self.col = self.current_col;
            self.swap = None;
            proof {
                lemma_lexeme_progress(self.source@, self.start as int);
            }
            let ghost before = token_models(tokens@);

            match self.start_match() {
                Ok(tok) => {
                    tokens.push(tok);
                    assert(token_models(tokens@) =~= before.push(tok@));
                },
                Err(lex_err) => {
                    errors.add(lex_err);
                },
            };
        }

        self.start = self.current;
        self.line = self.current_line;
        self.col = self.current_col;
        let ghost before = token_models(tokens@);
        let eof = self.token(TokenKind::Eof, None);
        tokens.push(eof);
        assert(token_models(tokens@) =~= before.push(sentinel(self.source@)));
        proof {
            lemma_token_stream_has_one_sentinel(self.source@);
        }
        (tokens, errors)
    }

    /// Scans the whole buffer. Returns the tokens, with the end-of-input
    /// sentinel last, if no lexeme failed, and every error otherwise.
    pub fn tokenize(&mut self) -> (r: Result<Vec<Token>, LexerError>)
        requires
            old(self).wf(),
        ensures
            final(self).wf(),
            final(self).source() == old(self).source(),
            match r {
                Ok(tokens) => lexical_errors(old(self).source()).len() == 0 && token_models(
                    tokens@,
                ) == token_stream(old(self).source()) && well_formed(token_models(tokens@)),
                Err(errors) => errors@.len() > 0 && errors@ == lexical_errors(
                    old(self).source(),
                ),
            },
    {
        let (tokens, errors) = self.scan();
        if errors.is_empty() {
            Ok(tokens)
        } else {
            Err(errors)
        }
    }
}

} // verus!
