use super::lexer_error::{LexErrorKind, LexErrorModel};
use super::token::{TokenKind, TokenModel};
use vstd::prelude::*;
use vstd::utf8::{
    decode_utf8, encode_utf8, encode_utf8_decode_utf8, encode_utf8_valid_utf8, is_ascii_chars,
    is_ascii_chars_encode_utf8, valid_utf8,
};

verus! {

// The bytes that the scanner tells apart, by their ASCII names.
pub const DIGIT_0: u8 = 0x30;
pub const DIGIT_9: u8 = 0x39;
pub const LOWER_A: u8 = 0x61;
pub const LOWER_Z: u8 = 0x7a;
pub const UPPER_A: u8 = 0x41;
pub const UPPER_Z: u8 = 0x5a;
pub const UNDERSCORE: u8 = 0x5f;
pub const SPACE: u8 = 0x20;
pub const TAB: u8 = 0x09;
pub const LINE_FEED: u8 = 0x0a;
pub const FORM_FEED: u8 = 0x0c;
pub const CARRIAGE_RETURN: u8 = 0x0d;
pub const QUOTE: u8 = 0x22;
pub const BACKSLASH: u8 = 0x5c;
pub const LEFT_PAREN: u8 = 0x28;
pub const RIGHT_PAREN: u8 = 0x29;
pub const LEFT_BRACE: u8 = 0x7b;
pub const RIGHT_BRACE: u8 = 0x7d;
pub const LEFT_BRACKET: u8 = 0x5b;
pub const RIGHT_BRACKET: u8 = 0x5d;
pub const COMMA: u8 = 0x2c;
pub const DOT: u8 = 0x2e;
pub const MINUS: u8 = 0x2d;
pub const PLUS: u8 = 0x2b;
pub const SEMICOLON: u8 = 0x3b;
pub const STAR: u8 = 0x2a;
pub const BANG: u8 = 0x21;
pub const EQUAL: u8 = 0x3d;
pub const GREATER: u8 = 0x3e;
pub const LESS: u8 = 0x3c;
pub const AMPERSAND: u8 = 0x26;
pub const BAR: u8 = 0x7c;
pub const SLASH: u8 = 0x2f;

/// A decimal digit, `0` to `9`.
pub open spec fn is_digit_byte(b: u8) -> bool {
    DIGIT_0 <= b <= DIGIT_9
}

/// A letter of the ASCII alphabet or an underscore.
pub open spec fn is_identifier_start_byte(b: u8) -> bool {
    (LOWER_A <= b <= LOWER_Z) || (UPPER_A <= b <= UPPER_Z) || b == UNDERSCORE
}

/// A byte that may continue an identifier.
pub open spec fn is_identifier_byte(b: u8) -> bool {
    is_identifier_start_byte(b) || is_digit_byte(b)
}

/// Space, tab, line feed, form feed or carriage return.
pub open spec fn is_whitespace_byte(b: u8) -> bool {
    b == SPACE || b == TAB || b == LINE_FEED || b == FORM_FEED || b == CARRIAGE_RETURN
}

/// The classes of bytes of which a lexeme may hold a run.
#[derive(Debug, PartialEq, Eq, Clone, Copy, Structural)]
pub enum ByteClass {
    Digit,
    Identifier,
    Whitespace,
    /// Anything but a line feed: the body of a comment.
    NotNewline,
}

pub open spec fn in_class(class: ByteClass, b: u8) -> bool {
    match class {
        ByteClass::Digit => is_digit_byte(b),
        ByteClass::Identifier => is_identifier_byte(b),
        ByteClass::Whitespace => is_whitespace_byte(b),
        ByteClass::NotNewline => b != LINE_FEED,
    }
}

/// The end of the longest run of bytes of `class` that starts at `i`: the
/// first index from `i` on that holds a byte outside the class, or the length
/// of `s` if there is none.
pub open spec fn run_end(s: Seq<u8>, i: int, class: ByteClass) -> int
    decreases s.len() - i,
{
    if 0 <= i < s.len() && in_class(class, s[i]) {
        run_end(s, i + 1, class)
    } else {
        i
    }
}

/// The index of the quote that closes a string whose contents start at `i`,
/// or the length of `s` if the string is never closed. A backslash escapes
/// the byte after it, so an escaped quote does not close the string.
pub open spec fn string_close(s: Seq<u8>, i: int) -> int
    decreases s.len() - i,
{
    if i < 0 || i >= s.len() {
        s.len() as int
    } else if s[i] == QUOTE {
        i
    } else if s[i] == BACKSLASH && i + 1 < s.len() {
        string_close(s, i + 2)
    } else {
        string_close(s, i + 1)
    }
}

/// The 1-based line of index `i`: one more than the number of line feeds
/// before it.
pub open spec fn line_at(s: Seq<u8>, i: int) -> int
    decreases i,
{
    if i <= 0 || i > s.len() {
        1
    } else if s[i - 1] == LINE_FEED {
        line_at(s, i - 1) + 1
    } else {
        line_at(s, i - 1)
    }
}

/// The 1-based column of index `i`: one more than the number of bytes
/// between it and the start of its line.
pub open spec fn col_at(s: Seq<u8>, i: int) -> int
    decreases i,
{
    if i <= 0 || i > s.len() {
        1
    } else if s[i - 1] == LINE_FEED {
        1
    } else {
        col_at(s, i - 1) + 1
    }
}

/// The keyword that `text` spells, if any.
pub open spec fn keyword_kind(text: Seq<char>) -> Option<TokenKind> {
    if text == "const"@ {
        Some(TokenKind::Const)
    } else if text == "let"@ {
        Some(TokenKind::Let)
    } else if text == "true"@ {
        Some(TokenKind::True)
    } else if text == "false"@ {
        Some(TokenKind::False)
    } else if text == "fn"@ {
        Some(TokenKind::Function)
    } else if text == "return"@ {
        Some(TokenKind::Return)
    } else if text == "for"@ {
        Some(TokenKind::For)
    } else if text == "if"@ {
        Some(TokenKind::If)
    } else if text == "else"@ {
        Some(TokenKind::Else)
    } else if text == "type"@ {
        Some(TokenKind::Type)
    } else if text == "import"@ {
        Some(TokenKind::Import)
    } else if text == "from"@ {
        Some(TokenKind::From)
    } else if text == "export"@ {
        Some(TokenKind::Export)
    } else if text == "print"@ {
        Some(TokenKind::Print)
    } else {
        None
    }
}

/// The kind of the word `text`: its keyword, or an identifier.
pub open spec fn word_kind(text: Seq<char>) -> TokenKind {
    match keyword_kind(text) {
        Some(kind) => kind,
        None => TokenKind::Identifier,
    }
}

/// The kind of a lexeme that is the single byte `b` whatever follows it.
pub open spec fn single_kind(b: u8) -> Option<TokenKind> {
    if b == LEFT_PAREN {
        Some(TokenKind::LeftParen)
    } else if b == RIGHT_PAREN {
        Some(TokenKind::RightParen)
    } else if b == LEFT_BRACE {
        Some(TokenKind::LeftBrace)
    } else if b == RIGHT_BRACE {
        Some(TokenKind::RightBrace)
    } else if b == LEFT_BRACKET {
        Some(TokenKind::LeftBracket)
    } else if b == RIGHT_BRACKET {
        Some(TokenKind::RightBracket)
    } else if b == COMMA {
        Some(TokenKind::Comma)
    } else if b == DOT {
        Some(TokenKind::Dot)
    } else if b == MINUS {
        Some(TokenKind::Minus)
    } else if b == PLUS {
        Some(TokenKind::Plus)
    } else if b == SEMICOLON {
        Some(TokenKind::Semicolon)
    } else if b == STAR {
        Some(TokenKind::Star)
    } else {
        None
    }
}

/// For a byte that starts a one- or two-byte operator: the byte that makes
/// it the longer operator, the kind of the longer one, and the kind of the
/// shorter one.
pub open spec fn double_rule(b: u8) -> Option<(u8, TokenKind, TokenKind)> {
    if b == BANG {
        Some((EQUAL, TokenKind::BangEqual, TokenKind::Bang))
    } else if b == EQUAL {
        Some((EQUAL, TokenKind::EqualEqual, TokenKind::Equal))
    } else if b == GREATER {
        Some((EQUAL, TokenKind::GreaterEqual, TokenKind::Greater))
    } else if b == LESS {
        Some((EQUAL, TokenKind::LessEqual, TokenKind::Less))
    } else if b == AMPERSAND {
        Some((AMPERSAND, TokenKind::AmpersandAmpersand, TokenKind::Ampersand))
    } else if b == BAR {
        Some((BAR, TokenKind::BarBar, TokenKind::Bar))
    } else {
        None
    }
}

/// What one lexeme turns into: a token, still without its position, or an
/// error.
pub ghost enum Scanned {
    Token { kind: TokenKind, literal: Option<Seq<char>> },
    Error { error: LexErrorKind },
}

/// One lexeme: the index just behind it and what it turns into.
pub ghost struct Lexeme {
    pub end: int,
    pub scanned: Scanned,
}

/// A token without a payload.
pub open spec fn bare(kind: TokenKind) -> Scanned {
    Scanned::Token { kind, literal: None }
}

/// A one- or two-byte operator at `start`: the longer one exactly when the
/// byte after `start` is `expected`.
pub open spec fn double_lexeme(
    s: Seq<u8>,
    start: int,
    expected: u8,
    double: TokenKind,
    single: TokenKind,
) -> Lexeme {
    if start + 1 < s.len() && s[start + 1] == expected {
        Lexeme { end: start + 2, scanned: bare(double) }
    } else {
        Lexeme { end: start + 1, scanned: bare(single) }
    }
}

/// A slash at `start`: a comment up to the end of the line when a second
/// slash follows, the division operator otherwise.
pub open spec fn slash_lexeme(s: Seq<u8>, start: int) -> Lexeme {
    if start + 1 < s.len() && s[start + 1] == SLASH {
        Lexeme {
            end: run_end(s, start + 1, ByteClass::NotNewline),
            scanned: bare(TokenKind::Comment),
        }
    } else {
        Lexeme { end: start + 1, scanned: bare(TokenKind::Slash) }
    }
}

/// A run of whitespace at `start`.
pub open spec fn whitespace_lexeme(s: Seq<u8>, start: int) -> Lexeme {
    Lexeme {
        end: run_end(s, start + 1, ByteClass::Whitespace),
        scanned: bare(TokenKind::Whitespace),
    }
}

/// A string literal whose opening quote is at `start`. Its payload is the
/// text strictly between the quotes.
pub open spec fn string_lexeme(s: Seq<u8>, start: int) -> Lexeme {
    let close = string_close(s, start + 1);
    if close >= s.len() {
        Lexeme {
            end: s.len() as int,
            scanned: Scanned::Error { error: LexErrorKind::UnterminatedString },
        }
    } else {
        let bytes = s.subrange(start + 1, close);
        Lexeme {
            end: close + 1,
            scanned: if valid_utf8(bytes) {
                Scanned::Token { kind: TokenKind::Str, literal: Some(decode_utf8(bytes)) }
            } else {
                Scanned::Error { error: LexErrorKind::InvalidLiteralEncoding }
            },
        }
    }
}

/// The end of the number that starts at `start`: the digits, and a fraction
/// only where a dot is followed by at least one digit.
pub open spec fn number_end(s: Seq<u8>, start: int) -> int {
    let whole = run_end(s, start + 1, ByteClass::Digit);
    if whole + 1 < s.len() && s[whole] == DOT && is_digit_byte(s[whole + 1]) {
        run_end(s, whole + 1, ByteClass::Digit)
    } else {
        whole
    }
}

/// The text that ASCII bytes spell: each byte is the character with its number.
pub open spec fn ascii_text(bytes: Seq<u8>) -> Seq<char> {
    Seq::new(bytes.len(), |i: int| bytes[i] as char)
}

/// A number at `start`. Its payload is the lexeme itself.
pub open spec fn number_lexeme(s: Seq<u8>, start: int) -> Lexeme {
    let end = number_end(s, start);
    Lexeme {
        end,
        scanned: Scanned::Token {
            kind: TokenKind::Num,
            literal: Some(ascii_text(s.subrange(start, end))),
        },
    }
}

/// An identifier or keyword at `start`: the longest run of identifier bytes.
/// Its payload is the lexeme itself.
pub open spec fn identifier_lexeme(s: Seq<u8>, start: int) -> Lexeme {
    let end = run_end(s, start + 1, ByteClass::Identifier);
    let text = ascii_text(s.subrange(start, end));
    Lexeme { end, scanned: Scanned::Token { kind: word_kind(text), literal: Some(text) } }
}

/// The lexeme that starts at `start`, for `0 <= start < s.len()`.
pub open spec fn lexeme_at(s: Seq<u8>, start: int) -> Lexeme {
    let b = s[start];
    if single_kind(b) is Some {
        Lexeme { end: start + 1, scanned: bare(single_kind(b).unwrap()) }
    } else if double_rule(b) is Some {
        let rule = double_rule(b).unwrap();
        double_lexeme(s, start, rule.0, rule.1, rule.2)
    } else if b == SLASH {
        slash_lexeme(s, start)
    } else if is_whitespace_byte(b) {
        whitespace_lexeme(s, start)
    } else if b == QUOTE {
        string_lexeme(s, start)
    } else if is_digit_byte(b) {
        number_lexeme(s, start)
    } else if is_identifier_start_byte(b) {
        identifier_lexeme(s, start)
    } else {
        Lexeme { end: start + 1, scanned: Scanned::Error { error: LexErrorKind::UnknownCharacter(b) } }
    }
}

/// The end-of-input sentinel of `s`, positioned at the end of the buffer.
pub open spec fn sentinel(s: Seq<u8>) -> TokenModel {
    TokenModel {
        kind: TokenKind::Eof,
        literal: None,
        line: line_at(s, s.len() as int),
        col: col_at(s, s.len() as int),
    }
}

/// The tokens of the lexemes from `start` on, followed by the sentinel.
/// Lexemes that fail contribute nothing.
pub open spec fn tokens_from(s: Seq<u8>, start: int) -> Seq<TokenModel>
    decreases s.len() - start,
{
    if start < 0 || start >= s.len() {
        seq![sentinel(s)]
    } else {
        let lexeme = lexeme_at(s, start);
        if lexeme.end <= start || lexeme.end > s.len() {
            seq![sentinel(s)]
        } else {
            match lexeme.scanned {
                Scanned::Token { kind, literal } => seq![
                    TokenModel { kind, literal, line: line_at(s, start), col: col_at(s, start) },
                ] + tokens_from(s, lexeme.end),
                Scanned::Error { .. } => tokens_from(s, lexeme.end),
            }
        }
    }
}

/// The errors of the lexemes from `start` on, each at the position where its
/// lexeme starts.
pub open spec fn errors_from(s: Seq<u8>, start: int) -> Seq<LexErrorModel>
    decreases s.len() - start,
{
    if start < 0 || start >= s.len() {
        Seq::empty()
    } else {
        let lexeme = lexeme_at(s, start);
        if lexeme.end <= start || lexeme.end > s.len() {
            Seq::empty()
        } else {
            match lexeme.scanned {
                Scanned::Token { .. } => errors_from(s, lexeme.end),
                Scanned::Error { error } => seq![
                    LexErrorModel { kind: error, line: line_at(s, start), col: col_at(s, start) },
                ] + errors_from(s, lexeme.end),
            }
        }
    }
}

/// Every token of the source `s`, in source order, with the sentinel last.
pub open spec fn token_stream(s: Seq<u8>) -> Seq<TokenModel> {
    tokens_from(s, 0)
}

/// Every lexical error of the source `s`, in source order.
pub open spec fn lexical_errors(s: Seq<u8>) -> Seq<LexErrorModel> {
    errors_from(s, 0)
}

/// A run ends between its start and the end of the input, on a byte outside
/// the class or at the end, and holds bytes of the class only.
pub proof fn lemma_run_end(s: Seq<u8>, i: int, class: ByteClass)
    requires
        0 <= i <= s.len(),
    ensures
        i <= run_end(s, i, class) <= s.len(),
        run_end(s, i, class) < s.len() ==> !in_class(class, s[run_end(s, i, class)]),
        forall|k: int| i <= k < run_end(s, i, class) ==> in_class(class, #[trigger] s[k]),
    decreases s.len() - i,
{
    if i < s.len() && in_class(class, s[i]) {
        lemma_run_end(s, i + 1, class);
    }
}

/// A string closes on a quote between the start of its contents and the end
/// of the input, or not at all.
pub proof fn lemma_string_close(s: Seq<u8>, i: int)
    requires
        0 <= i <= s.len(),
    ensures
        i <= string_close(s, i) <= s.len(),
        string_close(s, i) < s.len() ==> s[string_close(s, i)] == QUOTE,
    decreases s.len() - i,
{
    if i < s.len() && s[i] != QUOTE {
        if s[i] == BACKSLASH && i + 1 < s.len() {
            lemma_string_close(s, i + 2);
        } else {
            lemma_string_close(s, i + 1);
        }
    }
}

/// Lines and columns are at least 1 and at most one more than the index.
pub proof fn lemma_position_bounds(s: Seq<u8>, i: int)
    requires
        0 <= i <= s.len(),
    ensures
        1 <= line_at(s, i) <= i + 1,
        1 <= col_at(s, i) <= i + 1,
    decreases i,
{
    if i > 0 {
        lemma_position_bounds(s, i - 1);
    }
}

/// Every lexeme holds at least one byte and ends within the input.
pub proof fn lemma_lexeme_progress(s: Seq<u8>, start: int)
    requires
        0 <= start < s.len(),
    ensures
        start < lexeme_at(s, start).end <= s.len(),
{
    lemma_run_end(s, start + 1, ByteClass::NotNewline);
    lemma_run_end(s, start + 1, ByteClass::Whitespace);
    lemma_run_end(s, start + 1, ByteClass::Identifier);
    lemma_run_end(s, start + 1, ByteClass::Digit);
    let whole = run_end(s, start + 1, ByteClass::Digit);
    if whole + 1 < s.len() {
        lemma_run_end(s, whole + 1, ByteClass::Digit);
    }
    lemma_string_close(s, start + 1);
}

/// ASCII bytes are valid UTF-8 and encode the text that they spell.
pub proof fn lemma_ascii_text(bytes: Seq<u8>)
    requires
        forall|i: int| 0 <= i < bytes.len() ==> bytes[i] < 128,
    ensures
        valid_utf8(bytes),
        decode_utf8(bytes) == ascii_text(bytes),
{
    let chars = ascii_text(bytes);
    assert(is_ascii_chars(chars));
    is_ascii_chars_encode_utf8(chars);
    assert(encode_utf8(chars) =~= bytes);
    encode_utf8_valid_utf8(chars);
    encode_utf8_decode_utf8(chars);
}

/// The bytes of a number are ASCII.
pub proof fn lemma_number_is_ascii(s: Seq<u8>, start: int)
    requires
        0 <= start < s.len(),
        is_digit_byte(s[start]),
    ensures
        start < number_end(s, start) <= s.len(),
        forall|k: int| start <= k < number_end(s, start) ==> #[trigger] s[k] < 128,
{
    lemma_run_end(s, start + 1, ByteClass::Digit);
    let whole = run_end(s, start + 1, ByteClass::Digit);
    if whole + 1 < s.len() {
        lemma_run_end(s, whole + 1, ByteClass::Digit);
    }
}

/// The bytes of an identifier are ASCII.
pub proof fn lemma_identifier_is_ascii(s: Seq<u8>, start: int)
    requires
        0 <= start < s.len(),
        is_identifier_start_byte(s[start]),
    ensures
        start < run_end(s, start + 1, ByteClass::Identifier) <= s.len(),
        forall|k: int|
            start <= k < run_end(s, start + 1, ByteClass::Identifier) ==> #[trigger] s[k] < 128,
{
    lemma_run_end(s, start + 1, ByteClass::Identifier);
}

/// From any index on, the tokens end with the sentinel, and no token before
/// it is a sentinel.
pub proof fn lemma_tokens_end_with_sentinel(s: Seq<u8>, start: int)
    requires
        0 <= start <= s.len(),
    ensures
        tokens_from(s, start).len() >= 1,
        tokens_from(s, start).last() == sentinel(s),
        forall|i: int|
            0 <= i < tokens_from(s, start).len() - 1 ==> (#[trigger] tokens_from(s, start)[i]).kind
                != TokenKind::Eof,
    decreases s.len() - start,
{
    if start < s.len() {
        lemma_lexeme_progress(s, start);
        lemma_tokens_end_with_sentinel(s, lexeme_at(s, start).end);
    }
}

/// Every token stream ends with exactly one end-of-input sentinel, which
/// stands at the end of the buffer.
pub proof fn lemma_token_stream_has_one_sentinel(s: Seq<u8>)
    ensures
        token_stream(s).len() >= 1,
        token_stream(s).last() == sentinel(s),
        forall|i: int|
            0 <= i < token_stream(s).len() - 1 ==> (#[trigger] token_stream(s)[i]).kind
                != TokenKind::Eof,
{
    lemma_tokens_end_with_sentinel(s, 0);
}

/// Scanning depends on the bytes alone: equal buffers have the same tokens
/// and the same errors.
pub proof fn lemma_scan_is_deterministic(a: Seq<u8>, b: Seq<u8>)
    requires
        a =~= b,
    ensures
        token_stream(a) == token_stream(b),
        lexical_errors(a) == lexical_errors(b),
{
}

/// A byte with which no lexeme starts.
pub open spec fn starts_no_lexeme(b: u8) -> bool {
    &&& single_kind(b) is None
    &&& double_rule(b) is None
    &&& b != SLASH
    &&& b != QUOTE
    &&& !is_whitespace_byte(b)
    &&& !is_digit_byte(b)
    &&& !is_identifier_start_byte(b)
}

/// The only lexemes that fail are strings, which may be left open or hold
/// bytes that are no text, and bytes with which no lexeme starts.
pub proof fn lemma_lexeme_errors(s: Seq<u8>, start: int)
    requires
        0 <= start < s.len(),
    ensures
        lexeme_at(s, start).scanned matches Scanned::Error { error } ==> {
            ||| s[start] == QUOTE && error == LexErrorKind::UnterminatedString
            ||| s[start] == QUOTE && error == LexErrorKind::InvalidLiteralEncoding
            ||| starts_no_lexeme(s[start]) && error == LexErrorKind::UnknownCharacter(s[start])
        },
{
}

/// A byte with which no lexeme starts is one error at its own position, and
/// the scan goes on with the next byte.
pub proof fn lemma_unknown_character_is_skipped(s: Seq<u8>, start: int)
    requires
        0 <= start < s.len(),
        starts_no_lexeme(s[start]),
    ensures
        tokens_from(s, start) == tokens_from(s, start + 1),
        errors_from(s, start) == seq![
            LexErrorModel {
                kind: LexErrorKind::UnknownCharacter(s[start]),
                line: line_at(s, start),
                col: col_at(s, start),
            },
        ] + errors_from(s, start + 1),
{
}

/// A string that is never closed is one error at its opening quote; no
/// token and no other error follows it.
pub proof fn lemma_open_string_ends_the_scan(s: Seq<u8>, start: int)
    requires
        0 <= start < s.len(),
        s[start] == QUOTE,
        string_close(s, start + 1) >= s.len(),
    ensures
        tokens_from(s, start) == seq![sentinel(s)],
        errors_from(s, start) == seq![
            LexErrorModel {
                kind: LexErrorKind::UnterminatedString,
                line: line_at(s, start),
                col: col_at(s, start),
            },
        ],
{
    lemma_string_close(s, start + 1);
    assert(lexeme_at(s, start).end == s.len());
    assert(tokens_from(s, s.len() as int) == seq![sentinel(s)]);
    let rest = errors_from(s, s.len() as int);
    assert(rest =~= Seq::<LexErrorModel>::empty());
    assert(seq![
        LexErrorModel {
            kind: LexErrorKind::UnterminatedString,
            line: line_at(s, start),
            col: col_at(s, start),
        },
    ] + rest =~= seq![
        LexErrorModel {
            kind: LexErrorKind::UnterminatedString,
            line: line_at(s, start),
            col: col_at(s, start),
        },
    ]);
}

} // verus!
