use vstd::prelude::*;

verus! {

/// The closed classification of lexical units.
#[derive(Debug, PartialEq, Eq, Clone, Copy, Structural)]
pub enum TokenKind {
    // Structural punctuation.
    LeftParen,
    RightParen,
    LeftBrace,
    RightBrace,
    LeftBracket,
    RightBracket,
    Comma,
    Dot,
    Minus,
    Plus,
    Semicolon,
    Slash,
    Star,
    // One- or two-character operators.
    Bang,
    BangEqual,
    Equal,
    EqualEqual,
    Greater,
    GreaterEqual,
    Less,
    LessEqual,
    Ampersand,
    AmpersandAmpersand,
    Bar,
    BarBar,
    // Literals.
    Identifier,
    Str,
    Num,
    // Keywords.
    Const,
    Let,
    True,
    False,
    Function,
    Return,
    For,
    If,
    Else,
    Type,
    Import,
    From,
    Export,
    Print,
    // Transparent to the grammar.
    Whitespace,
    Comment,
    // End of input.
    Eof,
}

/// A lexical unit: its kind, its payload where it has one, and the 1-based
/// line and column of the first byte of its lexeme.
#[derive(Debug, PartialEq, Clone)]
pub struct Token {
    pub kind: TokenKind,
    pub literal: Option<String>,
    pub line: u32,
    pub col: u32,
}

/// The mathematical value of a [`Token`].
pub ghost struct TokenModel {
    pub kind: TokenKind,
    pub literal: Option<Seq<char>>,
    pub line: int,
    pub col: int,
}

/// The payload of a token as a sequence of characters.
pub open spec fn literal_model(literal: Option<String>) -> Option<Seq<char>> {
    match literal {
        Some(s) => Some(s@),
        None => None,
    }
}

impl View for Token {
    type V = TokenModel;

    open spec fn view(&self) -> TokenModel {
        TokenModel {
            kind: self.kind,
            literal: literal_model(self.literal),
            line: self.line as int,
            col: self.col as int,
        }
    }
}

/// The views of a sequence of tokens, in order.
pub open spec fn token_models(tokens: Seq<Token>) -> Seq<TokenModel> {
    Seq::new(tokens.len(), |i: int| tokens[i]@)
}

/// A token stream is well formed when it ends with the end-of-input
/// sentinel.
pub open spec fn well_formed(ts: Seq<TokenModel>) -> bool {
    ts.len() > 0 && ts.last().kind == TokenKind::Eof
}

/// The payload text, or nothing where the payload is absent.
pub open spec fn payload_text(literal: Option<Seq<char>>) -> Seq<char> {
    match literal {
        Some(s) => s,
        None => Seq::empty(),
    }
}

/// The fixed spelling of a kind; empty for the kinds that have none
/// (literals, comments and the end-of-input sentinel).
pub open spec fn kind_text(kind: TokenKind) -> Seq<char> {
    match kind {
        TokenKind::LeftParen => "("@,
        TokenKind::RightParen => ")"@,
        TokenKind::LeftBrace => "{"@,
        TokenKind::RightBrace => "}"@,
        TokenKind::LeftBracket => "["@,
        TokenKind::RightBracket => "]"@,
        TokenKind::Comma => ","@,
        TokenKind::Dot => "."@,
        TokenKind::Minus => "-"@,
        TokenKind::Plus => "+"@,
        TokenKind::Semicolon => ";"@,
        TokenKind::Slash => "/"@,
        TokenKind::Star => "*"@,
        TokenKind::Bang => "!"@,
        TokenKind::BangEqual => "!="@,
        TokenKind::Equal => "="@,
        TokenKind::EqualEqual => "=="@,
        TokenKind::Greater => ">"@,
        TokenKind::GreaterEqual => ">="@,
        TokenKind::Less => "<"@,
        TokenKind::LessEqual => "<="@,
        TokenKind::Ampersand => "&"@,
        TokenKind::AmpersandAmpersand => "&&"@,
        TokenKind::Bar => "|"@,
        TokenKind::BarBar => "||"@,
        TokenKind::Const => "const"@,
        TokenKind::Let => "let"@,
        TokenKind::True => "true"@,
        TokenKind::False => "false"@,
        TokenKind::Function => "fn"@,
        TokenKind::Return => "return"@,
        TokenKind::For => "for"@,
        TokenKind::If => "if"@,
        TokenKind::Else => "else"@,
        TokenKind::Type => "type"@,
        TokenKind::Import => "import"@,
        TokenKind::From => "from"@,
        TokenKind::Export => "export"@,
        TokenKind::Print => "print"@,
        TokenKind::Whitespace => " "@,
        TokenKind::Identifier | TokenKind::Str | TokenKind::Num | TokenKind::Comment
        | TokenKind::Eof => Seq::empty(),
    }
}

/// The canonical text of a token: the payload for identifiers, strings and
/// numbers, `//` followed by the payload for a comment, and the fixed
/// spelling of the kind otherwise.
pub open spec fn token_text(t: TokenModel) -> Seq<char> {
    match t.kind {
        TokenKind::Identifier | TokenKind::Str | TokenKind::Num => payload_text(t.literal),
        TokenKind::Comment => "//"@ + payload_text(t.literal),
        _ => kind_text(t.kind),
    }
}

/// The fixed spelling of a kind as a string slice.
pub fn kind_str(kind: TokenKind) -> (s: &'static str)
    ensures
        s@ == kind_text(kind),
{
    proof {
        reveal_strlit("");
    }
    match kind {
        TokenKind::LeftParen => "(",
        TokenKind::RightParen => ")",
        TokenKind::LeftBrace => "{",
        TokenKind::RightBrace => "}",
        TokenKind::LeftBracket => "[",
        TokenKind::RightBracket => "]",
        TokenKind::Comma => ",",
        TokenKind::Dot => ".",
        TokenKind::Minus => "-",
        TokenKind::Plus => "+",
        TokenKind::Semicolon => ";",
        TokenKind::Slash => "/",
        TokenKind::Star => "*",
        TokenKind::Bang => "!",
        TokenKind::BangEqual => "!=",
        TokenKind::Equal => "=",
        TokenKind::EqualEqual => "==",
        TokenKind::Greater => ">",
        TokenKind::GreaterEqual => ">=",
        TokenKind::Less => "<",
        TokenKind::LessEqual => "<=",
        TokenKind::Ampersand => "&",
        TokenKind::AmpersandAmpersand => "&&",
        TokenKind::Bar => "|",
        TokenKind::BarBar => "||",
        TokenKind::Const => "const",
        TokenKind::Let => "let",
        TokenKind::True => "true",
        TokenKind::False => "false",
        TokenKind::Function => "fn",
        TokenKind::Return => "return",
        TokenKind::For => "for",
        TokenKind::If => "if",
        TokenKind::Else => "else",
        TokenKind::Type => "type",
        TokenKind::Import => "import",
        TokenKind::From => "from",
        TokenKind::Export => "export",
        TokenKind::Print => "print",
        TokenKind::Whitespace => " ",
        TokenKind::Identifier | TokenKind::Str | TokenKind::Num | TokenKind::Comment
        | TokenKind::Eof => "",
    }
}

impl Token {
    /// A token of the given kind, payload and position.
    pub fn new(kind: TokenKind, literal: Option<String>, line: u32, col: u32) -> (t: Token)
        ensures
            t.kind == kind,
            t.literal == literal,
            t.line == line,
            t.col == col,
    {
        Token { kind, literal, line, col }
    }

    /// A copy of the token with the same view.
    pub fn duplicate(&self) -> (t: Token)
        ensures
            t@ == self@,
    {
        let literal = match &self.literal {
            Some(s) => Some(s.clone()),
            None => None,
        };
        Token { kind: self.kind, literal, line: self.line, col: self.col }
    }

    /// The canonical text of the token.
    pub fn to_string(&self) -> (s: String)
        ensures
            s@ == token_text(self@),
    {
        match self.kind {
            TokenKind::Identifier | TokenKind::Str | TokenKind::Num => match &self.literal {
                Some(text) => text.clone(),
                None => String::new(),
            },
            TokenKind::Comment => {
                let mut out = "//".to_owned();
                match &self.literal {
                    Some(text) => {
                        out.append(text.as_str());
                    },
                    None => {
                        assert(out@ + Seq::<char>::empty() =~= out@);
                    },
                }
                out
            },
            _ => kind_str(self.kind).to_owned(),
        }
    }
}

} // verus!
