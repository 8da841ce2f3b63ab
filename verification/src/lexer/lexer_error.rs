use crate::message::{append_position, position_text, push_char};
use vstd::prelude::*;

verus! {

/// What went wrong while scanning one lexeme.
#[derive(Debug, PartialEq, Eq, Clone, Copy, Structural)]
pub enum LexErrorKind {
    /// A string literal was still open at the end of the input.
    UnterminatedString,
    /// The bytes of a literal are not valid UTF-8.
    InvalidLiteralEncoding,
    /// A byte that starts no lexeme.
    UnknownCharacter(u8),
}

/// One lexical error with the position of the lexeme that caused it.
#[derive(Debug, PartialEq, Eq, Clone, Copy, Structural)]
pub struct ParseTokenError {
    pub kind: LexErrorKind,
    pub line: u32,
    pub col: u32,
}

/// The mathematical value of a [`ParseTokenError`].
pub ghost struct LexErrorModel {
    pub kind: LexErrorKind,
    pub line: int,
    pub col: int,
}

impl View for ParseTokenError {
    type V = LexErrorModel;

    open spec fn view(&self) -> LexErrorModel {
        LexErrorModel { kind: self.kind, line: self.line as int, col: self.col as int }
    }
}

/// What a kind of error says of itself.
pub open spec fn kind_message(kind: LexErrorKind) -> Seq<char> {
    match kind {
        LexErrorKind::UnterminatedString => "Unterminated string!"@,
        LexErrorKind::InvalidLiteralEncoding => "Error parsing string!"@,
        LexErrorKind::UnknownCharacter(b) => "Error parsing unknown character "@.push(b as char),
    }
}

/// The message of one error, on one line.
pub open spec fn error_text(e: LexErrorModel) -> Seq<char> {
    "Error parsing token \""@ + kind_message(e.kind) + "\""@ + position_text(e.line, e.col)
}

/// The messages of `errors`, one on each line.
pub open spec fn error_lines(errors: Seq<LexErrorModel>) -> Seq<char>
    decreases errors.len(),
{
    if errors.len() == 0 {
        Seq::empty()
    } else if errors.len() == 1 {
        error_text(errors[0])
    } else {
        error_lines(errors.drop_last()) + "\n"@ + error_text(errors.last())
    }
}

impl ParseTokenError {
    /// The message of the error: what went wrong, and where.
    pub fn to_string(&self) -> (s: String)
        ensures
            s@ == error_text(self@),
    {
        let mut s = "Error parsing token \"".to_owned();
        match self.kind {
            LexErrorKind::UnterminatedString => {
                s.append("Unterminated string!");
            },
            LexErrorKind::InvalidLiteralEncoding => {
                s.append("Error parsing string!");
            },
            LexErrorKind::UnknownCharacter(b) => {
                s.append("Error parsing unknown character ");
                push_char(&mut s, b as char);
            },
        }
        s.append("\"");
        append_position(&mut s, self.line, self.col);
        assert(s@ =~= error_text(self@));
        s
    }

    pub fn new(kind: LexErrorKind, line: u32, col: u32) -> (e: ParseTokenError)
        ensures
            e.kind == kind,
            e.line == line,
            e.col == col,
    {
        ParseTokenError { kind, line, col }
    }
}

/// All lexical errors of one scan, in source order.
#[derive(Debug, PartialEq, Eq, Clone)]
pub struct LexerError {
    errors: Vec<ParseTokenError>,
}

impl View for LexerError {
    type V = Seq<LexErrorModel>;

    closed spec fn view(&self) -> Seq<LexErrorModel> {
        Seq::new(self.errors@.len(), |i: int| self.errors@[i]@)
    }
}

impl LexerError {
    /// The empty collection.
    pub fn new() -> (e: LexerError)
        ensures
            e@ == Seq::<LexErrorModel>::empty(),
    {
        let e = LexerError { errors: Vec::new() };
        assert(e@ =~= Seq::<LexErrorModel>::empty());
        e
    }

    /// Appends one error.
    pub fn add(&mut self, err: ParseTokenError)
        ensures
            final(self)@ == old(self)@.push(err@),
    {
        self.errors.push(err);
        assert(self@ =~= old(self)@.push(err@));
    }

    /// The number of errors collected.
    pub fn len(&self) -> (n: usize)
        ensures
            n == self@.len(),
    {
        self.errors.len()
    }

    /// Whether no error was collected.
    pub fn is_empty(&self) -> (b: bool)
        ensures
            b == (self@.len() == 0),
    {
        self.errors.len() == 0
    }

    /// The message of the whole scan: a heading, then the message of each
    /// error on a line of its own.
    pub fn to_string(&self) -> (s: String)
        ensures
            s@ == "Error parsing tokens: \n"@ + error_lines(self@),
    {
        let mut s = "Error parsing tokens: \n".to_owned();
        let mut i: usize = 0;
        while i < self.errors.len()
            invariant
                i <= self.errors@.len(),
                s@ == "Error parsing tokens: \n"@ + error_lines(self@.take(i as int)),
            decreases self.errors@.len() - i,
        {
            let line = self.errors[i].to_string();
            assert(self@.take(i + 1).drop_last() =~= self@.take(i as int));
            assert(self@.take(i + 1).last() == self.errors@[i as int]@);
            if i > 0 {
                s.append("\n");
            }
            s.append(line.as_str());
            i = i + 1;
            assert(s@ =~= "Error parsing tokens: \n"@ + error_lines(self@.take(i as int)));
        }
        assert(self@.take(i as int) =~= self@);
        s
    }

    /// The error at index `i`.
    pub fn get(&self, i: usize) -> (e: ParseTokenError)
        requires
            i < self@.len(),
        ensures
            e@ == self@[i as int],
    {
        self.errors[i]
    }
}

} // verus!
