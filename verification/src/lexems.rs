//! Located tokens: what a lexer hands to the parser.

use vstd::prelude::*;

verus! {

/// A range of source offsets, `start` inclusive and `end` exclusive.
#[derive(Clone, Copy, Debug, PartialEq, Eq, Structural)]
pub struct Span {
    pub start: usize,
    pub end: usize,
}

impl Span {
    /// The span reported when there is no token to point at.
    pub open spec fn empty() -> Span {
        Span { start: 0, end: 0 }
    }
}

/// The kind of a token, with its text where it has one.
#[derive(Clone, Debug, PartialEq, Eq)]
pub enum Lexem {
    Id(String),
    StringLiteral(String),
    IntLiteral(i64),
    SemiColon,
    Equal,
    OpenCurly,
    CloseCurly,
    OpenBracket,
    CloseBracket,
    Dot,
    Comma,
    Less,
    Greater,
    EOF,
}

/// A token with the place it was read from.
#[derive(Clone, Debug, PartialEq, Eq)]
pub struct LocatedLexem {
    pub lexem: Lexem,
    pub range: Span,
}

/// The fixed tokens that the grammar asks for by name: punctuation and the
/// keywords that open a production.
#[derive(Clone, Copy, Debug, PartialEq, Eq, Structural)]
pub enum Symbol {
    SemiColon,
    Equal,
    OpenCurly,
    CloseCurly,
    OpenBracket,
    CloseBracket,
    Comma,
    Less,
    Greater,
    Message,
    Enum,
    OneOf,
    MapWord,
}

/// The words that the grammar knows, each as a sequence of characters.
pub open spec fn word_syntax() -> Seq<char> {
    "syntax"@
}

pub open spec fn word_import() -> Seq<char> {
    "import"@
}

pub open spec fn word_package() -> Seq<char> {
    "package"@
}

pub open spec fn word_message() -> Seq<char> {
    "message"@
}

pub open spec fn word_enum() -> Seq<char> {
    "enum"@
}

pub open spec fn word_oneof() -> Seq<char> {
    "oneof"@
}

pub open spec fn word_repeated() -> Seq<char> {
    "repeated"@
}

pub open spec fn word_map() -> Seq<char> {
    "map"@
}

pub open spec fn word_proto2() -> Seq<char> {
    "proto2"@
}

pub open spec fn word_proto3() -> Seq<char> {
    "proto3"@
}

/// Tests whether `text` is spelled `word`.
pub fn spelled(text: &String, word: &str) -> (same: bool)
    ensures
        same == (text@ == word@),
{
    let wanted = String::from_str(word);
    *text == wanted
}

impl Lexem {
    /// Whether this token is the identifier spelled `word`.
    pub open spec fn is_word(self, word: Seq<char>) -> bool {
        self matches Lexem::Id(text) && text@ == word
    }

    /// Whether this token is the one that `symbol` names.
    pub open spec fn is_symbol(self, symbol: Symbol) -> bool {
        match symbol {
            Symbol::SemiColon => self is SemiColon,
            Symbol::Equal => self is Equal,
            Symbol::OpenCurly => self is OpenCurly,
            Symbol::CloseCurly => self is CloseCurly,
            Symbol::OpenBracket => self is OpenBracket,
            Symbol::CloseBracket => self is CloseBracket,
            Symbol::Comma => self is Comma,
            Symbol::Less => self is Less,
            Symbol::Greater => self is Greater,
            Symbol::Message => self.is_word(word_message()),
            Symbol::Enum => self.is_word(word_enum()),
            Symbol::OneOf => self.is_word(word_oneof()),
            Symbol::MapWord => self.is_word(word_map()),
        }
    }

    /// Tests for the identifier spelled `word`.
    pub fn has_word(&self, word: &str) -> (found: bool)
        ensures
            found == self.is_word(word@),
    {
        match self {
            Lexem::Id(text) => spelled(text, word),
            _ => false,
        }
    }

    /// Tests for the token that `symbol` names.
    pub fn has_symbol(&self, symbol: Symbol) -> (found: bool)
        ensures
            found == self.is_symbol(symbol),
    {
        match symbol {
            Symbol::SemiColon => matches!(self, Lexem::SemiColon),
            Symbol::Equal => matches!(self, Lexem::Equal),
            Symbol::OpenCurly => matches!(self, Lexem::OpenCurly),
            Symbol::CloseCurly => matches!(self, Lexem::CloseCurly),
            Symbol::OpenBracket => matches!(self, Lexem::OpenBracket),
            Symbol::CloseBracket => matches!(self, Lexem::CloseBracket),
            Symbol::Comma => matches!(self, Lexem::Comma),
            Symbol::Less => matches!(self, Lexem::Less),
            Symbol::Greater => matches!(self, Lexem::Greater),
            Symbol::Message => self.has_word("message"),
            Symbol::Enum => self.has_word("enum"),
            Symbol::OneOf => self.has_word("oneof"),
            Symbol::MapWord => self.has_word("map"),
        }
    }
}

/// What a listing of tokens puts between two of them.
#[derive(Clone, Copy, Debug, PartialEq, Eq, Structural)]
pub enum Separator {
    NewLine,
    Space,
    Nothing,
}

/// What stands between `previous` and `next` in a listing: a new line after a
/// brace or a semicolon, nothing before a semicolon, and else a space.
pub open spec fn separator_between(previous: Lexem, next: Lexem) -> Separator {
    if previous is CloseCurly || previous is SemiColon || previous is OpenCurly {
        Separator::NewLine
    } else if next is SemiColon {
        Separator::Nothing
    } else {
        Separator::Space
    }
}

/// Computes [`separator_between`].
pub fn separator(previous: &Lexem, next: &Lexem) -> (between: Separator)
    ensures
        between == separator_between(*previous, *next),
{
    match previous {
        Lexem::CloseCurly | Lexem::SemiColon | Lexem::OpenCurly => Separator::NewLine,
        _ => match next {
            Lexem::SemiColon => Separator::Nothing,
            _ => Separator::Space,
        },
    }
}

/// The token at `ind`, if there is one.
pub open spec fn lexem_at(lexems: Seq<LocatedLexem>, ind: int) -> Option<Lexem> {
    if 0 <= ind < lexems.len() {
        Some(lexems[ind].lexem)
    } else {
        None
    }
}

/// The span that an error at `ind` reports: that of the token at `ind`, or of
/// the last token where `ind` lies past the end, or the empty span where there
/// is no token at all.
pub open spec fn span_at(lexems: Seq<LocatedLexem>, ind: int) -> Span {
    if 0 <= ind < lexems.len() {
        lexems[ind].range
    } else if lexems.len() > 0 {
        lexems[lexems.len() - 1].range
    } else {
        Span::empty()
    }
}

/// Computes [`span_at`].
pub fn error_span(located_lexems: &[LocatedLexem], ind: usize) -> (span: Span)
    ensures
        span == span_at(located_lexems@, ind as int),
{
    let len = located_lexems.len();
    if ind < len {
        located_lexems[ind].range
    } else if len > 0 {
        located_lexems[len - 1].range
    } else {
        Span { start: 0, end: 0 }
    }
}

} // verus!
