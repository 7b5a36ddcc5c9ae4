//! The errors that parsing, resolution and generation report.

use vstd::prelude::*;
use crate::lexems::{Span, Symbol, LocatedLexem, span_at, error_span};

verus! {

/// The productions that check the number of remaining tokens up front.
#[derive(Clone, Copy, Debug, PartialEq, Eq, Structural)]
pub enum Production {
    SyntaxStatement,
    ImportStatement,
    PackageStatement,
    EnumStatement,
    EnumEntry,
}

/// What a syntax error complains about.
#[derive(Clone, Debug, PartialEq, Eq)]
pub enum SyntaxErrorKind {
    /// An identifier that opens no top-level statement.
    UnexpectedIdentifier(String),
    /// A token that cannot stand where it was found.
    UnexpectedLexem,
    /// The tokens ran out where a statement or an entry had to begin.
    UnexpectedEnd,
    /// Fewer tokens are left than the production needs.
    NotEnoughLexems(Production),
    InvalidSyntaxStatement,
    InvalidImportStatement,
    InvalidPackageStatement,
    InvalidEnumEntry,
    ExpectedIdentifier,
    ExpectedStringLiteral,
    ExpectedIntLiteral,
    ExpectedDotOrSemiColon,
    ExpectedEnumName,
    ExpectedCurlyOpen,
    ExpectedCommaOrCloseBracket,
    ExpectedFieldType,
    /// The named token was asked for and another one, or none, was found.
    Expected(Symbol),
    /// `repeated` or `map` where only a plain type may stand.
    NestedFieldType,
    /// A `oneof` block with an entry that is not a field.
    OneOfNonField,
}

/// The view of a [`SyntaxErrorKind`]: the same cases over sequences of characters.
pub enum SyntaxErrorKindView {
    UnexpectedIdentifier(Seq<char>),
    UnexpectedLexem,
    UnexpectedEnd,
    NotEnoughLexems(Production),
    InvalidSyntaxStatement,
    InvalidImportStatement,
    InvalidPackageStatement,
    InvalidEnumEntry,
    ExpectedIdentifier,
    ExpectedStringLiteral,
    ExpectedIntLiteral,
    ExpectedDotOrSemiColon,
    ExpectedEnumName,
    ExpectedCurlyOpen,
    ExpectedCommaOrCloseBracket,
    ExpectedFieldType,
    Expected(Symbol),
    NestedFieldType,
    OneOfNonField,
}

impl View for SyntaxErrorKind {
    type V = SyntaxErrorKindView;

    open spec fn view(&self) -> SyntaxErrorKindView {
        match self {
            SyntaxErrorKind::UnexpectedIdentifier(id) => SyntaxErrorKindView::UnexpectedIdentifier(
                id@,
            ),
            SyntaxErrorKind::UnexpectedLexem => SyntaxErrorKindView::UnexpectedLexem,
            SyntaxErrorKind::UnexpectedEnd => SyntaxErrorKindView::UnexpectedEnd,
            SyntaxErrorKind::NotEnoughLexems(p) => SyntaxErrorKindView::NotEnoughLexems(*p),
            SyntaxErrorKind::InvalidSyntaxStatement => SyntaxErrorKindView::InvalidSyntaxStatement,
            SyntaxErrorKind::InvalidImportStatement => SyntaxErrorKindView::InvalidImportStatement,
            SyntaxErrorKind::InvalidPackageStatement => {
                SyntaxErrorKindView::InvalidPackageStatement
            },
            SyntaxErrorKind::InvalidEnumEntry => SyntaxErrorKindView::InvalidEnumEntry,
            SyntaxErrorKind::ExpectedIdentifier => SyntaxErrorKindView::ExpectedIdentifier,
            SyntaxErrorKind::ExpectedStringLiteral => SyntaxErrorKindView::ExpectedStringLiteral,
            SyntaxErrorKind::ExpectedIntLiteral => SyntaxErrorKindView::ExpectedIntLiteral,
            SyntaxErrorKind::ExpectedDotOrSemiColon => SyntaxErrorKindView::ExpectedDotOrSemiColon,
            SyntaxErrorKind::ExpectedEnumName => SyntaxErrorKindView::ExpectedEnumName,
            SyntaxErrorKind::ExpectedCurlyOpen => SyntaxErrorKindView::ExpectedCurlyOpen,
            SyntaxErrorKind::ExpectedCommaOrCloseBracket => {
                SyntaxErrorKindView::ExpectedCommaOrCloseBracket
            },
            SyntaxErrorKind::ExpectedFieldType => SyntaxErrorKindView::ExpectedFieldType,
            SyntaxErrorKind::Expected(s) => SyntaxErrorKindView::Expected(*s),
            SyntaxErrorKind::NestedFieldType => SyntaxErrorKindView::NestedFieldType,
            SyntaxErrorKind::OneOfNonField => SyntaxErrorKindView::OneOfNonField,
        }
    }
}

/// An error of the front end or of the generator.
#[derive(Clone, Debug, PartialEq, Eq)]
pub enum ProtoError {
    /// The tokens do not follow the grammar; `span` is that of the offending token.
    Syntax { kind: SyntaxErrorKind, span: Span },
    /// A type reference names nothing in scope; `missing` is the index of the
    /// first segment of `path` that could not be found.
    Unresolved { path: Vec<String>, missing: usize },
    /// A state that a correct parser or generator never reaches.
    Internal,
}

/// The view of a [`ProtoError`].
pub enum ProtoErrorView {
    Syntax { kind: SyntaxErrorKindView, span: Span },
    Unresolved { path: Seq<Seq<char>>, missing: usize },
    Internal,
}

impl View for ProtoError {
    type V = ProtoErrorView;

    open spec fn view(&self) -> ProtoErrorView {
        match self {
            ProtoError::Syntax { kind, span } => ProtoErrorView::Syntax {
                kind: kind@,
                span: *span,
            },
            ProtoError::Unresolved { path, missing } => ProtoErrorView::Unresolved {
                path: path.deep_view(),
                missing: *missing,
            },
            ProtoError::Internal => ProtoErrorView::Internal,
        }
    }
}

impl Symbol {
    /// How the token is written.
    pub open spec fn text(self) -> Seq<char> {
        match self {
            Symbol::SemiColon => ";"@,
            Symbol::Equal => "="@,
            Symbol::OpenCurly => "{"@,
            Symbol::CloseCurly => "}"@,
            Symbol::OpenBracket => "["@,
            Symbol::CloseBracket => "]"@,
            Symbol::Comma => ","@,
            Symbol::Less => "<"@,
            Symbol::Greater => ">"@,
            Symbol::Message => "message"@,
            Symbol::Enum => "enum"@,
            Symbol::OneOf => "oneof"@,
            Symbol::MapWord => "map"@,
        }
    }

    /// Computes [`Symbol::text`].
    pub fn as_str(self) -> (text: &'static str)
        ensures
            text@ == self.text(),
    {
        match self {
            Symbol::SemiColon => ";",
            Symbol::Equal => "=",
            Symbol::OpenCurly => "{",
            Symbol::CloseCurly => "}",
            Symbol::OpenBracket => "[",
            Symbol::CloseBracket => "]",
            Symbol::Comma => ",",
            Symbol::Less => "<",
            Symbol::Greater => ">",
            Symbol::Message => "message",
            Symbol::Enum => "enum",
            Symbol::OneOf => "oneof",
            Symbol::MapWord => "map",
        }
    }
}

impl Production {
    /// How the production is called in a message.
    pub open spec fn text(self) -> Seq<char> {
        match self {
            Production::SyntaxStatement => "syntax statement"@,
            Production::ImportStatement => "import statement"@,
            Production::PackageStatement => "package statement"@,
            Production::EnumStatement => "enum statement"@,
            Production::EnumEntry => "enum entry"@,
        }
    }

    /// Computes [`Production::text`].
    pub fn as_str(self) -> (text: &'static str)
        ensures
            text@ == self.text(),
    {
        match self {
            Production::SyntaxStatement => "syntax statement",
            Production::ImportStatement => "import statement",
            Production::PackageStatement => "package statement",
            Production::EnumStatement => "enum statement",
            Production::EnumEntry => "enum entry",
        }
    }
}

impl SyntaxErrorKindView {
    /// The message of the error, for a reader.
    pub open spec fn message(self) -> Seq<char> {
        match self {
            SyntaxErrorKindView::UnexpectedIdentifier(id) => "Unexpected identifier: "@ + id,
            SyntaxErrorKindView::UnexpectedLexem => "Unexpected lexem"@,
            SyntaxErrorKindView::UnexpectedEnd => "Unexpected end of input"@,
            SyntaxErrorKindView::NotEnoughLexems(production) => "Not enough lexems for "@
                + production.text(),
            SyntaxErrorKindView::InvalidSyntaxStatement => "Invalid syntax statement"@,
            SyntaxErrorKindView::InvalidImportStatement => "Invalid import statement"@,
            SyntaxErrorKindView::InvalidPackageStatement => "Invalid package statement"@,
            SyntaxErrorKindView::InvalidEnumEntry => "Cannot parse enum entry"@,
            SyntaxErrorKindView::ExpectedIdentifier => "Expected identifier"@,
            SyntaxErrorKindView::ExpectedStringLiteral => "Expected string literal"@,
            SyntaxErrorKindView::ExpectedIntLiteral => "Expected int literal"@,
            SyntaxErrorKindView::ExpectedDotOrSemiColon => "Expected dot or semicolon"@,
            SyntaxErrorKindView::ExpectedEnumName => "Expected enum name"@,
            SyntaxErrorKindView::ExpectedCurlyOpen => "Expected curly open"@,
            SyntaxErrorKindView::ExpectedCommaOrCloseBracket => {
                "Expected comma or closing bracket"@
            },
            SyntaxErrorKindView::ExpectedFieldType => "Expected field type"@,
            SyntaxErrorKindView::Expected(symbol) => "Expected lexem: "@ + symbol.text(),
            SyntaxErrorKindView::NestedFieldType => "repeated and map cannot be nested directly"@,
            SyntaxErrorKindView::OneOfNonField => "oneof can contain only field declarations"@,
        }
    }
}

impl SyntaxErrorKind {
    /// Computes [`SyntaxErrorKindView::message`].
    pub fn message(&self) -> (text: String)
        ensures
            text@ == self@.message(),
    {
        match self {
            SyntaxErrorKind::UnexpectedIdentifier(id) => {
                let mut text = String::from_str("Unexpected identifier: ");
                text.append(id.as_str());
                text
            },
            SyntaxErrorKind::UnexpectedLexem => String::from_str("Unexpected lexem"),
            SyntaxErrorKind::UnexpectedEnd => String::from_str("Unexpected end of input"),
            SyntaxErrorKind::NotEnoughLexems(production) => {
                let mut text = String::from_str("Not enough lexems for ");
                text.append(production.as_str());
                text
            },
            SyntaxErrorKind::InvalidSyntaxStatement => String::from_str("Invalid syntax statement"),
            SyntaxErrorKind::InvalidImportStatement => String::from_str("Invalid import statement"),
            SyntaxErrorKind::InvalidPackageStatement => String::from_str(
                "Invalid package statement",
            ),
            SyntaxErrorKind::InvalidEnumEntry => String::from_str("Cannot parse enum entry"),
            SyntaxErrorKind::ExpectedIdentifier => String::from_str("Expected identifier"),
            SyntaxErrorKind::ExpectedStringLiteral => String::from_str("Expected string literal"),
            SyntaxErrorKind::ExpectedIntLiteral => String::from_str("Expected int literal"),
            SyntaxErrorKind::ExpectedDotOrSemiColon => String::from_str(
                "Expected dot or semicolon",
            ),
            SyntaxErrorKind::ExpectedEnumName => String::from_str("Expected enum name"),
            SyntaxErrorKind::ExpectedCurlyOpen => String::from_str("Expected curly open"),
            SyntaxErrorKind::ExpectedCommaOrCloseBracket => String::from_str(
                "Expected comma or closing bracket",
            ),
            SyntaxErrorKind::ExpectedFieldType => String::from_str("Expected field type"),
            SyntaxErrorKind::Expected(symbol) => {
                let mut text = String::from_str("Expected lexem: ");
                text.append(symbol.as_str());
                text
            },
            SyntaxErrorKind::NestedFieldType => String::from_str(
                "repeated and map cannot be nested directly",
            ),
            SyntaxErrorKind::OneOfNonField => String::from_str(
                "oneof can contain only field declarations",
            ),
        }
    }
}

impl ProtoErrorView {
    /// The message of the error, for a reader.
    pub open spec fn message(self) -> Seq<char> {
        match self {
            ProtoErrorView::Syntax { kind, span } => kind.message(),
            ProtoErrorView::Unresolved { path, missing } => if missing < path.len() {
                "Unresolved reference: "@ + path[missing as int]
            } else {
                "Unresolved reference"@
            },
            ProtoErrorView::Internal => "Internal error"@,
        }
    }
}

impl ProtoError {
    /// Computes [`ProtoErrorView::message`].
    pub fn message(&self) -> (text: String)
        ensures
            text@ == self@.message(),
    {
        match self {
            ProtoError::Syntax { kind, span } => kind.message(),
            ProtoError::Unresolved { path, missing } => {
                if *missing < path.len() {
                    let mut text = String::from_str("Unresolved reference: ");
                    text.append(path[*missing].as_str());
                    text
                } else {
                    String::from_str("Unresolved reference")
                }
            },
            ProtoError::Internal => String::from_str("Internal error"),
        }
    }
}

/// The syntax error of the given kind at token `ind`.
pub open spec fn syntax_error_at(
    kind: SyntaxErrorKindView,
    lexems: Seq<LocatedLexem>,
    ind: int,
) -> ProtoErrorView {
    ProtoErrorView::Syntax { kind, span: span_at(lexems, ind) }
}

/// Builds the syntax error of the given kind at token `ind`.
pub fn syntax_error(kind: SyntaxErrorKind, located_lexems: &[LocatedLexem], ind: usize) -> (error:
    ProtoError)
    ensures
        error@ == syntax_error_at(kind@, located_lexems@, ind as int),
{
    ProtoError::Syntax { kind, span: error_span(located_lexems, ind) }
}

} // verus!
