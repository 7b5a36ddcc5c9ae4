//! The grammar, written as recursive descent over a sequence of located tokens.
//!
//! Each production is a specification function from the tokens and an index
//! to either the value read together with the index of the first token after
//! it, or the syntax error that reading it raises. The parser of
//! [`crate::syntax`] is proved to compute [`package`].
//!
//! Three productions continue at an index that an earlier, recursive
//! production returned. They test [`advances`] before they go on, which is
//! what makes the definitions well founded; [`lemma_field_type_advances`],
//! [`lemma_message_entry_advances`] and [`lemma_statement_advances`] show that
//! the test never fails.

use vstd::prelude::*;
use crate::lexems::{
    Lexem, LocatedLexem, Symbol, lexem_at, word_syntax, word_import, word_package, word_message,
    word_enum, word_oneof, word_repeated, word_map, word_proto2, word_proto3,
};
use crate::error::{Production, ProtoErrorView, SyntaxErrorKindView, syntax_error_at};
use crate::package::{
    ProtoVersion, FieldTypeView, FieldDeclarationView, EnumEntryView, EnumDeclarationView,
    OneOfDeclarationView, MessageEntryView, MessageDeclarationView, DeclarationView, PackageView,
};

verus! {

/// What reading a production yields: the value and the index after it, or an error.
pub type Parsed<T> = Result<(T, int), ProtoErrorView>;

/// The failure of the given kind at token `ind`.
pub open spec fn fail<T>(kind: SyntaxErrorKindView, lexems: Seq<LocatedLexem>, ind: int) -> Parsed<
    T,
> {
    Err(syntax_error_at(kind, lexems, ind))
}

/// `next` lies after `ind` and not past the end.
pub open spec fn advances(lexems: Seq<LocatedLexem>, ind: int, next: int) -> bool {
    ind < next <= lexems.len()
}

/// The token that `symbol` names.
pub open spec fn expect(lexems: Seq<LocatedLexem>, ind: int, symbol: Symbol) -> Parsed<()> {
    match lexem_at(lexems, ind) {
        Some(lexem) => if lexem.is_symbol(symbol) {
            Ok(((), ind + 1))
        } else {
            fail(SyntaxErrorKindView::Expected(symbol), lexems, ind)
        },
        None => fail(SyntaxErrorKindView::Expected(symbol), lexems, ind),
    }
}

/// One identifier.
pub open spec fn identifier(lexems: Seq<LocatedLexem>, ind: int) -> Parsed<Seq<char>> {
    match lexem_at(lexems, ind) {
        Some(Lexem::Id(text)) => Ok((text@, ind + 1)),
        _ => fail(SyntaxErrorKindView::ExpectedIdentifier, lexems, ind),
    }
}

/// One string literal.
pub open spec fn string_literal(lexems: Seq<LocatedLexem>, ind: int) -> Parsed<Seq<char>> {
    match lexem_at(lexems, ind) {
        Some(Lexem::StringLiteral(text)) => Ok((text@, ind + 1)),
        _ => fail(SyntaxErrorKindView::ExpectedStringLiteral, lexems, ind),
    }
}

/// One integer literal.
pub open spec fn int_literal(lexems: Seq<LocatedLexem>, ind: int) -> Parsed<i64> {
    match lexem_at(lexems, ind) {
        Some(Lexem::IntLiteral(value)) => Ok((value, ind + 1)),
        _ => fail(SyntaxErrorKindView::ExpectedIntLiteral, lexems, ind),
    }
}

/// `a.b.c`, continued from the segments in `ids`: identifiers separated by
/// dots, as many as there are. A dot must be followed by an identifier.
pub open spec fn id_path_from(lexems: Seq<LocatedLexem>, ind: int, ids: Seq<Seq<char>>) -> Parsed<
    Seq<Seq<char>>,
>
    decreases lexems.len() - ind,
{
    match lexem_at(lexems, ind) {
        Some(Lexem::Id(text)) => match lexem_at(lexems, ind + 1) {
            Some(Lexem::Dot) => id_path_from(lexems, ind + 2, ids.push(text@)),
            _ => Ok((ids.push(text@), ind + 1)),
        },
        _ => fail(SyntaxErrorKindView::ExpectedIdentifier, lexems, ind),
    }
}

/// A dotted identifier path of at least one segment.
pub open spec fn id_path(lexems: Seq<LocatedLexem>, ind: int) -> Parsed<Seq<Seq<char>>> {
    id_path_from(lexems, ind, Seq::empty())
}

/// Where a field type stands: as the type of a field, as the element of
/// `repeated`, or as the key or value of a map.
#[derive(Clone, Copy, Debug, PartialEq, Eq, Structural)]
pub enum TypePosition {
    Field,
    Element,
    MapArgument,
}

/// A field type: `repeated` and one plain type, `map<key, value>`, or a dotted
/// reference. `repeated` stands only in front of a field's type, and its
/// element is a reference; the key and the value of a map are not `repeated`.
pub open spec fn field_type(lexems: Seq<LocatedLexem>, ind: int, position: TypePosition) -> Parsed<
    FieldTypeView,
>
    decreases lexems.len() - ind, 1int,
{
    match lexem_at(lexems, ind) {
        Some(Lexem::Id(text)) => if text@ == word_repeated() {
            if position is Field {
                match field_type(lexems, ind + 1, TypePosition::Element) {
                    Ok((element, next)) => Ok((FieldTypeView::Repeated(Box::new(element)), next)),
                    Err(error) => Err(error),
                }
            } else {
                fail(SyntaxErrorKindView::NestedFieldType, lexems, ind)
            }
        } else if text@ == word_map() {
            if position is Element {
                fail(SyntaxErrorKindView::NestedFieldType, lexems, ind)
            } else {
                map_type(lexems, ind)
            }
        } else {
            match id_path(lexems, ind) {
                Ok((ids, next)) => Ok((FieldTypeView::IdPath(ids), next)),
                Err(error) => Err(error),
            }
        },
        _ => fail(SyntaxErrorKindView::ExpectedFieldType, lexems, ind),
    }
}

/// `map < key , value >`.
pub open spec fn map_type(lexems: Seq<LocatedLexem>, ind: int) -> Parsed<FieldTypeView>
    decreases lexems.len() - ind, 0int,
{
    match expect(lexems, ind, Symbol::MapWord) {
        Err(error) => Err(error),
        Ok((_, after_word)) => match expect(lexems, after_word, Symbol::Less) {
            Err(error) => Err(error),
            Ok((_, key_start)) => match field_type(lexems, key_start, TypePosition::MapArgument) {
                Err(error) => Err(error),
                Ok((key, after_key)) => if !advances(lexems, ind, after_key) {
                    fail(SyntaxErrorKindView::UnexpectedEnd, lexems, after_key)
                } else {
                    match expect(lexems, after_key, Symbol::Comma) {
                        Err(error) => Err(error),
                        Ok((_, value_start)) => match field_type(
                            lexems,
                            value_start,
                            TypePosition::MapArgument,
                        ) {
                            Err(error) => Err(error),
                            Ok((value, after_value)) => match expect(
                                lexems,
                                after_value,
                                Symbol::Greater,
                            ) {
                                Err(error) => Err(error),
                                Ok((_, next)) => Ok(
                                    (FieldTypeView::MapOf(Box::new(key), Box::new(value)), next),
                                ),
                            },
                        },
                    }
                },
            },
        },
    }
}

/// `key = "value"`.
pub open spec fn attribute(lexems: Seq<LocatedLexem>, ind: int) -> Parsed<(Seq<char>, Seq<char>)> {
    match identifier(lexems, ind) {
        Err(error) => Err(error),
        Ok((key, after_key)) => match expect(lexems, after_key, Symbol::Equal) {
            Err(error) => Err(error),
            Ok((_, value_start)) => match string_literal(lexems, value_start) {
                Err(error) => Err(error),
                Ok((value, next)) => Ok(((key, value), next)),
            },
        },
    }
}

/// What follows a pair inside the brackets: `]`, or a comma and one more pair.
pub open spec fn more_attributes(
    lexems: Seq<LocatedLexem>,
    ind: int,
    pairs: Seq<(Seq<char>, Seq<char>)>,
) -> Parsed<Seq<(Seq<char>, Seq<char>)>>
    decreases lexems.len() - ind,
{
    match lexem_at(lexems, ind) {
        Some(Lexem::CloseBracket) => Ok((pairs, ind + 1)),
        Some(Lexem::Comma) => match attribute(lexems, ind + 1) {
            Err(error) => Err(error),
            Ok((pair, next)) => more_attributes(lexems, next, pairs.push(pair)),
        },
        _ => fail(SyntaxErrorKindView::ExpectedCommaOrCloseBracket, lexems, ind),
    }
}

/// What follows `[`: `]` at once, or pairs separated by commas and then `]`.
pub open spec fn attributes(
    lexems: Seq<LocatedLexem>,
    ind: int,
    pairs: Seq<(Seq<char>, Seq<char>)>,
) -> Parsed<Seq<(Seq<char>, Seq<char>)>> {
    match lexem_at(lexems, ind) {
        Some(Lexem::CloseBracket) => Ok((pairs, ind + 1)),
        _ => match attribute(lexems, ind) {
            Err(error) => Err(error),
            Ok((pair, next)) => more_attributes(lexems, next, pairs.push(pair)),
        },
    }
}

/// The bracketed options of a field, or `None` where no `[` stands.
pub open spec fn optional_attributes(lexems: Seq<LocatedLexem>, ind: int) -> Parsed<
    Option<Seq<(Seq<char>, Seq<char>)>>,
> {
    match expect(lexems, ind, Symbol::OpenBracket) {
        Err(_) => Ok((None, ind)),
        Ok((_, first)) => match attributes(lexems, first, Seq::empty()) {
            Err(error) => Err(error),
            Ok((pairs, next)) => Ok((Some(pairs), next)),
        },
    }
}

/// The list that a field keeps: the pairs read, or none.
pub open spec fn attribute_list(attributes: Option<Seq<(Seq<char>, Seq<char>)>>) -> Seq<
    (Seq<char>, Seq<char>),
> {
    match attributes {
        Some(pairs) => pairs,
        None => Seq::empty(),
    }
}

/// `type name = tag [options] ;`.
pub open spec fn field(lexems: Seq<LocatedLexem>, ind: int) -> Parsed<FieldDeclarationView> {
    match field_type(lexems, ind, TypePosition::Field) {
        Err(error) => Err(error),
        Ok((field_type, name_start)) => match identifier(lexems, name_start) {
            Err(error) => Err(error),
            Ok((name, after_name)) => match expect(lexems, after_name, Symbol::Equal) {
                Err(error) => Err(error),
                Ok((_, tag_start)) => match int_literal(lexems, tag_start) {
                    Err(error) => Err(error),
                    Ok((tag, after_tag)) => match optional_attributes(lexems, after_tag) {
                        Err(error) => Err(error),
                        Ok((attributes, after_attributes)) => match expect(
                            lexems,
                            after_attributes,
                            Symbol::SemiColon,
                        ) {
                            Err(error) => Err(error),
                            Ok((_, next)) => Ok(
                                (
                                    FieldDeclarationView {
                                        name,
                                        tag,
                                        field_type,
                                        attributes: attribute_list(attributes),
                                    },
                                    next,
                                ),
                            ),
                        },
                    },
                },
            },
        },
    }
}

/// `Name = value ;`.
pub open spec fn enum_entry(lexems: Seq<LocatedLexem>, ind: int) -> Parsed<EnumEntryView> {
    if ind < 0 || ind + 4 > lexems.len() {
        fail(SyntaxErrorKindView::NotEnoughLexems(Production::EnumEntry), lexems, ind)
    } else {
        match (
            lexems[ind].lexem,
            lexems[ind + 1].lexem,
            lexems[ind + 2].lexem,
            lexems[ind + 3].lexem,
        ) {
            (Lexem::Id(name), Lexem::Equal, Lexem::IntLiteral(value), Lexem::SemiColon) => Ok(
                (EnumEntryView { name: name@, value }, ind + 4),
            ),
            _ => fail(SyntaxErrorKindView::InvalidEnumEntry, lexems, ind),
        }
    }
}

/// The entries of an enum body and the `}` that closes it, continued from `entries`.
pub open spec fn enum_entries(
    lexems: Seq<LocatedLexem>,
    ind: int,
    entries: Seq<EnumEntryView>,
) -> Parsed<Seq<EnumEntryView>>
    decreases lexems.len() - ind,
{
    match lexem_at(lexems, ind) {
        Some(Lexem::CloseCurly) => Ok((entries, ind + 1)),
        Some(Lexem::Id(_)) => match enum_entry(lexems, ind) {
            Err(error) => Err(error),
            Ok((entry, next)) => enum_entries(lexems, next, entries.push(entry)),
        },
        Some(_) => fail(SyntaxErrorKindView::UnexpectedLexem, lexems, ind),
        None => fail(SyntaxErrorKindView::UnexpectedEnd, lexems, ind),
    }
}

/// `enum Name { entries }`.
pub open spec fn enum_declaration(lexems: Seq<LocatedLexem>, ind: int) -> Parsed<
    EnumDeclarationView,
> {
    if ind < 0 || ind + 4 > lexems.len() {
        fail(SyntaxErrorKindView::NotEnoughLexems(Production::EnumStatement), lexems, ind)
    } else if !lexems[ind].lexem.is_symbol(Symbol::Enum) {
        fail(SyntaxErrorKindView::Expected(Symbol::Enum), lexems, ind)
    } else {
        match lexems[ind + 1].lexem {
            Lexem::Id(name) => if lexems[ind + 2].lexem is OpenCurly {
                match enum_entries(lexems, ind + 3, Seq::empty()) {
                    Err(error) => Err(error),
                    Ok((entries, next)) => Ok((EnumDeclarationView { name: name@, entries }, next)),
                }
            } else {
                fail(SyntaxErrorKindView::ExpectedCurlyOpen, lexems, ind + 2)
            },
            _ => fail(SyntaxErrorKindView::ExpectedEnumName, lexems, ind + 1),
        }
    }
}

/// Every entry is a plain field.
pub open spec fn only_fields(entries: Seq<MessageEntryView>) -> bool {
    forall|i: int| 0 <= i < entries.len() ==> (#[trigger] entries[i]) is Field
}

/// The fields among `entries`, where all of them are fields.
pub open spec fn fields_of(entries: Seq<MessageEntryView>) -> Seq<FieldDeclarationView> {
    Seq::new(entries.len(), |i: int| entries[i]->Field_0)
}

/// `message Name { entries }`.
pub open spec fn message(lexems: Seq<LocatedLexem>, ind: int) -> Parsed<MessageDeclarationView>
    decreases lexems.len() - ind, 0int,
{
    match expect(lexems, ind, Symbol::Message) {
        Err(error) => Err(error),
        Ok((_, name_start)) => match identifier(lexems, name_start) {
            Err(error) => Err(error),
            Ok((name, after_name)) => match expect(lexems, after_name, Symbol::OpenCurly) {
                Err(error) => Err(error),
                Ok((_, body)) => match message_entries(lexems, body, Seq::empty()) {
                    Err(error) => Err(error),
                    Ok((entries, after_body)) => match expect(
                        lexems,
                        after_body,
                        Symbol::CloseCurly,
                    ) {
                        Err(error) => Err(error),
                        Ok((_, next)) => Ok((MessageDeclarationView { name, entries }, next)),
                    },
                },
            },
        },
    }
}

/// `oneof Name { entries }`, where every entry has to be a plain field. The
/// body is read as a message body; an entry of another kind is reported once
/// the closing brace has been read, at that brace.
pub open spec fn one_of(lexems: Seq<LocatedLexem>, ind: int) -> Parsed<OneOfDeclarationView>
    decreases lexems.len() - ind, 0int,
{
    match expect(lexems, ind, Symbol::OneOf) {
        Err(error) => Err(error),
        Ok((_, name_start)) => match identifier(lexems, name_start) {
            Err(error) => Err(error),
            Ok((name, after_name)) => match expect(lexems, after_name, Symbol::OpenCurly) {
                Err(error) => Err(error),
                Ok((_, body)) => match message_entries(lexems, body, Seq::empty()) {
                    Err(error) => Err(error),
                    Ok((entries, after_body)) => match expect(
                        lexems,
                        after_body,
                        Symbol::CloseCurly,
                    ) {
                        Err(error) => Err(error),
                        Ok((_, next)) => if only_fields(entries) {
                            Ok((OneOfDeclarationView { name, options: fields_of(entries) }, next))
                        } else {
                            fail(SyntaxErrorKindView::OneOfNonField, lexems, after_body)
                        },
                    },
                },
            },
        },
    }
}

/// One entry of a message body: a nested message, a nested enum, a `oneof`
/// block, or a field.
pub open spec fn message_entry(lexems: Seq<LocatedLexem>, ind: int) -> Parsed<MessageEntryView>
    decreases lexems.len() - ind, 1int,
{
    match lexem_at(lexems, ind) {
        Some(Lexem::Id(text)) => if text@ == word_message() {
            match message(lexems, ind) {
                Err(error) => Err(error),
                Ok((nested, next)) => Ok((MessageEntryView::Message(nested), next)),
            }
        } else if text@ == word_enum() {
            match enum_declaration(lexems, ind) {
                Err(error) => Err(error),
                Ok((nested, next)) => Ok((MessageEntryView::Enum(nested), next)),
            }
        } else if text@ == word_oneof() {
            match one_of(lexems, ind) {
                Err(error) => Err(error),
                Ok((nested, next)) => Ok((MessageEntryView::OneOf(nested), next)),
            }
        } else {
            match field(lexems, ind) {
                Err(error) => Err(error),
                Ok((declared, next)) => Ok((MessageEntryView::Field(declared), next)),
            }
        },
        Some(_) => fail(SyntaxErrorKindView::UnexpectedLexem, lexems, ind),
        None => fail(SyntaxErrorKindView::UnexpectedEnd, lexems, ind),
    }
}

/// The entries of a message body up to, and without, the `}` that closes it,
/// continued from `entries`.
pub open spec fn message_entries(
    lexems: Seq<LocatedLexem>,
    ind: int,
    entries: Seq<MessageEntryView>,
) -> Parsed<Seq<MessageEntryView>>
    decreases lexems.len() - ind, 2int,
{
    match lexem_at(lexems, ind) {
        Some(Lexem::Id(_)) => match message_entry(lexems, ind) {
            Err(error) => Err(error),
            Ok((entry, next)) => if advances(lexems, ind, next) {
                message_entries(lexems, next, entries.push(entry))
            } else {
                fail(SyntaxErrorKindView::UnexpectedEnd, lexems, next)
            },
        },
        Some(Lexem::CloseCurly) => Ok((entries, ind)),
        Some(_) => fail(SyntaxErrorKindView::UnexpectedLexem, lexems, ind),
        None => fail(SyntaxErrorKindView::UnexpectedEnd, lexems, ind),
    }
}

/// `syntax = "proto2" ;` or `syntax = "proto3" ;`.
pub open spec fn syntax_statement(lexems: Seq<LocatedLexem>, ind: int) -> Parsed<ProtoVersion> {
    if ind < 0 || ind + 4 > lexems.len() {
        fail(SyntaxErrorKindView::NotEnoughLexems(Production::SyntaxStatement), lexems, ind)
    } else {
        match (
            lexems[ind].lexem,
            lexems[ind + 1].lexem,
            lexems[ind + 2].lexem,
            lexems[ind + 3].lexem,
        ) {
            (Lexem::Id(word), Lexem::Equal, Lexem::StringLiteral(version), Lexem::SemiColon) => if word@
                == word_syntax() && version@ == word_proto2() {
                Ok((ProtoVersion::Proto2, ind + 4))
            } else if word@ == word_syntax() && version@ == word_proto3() {
                Ok((ProtoVersion::Proto3, ind + 4))
            } else {
                fail(SyntaxErrorKindView::InvalidSyntaxStatement, lexems, ind)
            },
            _ => fail(SyntaxErrorKindView::InvalidSyntaxStatement, lexems, ind),
        }
    }
}

/// `import "path" ;`.
pub open spec fn import_statement(lexems: Seq<LocatedLexem>, ind: int) -> Parsed<Seq<char>> {
    if ind < 0 || ind + 3 > lexems.len() {
        fail(SyntaxErrorKindView::NotEnoughLexems(Production::ImportStatement), lexems, ind)
    } else {
        match (lexems[ind].lexem, lexems[ind + 1].lexem, lexems[ind + 2].lexem) {
            (Lexem::Id(word), Lexem::StringLiteral(path), Lexem::SemiColon) => if word@
                == word_import() {
                Ok((path@, ind + 3))
            } else {
                fail(SyntaxErrorKindView::InvalidImportStatement, lexems, ind)
            },
            _ => fail(SyntaxErrorKindView::InvalidImportStatement, lexems, ind),
        }
    }
}

/// The segments of a package name and the `;` after them, continued from `path`.
pub open spec fn package_path(lexems: Seq<LocatedLexem>, ind: int, path: Seq<Seq<char>>) -> Parsed<
    Seq<Seq<char>>,
>
    decreases lexems.len() - ind,
{
    match lexem_at(lexems, ind) {
        Some(Lexem::Id(text)) => match lexem_at(lexems, ind + 1) {
            Some(Lexem::Dot) => package_path(lexems, ind + 2, path.push(text@)),
            Some(Lexem::SemiColon) => Ok((path.push(text@), ind + 2)),
            _ => fail(SyntaxErrorKindView::ExpectedDotOrSemiColon, lexems, ind + 1),
        },
        _ => fail(SyntaxErrorKindView::ExpectedIdentifier, lexems, ind),
    }
}

/// `package a.b.c ;`.
pub open spec fn package_statement(lexems: Seq<LocatedLexem>, ind: int) -> Parsed<Seq<Seq<char>>> {
    if ind < 0 || ind + 3 > lexems.len() {
        fail(SyntaxErrorKindView::NotEnoughLexems(Production::PackageStatement), lexems, ind)
    } else if !lexems[ind].lexem.is_word(word_package()) {
        fail(SyntaxErrorKindView::InvalidPackageStatement, lexems, ind)
    } else {
        package_path(lexems, ind + 1, Seq::empty())
    }
}

/// One top-level statement, and the package after it. A `syntax` statement
/// sets the version, `import` adds a path, `package` replaces the name,
/// `message` and `enum` add a declaration, and a lone `;` changes nothing.
pub open spec fn statement(lexems: Seq<LocatedLexem>, ind: int, package: PackageView) -> Parsed<
    PackageView,
> {
    match lexem_at(lexems, ind) {
        Some(Lexem::Id(text)) => if text@ == word_syntax() {
            match syntax_statement(lexems, ind) {
                Err(error) => Err(error),
                Ok((version, next)) => Ok((PackageView { version, ..package }, next)),
            }
        } else if text@ == word_message() {
            match message(lexems, ind) {
                Err(error) => Err(error),
                Ok((declared, next)) => Ok(
                    (
                        PackageView {
                            declarations: package.declarations.push(
                                DeclarationView::Message(declared),
                            ),
                            ..package
                        },
                        next,
                    ),
                ),
            }
        } else if text@ == word_import() {
            match import_statement(lexems, ind) {
                Err(error) => Err(error),
                Ok((path, next)) => Ok(
                    (PackageView { imports: package.imports.push(path), ..package }, next),
                ),
            }
        } else if text@ == word_package() {
            match package_statement(lexems, ind) {
                Err(error) => Err(error),
                Ok((path, next)) => Ok((PackageView { path, ..package }, next)),
            }
        } else if text@ == word_enum() {
            match enum_declaration(lexems, ind) {
                Err(error) => Err(error),
                Ok((declared, next)) => Ok(
                    (
                        PackageView {
                            declarations: package.declarations.push(
                                DeclarationView::Enum(declared),
                            ),
                            ..package
                        },
                        next,
                    ),
                ),
            }
        } else {
            fail(SyntaxErrorKindView::UnexpectedIdentifier(text@), lexems, ind)
        },
        Some(Lexem::SemiColon) => Ok((package, ind + 1)),
        Some(_) => fail(SyntaxErrorKindView::UnexpectedLexem, lexems, ind),
        None => fail(SyntaxErrorKindView::UnexpectedEnd, lexems, ind),
    }
}

/// The statements up to the end-of-input token, applied to `package` in order.
pub open spec fn statements(lexems: Seq<LocatedLexem>, ind: int, package: PackageView) -> Parsed<
    PackageView,
>
    decreases lexems.len() - ind,
{
    match lexem_at(lexems, ind) {
        Some(Lexem::EOF) => Ok((package, ind)),
        Some(_) => match statement(lexems, ind, package) {
            Err(error) => Err(error),
            Ok((after, next)) => if advances(lexems, ind, next) {
                statements(lexems, next, after)
            } else {
                fail(SyntaxErrorKindView::UnexpectedEnd, lexems, next)
            },
        },
        None => fail(SyntaxErrorKindView::UnexpectedEnd, lexems, ind),
    }
}

/// What a sequence of tokens declares: the package that its statements build
/// from the initial one, or the first syntax error.
pub open spec fn package(lexems: Seq<LocatedLexem>) -> Result<PackageView, ProtoErrorView> {
    match statements(lexems, 0, PackageView::initial()) {
        Ok((package, _)) => Ok(package),
        Err(error) => Err(error),
    }
}


/// A dotted path that is read ends after its start, within the tokens.
pub proof fn lemma_id_path_advances(lexems: Seq<LocatedLexem>, ind: int, ids: Seq<Seq<char>>)
    ensures
        id_path_from(lexems, ind, ids) matches Ok((path, next)) ==> advances(lexems, ind, next)
            && path.len() > ids.len(),
    decreases lexems.len() - ind,
{
    if let Some(Lexem::Id(text)) = lexem_at(lexems, ind) {
        if lexem_at(lexems, ind + 1) matches Some(Lexem::Dot) {
            lemma_id_path_advances(lexems, ind + 2, ids.push(text@));
        }
    }
}

/// A field type that is read ends after its start, within the tokens.
pub proof fn lemma_field_type_advances(lexems: Seq<LocatedLexem>, ind: int, position: TypePosition)
    ensures
        field_type(lexems, ind, position) matches Ok((_, next)) ==> advances(lexems, ind, next),
    decreases lexems.len() - ind, 1int,
{
    if let Some(Lexem::Id(text)) = lexem_at(lexems, ind) {
        if text@ == word_repeated() {
            if position is Field {
                lemma_field_type_advances(lexems, ind + 1, TypePosition::Element);
            }
        } else if text@ == word_map() {
            if !(position is Element) {
                lemma_map_type_advances(lexems, ind);
            }
        } else {
            lemma_id_path_advances(lexems, ind, Seq::empty());
        }
    }
}

/// A map type that is read ends after its start, within the tokens.
pub proof fn lemma_map_type_advances(lexems: Seq<LocatedLexem>, ind: int)
    ensures
        map_type(lexems, ind) matches Ok((_, next)) ==> advances(lexems, ind, next),
    decreases lexems.len() - ind, 0int,
{
    if map_type(lexems, ind) is Ok {
        let key_start = ind + 2;
        lemma_field_type_advances(lexems, key_start, TypePosition::MapArgument);
        let after_key = field_type(lexems, key_start, TypePosition::MapArgument)->Ok_0.1;
        lemma_field_type_advances(lexems, after_key + 1, TypePosition::MapArgument);
    }
}

/// The rest of a list of options, once read, ends after its start, within the tokens.
pub proof fn lemma_more_attributes_advances(
    lexems: Seq<LocatedLexem>,
    ind: int,
    pairs: Seq<(Seq<char>, Seq<char>)>,
)
    ensures
        more_attributes(lexems, ind, pairs) matches Ok((_, next)) ==> advances(lexems, ind, next),
    decreases lexems.len() - ind,
{
    if lexem_at(lexems, ind) matches Some(Lexem::Comma) {
        if let Ok((pair, next)) = attribute(lexems, ind + 1) {
            lemma_more_attributes_advances(lexems, next, pairs.push(pair));
        }
    }
}

/// A field that is read ends after its start, within the tokens.
pub proof fn lemma_field_advances(lexems: Seq<LocatedLexem>, ind: int)
    ensures
        field(lexems, ind) matches Ok((_, next)) ==> advances(lexems, ind, next),
{
    lemma_field_type_advances(lexems, ind, TypePosition::Field);
    if field(lexems, ind) is Ok {
        let after_tag = field_type(lexems, ind, TypePosition::Field)->Ok_0.1 + 3;
        if lexem_at(lexems, after_tag) matches Some(Lexem::OpenBracket) {
            if !(lexem_at(lexems, after_tag + 1) matches Some(Lexem::CloseBracket)) {
                let pair = attribute(lexems, after_tag + 1)->Ok_0;
                lemma_more_attributes_advances(lexems, pair.1, Seq::empty().push(pair.0));
            }
        }
    }
}

/// The entries of an enum body, once read, end after their start, within the tokens.
pub proof fn lemma_enum_entries_advances(
    lexems: Seq<LocatedLexem>,
    ind: int,
    entries: Seq<EnumEntryView>,
)
    ensures
        enum_entries(lexems, ind, entries) matches Ok((_, next)) ==> advances(lexems, ind, next),
    decreases lexems.len() - ind,
{
    if lexem_at(lexems, ind) matches Some(Lexem::Id(_)) {
        if let Ok((entry, next)) = enum_entry(lexems, ind) {
            lemma_enum_entries_advances(lexems, next, entries.push(entry));
        }
    }
}

/// An enum declaration that is read ends after its start, within the tokens.
pub proof fn lemma_enum_declaration_advances(lexems: Seq<LocatedLexem>, ind: int)
    ensures
        enum_declaration(lexems, ind) matches Ok((_, next)) ==> advances(lexems, ind, next),
{
    lemma_enum_entries_advances(lexems, ind + 3, Seq::empty());
}

/// A message that is read ends after its start, within the tokens.
pub proof fn lemma_message_advances(lexems: Seq<LocatedLexem>, ind: int)
    ensures
        message(lexems, ind) matches Ok((_, next)) ==> advances(lexems, ind, next),
    decreases lexems.len() - ind, 0int,
{
    if message(lexems, ind) is Ok {
        lemma_message_entries_in_bounds(lexems, ind + 3, Seq::empty());
    }
}

/// A `oneof` block that is read ends after its start, within the tokens.
pub proof fn lemma_one_of_advances(lexems: Seq<LocatedLexem>, ind: int)
    ensures
        one_of(lexems, ind) matches Ok((_, next)) ==> advances(lexems, ind, next),
    decreases lexems.len() - ind, 0int,
{
    if one_of(lexems, ind) is Ok {
        lemma_message_entries_in_bounds(lexems, ind + 3, Seq::empty());
    }
}

/// An entry of a message body that is read ends after its start, within the tokens.
pub proof fn lemma_message_entry_advances(lexems: Seq<LocatedLexem>, ind: int)
    ensures
        message_entry(lexems, ind) matches Ok((_, next)) ==> advances(lexems, ind, next),
    decreases lexems.len() - ind, 1int,
{
    if let Some(Lexem::Id(text)) = lexem_at(lexems, ind) {
        if text@ == word_message() {
            lemma_message_advances(lexems, ind);
        } else if text@ == word_enum() {
            lemma_enum_declaration_advances(lexems, ind);
        } else if text@ == word_oneof() {
            lemma_one_of_advances(lexems, ind);
        } else {
            lemma_field_advances(lexems, ind);
        }
    }
}

/// The entries of a message body, once read, end at or after their start, at a token.
pub proof fn lemma_message_entries_in_bounds(
    lexems: Seq<LocatedLexem>,
    ind: int,
    entries: Seq<MessageEntryView>,
)
    ensures
        message_entries(lexems, ind, entries) matches Ok((_, next)) ==> ind <= next < lexems.len(),
    decreases lexems.len() - ind, 2int,
{
    if lexem_at(lexems, ind) matches Some(Lexem::Id(_)) {
        if let Ok((entry, next)) = message_entry(lexems, ind) {
            lemma_message_entry_advances(lexems, ind);
            lemma_message_entries_in_bounds(lexems, next, entries.push(entry));
        }
    }
}

/// The segments of a package name, once read, end after their start, within the tokens.
pub proof fn lemma_package_path_advances(lexems: Seq<LocatedLexem>, ind: int, path: Seq<Seq<char>>)
    ensures
        package_path(lexems, ind, path) matches Ok((_, next)) ==> advances(lexems, ind, next),
    decreases lexems.len() - ind,
{
    if let Some(Lexem::Id(text)) = lexem_at(lexems, ind) {
        if lexem_at(lexems, ind + 1) matches Some(Lexem::Dot) {
            lemma_package_path_advances(lexems, ind + 2, path.push(text@));
        }
    }
}

/// A statement that is read ends after its start, within the tokens.
pub proof fn lemma_statement_advances(lexems: Seq<LocatedLexem>, ind: int, package: PackageView)
    ensures
        statement(lexems, ind, package) matches Ok((_, next)) ==> advances(lexems, ind, next),
{
    lemma_message_advances(lexems, ind);
    lemma_enum_declaration_advances(lexems, ind);
    lemma_package_path_advances(lexems, ind + 1, Seq::empty());
}


/// A `syntax` statement is read only where it names one of the two versions,
/// and it yields the version that it names; with any other literal it is a
/// syntax error.
pub proof fn lemma_syntax_statement_versions(lexems: Seq<LocatedLexem>, ind: int)
    ensures
        syntax_statement(lexems, ind) matches Ok((version, next)) ==> {
            &&& next == ind + 4
            &&& lexems[ind + 2].lexem matches Lexem::StringLiteral(text)
            &&& version == ProtoVersion::Proto2 <==> text@ == word_proto2()
            &&& version == ProtoVersion::Proto3 <==> text@ == word_proto3()
        },
        0 <= ind && ind + 4 <= lexems.len() && (lexems[ind + 2].lexem matches Lexem::StringLiteral(text)
            ==> text@ != word_proto2() && text@ != word_proto3()) ==> syntax_statement(lexems, ind)
            == fail::<ProtoVersion>(SyntaxErrorKindView::InvalidSyntaxStatement, lexems, ind),
{
    reveal_strlit("proto2");
    reveal_strlit("proto3");
    assert(word_proto2()[5] != word_proto3()[5]);
}

/// A `syntax` statement changes the version of the package and nothing else.
pub proof fn lemma_syntax_statement_sets_version(
    lexems: Seq<LocatedLexem>,
    ind: int,
    package: PackageView,
)
    requires
        lexem_at(lexems, ind) matches Some(lexem) && lexem.is_word(word_syntax()),
    ensures
        statement(lexems, ind, package) matches Ok((after, next)) ==> {
            &&& syntax_statement(lexems, ind) matches Ok((version, end))
            &&& next == end
            &&& after == PackageView { version, ..package }
        },
{
}

/// A `oneof` block whose header, body and closing brace are read is a
/// declaration where every entry of the body is a plain field, and else the
/// syntax error that says so, raised once the closing brace has been read and
/// reported at that brace.
pub proof fn lemma_one_of_only_fields(lexems: Seq<LocatedLexem>, ind: int)
    requires
        expect(lexems, ind, Symbol::OneOf) is Ok,
        identifier(lexems, ind + 1) is Ok,
        expect(lexems, ind + 2, Symbol::OpenCurly) is Ok,
        message_entries(lexems, ind + 3, Seq::empty()) matches Ok((_, end)) && expect(
            lexems,
            end,
            Symbol::CloseCurly,
        ) is Ok,
    ensures
        ({
            let name = identifier(lexems, ind + 1)->Ok_0.0;
            let body = message_entries(lexems, ind + 3, Seq::empty())->Ok_0;
            if only_fields(body.0) {
                one_of(lexems, ind) == Ok::<(OneOfDeclarationView, int), ProtoErrorView>(
                    (OneOfDeclarationView { name, options: fields_of(body.0) }, body.1 + 1),
                )
            } else {
                one_of(lexems, ind) == fail::<OneOfDeclarationView>(
                    SyntaxErrorKindView::OneOfNonField,
                    lexems,
                    body.1,
                )
            }
        }),
{
}

/// Every field type that is read is well formed: no reference is empty, the
/// element of `repeated` is a reference, and neither the key nor the value of
/// a map is `repeated`.
pub proof fn lemma_field_type_well_formed(
    lexems: Seq<LocatedLexem>,
    ind: int,
    position: TypePosition,
)
    ensures
        field_type(lexems, ind, position) matches Ok((read, _)) ==> {
            &&& read.well_formed()
            &&& position is Element ==> read is IdPath
            &&& position is MapArgument ==> !(read is Repeated)
        },
    decreases lexems.len() - ind, 1int,
{
    if let Some(Lexem::Id(text)) = lexem_at(lexems, ind) {
        if text@ == word_repeated() {
            if position is Field {
                lemma_field_type_well_formed(lexems, ind + 1, TypePosition::Element);
            }
        } else if text@ == word_map() {
            if !(position is Element) {
                lemma_map_type_well_formed(lexems, ind);
            }
        } else {
            lemma_id_path_advances(lexems, ind, Seq::empty());
        }
    }
}

/// Every map type that is read is a well-formed map.
pub proof fn lemma_map_type_well_formed(lexems: Seq<LocatedLexem>, ind: int)
    ensures
        map_type(lexems, ind) matches Ok((read, _)) ==> read.well_formed() && read is MapOf,
    decreases lexems.len() - ind, 0int,
{
    if map_type(lexems, ind) is Ok {
        let key_start = ind + 2;
        lemma_field_type_well_formed(lexems, key_start, TypePosition::MapArgument);
        let after_key = field_type(lexems, key_start, TypePosition::MapArgument)->Ok_0.1;
        lemma_field_type_well_formed(lexems, after_key + 1, TypePosition::MapArgument);
    }
}

/// `repeated` in front of `repeated` or of a map, and `repeated` as the key
/// or the value of a map, are syntax errors.
pub proof fn lemma_nested_field_type_rejected(
    lexems: Seq<LocatedLexem>,
    ind: int,
    position: TypePosition,
)
    requires
        lexem_at(lexems, ind) matches Some(lexem) && (lexem.is_word(word_repeated()) && !(
        position is Field) || lexem.is_word(word_map()) && position is Element),
    ensures
        field_type(lexems, ind, position) == fail::<FieldTypeView>(
            SyntaxErrorKindView::NestedFieldType,
            lexems,
            ind,
        ),
{
    reveal_strlit("repeated");
    reveal_strlit("map");
    assert(word_repeated().len() != word_map().len());
}

/// The type of every field that is read is well formed.
pub proof fn lemma_field_well_formed(lexems: Seq<LocatedLexem>, ind: int)
    ensures
        field(lexems, ind) matches Ok((read, _)) ==> read.field_type.well_formed(),
{
    lemma_field_type_well_formed(lexems, ind, TypePosition::Field);
}


/// Every entry of the entries that are read is well formed, if those that
/// they are added to are.
pub proof fn lemma_message_entries_well_formed(
    lexems: Seq<LocatedLexem>,
    ind: int,
    entries: Seq<MessageEntryView>,
)
    requires
        forall|i: int| 0 <= i < entries.len() ==> (#[trigger] entries[i]).well_formed(),
    ensures
        message_entries(lexems, ind, entries) matches Ok((all, _)) ==> forall|i: int|
            0 <= i < all.len() ==> (#[trigger] all[i]).well_formed(),
    decreases lexems.len() - ind, 2int,
{
    if let Some(Lexem::Id(_)) = lexem_at(lexems, ind) {
        if let Ok((entry, next)) = message_entry(lexems, ind) {
            lemma_message_entry_well_formed(lexems, ind);
            if advances(lexems, ind, next) {
                lemma_message_entries_well_formed(lexems, next, entries.push(entry));
            }
        }
    }
}

/// Every entry that is read is well formed.
pub proof fn lemma_message_entry_well_formed(lexems: Seq<LocatedLexem>, ind: int)
    ensures
        message_entry(lexems, ind) matches Ok((entry, _)) ==> entry.well_formed(),
    decreases lexems.len() - ind, 1int,
{
    if let Some(Lexem::Id(text)) = lexem_at(lexems, ind) {
        if text@ == word_message() {
            lemma_message_well_formed(lexems, ind);
        } else if text@ == word_enum() {
        } else if text@ == word_oneof() {
            lemma_one_of_well_formed(lexems, ind);
        } else {
            lemma_field_well_formed(lexems, ind);
        }
    }
}

/// Every message that is read is well formed.
pub proof fn lemma_message_well_formed(lexems: Seq<LocatedLexem>, ind: int)
    ensures
        message(lexems, ind) matches Ok((read, _)) ==> read.well_formed(),
    decreases lexems.len() - ind, 0int,
{
    if message(lexems, ind) is Ok {
        lemma_message_entries_well_formed(lexems, ind + 3, Seq::empty());
    }
}

/// Every `oneof` block that is read is well formed.
pub proof fn lemma_one_of_well_formed(lexems: Seq<LocatedLexem>, ind: int)
    ensures
        one_of(lexems, ind) matches Ok((read, _)) ==> read.well_formed(),
    decreases lexems.len() - ind, 0int,
{
    if one_of(lexems, ind) is Ok {
        lemma_message_entries_well_formed(lexems, ind + 3, Seq::empty());
        let entries = message_entries(lexems, ind + 3, Seq::empty())->Ok_0.0;
        let read = one_of(lexems, ind)->Ok_0.0;
        assert forall|i: int| 0 <= i < read.options.len() implies (
        #[trigger] read.options[i]).field_type.well_formed() by {
            assert(entries[i].well_formed());
        }
    }
}

/// A statement keeps a well-formed package well formed.
pub proof fn lemma_statement_well_formed(lexems: Seq<LocatedLexem>, ind: int, package: PackageView)
    requires
        package.well_formed(),
    ensures
        statement(lexems, ind, package) matches Ok((after, _)) ==> after.well_formed(),
{
    lemma_message_well_formed(lexems, ind);
    if let Ok((after, _)) = statement(lexems, ind, package) {
        assert forall|i: int| 0 <= i < after.declarations.len() implies (
        #[trigger] after.declarations[i]).well_formed() by {
            if i < package.declarations.len() {
                assert(package.declarations[i].well_formed());
            }
        }
    }
}

/// Statements keep a well-formed package well formed.
pub proof fn lemma_statements_well_formed(lexems: Seq<LocatedLexem>, ind: int, package: PackageView)
    requires
        package.well_formed(),
    ensures
        statements(lexems, ind, package) matches Ok((after, _)) ==> after.well_formed(),
    decreases lexems.len() - ind,
{
    if let Some(lexem) = lexem_at(lexems, ind) {
        if !(lexem is EOF) {
            if let Ok((after, next)) = statement(lexems, ind, package) {
                lemma_statement_well_formed(lexems, ind, package);
                if advances(lexems, ind, next) {
                    lemma_statements_well_formed(lexems, next, after);
                }
            }
        }
    }
}

/// Every package that is read is well formed: no reference in it is empty,
/// the element of every `repeated` is a reference, and no key or value of a
/// map is `repeated`.
pub proof fn lemma_package_well_formed(lexems: Seq<LocatedLexem>)
    ensures
        package(lexems) matches Ok(read) ==> read.well_formed(),
{
    lemma_statements_well_formed(lexems, 0, PackageView::initial());
}


/// The failure, if it is one, is a syntax error.
pub open spec fn fails_on_syntax<T>(parsed: Parsed<T>) -> bool {
    parsed matches Err(error) ==> error is Syntax
}

proof fn lemma_id_path_fails_on_syntax(lexems: Seq<LocatedLexem>, ind: int, ids: Seq<Seq<char>>)
    ensures
        fails_on_syntax(id_path_from(lexems, ind, ids)),
    decreases lexems.len() - ind,
{
    if let Some(Lexem::Id(text)) = lexem_at(lexems, ind) {
        if lexem_at(lexems, ind + 1) matches Some(Lexem::Dot) {
            lemma_id_path_fails_on_syntax(lexems, ind + 2, ids.push(text@));
        }
    }
}

proof fn lemma_field_type_fails_on_syntax(
    lexems: Seq<LocatedLexem>,
    ind: int,
    position: TypePosition,
)
    ensures
        fails_on_syntax(field_type(lexems, ind, position)),
    decreases lexems.len() - ind, 1int,
{
    if let Some(Lexem::Id(text)) = lexem_at(lexems, ind) {
        if text@ == word_repeated() {
            if position is Field {
                lemma_field_type_fails_on_syntax(lexems, ind + 1, TypePosition::Element);
            }
        } else if text@ == word_map() {
            if !(position is Element) {
                lemma_map_type_fails_on_syntax(lexems, ind);
            }
        } else {
            lemma_id_path_fails_on_syntax(lexems, ind, Seq::empty());
        }
    }
}

proof fn lemma_map_type_fails_on_syntax(lexems: Seq<LocatedLexem>, ind: int)
    ensures
        fails_on_syntax(map_type(lexems, ind)),
    decreases lexems.len() - ind, 0int,
{
    if expect(lexems, ind, Symbol::MapWord) is Ok && expect(lexems, ind + 1, Symbol::Less) is Ok {
        lemma_field_type_fails_on_syntax(lexems, ind + 2, TypePosition::MapArgument);
        if let Ok((_, after_key)) = field_type(lexems, ind + 2, TypePosition::MapArgument) {
            if advances(lexems, ind, after_key) && expect(lexems, after_key, Symbol::Comma) is Ok {
                lemma_field_type_fails_on_syntax(lexems, after_key + 1, TypePosition::MapArgument);
            }
        }
    }
}

proof fn lemma_more_attributes_fails_on_syntax(
    lexems: Seq<LocatedLexem>,
    ind: int,
    pairs: Seq<(Seq<char>, Seq<char>)>,
)
    ensures
        fails_on_syntax(more_attributes(lexems, ind, pairs)),
    decreases lexems.len() - ind,
{
    if lexem_at(lexems, ind) matches Some(Lexem::Comma) {
        if let Ok((pair, next)) = attribute(lexems, ind + 1) {
            lemma_more_attributes_fails_on_syntax(lexems, next, pairs.push(pair));
        }
    }
}

proof fn lemma_field_fails_on_syntax(lexems: Seq<LocatedLexem>, ind: int)
    ensures
        fails_on_syntax(field(lexems, ind)),
{
    lemma_field_type_fails_on_syntax(lexems, ind, TypePosition::Field);
    if let Ok((_, name_start)) = field_type(lexems, ind, TypePosition::Field) {
        let first = name_start + 4;
        if let Ok((pair, next)) = attribute(lexems, first) {
            lemma_more_attributes_fails_on_syntax(lexems, next, Seq::empty().push(pair));
        }
    }
}

proof fn lemma_enum_entries_fails_on_syntax(
    lexems: Seq<LocatedLexem>,
    ind: int,
    entries: Seq<EnumEntryView>,
)
    ensures
        fails_on_syntax(enum_entries(lexems, ind, entries)),
    decreases lexems.len() - ind,
{
    if lexem_at(lexems, ind) matches Some(Lexem::Id(_)) {
        if let Ok((entry, next)) = enum_entry(lexems, ind) {
            lemma_enum_entries_fails_on_syntax(lexems, next, entries.push(entry));
        }
    }
}

proof fn lemma_message_fails_on_syntax(lexems: Seq<LocatedLexem>, ind: int)
    ensures
        fails_on_syntax(message(lexems, ind)),
        fails_on_syntax(one_of(lexems, ind)),
    decreases lexems.len() - ind, 0int,
{
    if identifier(lexems, ind + 1) is Ok && expect(lexems, ind + 2, Symbol::OpenCurly) is Ok {
        if expect(lexems, ind, Symbol::Message) is Ok || expect(lexems, ind, Symbol::OneOf) is Ok {
            lemma_message_entries_fails_on_syntax(lexems, ind + 3, Seq::empty());
        }
    }
}

proof fn lemma_message_entry_fails_on_syntax(lexems: Seq<LocatedLexem>, ind: int)
    ensures
        fails_on_syntax(message_entry(lexems, ind)),
    decreases lexems.len() - ind, 1int,
{
    if let Some(Lexem::Id(text)) = lexem_at(lexems, ind) {
        if text@ == word_message() {
            lemma_message_fails_on_syntax(lexems, ind);
        } else if text@ == word_enum() {
            lemma_enum_entries_fails_on_syntax(lexems, ind + 3, Seq::empty());
        } else if text@ == word_oneof() {
            lemma_message_fails_on_syntax(lexems, ind);
        } else {
            lemma_field_fails_on_syntax(lexems, ind);
        }
    }
}

proof fn lemma_message_entries_fails_on_syntax(
    lexems: Seq<LocatedLexem>,
    ind: int,
    entries: Seq<MessageEntryView>,
)
    ensures
        fails_on_syntax(message_entries(lexems, ind, entries)),
    decreases lexems.len() - ind, 2int,
{
    if lexem_at(lexems, ind) matches Some(Lexem::Id(_)) {
        lemma_message_entry_fails_on_syntax(lexems, ind);
        if let Ok((entry, next)) = message_entry(lexems, ind) {
            if advances(lexems, ind, next) {
                lemma_message_entries_fails_on_syntax(lexems, next, entries.push(entry));
            }
        }
    }
}

proof fn lemma_package_path_fails_on_syntax(
    lexems: Seq<LocatedLexem>,
    ind: int,
    path: Seq<Seq<char>>,
)
    ensures
        fails_on_syntax(package_path(lexems, ind, path)),
    decreases lexems.len() - ind,
{
    if let Some(Lexem::Id(text)) = lexem_at(lexems, ind) {
        if lexem_at(lexems, ind + 1) matches Some(Lexem::Dot) {
            lemma_package_path_fails_on_syntax(lexems, ind + 2, path.push(text@));
        }
    }
}

proof fn lemma_statements_fail_on_syntax(lexems: Seq<LocatedLexem>, ind: int, package: PackageView)
    ensures
        fails_on_syntax(statement(lexems, ind, package)),
        fails_on_syntax(statements(lexems, ind, package)),
    decreases lexems.len() - ind,
{
    lemma_message_fails_on_syntax(lexems, ind);
    lemma_enum_entries_fails_on_syntax(lexems, ind + 3, Seq::empty());
    lemma_package_path_fails_on_syntax(lexems, ind + 1, Seq::empty());
    if let Some(lexem) = lexem_at(lexems, ind) {
        if !(lexem is EOF) {
            if let Ok((after, next)) = statement(lexems, ind, package) {
                if advances(lexems, ind, next) {
                    lemma_statements_fail_on_syntax(lexems, next, after);
                }
            }
        }
    }
}

/// Reading a package fails with syntax errors only.
pub proof fn lemma_package_fails_on_syntax(lexems: Seq<LocatedLexem>)
    ensures
        package(lexems) matches Err(error) ==> error is Syntax,
{
    lemma_statements_fail_on_syntax(lexems, 0, PackageView::initial());
}

} // verus!
