//! The parser's machine: its tasks, the fragments on its value stack, and what
//! each task means in terms of the grammar.
//!
//! The parser keeps a stack of pending tasks and a stack of fragments built
//! so far. [`schedule`] is the table of the machine: what one step does with
//! the task on top, which is to carry it out or to replace it by the tasks
//! that make it up. [`effect`] says what a task amounts to once all that it
//! was replaced by is done, by the production of [`crate::grammar`] that it
//! stands for, and [`run`] what the pending tasks yield in the end.
//! [`crate::sound`] shows that a step leaves [`run`] unchanged.

use vstd::prelude::*;
use crate::views::{views, lemma_views_push, lemma_views_drop_last};
use crate::lexems::{
    Lexem, LocatedLexem, Symbol, lexem_at, word_syntax, word_import, word_package, word_message,
    word_enum, word_oneof, word_repeated, word_map,
};
use crate::error::{Production, ProtoErrorView, SyntaxErrorKindView, syntax_error_at};
use crate::package::{
    FieldType, FieldTypeView, FieldDeclarationView, EnumEntry, EnumEntryView, EnumDeclaration,
    EnumDeclarationView, OneOfDeclaration, OneOfDeclarationView, MessageEntry, MessageEntryView,
    MessageDeclaration, MessageDeclarationView, DeclarationView, PackageView,
};
use crate::grammar;
use crate::grammar::TypePosition;

verus! {

/// A pending grammar action.
#[derive(Clone, Copy, Debug, PartialEq, Eq, Structural)]
pub enum Task {
    /// Reads statements up to the end of input.
    ParseStatements,
    ParseStatement,
    ParseSyntaxStatement,
    ParseImportStatement,
    ParsePackageStatement,
    /// Reads an enum declaration and pushes it.
    ParseEnumDeclaration,
    ParseEnumEntries,
    ParseEnumEntry,
    /// Field type => repeated field type.
    WrapRepeated,
    ParseFieldDeclaration,
    ParseMessageStatement,
    ExpectLexem(Symbol),
    /// Pushes an empty list of message entries.
    PushEntriesList,
    ParseFieldAttributes,
    ParseMoreFieldAttributes,
    /// Takes a declaration from the stack and appends it to the package.
    AppendDeclarationToPackage,
    ParseFieldAttribute,
    PushFieldDeclaration,
    PushFieldAttribute,
    ParseMessageEntries,
    ParseMessageEntry,
    ParseOptionalAttributes,
    ParseInt64,
    ParseFieldType(TypePosition),
    ParseStringLiteral,
    WrapMessageEntry,
    PushMessageEntry,
    PushMessageStatement,
    ParseIdPath,
    /// List of identifiers => field type.
    WrapFieldType,
    /// Key type, value type => map type.
    WrapMapType,
    /// Reads a `oneof` block and pushes it.
    ParseOneOf,
    /// List of entries, name => `oneof` declaration. Runs when the closing
    /// brace has just been read, and reports an entry that is no field there.
    PushOneOf,
    /// Reads an identifier and pushes it.
    ParseId,
}

/// A fragment on the value stack.
#[derive(Debug, PartialEq, Eq)]
pub enum StackItem {
    Text(String),
    StringList(Vec<String>),
    EnumEntriesList(Vec<EnumEntry>),
    MessageEntriesList(Vec<MessageEntry>),
    MessageEntry(MessageEntry),
    FieldType(FieldType),
    Int64(i64),
    Message(MessageDeclaration),
    OptionalAttributes(Option<Vec<(String, String)>>),
    Enum(EnumDeclaration),
    OneOf(OneOfDeclaration),
}

/// The view of [`StackItem`].
pub enum StackItemView {
    Text(Seq<char>),
    StringList(Seq<Seq<char>>),
    EnumEntriesList(Seq<EnumEntryView>),
    MessageEntriesList(Seq<MessageEntryView>),
    MessageEntry(MessageEntryView),
    FieldType(FieldTypeView),
    Int64(i64),
    Message(MessageDeclarationView),
    OptionalAttributes(Option<Seq<(Seq<char>, Seq<char>)>>),
    Enum(EnumDeclarationView),
    OneOf(OneOfDeclarationView),
}

impl View for StackItem {
    type V = StackItemView;

    open spec fn view(&self) -> StackItemView {
        match self {
            StackItem::Text(text) => StackItemView::Text(text@),
            StackItem::StringList(list) => StackItemView::StringList(views(list@)),
            StackItem::EnumEntriesList(list) => StackItemView::EnumEntriesList(views(list@)),
            StackItem::MessageEntriesList(list) => StackItemView::MessageEntriesList(views(list@)),
            StackItem::MessageEntry(entry) => StackItemView::MessageEntry(entry@),
            StackItem::FieldType(field_type) => StackItemView::FieldType(field_type@),
            StackItem::Int64(value) => StackItemView::Int64(*value),
            StackItem::Message(message) => StackItemView::Message(message@),
            StackItem::OptionalAttributes(attributes) => StackItemView::OptionalAttributes(
                match attributes {
                    Some(pairs) => Some(views(pairs@)),
                    None => None,
                },
            ),
            StackItem::Enum(declaration) => StackItemView::Enum(declaration@),
            StackItem::OneOf(one_of) => StackItemView::OneOf(one_of@),
        }
    }
}

impl StackItemView {
    /// The name of the kind of the fragment, as a listing of the stack shows it.
    pub open spec fn kind_name(self) -> Seq<char> {
        match self {
            StackItemView::Text(_) => "string"@,
            StackItemView::StringList(_) => "string[]"@,
            StackItemView::EnumEntriesList(_) => "EnumEntry[]"@,
            StackItemView::MessageEntriesList(_) => "MessageEntry[]"@,
            StackItemView::MessageEntry(_) => "MessageEntry"@,
            StackItemView::FieldType(_) => "type"@,
            StackItemView::Int64(_) => "i64"@,
            StackItemView::Message(_) => "message"@,
            StackItemView::OptionalAttributes(_) => "attributes[]?"@,
            StackItemView::Enum(_) => "enum"@,
            StackItemView::OneOf(_) => "oneof"@,
        }
    }
}

impl StackItem {
    /// Computes [`StackItemView::kind_name`].
    pub fn kind_name(&self) -> (name: &'static str)
        ensures
            name@ == self@.kind_name(),
    {
        match self {
            StackItem::Text(_) => "string",
            StackItem::StringList(_) => "string[]",
            StackItem::EnumEntriesList(_) => "EnumEntry[]",
            StackItem::MessageEntriesList(_) => "MessageEntry[]",
            StackItem::MessageEntry(_) => "MessageEntry",
            StackItem::FieldType(_) => "type",
            StackItem::Int64(_) => "i64",
            StackItem::Message(_) => "message",
            StackItem::OptionalAttributes(_) => "attributes[]?",
            StackItem::Enum(_) => "enum",
            StackItem::OneOf(_) => "oneof",
        }
    }
}

/// A stack as a list from the top down.
pub enum Stack<T> {
    Empty,
    Push(Box<Stack<T>>, T),
}

/// The stack that holds the elements of `s`, the last one on top.
pub open spec fn stack_of<T>(s: Seq<T>) -> Stack<T>
    decreases s.len(),
{
    if s.len() == 0 {
        Stack::Empty
    } else {
        Stack::Push(Box::new(stack_of(s.drop_last())), s.last())
    }
}

/// The last element of a sequence is the top of its stack.
pub proof fn lemma_stack_of_push<T>(s: Seq<T>, top: T)
    ensures
        stack_of(s.push(top)) == Stack::Push(Box::new(stack_of(s)), top),
{
    assert(s.push(top).drop_last() =~= s);
}

/// The value stack of the machine: the views of `items`, the last one on top.
pub open spec fn values_of(items: Seq<StackItem>) -> Stack<StackItemView> {
    stack_of(views(items))
}

/// A fragment that is pushed is on top of the value stack, above the others.
pub proof fn lemma_values_of_push(items: Seq<StackItem>, top: StackItem)
    ensures
        values_of(items.push(top)) == Stack::Push(Box::new(values_of(items)), top@),
{
    lemma_views_push(items, top);
    lemma_stack_of_push(views(items), top@);
}

/// The last fragment is the top of the value stack, and the others lie below.
pub proof fn lemma_values_of_pop(items: Seq<StackItem>)
    requires
        items.len() > 0,
    ensures
        values_of(items) == Stack::Push(Box::new(values_of(items.drop_last())), items.last()@),
{
    lemma_views_drop_last(items);
}

/// What carrying out one task leads to.
pub enum Outcome {
    /// The task is done; the machine goes on in this state.
    Next { values: Stack<StackItemView>, cursor: int, package: PackageView },
    /// The tokens do not follow the grammar.
    Fail(ProtoErrorView),
    /// The value stack does not hold what the task takes from it.
    Stuck,
}

/// The outcome of a production that pushes what it read.
pub open spec fn push_parsed(
    parsed: grammar::Parsed<StackItemView>,
    values: Stack<StackItemView>,
    package: PackageView,
) -> Outcome {
    match parsed {
        Ok((item, next)) => Outcome::Next {
            values: Stack::Push(Box::new(values), item),
            cursor: next,
            package,
        },
        Err(error) => Outcome::Fail(error),
    }
}

/// What `task` does in the given state.
pub open spec fn effect(
    task: Task,
    lexems: Seq<LocatedLexem>,
    values: Stack<StackItemView>,
    cursor: int,
    package: PackageView,
) -> Outcome {
    match task {
        Task::ParseStatements => match grammar::statements(lexems, cursor, package) {
            Ok((after, next)) => Outcome::Next { values, cursor: next, package: after },
            Err(error) => Outcome::Fail(error),
        },
        Task::ParseStatement => match grammar::statement(lexems, cursor, package) {
            Ok((after, next)) => Outcome::Next { values, cursor: next, package: after },
            Err(error) => Outcome::Fail(error),
        },
        Task::ParseSyntaxStatement => match grammar::syntax_statement(lexems, cursor) {
            Ok((version, next)) => Outcome::Next {
                values,
                cursor: next,
                package: PackageView { version, ..package },
            },
            Err(error) => Outcome::Fail(error),
        },
        Task::ParseImportStatement => match grammar::import_statement(lexems, cursor) {
            Ok((path, next)) => Outcome::Next {
                values,
                cursor: next,
                package: PackageView { imports: package.imports.push(path), ..package },
            },
            Err(error) => Outcome::Fail(error),
        },
        Task::ParsePackageStatement => match grammar::package_statement(lexems, cursor) {
            Ok((path, next)) => Outcome::Next {
                values,
                cursor: next,
                package: PackageView { path, ..package },
            },
            Err(error) => Outcome::Fail(error),
        },
        Task::AppendDeclarationToPackage => match values {
            Stack::Push(rest, StackItemView::Message(message)) => Outcome::Next {
                values: *rest,
                cursor,
                package: PackageView {
                    declarations: package.declarations.push(DeclarationView::Message(message)),
                    ..package
                },
            },
            Stack::Push(rest, StackItemView::Enum(declaration)) => Outcome::Next {
                values: *rest,
                cursor,
                package: PackageView {
                    declarations: package.declarations.push(DeclarationView::Enum(declaration)),
                    ..package
                },
            },
            _ => Outcome::Stuck,
        },
        Task::ParseMessageStatement => push_parsed(
            match grammar::message(lexems, cursor) {
                Ok((message, next)) => Ok((StackItemView::Message(message), next)),
                Err(error) => Err(error),
            },
            values,
            package,
        ),
        Task::ExpectLexem(symbol) => match grammar::expect(lexems, cursor, symbol) {
            Ok((_, next)) => Outcome::Next { values, cursor: next, package },
            Err(error) => Outcome::Fail(error),
        },
        Task::ParseId => push_parsed(
            match grammar::identifier(lexems, cursor) {
                Ok((text, next)) => Ok((StackItemView::Text(text), next)),
                Err(error) => Err(error),
            },
            values,
            package,
        ),
        Task::ParseStringLiteral => push_parsed(
            match grammar::string_literal(lexems, cursor) {
                Ok((text, next)) => Ok((StackItemView::Text(text), next)),
                Err(error) => Err(error),
            },
            values,
            package,
        ),
        Task::ParseInt64 => push_parsed(
            match grammar::int_literal(lexems, cursor) {
                Ok((value, next)) => Ok((StackItemView::Int64(value), next)),
                Err(error) => Err(error),
            },
            values,
            package,
        ),
        Task::PushEntriesList => Outcome::Next {
            values: Stack::Push(Box::new(values), StackItemView::MessageEntriesList(Seq::empty())),
            cursor,
            package,
        },
        Task::ParseMessageEntries => match values {
            Stack::Push(rest, StackItemView::MessageEntriesList(entries)) => push_parsed(
                match grammar::message_entries(lexems, cursor, entries) {
                    Ok((all, next)) => Ok((StackItemView::MessageEntriesList(all), next)),
                    Err(error) => Err(error),
                },
                *rest,
                package,
            ),
            _ => Outcome::Stuck,
        },
        Task::ParseMessageEntry => match values {
            Stack::Push(rest, StackItemView::MessageEntriesList(entries)) => push_parsed(
                match grammar::message_entry(lexems, cursor) {
                    Ok((entry, next)) => Ok(
                        (StackItemView::MessageEntriesList(entries.push(entry)), next),
                    ),
                    Err(error) => Err(error),
                },
                *rest,
                package,
            ),
            _ => Outcome::Stuck,
        },
        Task::PushMessageStatement => match values {
            Stack::Push(below, StackItemView::MessageEntriesList(entries)) => match *below {
                Stack::Push(rest, StackItemView::Text(name)) => Outcome::Next {
                    values: Stack::Push(
                        rest,
                        StackItemView::Message(MessageDeclarationView { name, entries }),
                    ),
                    cursor,
                    package,
                },
                _ => Outcome::Stuck,
            },
            _ => Outcome::Stuck,
        },
        Task::WrapMessageEntry => match values {
            Stack::Push(rest, StackItemView::Message(message)) => Outcome::Next {
                values: Stack::Push(
                    rest,
                    StackItemView::MessageEntry(MessageEntryView::Message(message)),
                ),
                cursor,
                package,
            },
            Stack::Push(rest, StackItemView::Enum(declaration)) => Outcome::Next {
                values: Stack::Push(
                    rest,
                    StackItemView::MessageEntry(MessageEntryView::Enum(declaration)),
                ),
                cursor,
                package,
            },
            Stack::Push(rest, StackItemView::OneOf(one_of)) => Outcome::Next {
                values: Stack::Push(
                    rest,
                    StackItemView::MessageEntry(MessageEntryView::OneOf(one_of)),
                ),
                cursor,
                package,
            },
            _ => Outcome::Stuck,
        },
        Task::PushMessageEntry => match values {
            Stack::Push(below, StackItemView::MessageEntry(entry)) => match *below {
                Stack::Push(rest, StackItemView::MessageEntriesList(entries)) => Outcome::Next {
                    values: Stack::Push(
                        rest,
                        StackItemView::MessageEntriesList(entries.push(entry)),
                    ),
                    cursor,
                    package,
                },
                _ => Outcome::Stuck,
            },
            _ => Outcome::Stuck,
        },
        Task::ParseOneOf => push_parsed(
            match grammar::one_of(lexems, cursor) {
                Ok((one_of, next)) => Ok((StackItemView::OneOf(one_of), next)),
                Err(error) => Err(error),
            },
            values,
            package,
        ),
        Task::PushOneOf => match values {
            Stack::Push(below, StackItemView::MessageEntriesList(entries)) => match *below {
                Stack::Push(rest, StackItemView::Text(name)) => if grammar::only_fields(entries) {
                    Outcome::Next {
                        values: Stack::Push(
                            rest,
                            StackItemView::OneOf(
                                OneOfDeclarationView { name, options: grammar::fields_of(entries) },
                            ),
                        ),
                        cursor,
                        package,
                    }
                } else {
                    Outcome::Fail(
                        syntax_error_at(SyntaxErrorKindView::OneOfNonField, lexems, cursor - 1),
                    )
                },
                _ => Outcome::Stuck,
            },
            _ => Outcome::Stuck,
        },
        Task::ParseEnumDeclaration => push_parsed(
            match grammar::enum_declaration(lexems, cursor) {
                Ok((declaration, next)) => Ok((StackItemView::Enum(declaration), next)),
                Err(error) => Err(error),
            },
            values,
            package,
        ),
        Task::ParseEnumEntries => match values {
            Stack::Push(below, StackItemView::EnumEntriesList(entries)) => match *below {
                Stack::Push(rest, StackItemView::Text(name)) => push_parsed(
                    match grammar::enum_entries(lexems, cursor, entries) {
                        Ok((all, next)) => Ok(
                            (StackItemView::Enum(EnumDeclarationView { name, entries: all }), next),
                        ),
                        Err(error) => Err(error),
                    },
                    *rest,
                    package,
                ),
                _ => Outcome::Stuck,
            },
            _ => Outcome::Stuck,
        },
        Task::ParseEnumEntry => match values {
            Stack::Push(rest, StackItemView::EnumEntriesList(entries)) => push_parsed(
                match grammar::enum_entry(lexems, cursor) {
                    Ok((entry, next)) => Ok(
                        (StackItemView::EnumEntriesList(entries.push(entry)), next),
                    ),
                    Err(error) => Err(error),
                },
                *rest,
                package,
            ),
            _ => Outcome::Stuck,
        },
        Task::ParseFieldDeclaration => match values {
            Stack::Push(rest, StackItemView::MessageEntriesList(entries)) => push_parsed(
                match grammar::field(lexems, cursor) {
                    Ok((field, next)) => Ok(
                        (
                            StackItemView::MessageEntriesList(
                                entries.push(MessageEntryView::Field(field)),
                            ),
                            next,
                        ),
                    ),
                    Err(error) => Err(error),
                },
                *rest,
                package,
            ),
            _ => Outcome::Stuck,
        },
        Task::PushFieldDeclaration => match values {
            Stack::Push(s1, StackItemView::OptionalAttributes(attributes)) => match *s1 {
                Stack::Push(s2, StackItemView::Int64(tag)) => match *s2 {
                    Stack::Push(s3, StackItemView::Text(name)) => match *s3 {
                        Stack::Push(s4, StackItemView::FieldType(field_type)) => match *s4 {
                            Stack::Push(
                                rest,
                                StackItemView::MessageEntriesList(entries),
                            ) => Outcome::Next {
                                values: Stack::Push(
                                    rest,
                                    StackItemView::MessageEntriesList(
                                        entries.push(
                                            MessageEntryView::Field(
                                                FieldDeclarationView {
                                                    name,
                                                    tag,
                                                    field_type,
                                                    attributes: grammar::attribute_list(attributes),
                                                },
                                            ),
                                        ),
                                    ),
                                ),
                                cursor,
                                package,
                            },
                            _ => Outcome::Stuck,
                        },
                        _ => Outcome::Stuck,
                    },
                    _ => Outcome::Stuck,
                },
                _ => Outcome::Stuck,
            },
            _ => Outcome::Stuck,
        },
        Task::ParseFieldType(position) => push_parsed(
            match grammar::field_type(lexems, cursor, position) {
                Ok((field_type, next)) => Ok((StackItemView::FieldType(field_type), next)),
                Err(error) => Err(error),
            },
            values,
            package,
        ),
        Task::WrapFieldType => match values {
            Stack::Push(rest, StackItemView::StringList(ids)) => Outcome::Next {
                values: Stack::Push(rest, StackItemView::FieldType(FieldTypeView::IdPath(ids))),
                cursor,
                package,
            },
            _ => Outcome::Stuck,
        },
        Task::ParseIdPath => push_parsed(
            match grammar::id_path(lexems, cursor) {
                Ok((ids, next)) => Ok((StackItemView::StringList(ids), next)),
                Err(error) => Err(error),
            },
            values,
            package,
        ),
        Task::WrapRepeated => match values {
            Stack::Push(rest, StackItemView::FieldType(element)) => Outcome::Next {
                values: Stack::Push(
                    rest,
                    StackItemView::FieldType(FieldTypeView::Repeated(Box::new(element))),
                ),
                cursor,
                package,
            },
            _ => Outcome::Stuck,
        },
        Task::WrapMapType => match values {
            Stack::Push(below, StackItemView::FieldType(value)) => match *below {
                Stack::Push(rest, StackItemView::FieldType(key)) => Outcome::Next {
                    values: Stack::Push(
                        rest,
                        StackItemView::FieldType(
                            FieldTypeView::MapOf(Box::new(key), Box::new(value)),
                        ),
                    ),
                    cursor,
                    package,
                },
                _ => Outcome::Stuck,
            },
            _ => Outcome::Stuck,
        },
        Task::ParseOptionalAttributes => push_parsed(
            match grammar::optional_attributes(lexems, cursor) {
                Ok((attributes, next)) => Ok((StackItemView::OptionalAttributes(attributes), next)),
                Err(error) => Err(error),
            },
            values,
            package,
        ),
        Task::ParseFieldAttributes => match values {
            Stack::Push(rest, StackItemView::OptionalAttributes(Some(pairs))) => push_parsed(
                match grammar::attributes(lexems, cursor, pairs) {
                    Ok((all, next)) => Ok((StackItemView::OptionalAttributes(Some(all)), next)),
                    Err(error) => Err(error),
                },
                *rest,
                package,
            ),
            _ => Outcome::Stuck,
        },
        Task::ParseMoreFieldAttributes => match values {
            Stack::Push(rest, StackItemView::OptionalAttributes(Some(pairs))) => push_parsed(
                match grammar::more_attributes(lexems, cursor, pairs) {
                    Ok((all, next)) => Ok((StackItemView::OptionalAttributes(Some(all)), next)),
                    Err(error) => Err(error),
                },
                *rest,
                package,
            ),
            _ => Outcome::Stuck,
        },
        Task::ParseFieldAttribute => match values {
            Stack::Push(rest, StackItemView::OptionalAttributes(Some(pairs))) => push_parsed(
                match grammar::attribute(lexems, cursor) {
                    Ok((pair, next)) => Ok(
                        (StackItemView::OptionalAttributes(Some(pairs.push(pair))), next),
                    ),
                    Err(error) => Err(error),
                },
                *rest,
                package,
            ),
            _ => Outcome::Stuck,
        },
        Task::PushFieldAttribute => match values {
            Stack::Push(s1, StackItemView::Text(value)) => match *s1 {
                Stack::Push(s2, StackItemView::Text(key)) => match *s2 {
                    Stack::Push(rest, StackItemView::OptionalAttributes(Some(pairs))) => Outcome::Next {
                        values: Stack::Push(
                            rest,
                            StackItemView::OptionalAttributes(Some(pairs.push((key, value)))),
                        ),
                        cursor,
                        package,
                    },
                    _ => Outcome::Stuck,
                },
                _ => Outcome::Stuck,
            },
            _ => Outcome::Stuck,
        },
    }
}

/// What the pending tasks yield when they are carried out from the top: the
/// package once none is left, the first failure, or `None` where a task finds
/// the value stack in a state that it cannot work on.
pub open spec fn run(
    tasks: Stack<Task>,
    lexems: Seq<LocatedLexem>,
    values: Stack<StackItemView>,
    cursor: int,
    package: PackageView,
) -> Option<Result<PackageView, ProtoErrorView>>
    decreases tasks,
{
    match tasks {
        Stack::Empty => Some(Ok(package)),
        Stack::Push(rest, task) => match effect(task, lexems, values, cursor, package) {
            Outcome::Next { values, cursor, package } => run(
                *rest,
                lexems,
                values,
                cursor,
                package,
            ),
            Outcome::Fail(error) => Some(Err(error)),
            Outcome::Stuck => None,
        },
    }
}

/// What the tasks in `tasks` lead to when they are carried out from the top,
/// one after the other, up to the first that does not succeed.
pub open spec fn carry_out(
    tasks: Stack<Task>,
    lexems: Seq<LocatedLexem>,
    values: Stack<StackItemView>,
    cursor: int,
    package: PackageView,
) -> Outcome
    decreases tasks,
{
    match tasks {
        Stack::Empty => Outcome::Next { values, cursor, package },
        Stack::Push(rest, task) => match effect(task, lexems, values, cursor, package) {
            Outcome::Next { values, cursor, package } => carry_out(
                *rest,
                lexems,
                values,
                cursor,
                package,
            ),
            other => other,
        },
    }
}

/// The stack that holds `below` and, above it, the elements of `above`.
pub open spec fn onto<T>(above: Stack<T>, below: Stack<T>) -> Stack<T>
    decreases above,
{
    match above {
        Stack::Empty => below,
        Stack::Push(rest, top) => Stack::Push(Box::new(onto(*rest, below)), top),
    }
}

/// The stack with `top` put on `rest`.
pub open spec fn on<T>(rest: Stack<T>, top: T) -> Stack<T> {
    Stack::Push(Box::new(rest), top)
}

/// Tasks put on top of others are carried out first, and the others go on
/// from where they ended.
pub proof fn lemma_run_onto(
    above: Stack<Task>,
    below: Stack<Task>,
    lexems: Seq<LocatedLexem>,
    values: Stack<StackItemView>,
    cursor: int,
    package: PackageView,
)
    ensures
        run(onto(above, below), lexems, values, cursor, package) == (match carry_out(
            above,
            lexems,
            values,
            cursor,
            package,
        ) {
            Outcome::Next { values, cursor, package } => run(
                below,
                lexems,
                values,
                cursor,
                package,
            ),
            Outcome::Fail(error) => Some(Err(error)),
            Outcome::Stuck => None,
        }),
    decreases above,
{
    match above {
        Stack::Empty => {},
        Stack::Push(rest, task) => {
            match effect(task, lexems, values, cursor, package) {
                Outcome::Next { values, cursor, package } => {
                    lemma_run_onto(*rest, below, lexems, values, cursor, package);
                },
                _ => {},
            }
        },
    }
}

/// What one step does with the task on top.
pub enum Move {
    /// The task is replaced by `parts`, none where it is done, and the
    /// machine goes on in this state.
    Go { parts: Stack<Task>, values: Stack<StackItemView>, cursor: int, package: PackageView },
    /// The tokens do not follow the grammar.
    Fail(ProtoErrorView),
    /// The value stack does not hold what the task takes from it.
    Stuck,
}

/// The move of a task that is carried out in one step.
pub open spec fn done(outcome: Outcome) -> Move {
    match outcome {
        Outcome::Next { values, cursor, package } => Move::Go {
            parts: Stack::Empty,
            values,
            cursor,
            package,
        },
        Outcome::Fail(error) => Move::Fail(error),
        Outcome::Stuck => Move::Stuck,
    }
}

/// The move that replaces a task by `parts` and changes nothing else.
pub open spec fn replaced_by(
    parts: Stack<Task>,
    values: Stack<StackItemView>,
    cursor: int,
    package: PackageView,
) -> Move {
    Move::Go { parts, values, cursor, package }
}

/// The move that fails with a syntax error at `ind`.
pub open spec fn fails(kind: SyntaxErrorKindView, lexems: Seq<LocatedLexem>, ind: int) -> Move {
    Move::Fail(syntax_error_at(kind, lexems, ind))
}

/// A task and then `next`.
pub open spec fn and_then(next: Task, first: Task) -> Stack<Task> {
    on(on(Stack::Empty, next), first)
}

/// `message`, the name, `{`, an empty list, the entries, `}`, and the assembly.
pub open spec fn message_tasks() -> Stack<Task> {
    on(
        on(
            on(
                on(
                    on(
                        on(
                            on(Stack::Empty, Task::PushMessageStatement),
                            Task::ExpectLexem(Symbol::CloseCurly),
                        ),
                        Task::ParseMessageEntries,
                    ),
                    Task::PushEntriesList,
                ),
                Task::ExpectLexem(Symbol::OpenCurly),
            ),
            Task::ParseId,
        ),
        Task::ExpectLexem(Symbol::Message),
    )
}

/// `oneof`, the name, an empty list, `{`, the entries, `}`, and the assembly.
pub open spec fn one_of_tasks() -> Stack<Task> {
    on(
        on(
            on(
                on(
                    on(
                        on(on(Stack::Empty, Task::PushOneOf), Task::ExpectLexem(Symbol::CloseCurly)),
                        Task::ParseMessageEntries,
                    ),
                    Task::ExpectLexem(Symbol::OpenCurly),
                ),
                Task::PushEntriesList,
            ),
            Task::ParseId,
        ),
        Task::ExpectLexem(Symbol::OneOf),
    )
}

/// The type, the name, `=`, the number, the options, `;`, and the assembly.
pub open spec fn field_tasks() -> Stack<Task> {
    on(
        on(
            on(
                on(
                    on(
                        on(
                            on(Stack::Empty, Task::PushFieldDeclaration),
                            Task::ExpectLexem(Symbol::SemiColon),
                        ),
                        Task::ParseOptionalAttributes,
                    ),
                    Task::ParseInt64,
                ),
                Task::ExpectLexem(Symbol::Equal),
            ),
            Task::ParseId,
        ),
        Task::ParseFieldType(TypePosition::Field),
    )
}

/// `map`, `<`, the key, `,`, the value, `>`, and the assembly.
pub open spec fn map_type_tasks() -> Stack<Task> {
    on(
        on(
            on(
                on(
                    on(
                        on(on(Stack::Empty, Task::WrapMapType), Task::ExpectLexem(Symbol::Greater)),
                        Task::ParseFieldType(TypePosition::MapArgument),
                    ),
                    Task::ExpectLexem(Symbol::Comma),
                ),
                Task::ParseFieldType(TypePosition::MapArgument),
            ),
            Task::ExpectLexem(Symbol::Less),
        ),
        Task::ExpectLexem(Symbol::MapWord),
    )
}

/// The key, `=`, the value, and the assembly.
pub open spec fn attribute_tasks() -> Stack<Task> {
    on(
        on(
            on(on(Stack::Empty, Task::PushFieldAttribute), Task::ParseStringLiteral),
            Task::ExpectLexem(Symbol::Equal),
        ),
        Task::ParseId,
    )
}

/// A declaration, wrapped as an entry and added to the entries.
pub open spec fn entry_tasks(declaration: Task) -> Stack<Task> {
    on(on(on(Stack::Empty, Task::PushMessageEntry), Task::WrapMessageEntry), declaration)
}

/// The table of the machine: what one step does with `task` on top, in the
/// given state.
///
/// A task that stands for one token, for a statement without a body, or for
/// an assembly is carried out. Any other is replaced by the tasks that make
/// it up, the first of them on top; which ones they are is decided by the
/// token at the cursor.
pub open spec fn schedule(
    task: Task,
    lexems: Seq<LocatedLexem>,
    values: Stack<StackItemView>,
    cursor: int,
    package: PackageView,
) -> Move {
    match task {
        Task::ParseStatements => match lexem_at(lexems, cursor) {
            None => fails(SyntaxErrorKindView::UnexpectedEnd, lexems, cursor),
            Some(Lexem::EOF) => replaced_by(Stack::Empty, values, cursor, package),
            Some(_) => replaced_by(
                and_then(Task::ParseStatements, Task::ParseStatement),
                values,
                cursor,
                package,
            ),
        },
        Task::ParseStatement => match lexem_at(lexems, cursor) {
            None => fails(SyntaxErrorKindView::UnexpectedEnd, lexems, cursor),
            Some(Lexem::Id(text)) => if text@ == word_syntax() {
                replaced_by(on(Stack::Empty, Task::ParseSyntaxStatement), values, cursor, package)
            } else if text@ == word_message() {
                replaced_by(
                    and_then(Task::AppendDeclarationToPackage, Task::ParseMessageStatement),
                    values,
                    cursor,
                    package,
                )
            } else if text@ == word_import() {
                replaced_by(on(Stack::Empty, Task::ParseImportStatement), values, cursor, package)
            } else if text@ == word_package() {
                replaced_by(on(Stack::Empty, Task::ParsePackageStatement), values, cursor, package)
            } else if text@ == word_enum() {
                replaced_by(
                    and_then(Task::AppendDeclarationToPackage, Task::ParseEnumDeclaration),
                    values,
                    cursor,
                    package,
                )
            } else {
                fails(SyntaxErrorKindView::UnexpectedIdentifier(text@), lexems, cursor)
            },
            Some(Lexem::SemiColon) => replaced_by(Stack::Empty, values, cursor + 1, package),
            Some(_) => fails(SyntaxErrorKindView::UnexpectedLexem, lexems, cursor),
        },
        Task::ParseMessageStatement => replaced_by(message_tasks(), values, cursor, package),
        Task::ParseOneOf => replaced_by(one_of_tasks(), values, cursor, package),
        Task::ParseFieldDeclaration => replaced_by(field_tasks(), values, cursor, package),
        Task::ParseFieldAttribute => replaced_by(attribute_tasks(), values, cursor, package),
        Task::ParseMessageEntries => match lexem_at(lexems, cursor) {
            None => fails(SyntaxErrorKindView::UnexpectedEnd, lexems, cursor),
            Some(Lexem::Id(_)) => replaced_by(
                and_then(Task::ParseMessageEntries, Task::ParseMessageEntry),
                values,
                cursor,
                package,
            ),
            Some(Lexem::CloseCurly) => replaced_by(Stack::Empty, values, cursor, package),
            Some(_) => fails(SyntaxErrorKindView::UnexpectedLexem, lexems, cursor),
        },
        Task::ParseMessageEntry => match lexem_at(lexems, cursor) {
            None => fails(SyntaxErrorKindView::UnexpectedEnd, lexems, cursor),
            Some(Lexem::Id(text)) => if text@ == word_message() {
                replaced_by(entry_tasks(Task::ParseMessageStatement), values, cursor, package)
            } else if text@ == word_enum() {
                replaced_by(entry_tasks(Task::ParseEnumDeclaration), values, cursor, package)
            } else if text@ == word_oneof() {
                replaced_by(entry_tasks(Task::ParseOneOf), values, cursor, package)
            } else {
                replaced_by(on(Stack::Empty, Task::ParseFieldDeclaration), values, cursor, package)
            },
            Some(_) => fails(SyntaxErrorKindView::UnexpectedLexem, lexems, cursor),
        },
        Task::ParseEnumDeclaration => if cursor < 0 || cursor + 4 > lexems.len() {
            fails(SyntaxErrorKindView::NotEnoughLexems(Production::EnumStatement), lexems, cursor)
        } else if !lexems[cursor].lexem.is_symbol(Symbol::Enum) {
            fails(SyntaxErrorKindView::Expected(Symbol::Enum), lexems, cursor)
        } else {
            match lexems[cursor + 1].lexem {
                Lexem::Id(name) => if lexems[cursor + 2].lexem is OpenCurly {
                    replaced_by(
                        on(Stack::Empty, Task::ParseEnumEntries),
                        on(
                            on(values, StackItemView::Text(name@)),
                            StackItemView::EnumEntriesList(Seq::empty()),
                        ),
                        cursor + 3,
                        package,
                    )
                } else {
                    fails(SyntaxErrorKindView::ExpectedCurlyOpen, lexems, cursor + 2)
                },
                _ => fails(SyntaxErrorKindView::ExpectedEnumName, lexems, cursor + 1),
            }
        },
        Task::ParseEnumEntries => match lexem_at(lexems, cursor) {
            None => fails(SyntaxErrorKindView::UnexpectedEnd, lexems, cursor),
            Some(Lexem::CloseCurly) => match values {
                Stack::Push(below, StackItemView::EnumEntriesList(entries)) => match *below {
                    Stack::Push(rest, StackItemView::Text(name)) => replaced_by(
                        Stack::Empty,
                        Stack::Push(
                            rest,
                            StackItemView::Enum(EnumDeclarationView { name, entries }),
                        ),
                        cursor + 1,
                        package,
                    ),
                    _ => Move::Stuck,
                },
                _ => Move::Stuck,
            },
            Some(Lexem::Id(_)) => replaced_by(
                and_then(Task::ParseEnumEntries, Task::ParseEnumEntry),
                values,
                cursor,
                package,
            ),
            Some(_) => fails(SyntaxErrorKindView::UnexpectedLexem, lexems, cursor),
        },
        Task::ParseFieldType(position) => match lexem_at(lexems, cursor) {
            Some(Lexem::Id(text)) => if text@ == word_repeated() {
                if position is Field {
                    replaced_by(
                        and_then(Task::WrapRepeated, Task::ParseFieldType(TypePosition::Element)),
                        values,
                        cursor + 1,
                        package,
                    )
                } else {
                    fails(SyntaxErrorKindView::NestedFieldType, lexems, cursor)
                }
            } else if text@ == word_map() {
                if position is Element {
                    fails(SyntaxErrorKindView::NestedFieldType, lexems, cursor)
                } else {
                    replaced_by(map_type_tasks(), values, cursor, package)
                }
            } else {
                replaced_by(
                    and_then(Task::WrapFieldType, Task::ParseIdPath),
                    values,
                    cursor,
                    package,
                )
            },
            _ => fails(SyntaxErrorKindView::ExpectedFieldType, lexems, cursor),
        },
        Task::ParseOptionalAttributes => match lexem_at(lexems, cursor) {
            Some(Lexem::OpenBracket) => replaced_by(
                and_then(Task::ParseFieldAttributes, Task::ExpectLexem(Symbol::OpenBracket)),
                on(values, StackItemView::OptionalAttributes(Some(Seq::empty()))),
                cursor,
                package,
            ),
            _ => replaced_by(
                Stack::Empty,
                on(values, StackItemView::OptionalAttributes(None)),
                cursor,
                package,
            ),
        },
        Task::ParseFieldAttributes => match lexem_at(lexems, cursor) {
            Some(Lexem::CloseBracket) => replaced_by(Stack::Empty, values, cursor + 1, package),
            _ => replaced_by(
                and_then(Task::ParseMoreFieldAttributes, Task::ParseFieldAttribute),
                values,
                cursor,
                package,
            ),
        },
        Task::ParseMoreFieldAttributes => match lexem_at(lexems, cursor) {
            Some(Lexem::CloseBracket) => replaced_by(Stack::Empty, values, cursor + 1, package),
            Some(Lexem::Comma) => replaced_by(
                and_then(Task::ParseMoreFieldAttributes, Task::ParseFieldAttribute),
                values,
                cursor + 1,
                package,
            ),
            _ => fails(SyntaxErrorKindView::ExpectedCommaOrCloseBracket, lexems, cursor),
        },
        _ => done(effect(task, lexems, values, cursor, package)),
    }
}

/// Whether `task`, where it does not fail, moves the cursor itself or hands
/// over to a task that does before any other runs.
pub open spec fn consumes(task: Task) -> bool {
    match task {
        Task::ParseStatements
        | Task::ParseMessageEntries
        | Task::ParseOptionalAttributes
        | Task::WrapRepeated
        | Task::PushEntriesList
        | Task::AppendDeclarationToPackage
        | Task::PushFieldDeclaration
        | Task::PushFieldAttribute
        | Task::WrapMessageEntry
        | Task::PushMessageEntry
        | Task::PushMessageStatement
        | Task::WrapFieldType
        | Task::WrapMapType
        | Task::PushOneOf => false,
        _ => true,
    }
}

/// A bound on the steps that `task` takes before the cursor moves.
pub open spec fn rank(task: Task) -> nat {
    match task {
        Task::ParseMessageEntries => 5,
        Task::ParseStatements | Task::ParseMessageEntry => 4,
        Task::ParseStatement | Task::ParseFieldDeclaration | Task::ParseFieldAttributes => 3,
        Task::ParseMessageStatement
        | Task::ParseOneOf
        | Task::ParseFieldType(_)
        | Task::ParseEnumEntries
        | Task::ParseOptionalAttributes
        | Task::ParseFieldAttribute => 2,
        _ => 1,
    }
}

/// A bound on the steps that the machine takes before the cursor moves or the
/// tasks run out.
pub open spec fn potential(tasks: Stack<Task>) -> nat
    decreases tasks,
{
    match tasks {
        Stack::Empty => 0,
        Stack::Push(rest, task) => if consumes(task) {
            rank(task)
        } else {
            rank(task) + potential(*rest)
        },
    }
}

} // verus!
