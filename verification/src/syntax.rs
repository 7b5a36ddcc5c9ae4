//! The parser: an iterative machine with a stack of pending tasks and a stack
//! of fragments. Each step follows the table of [`crate::machine`], and the
//! whole computes [`crate::grammar::package`].

use vstd::prelude::*;
use crate::views::{views, lemma_views_push, lemma_views_empty};
use crate::lexems::{Lexem, LocatedLexem, Symbol, spelled};
use crate::error::{
    Production, ProtoError, ProtoErrorView, SyntaxErrorKind, syntax_error, syntax_error_at,
};
use crate::package::{
    ProtoVersion, FieldType, FieldDeclaration, EnumEntry, EnumDeclaration, OneOfDeclaration,
    MessageEntry, MessageDeclaration, Declaration, Package, PackageView, lemma_message_view,
};
use crate::grammar;
use crate::grammar::TypePosition;
use crate::machine::{
    Task, StackItem, StackItemView, Stack, Move, stack_of, values_of, run, onto, potential,
    schedule, lemma_stack_of_push, lemma_values_of_push, lemma_values_of_pop,
};
use crate::sound::lemma_step_sound;

verus! {

/// Checks that `len` tokens are left from `ind` on, and reports `kind` at
/// `ind` where they are not.
pub fn assert_enough_length(
    located_lexems: &[LocatedLexem],
    ind: usize,
    len: usize,
    kind: SyntaxErrorKind,
) -> (result: Result<(), ProtoError>)
    ensures
        result is Ok <==> ind + len <= located_lexems@.len(),
        result matches Err(error) ==> error@ == syntax_error_at(
            kind@,
            located_lexems@,
            ind as int,
        ),
{
    let total = located_lexems.len();
    if ind > total || len > total - ind {
        return Err(syntax_error(kind, located_lexems, ind));
    }
    Ok(())
}

/// Reads a dotted identifier path that starts at `start`.
pub fn read_id_path(located_lexems: &[LocatedLexem], start: usize) -> (result: Result<
    (Vec<String>, usize),
    ProtoError,
>)
    ensures
        match result {
            Ok((ids, next)) => next <= located_lexems@.len() && grammar::id_path(
                located_lexems@,
                start as int,
            ) == Ok::<(Seq<Seq<char>>, int), ProtoErrorView>((views(ids@), next as int)),
            Err(error) => grammar::id_path(located_lexems@, start as int) == Err::<
                (Seq<Seq<char>>, int),
                ProtoErrorView,
            >(error@),
        },
{
    let mut ids: Vec<String> = Vec::new();
    let mut ind = start;
    proof {
        lemma_views_empty::<String>();
    }
    loop
        invariant
            grammar::id_path_from(located_lexems@, ind as int, views(ids@)) == grammar::id_path(
                located_lexems@,
                start as int,
            ),
        decreases located_lexems@.len() - ind,
    {
        if ind >= located_lexems.len() {
            return Err(syntax_error(SyntaxErrorKind::ExpectedIdentifier, located_lexems, ind));
        }
        match &located_lexems[ind].lexem {
            Lexem::Id(text) => {
                let segment = text.clone();
                proof {
                    lemma_views_push(ids@, segment);
                }
                ids.push(segment);
                if ind + 1 < located_lexems.len() && matches!(
                    located_lexems[ind + 1].lexem,
                    Lexem::Dot
                ) {
                    ind = ind + 2;
                } else {
                    return Ok((ids, ind + 1));
                }
            },
            _ => {
                return Err(syntax_error(SyntaxErrorKind::ExpectedIdentifier, located_lexems, ind));
            },
        }
    }
}

/// Reads the segments of a package name from `start` up to the `;` after them.
pub fn read_package_path(located_lexems: &[LocatedLexem], start: usize) -> (result: Result<
    (Vec<String>, usize),
    ProtoError,
>)
    ensures
        match result {
            Ok((path, next)) => next <= located_lexems@.len() && grammar::package_path(
                located_lexems@,
                start as int,
                Seq::empty(),
            ) == Ok::<(Seq<Seq<char>>, int), ProtoErrorView>((views(path@), next as int)),
            Err(error) => grammar::package_path(located_lexems@, start as int, Seq::empty()) == Err::<
                (Seq<Seq<char>>, int),
                ProtoErrorView,
            >(error@),
        },
{
    let mut path: Vec<String> = Vec::new();
    let mut ind = start;
    proof {
        lemma_views_empty::<String>();
    }
    loop
        invariant
            grammar::package_path(located_lexems@, ind as int, views(path@))
                == grammar::package_path(located_lexems@, start as int, Seq::empty()),
        decreases located_lexems@.len() - ind,
    {
        if ind >= located_lexems.len() {
            return Err(syntax_error(SyntaxErrorKind::ExpectedIdentifier, located_lexems, ind));
        }
        match &located_lexems[ind].lexem {
            Lexem::Id(text) => {
                let segment = text.clone();
                proof {
                    lemma_views_push(path@, segment);
                }
                path.push(segment);
                if ind + 1 < located_lexems.len() {
                    match &located_lexems[ind + 1].lexem {
                        Lexem::Dot => {
                            ind = ind + 2;
                        },
                        Lexem::SemiColon => {
                            return Ok((path, ind + 2));
                        },
                        _ => {
                            return Err(
                                syntax_error(
                                    SyntaxErrorKind::ExpectedDotOrSemiColon,
                                    located_lexems,
                                    ind + 1,
                                ),
                            );
                        },
                    }
                } else {
                    return Err(
                        syntax_error(SyntaxErrorKind::ExpectedDotOrSemiColon, located_lexems, ind + 1),
                    );
                }
            },
            _ => {
                return Err(syntax_error(SyntaxErrorKind::ExpectedIdentifier, located_lexems, ind));
            },
        }
    }
}

/// Takes the fields out of `entries`, where every entry is a plain field.
pub fn into_fields(entries: Vec<MessageEntry>) -> (fields: Option<Vec<FieldDeclaration>>)
    ensures
        match fields {
            Some(fields) => grammar::only_fields(views(entries@)) && views(fields@)
                == grammar::fields_of(views(entries@)),
            None => !grammar::only_fields(views(entries@)),
        },
{
    let ghost all = entries@;
    let mut remaining = entries;
    let mut reversed: Vec<FieldDeclaration> = Vec::new();
    while remaining.len() > 0
        invariant
            all == entries@,
            remaining@.len() + reversed@.len() == all.len(),
            remaining@ =~= all.subrange(0, remaining@.len() as int),
            forall|k: int|
                0 <= k < reversed@.len() ==> all[all.len() - 1 - k] == MessageEntry::Field(
                    #[trigger] reversed@[k],
                ),
        decreases remaining@.len(),
    {
        match remaining.pop() {
            Some(MessageEntry::Field(field)) => {
                reversed.push(field);
            },
            _ => {
                proof {
                    let at = remaining@.len() as int;
                    assert(!(views(all)[at] is Field));
                }
                return None;
            },
        }
    }
    let ghost back = reversed@;
    let mut fields: Vec<FieldDeclaration> = Vec::new();
    while reversed.len() > 0
        invariant
            back.len() == all.len(),
            reversed@.len() + fields@.len() == all.len(),
            reversed@ =~= back.subrange(0, reversed@.len() as int),
            forall|k: int|
                0 <= k < back.len() ==> all[all.len() - 1 - k] == MessageEntry::Field(
                    #[trigger] back[k],
                ),
            forall|k: int| 0 <= k < fields@.len() ==> all[k] == MessageEntry::Field(#[trigger] fields@[k]),
        decreases reversed@.len(),
    {
        let ghost at = reversed@.len() - 1;
        match reversed.pop() {
            Some(field) => {
                assert(field == back[at]);
                assert(all[all.len() - 1 - at] == MessageEntry::Field(back[at]));
                fields.push(field);
            },
            None => {},
        }
    }
    proof {
        assert forall|i: int| 0 <= i < views(all).len() implies (#[trigger] views(all)[i]) is Field by {
            assert(all[i] == MessageEntry::Field(fields@[i]));
        }
        assert forall|i: int| 0 <= i < fields@.len() implies views(fields@)[i] == grammar::fields_of(
            views(all),
        )[i] by {
            assert(all[i] == MessageEntry::Field(fields@[i]));
        }
        assert(views(fields@) =~= grammar::fields_of(views(all)));
    }
    Some(fields)
}

/// The state of a parse: the pending tasks, the fragments built so far, the
/// index of the next token, and the package as the statements read so far
/// have left it.
pub struct Parser {
    pub tasks: Vec<Task>,
    pub stack: Vec<StackItem>,
    pub cursor: usize,
    pub package: Package,
}

impl Parser {
    /// The pending tasks, the next one on top.
    pub open spec fn pending(&self) -> Stack<Task> {
        stack_of(self.tasks@)
    }

    /// The fragments built so far, the latest on top.
    pub open spec fn values(&self) -> Stack<StackItemView> {
        values_of(self.stack@)
    }

    /// What the parse yields when it is carried on from this state over
    /// `lexems`; `None` where the state is one that no parse reaches.
    pub open spec fn outcome(&self, lexems: Seq<LocatedLexem>) -> Option<
        Result<PackageView, ProtoErrorView>,
    > {
        run(self.pending(), lexems, self.values(), self.cursor as int, self.package@)
    }

    /// `after` and `result` are what the step for `task`, taken from the top of
    /// the tasks of `self`, leads to by the table of the machine.
    pub open spec fn moved(
        &self,
        task: Task,
        after: Parser,
        result: Result<(), ProtoError>,
        lexems: Seq<LocatedLexem>,
    ) -> bool {
        match schedule(task, lexems, self.values(), self.cursor as int, self.package@) {
            Move::Go { parts, values, cursor, package } => {
                &&& result is Ok
                &&& after.pending() == onto(parts, self.pending())
                &&& after.values() == values
                &&& after.cursor == cursor
                &&& after.package@ == package
            },
            Move::Fail(error) => result matches Err(reported) && reported@ == error,
            Move::Stuck => result matches Err(reported) && reported@ == ProtoErrorView::Internal,
        }
    }

    /// `after` and `result` are what one step from `self` leads to: nothing
    /// changes where no task is left, and else the task on top is dealt with
    /// as the table of the machine says.
    pub open spec fn stepped(
        &self,
        after: Parser,
        result: Result<(), ProtoError>,
        lexems: Seq<LocatedLexem>,
    ) -> bool {
        match self.pending() {
            Stack::Empty => {
                &&& result is Ok
                &&& after.pending() is Empty
                &&& after.values() == self.values()
                &&& after.cursor == self.cursor
                &&& after.package@ == self.package@
            },
            Stack::Push(rest, task) => match schedule(
                task,
                lexems,
                self.values(),
                self.cursor as int,
                self.package@,
            ) {
                Move::Go { parts, values, cursor, package } => {
                    &&& result is Ok
                    &&& after.pending() == onto(parts, *rest)
                    &&& after.values() == values
                    &&& after.cursor == cursor
                    &&& after.package@ == package
                },
                Move::Fail(error) => result matches Err(reported) && reported@ == error,
                Move::Stuck => result matches Err(reported) && reported@
                    == ProtoErrorView::Internal,
            },
        }
    }

    /// A step keeps what the parse yields. From a state within the tokens
    /// from which the parse yields a result, a step that succeeds leads to a
    /// state from which it yields the same, still within the tokens and
    /// nearer to the end; a step that fails reports the error that the parse
    /// yields.
    pub proof fn lemma_step_keeps_outcome(
        &self,
        after: Parser,
        result: Result<(), ProtoError>,
        lexems: Seq<LocatedLexem>,
    )
        requires
            self.cursor <= lexems.len(),
            self.outcome(lexems) is Some,
            self.stepped(after, result, lexems),
        ensures
            match result {
                Ok(()) => {
                    &&& after.outcome(lexems) == self.outcome(lexems)
                    &&& self.cursor <= after.cursor <= lexems.len()
                    &&& !(self.pending() is Empty) ==> after.cursor > self.cursor || potential(
                        after.pending(),
                    ) < potential(self.pending())
                },
                Err(error) => self.outcome(lexems) == Some(
                    Err::<PackageView, ProtoErrorView>(error@),
                ),
            },
    {
        if let Stack::Push(rest, task) = self.pending() {
            lemma_step_sound(task, *rest, lexems, self.values(), self.cursor as int, self.package@);
        }
    }

    /// The state before the first token: one task, to read all statements.
    pub fn new() -> (parser: Parser)
        ensures
            parser.cursor == 0,
            parser.pending() == Stack::Push(Box::new(Stack::Empty), Task::ParseStatements),
            parser.values() == Stack::<StackItemView>::Empty,
            parser.package@ == PackageView::initial(),
            forall|lexems: Seq<LocatedLexem>| #[trigger]
                parser.outcome(lexems) == Some(grammar::package(lexems)),
    {
        let mut tasks = Vec::new();
        tasks.push(Task::ParseStatements);
        let parser = Parser { tasks, stack: Vec::new(), cursor: 0, package: Package::new() };
        proof {
            lemma_stack_of_push(Seq::<Task>::empty(), Task::ParseStatements);
            assert(parser.tasks@ =~= Seq::<Task>::empty().push(Task::ParseStatements));
            lemma_views_empty::<StackItem>();
            assert(parser.stack@ =~= Seq::<StackItem>::empty());
            reveal_with_fuel(run, 2);
        }
        parser
    }

    /// Whether no task is left.
    pub fn is_done(&self) -> (done: bool)
        ensures
            done == (self.pending() is Empty),
    {
        self.tasks.len() == 0
    }

    fn push_task(&mut self, task: Task)
        ensures
            final(self).pending() == Stack::Push(Box::new(old(self).pending()), task),
            final(self).stack == old(self).stack,
            final(self).cursor == old(self).cursor,
            final(self).package == old(self).package,
    {
        proof {
            lemma_stack_of_push(self.tasks@, task);
        }
        self.tasks.push(task);
    }

    fn pop_task(&mut self) -> (task: Option<Task>)
        ensures
            match task {
                Some(top) => old(self).pending() == Stack::Push(
                    Box::new(final(self).pending()),
                    top,
                ),
                None => old(self).pending() is Empty && final(self).pending() is Empty,
            },
            final(self).stack == old(self).stack,
            final(self).cursor == old(self).cursor,
            final(self).package == old(self).package,
    {
        let ghost before = self.tasks@;
        let task = self.tasks.pop();
        proof {
            if before.len() > 0 {
                assert(self.tasks@ =~= before.drop_last());
            }
        }
        task
    }

    fn push_value(&mut self, item: StackItem)
        ensures
            final(self).values() == Stack::Push(Box::new(old(self).values()), item@),
            final(self).tasks == old(self).tasks,
            final(self).cursor == old(self).cursor,
            final(self).package == old(self).package,
    {
        proof {
            lemma_values_of_push(self.stack@, item);
        }
        self.stack.push(item);
    }

    fn pop_value(&mut self) -> (item: Option<StackItem>)
        ensures
            match item {
                Some(top) => old(self).values() == Stack::Push(
                    Box::new(final(self).values()),
                    top@,
                ),
                None => old(self).values() is Empty && final(self).values() is Empty,
            },
            final(self).tasks == old(self).tasks,
            final(self).cursor == old(self).cursor,
            final(self).package == old(self).package,
    {
        let ghost before = self.stack@;
        let item = self.stack.pop();
        proof {
            if before.len() > 0 {
                lemma_values_of_pop(before);
                assert(self.stack@ =~= before.drop_last());
            }
        }
        item
    }

    // One method for each task. Each is called with its task taken off the
    // stack, and does with it what the table of the machine says.

    fn expect_lexem(&mut self, lexems: &[LocatedLexem], symbol: Symbol) -> (result: Result<
        (),
        ProtoError,
    >)
        ensures
            old(self).moved(Task::ExpectLexem(symbol), *final(self), result, lexems@),
    {
        if self.cursor < lexems.len() && lexems[self.cursor].lexem.has_symbol(symbol) {
            self.cursor += 1;
            Ok(())
        } else {
            Err(syntax_error(SyntaxErrorKind::Expected(symbol), lexems, self.cursor))
        }
    }

    fn parse_id(&mut self, lexems: &[LocatedLexem]) -> (result: Result<(), ProtoError>)
        ensures
            old(self).moved(Task::ParseId, *final(self), result, lexems@),
    {
        if self.cursor < lexems.len() {
            if let Lexem::Id(text) = &lexems[self.cursor].lexem {
                self.push_value(StackItem::Text(text.clone()));
                self.cursor += 1;
                return Ok(());
            }
        }
        Err(syntax_error(SyntaxErrorKind::ExpectedIdentifier, lexems, self.cursor))
    }

    fn parse_string_literal(&mut self, lexems: &[LocatedLexem]) -> (result: Result<(), ProtoError>)
        ensures
            old(self).moved(Task::ParseStringLiteral, *final(self), result, lexems@),
    {
        if self.cursor < lexems.len() {
            if let Lexem::StringLiteral(text) = &lexems[self.cursor].lexem {
                self.push_value(StackItem::Text(text.clone()));
                self.cursor += 1;
                return Ok(());
            }
        }
        Err(syntax_error(SyntaxErrorKind::ExpectedStringLiteral, lexems, self.cursor))
    }

    fn parse_int64(&mut self, lexems: &[LocatedLexem]) -> (result: Result<(), ProtoError>)
        ensures
            old(self).moved(Task::ParseInt64, *final(self), result, lexems@),
    {
        if self.cursor < lexems.len() {
            if let Lexem::IntLiteral(value) = &lexems[self.cursor].lexem {
                self.push_value(StackItem::Int64(*value));
                self.cursor += 1;
                return Ok(());
            }
        }
        Err(syntax_error(SyntaxErrorKind::ExpectedIntLiteral, lexems, self.cursor))
    }

    fn parse_statements(&mut self, lexems: &[LocatedLexem]) -> (result: Result<(), ProtoError>)
        ensures
            old(self).moved(Task::ParseStatements, *final(self), result, lexems@),
    {
        if self.cursor >= lexems.len() {
            return Err(syntax_error(SyntaxErrorKind::UnexpectedEnd, lexems, self.cursor));
        }
        match &lexems[self.cursor].lexem {
            Lexem::EOF => Ok(()),
            _ => {
                self.push_task(Task::ParseStatements);
                self.push_task(Task::ParseStatement);
                proof {
                    reveal_with_fuel(onto, 3);
                }
                Ok(())
            },
        }
    }

    fn parse_statement(&mut self, lexems: &[LocatedLexem]) -> (result: Result<(), ProtoError>)
        ensures
            old(self).moved(Task::ParseStatement, *final(self), result, lexems@),
    {
        if self.cursor >= lexems.len() {
            return Err(syntax_error(SyntaxErrorKind::UnexpectedEnd, lexems, self.cursor));
        }
        proof {
            reveal_with_fuel(onto, 3);
        }
        let lexem = &lexems[self.cursor].lexem;
        match lexem {
            Lexem::Id(id) => {
                if spelled(id, "syntax") {
                    self.push_task(Task::ParseSyntaxStatement);
                    Ok(())
                } else if spelled(id, "message") {
                    self.push_task(Task::AppendDeclarationToPackage);
                    self.push_task(Task::ParseMessageStatement);
                    Ok(())
                } else if spelled(id, "import") {
                    self.push_task(Task::ParseImportStatement);
                    Ok(())
                } else if spelled(id, "package") {
                    self.push_task(Task::ParsePackageStatement);
                    Ok(())
                } else if spelled(id, "enum") {
                    self.push_task(Task::AppendDeclarationToPackage);
                    self.push_task(Task::ParseEnumDeclaration);
                    Ok(())
                } else {
                    Err(
                        syntax_error(
                            SyntaxErrorKind::UnexpectedIdentifier(id.clone()),
                            lexems,
                            self.cursor,
                        ),
                    )
                }
            },
            Lexem::SemiColon => {
                self.cursor += 1;
                Ok(())
            },
            _ => Err(syntax_error(SyntaxErrorKind::UnexpectedLexem, lexems, self.cursor)),
        }
    }

    fn parse_syntax_statement(&mut self, lexems: &[LocatedLexem]) -> (result: Result<
        (),
        ProtoError,
    >)
        ensures
            old(self).moved(Task::ParseSyntaxStatement, *final(self), result, lexems@),
    {
        let ind = self.cursor;
        assert_enough_length(
            lexems,
            ind,
            4,
            SyntaxErrorKind::NotEnoughLexems(Production::SyntaxStatement),
        )?;
        match (
            &lexems[ind].lexem,
            &lexems[ind + 1].lexem,
            &lexems[ind + 2].lexem,
            &lexems[ind + 3].lexem,
        ) {
            (Lexem::Id(id), Lexem::Equal, Lexem::StringLiteral(version), Lexem::SemiColon) => {
                if spelled(id, "syntax") && spelled(version, "proto2") {
                    self.package.version = ProtoVersion::Proto2;
                    self.cursor = ind + 4;
                    Ok(())
                } else if spelled(id, "syntax") && spelled(version, "proto3") {
                    self.package.version = ProtoVersion::Proto3;
                    self.cursor = ind + 4;
                    Ok(())
                } else {
                    Err(syntax_error(SyntaxErrorKind::InvalidSyntaxStatement, lexems, ind))
                }
            },
            _ => Err(syntax_error(SyntaxErrorKind::InvalidSyntaxStatement, lexems, ind)),
        }
    }

    fn parse_import_statement(&mut self, lexems: &[LocatedLexem]) -> (result: Result<
        (),
        ProtoError,
    >)
        ensures
            old(self).moved(Task::ParseImportStatement, *final(self), result, lexems@),
    {
        let ind = self.cursor;
        assert_enough_length(
            lexems,
            ind,
            3,
            SyntaxErrorKind::NotEnoughLexems(Production::ImportStatement),
        )?;
        match (&lexems[ind].lexem, &lexems[ind + 1].lexem, &lexems[ind + 2].lexem) {
            (Lexem::Id(id), Lexem::StringLiteral(path), Lexem::SemiColon) => {
                if spelled(id, "import") {
                    let import = path.clone();
                    proof {
                        lemma_views_push(self.package.imports@, import);
                    }
                    self.package.imports.push(import);
                    self.cursor = ind + 3;
                    Ok(())
                } else {
                    Err(syntax_error(SyntaxErrorKind::InvalidImportStatement, lexems, ind))
                }
            },
            _ => Err(syntax_error(SyntaxErrorKind::InvalidImportStatement, lexems, ind)),
        }
    }

    fn parse_package_statement(&mut self, lexems: &[LocatedLexem]) -> (result: Result<
        (),
        ProtoError,
    >)
        ensures
            old(self).moved(Task::ParsePackageStatement, *final(self), result, lexems@),
    {
        let ind = self.cursor;
        assert_enough_length(
            lexems,
            ind,
            3,
            SyntaxErrorKind::NotEnoughLexems(Production::PackageStatement),
        )?;
        if !lexems[ind].lexem.has_word("package") {
            return Err(syntax_error(SyntaxErrorKind::InvalidPackageStatement, lexems, ind));
        }
        match read_package_path(lexems, ind + 1) {
            Ok((path, next)) => {
                self.package.path = path;
                self.cursor = next;
                Ok(())
            },
            Err(error) => Err(error),
        }
    }

    fn append_declaration_to_package(&mut self, lexems: &[LocatedLexem]) -> (result: Result<
        (),
        ProtoError,
    >)
        ensures
            old(self).moved(Task::AppendDeclarationToPackage, *final(self), result, lexems@),
    {
        let declaration = match self.pop_value() {
            Some(StackItem::Message(message)) => Declaration::Message(message),
            Some(StackItem::Enum(declaration)) => Declaration::Enum(declaration),
            _ => {
                return Err(ProtoError::Internal);
            },
        };
        proof {
            lemma_views_push(self.package.declarations@, declaration);
        }
        self.package.declarations.push(declaration);
        Ok(())
    }

    fn parse_enum_declaration(&mut self, lexems: &[LocatedLexem]) -> (result: Result<
        (),
        ProtoError,
    >)
        ensures
            old(self).moved(Task::ParseEnumDeclaration, *final(self), result, lexems@),
    {
        let ind = self.cursor;
        assert_enough_length(
            lexems,
            ind,
            4,
            SyntaxErrorKind::NotEnoughLexems(Production::EnumStatement),
        )?;
        if !lexems[ind].lexem.has_symbol(Symbol::Enum) {
            return Err(syntax_error(SyntaxErrorKind::Expected(Symbol::Enum), lexems, ind));
        }
        let name = match &lexems[ind + 1].lexem {
            Lexem::Id(id) => id.clone(),
            _ => {
                return Err(syntax_error(SyntaxErrorKind::ExpectedEnumName, lexems, ind + 1));
            },
        };
        match &lexems[ind + 2].lexem {
            Lexem::OpenCurly => {},
            _ => {
                return Err(syntax_error(SyntaxErrorKind::ExpectedCurlyOpen, lexems, ind + 2));
            },
        }
        self.push_value(StackItem::Text(name));
        self.push_value(StackItem::EnumEntriesList(Vec::new()));
        self.cursor = ind + 3;
        self.push_task(Task::ParseEnumEntries);
        proof {
            lemma_views_empty::<EnumEntry>();
            reveal_with_fuel(onto, 2);
        }
        Ok(())
    }

    fn parse_enum_entries(&mut self, lexems: &[LocatedLexem]) -> (result: Result<(), ProtoError>)
        ensures
            old(self).moved(Task::ParseEnumEntries, *final(self), result, lexems@),
    {
        if self.cursor >= lexems.len() {
            return Err(syntax_error(SyntaxErrorKind::UnexpectedEnd, lexems, self.cursor));
        }
        match &lexems[self.cursor].lexem {
            Lexem::CloseCurly => {
                let entries = match self.pop_value() {
                    Some(StackItem::EnumEntriesList(entries)) => entries,
                    _ => {
                        return Err(ProtoError::Internal);
                    },
                };
                let name = match self.pop_value() {
                    Some(StackItem::Text(name)) => name,
                    _ => {
                        return Err(ProtoError::Internal);
                    },
                };
                self.push_value(StackItem::Enum(EnumDeclaration { name, entries }));
                self.cursor += 1;
                Ok(())
            },
            Lexem::Id(_) => {
                self.push_task(Task::ParseEnumEntries);
                self.push_task(Task::ParseEnumEntry);
                proof {
                    reveal_with_fuel(onto, 3);
                }
                Ok(())
            },
            _ => Err(syntax_error(SyntaxErrorKind::UnexpectedLexem, lexems, self.cursor)),
        }
    }

    fn parse_enum_entry(&mut self, lexems: &[LocatedLexem]) -> (result: Result<(), ProtoError>)
        ensures
            old(self).moved(Task::ParseEnumEntry, *final(self), result, lexems@),
    {
        let mut list = match self.pop_value() {
            Some(StackItem::EnumEntriesList(list)) => list,
            _ => {
                return Err(ProtoError::Internal);
            },
        };
        let ind = self.cursor;
        assert_enough_length(
            lexems,
            ind,
            4,
            SyntaxErrorKind::NotEnoughLexems(Production::EnumEntry),
        )?;
        match (
            &lexems[ind].lexem,
            &lexems[ind + 1].lexem,
            &lexems[ind + 2].lexem,
            &lexems[ind + 3].lexem,
        ) {
            (Lexem::Id(id), Lexem::Equal, Lexem::IntLiteral(value), Lexem::SemiColon) => {
                let entry = EnumEntry { name: id.clone(), value: *value };
                proof {
                    lemma_views_push(list@, entry);
                }
                list.push(entry);
                self.push_value(StackItem::EnumEntriesList(list));
                self.cursor = ind + 4;
                Ok(())
            },
            _ => Err(syntax_error(SyntaxErrorKind::InvalidEnumEntry, lexems, ind)),
        }
    }

    fn parse_message_statement(&mut self, lexems: &[LocatedLexem]) -> (result: Result<
        (),
        ProtoError,
    >)
        ensures
            old(self).moved(Task::ParseMessageStatement, *final(self), result, lexems@),
    {
        self.push_task(Task::PushMessageStatement);
        self.push_task(Task::ExpectLexem(Symbol::CloseCurly));
        self.push_task(Task::ParseMessageEntries);
        self.push_task(Task::PushEntriesList);
        self.push_task(Task::ExpectLexem(Symbol::OpenCurly));
        self.push_task(Task::ParseId);
        self.push_task(Task::ExpectLexem(Symbol::Message));
        proof {
            reveal_with_fuel(onto, 8);
        }
        Ok(())
    }

    fn parse_one_of(&mut self, lexems: &[LocatedLexem]) -> (result: Result<(), ProtoError>)
        ensures
            old(self).moved(Task::ParseOneOf, *final(self), result, lexems@),
    {
        self.push_task(Task::PushOneOf);
        self.push_task(Task::ExpectLexem(Symbol::CloseCurly));
        self.push_task(Task::ParseMessageEntries);
        self.push_task(Task::ExpectLexem(Symbol::OpenCurly));
        self.push_task(Task::PushEntriesList);
        self.push_task(Task::ParseId);
        self.push_task(Task::ExpectLexem(Symbol::OneOf));
        proof {
            reveal_with_fuel(onto, 8);
        }
        Ok(())
    }

    fn push_entries_list(&mut self, lexems: &[LocatedLexem]) -> (result: Result<(), ProtoError>)
        ensures
            old(self).moved(Task::PushEntriesList, *final(self), result, lexems@),
    {
        proof {
            lemma_views_empty::<MessageEntry>();
        }
        self.push_value(StackItem::MessageEntriesList(Vec::new()));
        Ok(())
    }

    fn parse_message_entries(&mut self, lexems: &[LocatedLexem]) -> (result: Result<
        (),
        ProtoError,
    >)
        ensures
            old(self).moved(Task::ParseMessageEntries, *final(self), result, lexems@),
    {
        if self.cursor >= lexems.len() {
            return Err(syntax_error(SyntaxErrorKind::UnexpectedEnd, lexems, self.cursor));
        }
        match &lexems[self.cursor].lexem {
            Lexem::Id(_) => {
                self.push_task(Task::ParseMessageEntries);
                self.push_task(Task::ParseMessageEntry);
                proof {
                    reveal_with_fuel(onto, 3);
                }
                Ok(())
            },
            Lexem::CloseCurly => Ok(()),
            _ => Err(syntax_error(SyntaxErrorKind::UnexpectedLexem, lexems, self.cursor)),
        }
    }

    fn parse_message_entry(&mut self, lexems: &[LocatedLexem]) -> (result: Result<(), ProtoError>)
        ensures
            old(self).moved(Task::ParseMessageEntry, *final(self), result, lexems@),
    {
        if self.cursor >= lexems.len() {
            return Err(syntax_error(SyntaxErrorKind::UnexpectedEnd, lexems, self.cursor));
        }
        match &lexems[self.cursor].lexem {
            Lexem::Id(id) => {
                if spelled(id, "message") {
                    self.push_task(Task::PushMessageEntry);
                    self.push_task(Task::WrapMessageEntry);
                    self.push_task(Task::ParseMessageStatement);
                    proof {
                        reveal_with_fuel(onto, 4);
                    }
                } else if spelled(id, "enum") {
                    self.push_task(Task::PushMessageEntry);
                    self.push_task(Task::WrapMessageEntry);
                    self.push_task(Task::ParseEnumDeclaration);
                    proof {
                        reveal_with_fuel(onto, 4);
                    }
                } else if spelled(id, "oneof") {
                    self.push_task(Task::PushMessageEntry);
                    self.push_task(Task::WrapMessageEntry);
                    self.push_task(Task::ParseOneOf);
                    proof {
                        reveal_with_fuel(onto, 4);
                    }
                } else {
                    self.push_task(Task::ParseFieldDeclaration);
                    proof {
                        reveal_with_fuel(onto, 2);
                    }
                }
                Ok(())
            },
            _ => Err(syntax_error(SyntaxErrorKind::UnexpectedLexem, lexems, self.cursor)),
        }
    }

    fn push_message_statement(&mut self, lexems: &[LocatedLexem]) -> (result: Result<
        (),
        ProtoError,
    >)
        ensures
            old(self).moved(Task::PushMessageStatement, *final(self), result, lexems@),
    {
        let entries = match self.pop_value() {
            Some(StackItem::MessageEntriesList(entries)) => entries,
            _ => {
                return Err(ProtoError::Internal);
            },
        };
        let name = match self.pop_value() {
            Some(StackItem::Text(name)) => name,
            _ => {
                return Err(ProtoError::Internal);
            },
        };
        let message = MessageDeclaration { name, entries };
        proof {
            lemma_message_view(message);
        }
        self.push_value(StackItem::Message(message));
        Ok(())
    }

    fn wrap_message_entry(&mut self, lexems: &[LocatedLexem]) -> (result: Result<(), ProtoError>)
        ensures
            old(self).moved(Task::WrapMessageEntry, *final(self), result, lexems@),
    {
        let entry = match self.pop_value() {
            Some(StackItem::Message(message)) => MessageEntry::Message(message),
            Some(StackItem::Enum(declaration)) => MessageEntry::Enum(declaration),
            Some(StackItem::OneOf(one_of)) => MessageEntry::OneOf(one_of),
            _ => {
                return Err(ProtoError::Internal);
            },
        };
        self.push_value(StackItem::MessageEntry(entry));
        Ok(())
    }

    fn push_message_entry(&mut self, lexems: &[LocatedLexem]) -> (result: Result<(), ProtoError>)
        ensures
            old(self).moved(Task::PushMessageEntry, *final(self), result, lexems@),
    {
        let entry = match self.pop_value() {
            Some(StackItem::MessageEntry(entry)) => entry,
            _ => {
                return Err(ProtoError::Internal);
            },
        };
        let mut entries = match self.pop_value() {
            Some(StackItem::MessageEntriesList(entries)) => entries,
            _ => {
                return Err(ProtoError::Internal);
            },
        };
        proof {
            lemma_views_push(entries@, entry);
        }
        entries.push(entry);
        self.push_value(StackItem::MessageEntriesList(entries));
        Ok(())
    }

    fn push_one_of(&mut self, lexems: &[LocatedLexem]) -> (result: Result<(), ProtoError>)
        ensures
            old(self).moved(Task::PushOneOf, *final(self), result, lexems@),
    {
        let entries = match self.pop_value() {
            Some(StackItem::MessageEntriesList(entries)) => entries,
            _ => {
                return Err(ProtoError::Internal);
            },
        };
        let name = match self.pop_value() {
            Some(StackItem::Text(name)) => name,
            _ => {
                return Err(ProtoError::Internal);
            },
        };
        match into_fields(entries) {
            Some(options) => {
                self.push_value(StackItem::OneOf(OneOfDeclaration { name, options }));
                Ok(())
            },
            None => {
                // The closing brace is the token that was read last.
                let brace = if self.cursor > 0 {
                    self.cursor - 1
                } else {
                    lexems.len()
                };
                Err(syntax_error(SyntaxErrorKind::OneOfNonField, lexems, brace))
            },
        }
    }

    fn parse_field_declaration(&mut self, lexems: &[LocatedLexem]) -> (result: Result<
        (),
        ProtoError,
    >)
        ensures
            old(self).moved(Task::ParseFieldDeclaration, *final(self), result, lexems@),
    {
        self.push_task(Task::PushFieldDeclaration);
        self.push_task(Task::ExpectLexem(Symbol::SemiColon));
        self.push_task(Task::ParseOptionalAttributes);
        self.push_task(Task::ParseInt64);
        self.push_task(Task::ExpectLexem(Symbol::Equal));
        self.push_task(Task::ParseId);
        self.push_task(Task::ParseFieldType(TypePosition::Field));
        proof {
            reveal_with_fuel(onto, 8);
        }
        Ok(())
    }

    fn push_field_declaration(&mut self, lexems: &[LocatedLexem]) -> (result: Result<
        (),
        ProtoError,
    >)
        ensures
            old(self).moved(Task::PushFieldDeclaration, *final(self), result, lexems@),
    {
        let attributes = match self.pop_value() {
            Some(StackItem::OptionalAttributes(Some(pairs))) => pairs,
            Some(StackItem::OptionalAttributes(None)) => {
                proof {
                    lemma_views_empty::<(String, String)>();
                }
                Vec::new()
            },
            _ => {
                return Err(ProtoError::Internal);
            },
        };
        let tag = match self.pop_value() {
            Some(StackItem::Int64(tag)) => tag,
            _ => {
                return Err(ProtoError::Internal);
            },
        };
        let name = match self.pop_value() {
            Some(StackItem::Text(name)) => name,
            _ => {
                return Err(ProtoError::Internal);
            },
        };
        let field_type = match self.pop_value() {
            Some(StackItem::FieldType(field_type)) => field_type,
            _ => {
                return Err(ProtoError::Internal);
            },
        };
        let mut entries = match self.pop_value() {
            Some(StackItem::MessageEntriesList(entries)) => entries,
            _ => {
                return Err(ProtoError::Internal);
            },
        };
        let entry = MessageEntry::Field(FieldDeclaration { name, tag, field_type, attributes });
        proof {
            lemma_views_push(entries@, entry);
        }
        entries.push(entry);
        self.push_value(StackItem::MessageEntriesList(entries));
        Ok(())
    }

    fn parse_field_type(&mut self, lexems: &[LocatedLexem], position: TypePosition) -> (result:
        Result<(), ProtoError>)
        ensures
            old(self).moved(Task::ParseFieldType(position), *final(self), result, lexems@),
    {
        if self.cursor >= lexems.len() {
            return Err(syntax_error(SyntaxErrorKind::ExpectedFieldType, lexems, self.cursor));
        }
        match &lexems[self.cursor].lexem {
            Lexem::Id(id) => {
                if spelled(id, "repeated") {
                    match position {
                        TypePosition::Field => {
                            self.cursor += 1;
                            self.push_task(Task::WrapRepeated);
                            self.push_task(Task::ParseFieldType(TypePosition::Element));
                            proof {
                                reveal_with_fuel(onto, 3);
                            }
                            Ok(())
                        },
                        _ => Err(
                            syntax_error(SyntaxErrorKind::NestedFieldType, lexems, self.cursor),
                        ),
                    }
                } else if spelled(id, "map") {
                    match position {
                        TypePosition::Element => Err(
                            syntax_error(SyntaxErrorKind::NestedFieldType, lexems, self.cursor),
                        ),
                        _ => {
                            self.push_task(Task::WrapMapType);
                            self.push_task(Task::ExpectLexem(Symbol::Greater));
                            self.push_task(Task::ParseFieldType(TypePosition::MapArgument));
                            self.push_task(Task::ExpectLexem(Symbol::Comma));
                            self.push_task(Task::ParseFieldType(TypePosition::MapArgument));
                            self.push_task(Task::ExpectLexem(Symbol::Less));
                            self.push_task(Task::ExpectLexem(Symbol::MapWord));
                            proof {
                                reveal_with_fuel(onto, 8);
                            }
                            Ok(())
                        },
                    }
                } else {
                    self.push_task(Task::WrapFieldType);
                    self.push_task(Task::ParseIdPath);
                    proof {
                        reveal_with_fuel(onto, 3);
                    }
                    Ok(())
                }
            },
            _ => Err(syntax_error(SyntaxErrorKind::ExpectedFieldType, lexems, self.cursor)),
        }
    }

    fn wrap_field_type(&mut self, lexems: &[LocatedLexem]) -> (result: Result<(), ProtoError>)
        ensures
            old(self).moved(Task::WrapFieldType, *final(self), result, lexems@),
    {
        let ids = match self.pop_value() {
            Some(StackItem::StringList(ids)) => ids,
            _ => {
                return Err(ProtoError::Internal);
            },
        };
        self.push_value(StackItem::FieldType(FieldType::IdPath(ids)));
        Ok(())
    }

    fn parse_id_path(&mut self, lexems: &[LocatedLexem]) -> (result: Result<(), ProtoError>)
        ensures
            old(self).moved(Task::ParseIdPath, *final(self), result, lexems@),
    {
        match read_id_path(lexems, self.cursor) {
            Ok((ids, next)) => {
                self.push_value(StackItem::StringList(ids));
                self.cursor = next;
                Ok(())
            },
            Err(error) => Err(error),
        }
    }

    fn wrap_repeated(&mut self, lexems: &[LocatedLexem]) -> (result: Result<(), ProtoError>)
        ensures
            old(self).moved(Task::WrapRepeated, *final(self), result, lexems@),
    {
        let element = match self.pop_value() {
            Some(StackItem::FieldType(element)) => element,
            _ => {
                return Err(ProtoError::Internal);
            },
        };
        self.push_value(StackItem::FieldType(FieldType::Repeated(Box::new(element))));
        Ok(())
    }

    fn wrap_map_type(&mut self, lexems: &[LocatedLexem]) -> (result: Result<(), ProtoError>)
        ensures
            old(self).moved(Task::WrapMapType, *final(self), result, lexems@),
    {
        let value = match self.pop_value() {
            Some(StackItem::FieldType(value)) => value,
            _ => {
                return Err(ProtoError::Internal);
            },
        };
        let key = match self.pop_value() {
            Some(StackItem::FieldType(key)) => key,
            _ => {
                return Err(ProtoError::Internal);
            },
        };
        self.push_value(StackItem::FieldType(FieldType::MapOf(Box::new(key), Box::new(value))));
        Ok(())
    }

    fn parse_optional_attributes(&mut self, lexems: &[LocatedLexem]) -> (result: Result<
        (),
        ProtoError,
    >)
        ensures
            old(self).moved(Task::ParseOptionalAttributes, *final(self), result, lexems@),
    {
        proof {
            reveal_with_fuel(onto, 3);
            lemma_views_empty::<(String, String)>();
        }
        if self.cursor < lexems.len() && matches!(lexems[self.cursor].lexem, Lexem::OpenBracket) {
            self.push_value(StackItem::OptionalAttributes(Some(Vec::new())));
            self.push_task(Task::ParseFieldAttributes);
            self.push_task(Task::ExpectLexem(Symbol::OpenBracket));
        } else {
            self.push_value(StackItem::OptionalAttributes(None));
        }
        Ok(())
    }

    fn parse_field_attributes(&mut self, lexems: &[LocatedLexem]) -> (result: Result<
        (),
        ProtoError,
    >)
        ensures
            old(self).moved(Task::ParseFieldAttributes, *final(self), result, lexems@),
    {
        proof {
            reveal_with_fuel(onto, 3);
        }
        if self.cursor < lexems.len() && matches!(lexems[self.cursor].lexem, Lexem::CloseBracket) {
            self.cursor += 1;
        } else {
            self.push_task(Task::ParseMoreFieldAttributes);
            self.push_task(Task::ParseFieldAttribute);
        }
        Ok(())
    }

    fn parse_more_field_attributes(&mut self, lexems: &[LocatedLexem]) -> (result: Result<
        (),
        ProtoError,
    >)
        ensures
            old(self).moved(Task::ParseMoreFieldAttributes, *final(self), result, lexems@),
    {
        if self.cursor >= lexems.len() {
            return Err(
                syntax_error(SyntaxErrorKind::ExpectedCommaOrCloseBracket, lexems, self.cursor),
            );
        }
        proof {
            reveal_with_fuel(onto, 3);
        }
        match &lexems[self.cursor].lexem {
            Lexem::CloseBracket => {
                self.cursor += 1;
                Ok(())
            },
            Lexem::Comma => {
                self.cursor += 1;
                self.push_task(Task::ParseMoreFieldAttributes);
                self.push_task(Task::ParseFieldAttribute);
                Ok(())
            },
            _ => Err(
                syntax_error(SyntaxErrorKind::ExpectedCommaOrCloseBracket, lexems, self.cursor),
            ),
        }
    }

    fn parse_field_attribute(&mut self, lexems: &[LocatedLexem]) -> (result: Result<
        (),
        ProtoError,
    >)
        ensures
            old(self).moved(Task::ParseFieldAttribute, *final(self), result, lexems@),
    {
        self.push_task(Task::PushFieldAttribute);
        self.push_task(Task::ParseStringLiteral);
        self.push_task(Task::ExpectLexem(Symbol::Equal));
        self.push_task(Task::ParseId);
        proof {
            reveal_with_fuel(onto, 5);
        }
        Ok(())
    }

    fn push_field_attribute(&mut self, lexems: &[LocatedLexem]) -> (result: Result<(), ProtoError>)
        ensures
            old(self).moved(Task::PushFieldAttribute, *final(self), result, lexems@),
    {
        let value = match self.pop_value() {
            Some(StackItem::Text(value)) => value,
            _ => {
                return Err(ProtoError::Internal);
            },
        };
        let key = match self.pop_value() {
            Some(StackItem::Text(key)) => key,
            _ => {
                return Err(ProtoError::Internal);
            },
        };
        let mut pairs = match self.pop_value() {
            Some(StackItem::OptionalAttributes(Some(pairs))) => pairs,
            _ => {
                return Err(ProtoError::Internal);
            },
        };
        let pair = (key, value);
        proof {
            lemma_views_push(pairs@, pair);
        }
        pairs.push(pair);
        self.push_value(StackItem::OptionalAttributes(Some(pairs)));
        Ok(())
    }

    /// Takes the task on top and carries it out, or replaces it by the tasks
    /// that make it up, as the table of the machine says. Without a task
    /// left, nothing is done.
    ///
    /// By [`Parser::lemma_step_keeps_outcome`], a step from a state that a
    /// parse reaches leaves what the parse yields in the end as it was, and an
    /// error is the one that the parse yields.
    pub fn step(&mut self, lexems: &[LocatedLexem]) -> (result: Result<(), ProtoError>)
        ensures
            old(self).stepped(*final(self), result, lexems@),
    {
        let task = match self.pop_task() {
            Some(task) => task,
            None => {
                return Ok(());
            },
        };
        match task {
            Task::ParseStatements => self.parse_statements(lexems),
            Task::ParseStatement => self.parse_statement(lexems),
            Task::ParseSyntaxStatement => self.parse_syntax_statement(lexems),
            Task::ParseImportStatement => self.parse_import_statement(lexems),
            Task::ParsePackageStatement => self.parse_package_statement(lexems),
            Task::ParseEnumDeclaration => self.parse_enum_declaration(lexems),
            Task::ParseEnumEntries => self.parse_enum_entries(lexems),
            Task::ParseEnumEntry => self.parse_enum_entry(lexems),
            Task::WrapRepeated => self.wrap_repeated(lexems),
            Task::ParseFieldDeclaration => self.parse_field_declaration(lexems),
            Task::ParseMessageStatement => self.parse_message_statement(lexems),
            Task::ExpectLexem(symbol) => self.expect_lexem(lexems, symbol),
            Task::PushEntriesList => self.push_entries_list(lexems),
            Task::ParseFieldAttributes => self.parse_field_attributes(lexems),
            Task::ParseMoreFieldAttributes => self.parse_more_field_attributes(lexems),
            Task::AppendDeclarationToPackage => self.append_declaration_to_package(lexems),
            Task::ParseFieldAttribute => self.parse_field_attribute(lexems),
            Task::PushFieldDeclaration => self.push_field_declaration(lexems),
            Task::PushFieldAttribute => self.push_field_attribute(lexems),
            Task::ParseMessageEntries => self.parse_message_entries(lexems),
            Task::ParseMessageEntry => self.parse_message_entry(lexems),
            Task::ParseOptionalAttributes => self.parse_optional_attributes(lexems),
            Task::ParseInt64 => self.parse_int64(lexems),
            Task::ParseFieldType(position) => self.parse_field_type(lexems, position),
            Task::ParseStringLiteral => self.parse_string_literal(lexems),
            Task::WrapMessageEntry => self.wrap_message_entry(lexems),
            Task::PushMessageEntry => self.push_message_entry(lexems),
            Task::PushMessageStatement => self.push_message_statement(lexems),
            Task::ParseIdPath => self.parse_id_path(lexems),
            Task::WrapFieldType => self.wrap_field_type(lexems),
            Task::WrapMapType => self.wrap_map_type(lexems),
            Task::ParseOneOf => self.parse_one_of(lexems),
            Task::PushOneOf => self.push_one_of(lexems),
            Task::ParseId => self.parse_id(lexems),
        }
    }
}

/// Parses a sequence of located tokens into the package that they declare.
///
/// The result is what the grammar says of the tokens: the package that
/// [`grammar::package`] describes, or the first syntax error. A package that
/// is returned is well formed, and no error but a syntax error is.
pub fn parse_package(located_lexems: &[LocatedLexem]) -> (result: Result<Package, ProtoError>)
    ensures
        match result {
            Ok(package) => grammar::package(located_lexems@) == Ok::<PackageView, ProtoErrorView>(
                package@,
            ),
            Err(error) => grammar::package(located_lexems@) == Err::<PackageView, ProtoErrorView>(
                error@,
            ),
        },
        result matches Ok(package) ==> package@.well_formed(),
        result matches Err(error) ==> error@ is Syntax,
{
    proof {
        grammar::lemma_package_well_formed(located_lexems@);
        grammar::lemma_package_fails_on_syntax(located_lexems@);
    }
    let mut parser = Parser::new();
    while !parser.is_done()
        invariant
            parser.cursor <= located_lexems@.len(),
            parser.outcome(located_lexems@) == Some(grammar::package(located_lexems@)),
            grammar::package(located_lexems@) matches Err(error) ==> error is Syntax,
        decreases located_lexems@.len() - parser.cursor, potential(parser.pending()),
    {
        let ghost before = parser;
        let result = parser.step(located_lexems);
        proof {
            before.lemma_step_keeps_outcome(parser, result, located_lexems@);
        }
        match result {
            Ok(()) => {},
            Err(error) => {
                return Err(error);
            },
        }
    }
    Ok(parser.package)
}

} // verus!
