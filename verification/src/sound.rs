//! The machine is sound: a step changes neither what the parse yields in the
//! end nor that it ends.

use vstd::prelude::*;
use crate::lexems::LocatedLexem;
use crate::error::ProtoErrorView;
use crate::package::PackageView;
use crate::grammar;
use crate::grammar::TypePosition;
use crate::machine::{
    Task, StackItemView, Stack, Outcome, Move, effect, run, carry_out, on, onto, potential, schedule,
    lemma_run_onto,
};

verus! {

/// What the step that [`schedule`] describes for `task`, taken from the top
/// of `rest`, has to meet: the parse yields from the state after it what it
/// yielded before, the cursor stays within the tokens and does not go back,
/// and where it stands, fewer steps are left before it moves. A failure is
/// what the parse yielded.
pub open spec fn sound_move(
    task: Task,
    rest: Stack<Task>,
    lexems: Seq<LocatedLexem>,
    values: Stack<StackItemView>,
    cursor: int,
    package: PackageView,
) -> bool {
    let before = run(on(rest, task), lexems, values, cursor, package);
    match schedule(task, lexems, values, cursor, package) {
        Move::Go { parts, values: after_values, cursor: after_cursor, package: after_package } => {
            &&& run(onto(parts, rest), lexems, after_values, after_cursor, after_package) == before
            &&& cursor <= after_cursor <= lexems.len()
            &&& after_cursor > cursor || potential(onto(parts, rest)) < potential(on(rest, task))
        },
        Move::Fail(error) => before == Some(Err::<PackageView, ProtoErrorView>(error)),
        Move::Stuck => false,
    }
}

proof fn lemma_go(
    task: Task,
    rest: Stack<Task>,
    lexems: Seq<LocatedLexem>,
    values: Stack<StackItemView>,
    cursor: int,
    package: PackageView,
)
    ensures
        schedule(task, lexems, values, cursor, package) matches Move::Go {
            parts,
            values: after_values,
            cursor: after_cursor,
            package: after_package,
        } ==> run(onto(parts, rest), lexems, after_values, after_cursor, after_package) == (
        match carry_out(parts, lexems, after_values, after_cursor, after_package) {
            Outcome::Next { values, cursor, package } => run(rest, lexems, values, cursor, package),
            Outcome::Fail(error) => Some(Err(error)),
            Outcome::Stuck => None,
        }),
{
    if let Move::Go { parts, values: after_values, cursor: after_cursor, package: after_package } =
        schedule(task, lexems, values, cursor, package) {
        lemma_run_onto(parts, rest, lexems, after_values, after_cursor, after_package);
    }
}

proof fn lemma_sound_statements(
    task: Task,
    rest: Stack<Task>,
    lexems: Seq<LocatedLexem>,
    values: Stack<StackItemView>,
    cursor: int,
    package: PackageView,
)
    requires
        0 <= cursor <= lexems.len(),
        run(on(rest, task), lexems, values, cursor, package) is Some,
        task is ParseStatements || task is ParseStatement,
    ensures
        sound_move(task, rest, lexems, values, cursor, package),
{
    grammar::lemma_statement_advances(lexems, cursor, package);
    lemma_go(task, rest, lexems, values, cursor, package);
    reveal_with_fuel(carry_out, 3);
    reveal_with_fuel(onto, 3);
    reveal_with_fuel(potential, 2);
}

proof fn lemma_sound_statement_leaves(
    task: Task,
    rest: Stack<Task>,
    lexems: Seq<LocatedLexem>,
    values: Stack<StackItemView>,
    cursor: int,
    package: PackageView,
)
    requires
        0 <= cursor <= lexems.len(),
        run(on(rest, task), lexems, values, cursor, package) is Some,
        task is ParseSyntaxStatement || task is ParseImportStatement || task is ParsePackageStatement
            || task is AppendDeclarationToPackage,
    ensures
        sound_move(task, rest, lexems, values, cursor, package),
{
    grammar::lemma_package_path_advances(lexems, cursor + 1, Seq::empty());
    lemma_go(task, rest, lexems, values, cursor, package);
    reveal_with_fuel(carry_out, 2);
    reveal_with_fuel(onto, 2);
    reveal_with_fuel(potential, 2);
}

proof fn lemma_sound_token_leaves(
    task: Task,
    rest: Stack<Task>,
    lexems: Seq<LocatedLexem>,
    values: Stack<StackItemView>,
    cursor: int,
    package: PackageView,
)
    requires
        0 <= cursor <= lexems.len(),
        run(on(rest, task), lexems, values, cursor, package) is Some,
        task is ExpectLexem || task is ParseId || task is ParseStringLiteral || task is ParseInt64
            || task is ParseIdPath || task is ParseEnumEntry,
    ensures
        sound_move(task, rest, lexems, values, cursor, package),
{
    grammar::lemma_id_path_advances(lexems, cursor, Seq::empty());
    lemma_go(task, rest, lexems, values, cursor, package);
    reveal_with_fuel(carry_out, 2);
    reveal_with_fuel(onto, 2);
    reveal_with_fuel(potential, 2);
}

proof fn lemma_sound_assemblies(
    task: Task,
    rest: Stack<Task>,
    lexems: Seq<LocatedLexem>,
    values: Stack<StackItemView>,
    cursor: int,
    package: PackageView,
)
    requires
        0 <= cursor <= lexems.len(),
        run(on(rest, task), lexems, values, cursor, package) is Some,
        task is PushEntriesList || task is PushMessageStatement || task is WrapMessageEntry
            || task is PushMessageEntry || task is PushOneOf || task is PushFieldDeclaration
            || task is WrapFieldType || task is WrapRepeated || task is WrapMapType
            || task is PushFieldAttribute,
    ensures
        sound_move(task, rest, lexems, values, cursor, package),
{
    lemma_go(task, rest, lexems, values, cursor, package);
    reveal_with_fuel(carry_out, 2);
    reveal_with_fuel(onto, 2);
    reveal_with_fuel(potential, 2);
}

proof fn lemma_sound_message(
    rest: Stack<Task>,
    lexems: Seq<LocatedLexem>,
    values: Stack<StackItemView>,
    cursor: int,
    package: PackageView,
)
    requires
        0 <= cursor <= lexems.len(),
        run(on(rest, Task::ParseMessageStatement), lexems, values, cursor, package) is Some,
    ensures
        sound_move(Task::ParseMessageStatement, rest, lexems, values, cursor, package),
{
    lemma_go(Task::ParseMessageStatement, rest, lexems, values, cursor, package);
    reveal_with_fuel(carry_out, 8);
    reveal_with_fuel(onto, 8);
    reveal_with_fuel(potential, 2);
}

proof fn lemma_one_of_parts(
    lexems: Seq<LocatedLexem>,
    values: Stack<StackItemView>,
    cursor: int,
    package: PackageView,
)
    ensures
        carry_out(crate::machine::one_of_tasks(), lexems, values, cursor, package) == effect(
            Task::ParseOneOf,
            lexems,
            values,
            cursor,
            package,
        ),
{
    reveal_with_fuel(carry_out, 8);
}

proof fn lemma_sound_one_of(
    rest: Stack<Task>,
    lexems: Seq<LocatedLexem>,
    values: Stack<StackItemView>,
    cursor: int,
    package: PackageView,
)
    requires
        0 <= cursor <= lexems.len(),
        run(on(rest, Task::ParseOneOf), lexems, values, cursor, package) is Some,
    ensures
        sound_move(Task::ParseOneOf, rest, lexems, values, cursor, package),
{
    lemma_go(Task::ParseOneOf, rest, lexems, values, cursor, package);
    lemma_one_of_parts(lexems, values, cursor, package);
    reveal_with_fuel(onto, 8);
    reveal_with_fuel(potential, 2);
}

proof fn lemma_sound_field(
    task: Task,
    rest: Stack<Task>,
    lexems: Seq<LocatedLexem>,
    values: Stack<StackItemView>,
    cursor: int,
    package: PackageView,
)
    requires
        0 <= cursor <= lexems.len(),
        run(on(rest, task), lexems, values, cursor, package) is Some,
        task is ParseFieldDeclaration || task is ParseFieldAttribute,
    ensures
        sound_move(task, rest, lexems, values, cursor, package),
{
    lemma_go(task, rest, lexems, values, cursor, package);
    reveal_with_fuel(carry_out, 8);
    reveal_with_fuel(onto, 8);
    reveal_with_fuel(potential, 2);
}

proof fn lemma_sound_entries(
    task: Task,
    rest: Stack<Task>,
    lexems: Seq<LocatedLexem>,
    values: Stack<StackItemView>,
    cursor: int,
    package: PackageView,
)
    requires
        0 <= cursor <= lexems.len(),
        run(on(rest, task), lexems, values, cursor, package) is Some,
        task is ParseMessageEntries || task is ParseMessageEntry,
    ensures
        sound_move(task, rest, lexems, values, cursor, package),
{
    grammar::lemma_message_entry_advances(lexems, cursor);
    lemma_go(task, rest, lexems, values, cursor, package);
    reveal_with_fuel(carry_out, 4);
    reveal_with_fuel(onto, 4);
    reveal_with_fuel(potential, 2);
}

proof fn lemma_sound_enum(
    task: Task,
    rest: Stack<Task>,
    lexems: Seq<LocatedLexem>,
    values: Stack<StackItemView>,
    cursor: int,
    package: PackageView,
)
    requires
        0 <= cursor <= lexems.len(),
        run(on(rest, task), lexems, values, cursor, package) is Some,
        task is ParseEnumDeclaration || task is ParseEnumEntries,
    ensures
        sound_move(task, rest, lexems, values, cursor, package),
{
    lemma_go(task, rest, lexems, values, cursor, package);
    reveal_with_fuel(carry_out, 3);
    reveal_with_fuel(onto, 3);
    reveal_with_fuel(potential, 2);
}

proof fn lemma_sound_field_type(
    position: TypePosition,
    rest: Stack<Task>,
    lexems: Seq<LocatedLexem>,
    values: Stack<StackItemView>,
    cursor: int,
    package: PackageView,
)
    requires
        0 <= cursor <= lexems.len(),
        run(on(rest, Task::ParseFieldType(position)), lexems, values, cursor, package) is Some,
    ensures
        sound_move(Task::ParseFieldType(position), rest, lexems, values, cursor, package),
{
    let task = Task::ParseFieldType(position);
    grammar::lemma_field_type_advances(lexems, cursor + 2, TypePosition::MapArgument);
    assert(grammar::field_type(lexems, cursor, position) == grammar::map_type(lexems, cursor)
        || !(schedule(task, lexems, values, cursor, package) matches Move::Go { parts, .. }
        && parts == crate::machine::map_type_tasks()));
    lemma_go(task, rest, lexems, values, cursor, package);
    reveal_with_fuel(carry_out, 8);
    reveal_with_fuel(onto, 8);
    reveal_with_fuel(potential, 2);
}

proof fn lemma_sound_attributes(
    task: Task,
    rest: Stack<Task>,
    lexems: Seq<LocatedLexem>,
    values: Stack<StackItemView>,
    cursor: int,
    package: PackageView,
)
    requires
        0 <= cursor <= lexems.len(),
        run(on(rest, task), lexems, values, cursor, package) is Some,
        task is ParseOptionalAttributes || task is ParseFieldAttributes
            || task is ParseMoreFieldAttributes,
    ensures
        sound_move(task, rest, lexems, values, cursor, package),
{
    lemma_go(task, rest, lexems, values, cursor, package);
    reveal_with_fuel(carry_out, 3);
    reveal_with_fuel(onto, 3);
    reveal_with_fuel(potential, 2);
}

/// Every step of the machine is sound: from a state within the tokens from
/// which the parse yields a result, the step that [`schedule`] describes
/// leads to a state from which it yields the same, nearer to the end; and a
/// step that fails does so with the error that the parse yields.
pub proof fn lemma_step_sound(
    task: Task,
    rest: Stack<Task>,
    lexems: Seq<LocatedLexem>,
    values: Stack<StackItemView>,
    cursor: int,
    package: PackageView,
)
    requires
        0 <= cursor <= lexems.len(),
        run(on(rest, task), lexems, values, cursor, package) is Some,
    ensures
        sound_move(task, rest, lexems, values, cursor, package),
{
    match task {
        Task::ParseStatements | Task::ParseStatement => {
            lemma_sound_statements(task, rest, lexems, values, cursor, package);
        },
        Task::ParseSyntaxStatement
        | Task::ParseImportStatement
        | Task::ParsePackageStatement
        | Task::AppendDeclarationToPackage => {
            lemma_sound_statement_leaves(task, rest, lexems, values, cursor, package);
        },
        Task::ExpectLexem(_)
        | Task::ParseId
        | Task::ParseStringLiteral
        | Task::ParseInt64
        | Task::ParseIdPath
        | Task::ParseEnumEntry => {
            lemma_sound_token_leaves(task, rest, lexems, values, cursor, package);
        },
        Task::ParseMessageStatement => {
            lemma_sound_message(rest, lexems, values, cursor, package);
        },
        Task::ParseOneOf => {
            lemma_sound_one_of(rest, lexems, values, cursor, package);
        },
        Task::ParseFieldDeclaration | Task::ParseFieldAttribute => {
            lemma_sound_field(task, rest, lexems, values, cursor, package);
        },
        Task::ParseMessageEntries | Task::ParseMessageEntry => {
            lemma_sound_entries(task, rest, lexems, values, cursor, package);
        },
        Task::ParseEnumDeclaration | Task::ParseEnumEntries => {
            lemma_sound_enum(task, rest, lexems, values, cursor, package);
        },
        Task::ParseFieldType(position) => {
            lemma_sound_field_type(position, rest, lexems, values, cursor, package);
        },
        Task::ParseOptionalAttributes
        | Task::ParseFieldAttributes
        | Task::ParseMoreFieldAttributes => {
            lemma_sound_attributes(task, rest, lexems, values, cursor, package);
        },
        _ => {
            lemma_sound_assemblies(task, rest, lexems, values, cursor, package);
        },
    }
}

} // verus!
