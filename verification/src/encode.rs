//! The wire-write instructions of one field.
//!
//! The generator describes how a message is written as calls on a writer. For
//! each field it emits one group of statements. [`events`] says what a group
//! writes for a given value of its field, which is what the laws at the end of
//! this file are stated over.

use vstd::prelude::*;
use crate::views::views;
use crate::package::{BasicType, FieldType, FieldTypeView};
use crate::wire::{WireType, basic_wire_type, packable, tag_value, tag_byte, get_basic_wire_type};

verus! {

/// One call on the writer.
#[derive(Clone, Copy, Debug, PartialEq, Eq, Structural)]
pub enum WriterCall {
    /// Writes a tag, given by its value.
    Tag(i64),
    /// Writes the value at hand with the encoder of the type.
    Value(BasicType),
    /// Opens a length-delimited region.
    Fork,
    /// Closes the region that the last open `Fork` began and fills in its length.
    Delimit,
}

/// One statement of a group.
#[derive(Debug, PartialEq, Eq)]
pub enum Statement {
    /// Calls made one after the other, with the value of the field at hand.
    Chain(Vec<WriterCall>),
    /// Calls made once for each element of the field, in order, with the
    /// element at hand.
    ForEach(Vec<WriterCall>),
}

/// The view of [`Statement`].
pub enum StatementView {
    Chain(Seq<WriterCall>),
    ForEach(Seq<WriterCall>),
}

impl View for Statement {
    type V = StatementView;

    open spec fn view(&self) -> StatementView {
        match self {
            Statement::Chain(calls) => StatementView::Chain(calls@),
            Statement::ForEach(calls) => StatementView::ForEach(calls@),
        }
    }
}

/// The instructions that write one field.
#[derive(Debug, PartialEq, Eq)]
pub struct FieldEncoding {
    /// The name under which the message value holds the field.
    pub field: String,
    /// The field number.
    pub tag: i64,
    /// Whether the statements run only where the field holds at least one element.
    pub guarded: bool,
    pub statements: Vec<Statement>,
}

/// The view of [`FieldEncoding`].
pub struct FieldEncodingView {
    pub field: Seq<char>,
    pub tag: i64,
    pub guarded: bool,
    pub statements: Seq<StatementView>,
}

impl View for FieldEncoding {
    type V = FieldEncodingView;

    open spec fn view(&self) -> FieldEncodingView {
        FieldEncodingView {
            field: self.field@,
            tag: self.tag,
            guarded: self.guarded,
            statements: views(self.statements@),
        }
    }
}

/// The statements that write a scalar value: its tag, then the value.
pub open spec fn scalar_statements(basic: BasicType, field_tag: i64) -> Seq<StatementView> {
    seq![
        StatementView::Chain(
            seq![
                WriterCall::Tag(tag_value(field_tag, basic_wire_type(basic))),
                WriterCall::Value(basic),
            ],
        ),
    ]
}

/// The statements that write the elements packed: one length-delimited tag,
/// a region that holds the bare elements in order, and its end.
pub open spec fn packed_statements(basic: BasicType, field_tag: i64) -> Seq<StatementView> {
    seq![
        StatementView::Chain(
            seq![
                WriterCall::Tag(tag_value(field_tag, WireType::LengthDelimited)),
                WriterCall::Fork,
            ],
        ),
        StatementView::ForEach(seq![WriterCall::Value(basic)]),
        StatementView::Chain(seq![WriterCall::Delimit]),
    ]
}

/// The statements that write the elements one by one, each after its own tag.
pub open spec fn unpacked_statements(basic: BasicType, field_tag: i64) -> Seq<StatementView> {
    seq![
        StatementView::ForEach(
            seq![
                WriterCall::Tag(tag_value(field_tag, basic_wire_type(basic))),
                WriterCall::Value(basic),
            ],
        ),
    ]
}

/// The group that writes a scalar field.
pub open spec fn scalar_encoding(
    field: Seq<char>,
    basic: BasicType,
    field_tag: i64,
) -> FieldEncodingView {
    FieldEncodingView {
        field,
        tag: field_tag,
        guarded: false,
        statements: scalar_statements(basic, field_tag),
    }
}

/// The group that writes an enum field: its number goes out as an `int32`.
pub open spec fn enum_encoding(field: Seq<char>, field_tag: i64) -> FieldEncodingView {
    scalar_encoding(field, BasicType::Int32, field_tag)
}

/// The group that writes a repeated scalar field: guarded, and packed where
/// the type can be.
pub open spec fn repeated_encoding(
    field: Seq<char>,
    basic: BasicType,
    field_tag: i64,
) -> FieldEncodingView {
    FieldEncodingView {
        field,
        tag: field_tag,
        guarded: true,
        statements: if packable(basic) {
            packed_statements(basic, field_tag)
        } else {
            unpacked_statements(basic, field_tag)
        },
    }
}

/// The scalar type behind a basic field type.
pub open spec fn basic_of(field_type: FieldTypeView) -> BasicType
    recommends
        field_type is Basic,
{
    field_type->Basic_0
}

fn basic_type(field_type: &FieldType) -> (basic: BasicType)
    requires
        field_type@ is Basic,
    ensures
        basic == basic_of(field_type@),
{
    match field_type {
        FieldType::Basic(basic) => *basic,
        _ => BasicType::Int32,
    }
}

/// Writes the elements of a repeated field, all of the scalar type
/// `element_type`, as one packed block.
pub fn encode_packed_elements(element_type: &FieldType, field_tag: i64) -> (block: Vec<Statement>)
    requires
        element_type@ is Basic,
    ensures
        views(block@) == packed_statements(basic_of(element_type@), field_tag),
{
    let basic = basic_type(element_type);
    let field_prefix = tag_byte(field_tag, WireType::LengthDelimited);
    let mut open: Vec<WriterCall> = Vec::new();
    open.push(WriterCall::Tag(field_prefix));
    open.push(WriterCall::Fork);
    let mut each: Vec<WriterCall> = Vec::new();
    each.push(WriterCall::Value(basic));
    let mut close: Vec<WriterCall> = Vec::new();
    close.push(WriterCall::Delimit);
    let mut block: Vec<Statement> = Vec::new();
    block.push(Statement::Chain(open));
    block.push(Statement::ForEach(each));
    block.push(Statement::Chain(close));
    proof {
        let wanted = packed_statements(basic, field_tag);
        assert(block@[0]@->Chain_0 =~= wanted[0]->Chain_0);
        assert(block@[1]@->ForEach_0 =~= wanted[1]->ForEach_0);
        assert(block@[2]@->Chain_0 =~= wanted[2]->Chain_0);
        assert(views(block@) =~= wanted);
    }
    block
}

/// Writes the elements of a repeated field, all of the scalar type
/// `element_type`, one by one.
pub fn encode_non_packed_elements(element_type: &FieldType, field_tag: i64) -> (block: Vec<
    Statement,
>)
    requires
        element_type@ is Basic,
    ensures
        views(block@) == unpacked_statements(basic_of(element_type@), field_tag),
{
    let basic = basic_type(element_type);
    let wire_type = get_basic_wire_type(basic);
    let field_prefix = tag_byte(field_tag, wire_type);
    let mut each: Vec<WriterCall> = Vec::new();
    each.push(WriterCall::Tag(field_prefix));
    each.push(WriterCall::Value(basic));
    let mut block: Vec<Statement> = Vec::new();
    block.push(Statement::ForEach(each));
    proof {
        let wanted = unpacked_statements(basic, field_tag);
        assert(block@[0]@->ForEach_0 =~= wanted[0]->ForEach_0);
        assert(views(block@) =~= wanted);
    }
    block
}

/// The group for a repeated field named `field_value` with elements of the
/// scalar type `field_type`: nothing is written for a field without elements,
/// and the elements go out packed where their type can be packed.
pub fn encode_basic_repeated_type_field(
    field_value: &String,
    field_type: &FieldType,
    field_tag: i64,
) -> (group: FieldEncoding)
    requires
        field_type@ is Basic,
    ensures
        group@ == repeated_encoding(field_value@, basic_of(field_type@), field_tag),
{
    let statements = match field_type.packed_wire_type() {
        Some(_) => encode_packed_elements(field_type, field_tag),
        None => encode_non_packed_elements(field_type, field_tag),
    };
    FieldEncoding { field: field_value.clone(), tag: field_tag, guarded: true, statements }
}

/// The group for a field named `field_value` of the scalar type `field_type`:
/// the tag, then the value.
pub fn encode_basic_type_field(
    field_value: &String,
    field_type: &FieldType,
    field_tag: i64,
) -> (group: FieldEncoding)
    requires
        field_type@ is Basic,
    ensures
        group@ == scalar_encoding(field_value@, basic_of(field_type@), field_tag),
{
    let basic = basic_type(field_type);
    let field_prefix = tag_byte(field_tag, get_basic_wire_type(basic));
    let mut calls: Vec<WriterCall> = Vec::new();
    calls.push(WriterCall::Tag(field_prefix));
    calls.push(WriterCall::Value(basic));
    let mut statements: Vec<Statement> = Vec::new();
    statements.push(Statement::Chain(calls));
    proof {
        let wanted = scalar_statements(basic, field_tag);
        assert(statements@[0]@->Chain_0 =~= wanted[0]->Chain_0);
        assert(views(statements@) =~= wanted);
    }
    FieldEncoding { field: field_value.clone(), tag: field_tag, guarded: false, statements }
}

/// The group for a field named `field_value` whose type is an enum: a varint
/// tag, then the number of the value.
pub fn encode_enum_field(field_value: &String, field_tag: i64) -> (group: FieldEncoding)
    ensures
        group@ == enum_encoding(field_value@, field_tag),
{
    encode_basic_type_field(field_value, &FieldType::Basic(BasicType::Int32), field_tag)
}

/// What a field of a message value holds when the message is written.
pub enum FieldValue<V> {
    /// Nothing: the field is not set.
    Absent,
    One(V),
    Many(Seq<V>),
}

impl<V> FieldValue<V> {
    /// The value at hand in a chain of calls.
    pub open spec fn single(self) -> Option<V> {
        match self {
            FieldValue::One(value) => Some(value),
            _ => None,
        }
    }

    /// The elements that a loop goes through.
    pub open spec fn elements(self) -> Seq<V> {
        match self {
            FieldValue::Many(elements) => elements,
            _ => Seq::empty(),
        }
    }

    /// The field is set and holds at least one element.
    pub open spec fn present(self) -> bool {
        self matches FieldValue::Many(elements) && elements.len() > 0
    }
}

/// What reaches the writer.
pub enum WireEvent<V> {
    Tag(i64),
    /// A value written with the encoder of the type; `None` where a call
    /// asked for a value and none was at hand.
    Value(BasicType, Option<V>),
    Fork,
    Delimit,
}

/// What one call writes with `at_hand` as the value at hand.
pub open spec fn call_event<V>(call: WriterCall, at_hand: Option<V>) -> WireEvent<V> {
    match call {
        WriterCall::Tag(value) => WireEvent::Tag(value),
        WriterCall::Value(basic) => WireEvent::Value(basic, at_hand),
        WriterCall::Fork => WireEvent::Fork,
        WriterCall::Delimit => WireEvent::Delimit,
    }
}

/// What a chain of calls writes.
pub open spec fn chain_events<V>(calls: Seq<WriterCall>, at_hand: Option<V>) -> Seq<WireEvent<V>> {
    Seq::new(calls.len(), |i: int| call_event(calls[i], at_hand))
}

/// What a loop writes for the first `count` elements.
pub open spec fn loop_events<V>(calls: Seq<WriterCall>, elements: Seq<V>, count: int) -> Seq<
    WireEvent<V>,
>
    decreases count,
{
    if count <= 0 {
        Seq::empty()
    } else {
        loop_events(calls, elements, count - 1) + chain_events(calls, Some(elements[count - 1]))
    }
}

/// What one statement writes.
pub open spec fn statement_events<V>(statement: StatementView, value: FieldValue<V>) -> Seq<
    WireEvent<V>,
> {
    match statement {
        StatementView::Chain(calls) => chain_events(calls, value.single()),
        StatementView::ForEach(calls) => loop_events(
            calls,
            value.elements(),
            value.elements().len() as int,
        ),
    }
}

/// What the first `count` statements write.
pub open spec fn statements_events<V>(
    statements: Seq<StatementView>,
    value: FieldValue<V>,
    count: int,
) -> Seq<WireEvent<V>>
    decreases count,
{
    if count <= 0 {
        Seq::empty()
    } else {
        statements_events(statements, value, count - 1) + statement_events(
            statements[count - 1],
            value,
        )
    }
}

/// What a group writes when its field holds `value`: nothing where the group
/// is guarded and the field holds no element, and else what its statements
/// write, one after the other.
pub open spec fn events<V>(group: FieldEncodingView, value: FieldValue<V>) -> Seq<WireEvent<V>> {
    if group.guarded && !value.present() {
        Seq::empty()
    } else {
        statements_events(group.statements, value, group.statements.len() as int)
    }
}

/// The bare elements, each written with the encoder of `basic`.
pub open spec fn bare_elements<V>(basic: BasicType, elements: Seq<V>) -> Seq<WireEvent<V>> {
    Seq::new(elements.len(), |i: int| WireEvent::Value(basic, Some(elements[i])))
}

/// The elements, each written after the tag `prefix`.
pub open spec fn tagged_elements<V>(prefix: i64, basic: BasicType, elements: Seq<V>) -> Seq<
    WireEvent<V>,
> {
    Seq::new(
        2 * elements.len(),
        |i: int|
            if i % 2 == 0 {
                WireEvent::Tag(prefix)
            } else {
                WireEvent::Value(basic, Some(elements[i / 2]))
            },
    )
}

/// A repeated field that is not set, or holds no element, leaves nothing on
/// the wire, whatever its type and number.
pub proof fn lemma_empty_repeated_writes_nothing<V>(
    field: Seq<char>,
    basic: BasicType,
    field_tag: i64,
    value: FieldValue<V>,
)
    requires
        value is Absent || (value matches FieldValue::Many(elements) && elements.len() == 0),
    ensures
        events(repeated_encoding(field, basic, field_tag), value) == Seq::<WireEvent<V>>::empty(),
{
}

/// A scalar field goes out as its tag and its value.
pub proof fn lemma_scalar_events<V>(field: Seq<char>, basic: BasicType, field_tag: i64, value: V)
    ensures
        events(scalar_encoding(field, basic, field_tag), FieldValue::One(value)) == seq![
            WireEvent::Tag(tag_value(field_tag, basic_wire_type(basic))),
            WireEvent::Value(basic, Some(value)),
        ],
{
    let group = scalar_encoding(field, basic, field_tag);
    reveal_with_fuel(statements_events, 2);
    assert(events(group, FieldValue::One(value)) =~= seq![
        WireEvent::Tag(tag_value(field_tag, basic_wire_type(basic))),
        WireEvent::Value(basic, Some(value)),
    ]);
}

proof fn lemma_loop_of_one<V>(basic: BasicType, elements: Seq<V>, count: int)
    requires
        0 <= count <= elements.len(),
    ensures
        loop_events(seq![WriterCall::Value(basic)], elements, count) == bare_elements(
            basic,
            elements.subrange(0, count),
        ),
    decreases count,
{
    if count > 0 {
        lemma_loop_of_one(basic, elements, count - 1);
    }
    assert(loop_events(seq![WriterCall::Value(basic)], elements, count) =~= bare_elements(
        basic,
        elements.subrange(0, count),
    ));
}

proof fn lemma_loop_of_two<V>(prefix: i64, basic: BasicType, elements: Seq<V>, count: int)
    requires
        0 <= count <= elements.len(),
    ensures
        loop_events(seq![WriterCall::Tag(prefix), WriterCall::Value(basic)], elements, count)
            == tagged_elements(prefix, basic, elements.subrange(0, count)),
    decreases count,
{
    if count > 0 {
        lemma_loop_of_two(prefix, basic, elements, count - 1);
    }
    assert(loop_events(seq![WriterCall::Tag(prefix), WriterCall::Value(basic)], elements, count)
        =~= tagged_elements(prefix, basic, elements.subrange(0, count)));
}

/// A repeated field of a numeric type that holds elements goes out packed:
/// one length-delimited tag, the opening of a region, the bare elements in
/// order, and the end of the region.
pub proof fn lemma_packed_events<V>(
    field: Seq<char>,
    basic: BasicType,
    field_tag: i64,
    elements: Seq<V>,
)
    requires
        packable(basic),
        elements.len() > 0,
    ensures
        events(repeated_encoding(field, basic, field_tag), FieldValue::Many(elements)) == seq![
            WireEvent::Tag(tag_value(field_tag, WireType::LengthDelimited)),
            WireEvent::Fork,
        ] + bare_elements(basic, elements) + seq![WireEvent::Delimit],
{
    let group = repeated_encoding(field, basic, field_tag);
    let value = FieldValue::Many(elements);
    reveal_with_fuel(statements_events, 4);
    lemma_loop_of_one(basic, elements, elements.len() as int);
    assert(elements.subrange(0, elements.len() as int) =~= elements);
    assert(statement_events(group.statements[0], value) =~= seq![
        WireEvent::Tag(tag_value(field_tag, WireType::LengthDelimited)),
        WireEvent::Fork,
    ]);
    assert(statement_events(group.statements[2], value) =~= seq![WireEvent::<V>::Delimit]);
    assert(events(group, value) =~= seq![
        WireEvent::Tag(tag_value(field_tag, WireType::LengthDelimited)),
        WireEvent::Fork,
    ] + bare_elements(basic, elements) + seq![WireEvent::Delimit]);
}

/// A repeated field of a length-delimited type that holds elements goes out
/// unpacked: each element after a tag of its own, and no region around them.
pub proof fn lemma_unpacked_events<V>(
    field: Seq<char>,
    basic: BasicType,
    field_tag: i64,
    elements: Seq<V>,
)
    requires
        !packable(basic),
        elements.len() > 0,
    ensures
        events(repeated_encoding(field, basic, field_tag), FieldValue::Many(elements))
            == tagged_elements(tag_value(field_tag, basic_wire_type(basic)), basic, elements),
{
    let group = repeated_encoding(field, basic, field_tag);
    let value = FieldValue::Many(elements);
    reveal_with_fuel(statements_events, 2);
    lemma_loop_of_two(
        tag_value(field_tag, basic_wire_type(basic)),
        basic,
        elements,
        elements.len() as int,
    );
    assert(elements.subrange(0, elements.len() as int) =~= elements);
    assert(events(group, value) =~= tagged_elements(
        tag_value(field_tag, basic_wire_type(basic)),
        basic,
        elements,
    ));
}

} // verus!
