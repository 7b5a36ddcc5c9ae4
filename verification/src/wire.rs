//! Wire types and tag arithmetic.

use vstd::prelude::*;
use crate::package::{BasicType, FieldType, FieldTypeView};
use crate::lexems::spelled;

verus! {

/// How the bytes of a value are framed on the wire.
#[derive(Clone, Copy, Debug, PartialEq, Eq, Structural)]
pub enum WireType {
    Varint,
    Fixed64,
    LengthDelimited,
    Fixed32,
}

impl WireType {
    /// The number that stands for the wire type in a tag.
    pub open spec fn number(self) -> i64 {
        match self {
            WireType::Varint => 0,
            WireType::Fixed64 => 1,
            WireType::LengthDelimited => 2,
            WireType::Fixed32 => 5,
        }
    }

    /// Computes [`WireType::number`].
    pub fn id(self) -> (number: i64)
        ensures
            number == self.number(),
    {
        match self {
            WireType::Varint => 0,
            WireType::Fixed64 => 1,
            WireType::LengthDelimited => 2,
            WireType::Fixed32 => 5,
        }
    }
}

/// The wire type of a scalar type.
pub open spec fn basic_wire_type(basic: BasicType) -> WireType {
    match basic {
        BasicType::Int32
        | BasicType::Int64
        | BasicType::Uint32
        | BasicType::Uint64
        | BasicType::Sint32
        | BasicType::Sint64
        | BasicType::Bool => WireType::Varint,
        BasicType::Fixed64 | BasicType::Sfixed64 | BasicType::Double => WireType::Fixed64,
        BasicType::Text | BasicType::Bytes => WireType::LengthDelimited,
        BasicType::Fixed32 | BasicType::Sfixed32 | BasicType::Float => WireType::Fixed32,
    }
}

/// Whether the elements of a repeated field of this type are packed: all
/// numeric types are, the length-delimited ones are not.
pub open spec fn packable(basic: BasicType) -> bool {
    basic_wire_type(basic) != WireType::LengthDelimited
}

/// The tag that precedes a value on the wire: the field number in the high
/// bits, the wire type in the low three.
pub open spec fn tag_value(field_tag: i64, wire_type: WireType) -> i64 {
    (field_tag << 3) | wire_type.number()
}

/// Computes [`tag_value`].
pub fn tag_byte(field_tag: i64, wire_type: WireType) -> (prefix: i64)
    ensures
        prefix == tag_value(field_tag, wire_type),
{
    (field_tag << 3) | wire_type.id()
}

/// For a field number that leaves room for three more bits, the tag is the
/// number times eight plus the wire type.
pub proof fn lemma_tag_value_arithmetic(field_tag: i64, wire_type: WireType)
    requires
        0 <= field_tag <= 0x0fff_ffff_ffff_ffff,
    ensures
        tag_value(field_tag, wire_type) == field_tag * 8 + wire_type.number(),
{
    let number = wire_type.number();
    assert(0 <= field_tag <= 0x0fff_ffff_ffff_ffff && 0 <= number < 8 ==> ((field_tag << 3) | number)
        == field_tag * 8 + number) by (bit_vector);
}

impl BasicType {
    /// The word that names the type in a declaration, which is also the name
    /// of its encoder.
    pub open spec fn spelling(self) -> Seq<char> {
        match self {
            BasicType::Double => "double"@,
            BasicType::Float => "float"@,
            BasicType::Int32 => "int32"@,
            BasicType::Int64 => "int64"@,
            BasicType::Uint32 => "uint32"@,
            BasicType::Uint64 => "uint64"@,
            BasicType::Sint32 => "sint32"@,
            BasicType::Sint64 => "sint64"@,
            BasicType::Fixed32 => "fixed32"@,
            BasicType::Fixed64 => "fixed64"@,
            BasicType::Sfixed32 => "sfixed32"@,
            BasicType::Sfixed64 => "sfixed64"@,
            BasicType::Bool => "bool"@,
            BasicType::Text => "string"@,
            BasicType::Bytes => "bytes"@,
        }
    }

    /// Computes [`BasicType::spelling`].
    pub fn name(self) -> (word: &'static str)
        ensures
            word@ == self.spelling(),
    {
        match self {
            BasicType::Double => "double",
            BasicType::Float => "float",
            BasicType::Int32 => "int32",
            BasicType::Int64 => "int64",
            BasicType::Uint32 => "uint32",
            BasicType::Uint64 => "uint64",
            BasicType::Sint32 => "sint32",
            BasicType::Sint64 => "sint64",
            BasicType::Fixed32 => "fixed32",
            BasicType::Fixed64 => "fixed64",
            BasicType::Sfixed32 => "sfixed32",
            BasicType::Sfixed64 => "sfixed64",
            BasicType::Bool => "bool",
            BasicType::Text => "string",
            BasicType::Bytes => "bytes",
        }
    }

    /// The scalar type that `word` names, if it names one.
    pub open spec fn spelled_as(word: Seq<char>) -> Option<BasicType> {
        if word == BasicType::Double.spelling() {
            Some(BasicType::Double)
        } else if word == BasicType::Float.spelling() {
            Some(BasicType::Float)
        } else if word == BasicType::Int32.spelling() {
            Some(BasicType::Int32)
        } else if word == BasicType::Int64.spelling() {
            Some(BasicType::Int64)
        } else if word == BasicType::Uint32.spelling() {
            Some(BasicType::Uint32)
        } else if word == BasicType::Uint64.spelling() {
            Some(BasicType::Uint64)
        } else if word == BasicType::Sint32.spelling() {
            Some(BasicType::Sint32)
        } else if word == BasicType::Sint64.spelling() {
            Some(BasicType::Sint64)
        } else if word == BasicType::Fixed32.spelling() {
            Some(BasicType::Fixed32)
        } else if word == BasicType::Fixed64.spelling() {
            Some(BasicType::Fixed64)
        } else if word == BasicType::Sfixed32.spelling() {
            Some(BasicType::Sfixed32)
        } else if word == BasicType::Sfixed64.spelling() {
            Some(BasicType::Sfixed64)
        } else if word == BasicType::Bool.spelling() {
            Some(BasicType::Bool)
        } else if word == BasicType::Text.spelling() {
            Some(BasicType::Text)
        } else if word == BasicType::Bytes.spelling() {
            Some(BasicType::Bytes)
        } else {
            None
        }
    }

    /// Computes [`BasicType::spelled_as`].
    pub fn from_name(word: &String) -> (basic: Option<BasicType>)
        ensures
            basic == BasicType::spelled_as(word@),
    {
        if spelled(word, "double") {
            Some(BasicType::Double)
        } else if spelled(word, "float") {
            Some(BasicType::Float)
        } else if spelled(word, "int32") {
            Some(BasicType::Int32)
        } else if spelled(word, "int64") {
            Some(BasicType::Int64)
        } else if spelled(word, "uint32") {
            Some(BasicType::Uint32)
        } else if spelled(word, "uint64") {
            Some(BasicType::Uint64)
        } else if spelled(word, "sint32") {
            Some(BasicType::Sint32)
        } else if spelled(word, "sint64") {
            Some(BasicType::Sint64)
        } else if spelled(word, "fixed32") {
            Some(BasicType::Fixed32)
        } else if spelled(word, "fixed64") {
            Some(BasicType::Fixed64)
        } else if spelled(word, "sfixed32") {
            Some(BasicType::Sfixed32)
        } else if spelled(word, "sfixed64") {
            Some(BasicType::Sfixed64)
        } else if spelled(word, "bool") {
            Some(BasicType::Bool)
        } else if spelled(word, "string") {
            Some(BasicType::Text)
        } else if spelled(word, "bytes") {
            Some(BasicType::Bytes)
        } else {
            None
        }
    }
}

/// The word of a scalar type names that type.
pub proof fn lemma_spelling_names_the_type(basic: BasicType)
    ensures
        BasicType::spelled_as(basic.spelling()) == Some(basic),
{
    reveal_strlit("double");
    reveal_strlit("float");
    reveal_strlit("int32");
    reveal_strlit("int64");
    reveal_strlit("uint32");
    reveal_strlit("uint64");
    reveal_strlit("sint32");
    reveal_strlit("sint64");
    reveal_strlit("fixed32");
    reveal_strlit("fixed64");
    reveal_strlit("sfixed32");
    reveal_strlit("sfixed64");
    reveal_strlit("bool");
    reveal_strlit("string");
    reveal_strlit("bytes");
    assert("double"@.len() == 6 && "double"@[0] == 'd' && "double"@[4] == 'l');
    assert("float"@.len() == 5 && "float"@[0] == 'f' && "float"@[3] == 'a');
    assert("int32"@.len() == 5 && "int32"@[0] == 'i' && "int32"@[3] == '3');
    assert("int64"@.len() == 5 && "int64"@[0] == 'i' && "int64"@[3] == '6');
    assert("uint32"@.len() == 6 && "uint32"@[0] == 'u' && "uint32"@[4] == '3');
    assert("uint64"@.len() == 6 && "uint64"@[0] == 'u' && "uint64"@[4] == '6');
    assert("sint32"@.len() == 6 && "sint32"@[0] == 's' && "sint32"@[4] == '3');
    assert("sint64"@.len() == 6 && "sint64"@[0] == 's' && "sint64"@[4] == '6');
    assert("fixed32"@.len() == 7 && "fixed32"@[0] == 'f' && "fixed32"@[5] == '3');
    assert("fixed64"@.len() == 7 && "fixed64"@[0] == 'f' && "fixed64"@[5] == '6');
    assert("sfixed32"@.len() == 8 && "sfixed32"@[0] == 's' && "sfixed32"@[6] == '3');
    assert("sfixed64"@.len() == 8 && "sfixed64"@[0] == 's' && "sfixed64"@[6] == '6');
    assert("bool"@.len() == 4 && "bool"@[0] == 'b' && "bool"@[2] == 'o');
    assert("string"@.len() == 6 && "string"@[0] == 's' && "string"@[4] == 'n');
    assert("bytes"@.len() == 5 && "bytes"@[0] == 'b' && "bytes"@[3] == 'e');
}

/// The first field of a message has the tag 8 where it is a varint, and 10
/// where it is length-delimited.
pub proof fn lemma_first_tags()
    ensures
        tag_value(1, WireType::Varint) == 0x08,
        tag_value(1, WireType::LengthDelimited) == 0x0A,
{
    lemma_tag_value_arithmetic(1, WireType::Varint);
    lemma_tag_value_arithmetic(1, WireType::LengthDelimited);
}

impl FieldType {
    /// Whether the type is a scalar type.
    pub fn is_basic(&self) -> (basic: bool)
        ensures
            basic == (self@ is Basic),
    {
        matches!(self, FieldType::Basic(_))
    }

    /// The wire type of a packed repeated field with elements of this type:
    /// length-delimited for the numeric scalar types, and none for any other
    /// type.
    pub fn packed_wire_type(&self) -> (wire_type: Option<WireType>)
        ensures
            wire_type == (match self@ {
                FieldTypeView::Basic(basic) => if packable(basic) {
                    Some(WireType::LengthDelimited)
                } else {
                    None
                },
                _ => None,
            }),
    {
        match self {
            FieldType::Basic(basic) => match get_basic_wire_type(*basic) {
                WireType::LengthDelimited => None,
                _ => Some(WireType::LengthDelimited),
            },
            _ => None,
        }
    }
}

/// Computes [`basic_wire_type`].
pub fn get_basic_wire_type(basic: BasicType) -> (wire_type: WireType)
    ensures
        wire_type == basic_wire_type(basic),
{
    match basic {
        BasicType::Int32
        | BasicType::Int64
        | BasicType::Uint32
        | BasicType::Uint64
        | BasicType::Sint32
        | BasicType::Sint64
        | BasicType::Bool => WireType::Varint,
        BasicType::Fixed64 | BasicType::Sfixed64 | BasicType::Double => WireType::Fixed64,
        BasicType::Text | BasicType::Bytes => WireType::LengthDelimited,
        BasicType::Fixed32 | BasicType::Sfixed32 | BasicType::Float => WireType::Fixed32,
    }
}

} // verus!
