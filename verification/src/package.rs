//! The declaration tree: what a parsed source file holds.
//!
//! Each type has a view over sequences in place of vectors and strings; the
//! grammar and the contracts speak of the views.

use vstd::prelude::*;
use crate::views::views;

verus! {

/// The two versions of the language.
#[derive(Clone, Copy, Debug, PartialEq, Eq, Structural)]
pub enum ProtoVersion {
    Proto2,
    Proto3,
}

/// The scalar types, which are written to the wire without further resolution.
#[derive(Clone, Copy, Debug, PartialEq, Eq, Structural)]
pub enum BasicType {
    Double,
    Float,
    Int32,
    Int64,
    Uint32,
    Uint64,
    Sint32,
    Sint64,
    Fixed32,
    Fixed64,
    Sfixed32,
    Sfixed64,
    Bool,
    Text,
    Bytes,
}

/// The type of a field.
#[derive(Debug, PartialEq, Eq)]
pub enum FieldType {
    Basic(BasicType),
    /// A dotted reference to a message or an enum, not yet resolved.
    IdPath(Vec<String>),
    Repeated(Box<FieldType>),
    /// `map<key, value>`.
    MapOf(Box<FieldType>, Box<FieldType>),
}

/// The view of [`FieldType`].
pub enum FieldTypeView {
    Basic(BasicType),
    IdPath(Seq<Seq<char>>),
    Repeated(Box<FieldTypeView>),
    MapOf(Box<FieldTypeView>, Box<FieldTypeView>),
}

impl View for FieldType {
    type V = FieldTypeView;

    open spec fn view(&self) -> FieldTypeView
        decreases self,
    {
        match self {
            FieldType::Basic(basic) => FieldTypeView::Basic(*basic),
            FieldType::IdPath(ids) => FieldTypeView::IdPath(views(ids@)),
            FieldType::Repeated(element) => FieldTypeView::Repeated(Box::new((**element)@)),
            FieldType::MapOf(key, value) => FieldTypeView::MapOf(
                Box::new((**key)@),
                Box::new((**value)@),
            ),
        }
    }
}

impl FieldTypeView {
    /// An element of `repeated` is neither `repeated` nor a map, and no
    /// reference is empty.
    pub open spec fn well_formed(self) -> bool
        decreases self,
    {
        match self {
            FieldTypeView::Basic(_) => true,
            FieldTypeView::IdPath(ids) => ids.len() > 0,
            FieldTypeView::Repeated(element) => {
                &&& !(*element is Repeated)
                &&& !(*element is MapOf)
                &&& element.well_formed()
            },
            FieldTypeView::MapOf(key, value) => {
                &&& !(*key is Repeated)
                &&& !(*value is Repeated)
                &&& key.well_formed()
                &&& value.well_formed()
            },
        }
    }
}

/// A field of a message or of a `oneof` block.
#[derive(Debug, PartialEq, Eq)]
pub struct FieldDeclaration {
    pub name: String,
    /// The field number.
    pub tag: i64,
    pub field_type: FieldType,
    /// The bracketed options, in source order; a key may occur more than once.
    pub attributes: Vec<(String, String)>,
}

/// The view of [`FieldDeclaration`].
pub struct FieldDeclarationView {
    pub name: Seq<char>,
    pub tag: i64,
    pub field_type: FieldTypeView,
    pub attributes: Seq<(Seq<char>, Seq<char>)>,
}

impl View for FieldDeclaration {
    type V = FieldDeclarationView;

    open spec fn view(&self) -> FieldDeclarationView {
        FieldDeclarationView {
            name: self.name@,
            tag: self.tag,
            field_type: self.field_type@,
            attributes: views(self.attributes@),
        }
    }
}

/// One named value of an enum.
#[derive(Clone, Debug, PartialEq, Eq)]
pub struct EnumEntry {
    pub name: String,
    pub value: i64,
}

/// The view of [`EnumEntry`].
pub struct EnumEntryView {
    pub name: Seq<char>,
    pub value: i64,
}

impl View for EnumEntry {
    type V = EnumEntryView;

    open spec fn view(&self) -> EnumEntryView {
        EnumEntryView { name: self.name@, value: self.value }
    }
}

/// An enum: a name and its values in source order; neither the names nor the
/// numbers need to be distinct.
#[derive(Clone, Debug, PartialEq, Eq)]
pub struct EnumDeclaration {
    pub name: String,
    pub entries: Vec<EnumEntry>,
}

/// The view of [`EnumDeclaration`].
pub struct EnumDeclarationView {
    pub name: Seq<char>,
    pub entries: Seq<EnumEntryView>,
}

impl View for EnumDeclaration {
    type V = EnumDeclarationView;

    open spec fn view(&self) -> EnumDeclarationView {
        EnumDeclarationView { name: self.name@, entries: views(self.entries@) }
    }
}

/// A `oneof` block: a name and its alternatives, all of them plain fields.
#[derive(Debug, PartialEq, Eq)]
pub struct OneOfDeclaration {
    pub name: String,
    pub options: Vec<FieldDeclaration>,
}

/// The view of [`OneOfDeclaration`].
pub struct OneOfDeclarationView {
    pub name: Seq<char>,
    pub options: Seq<FieldDeclarationView>,
}

impl View for OneOfDeclaration {
    type V = OneOfDeclarationView;

    open spec fn view(&self) -> OneOfDeclarationView {
        OneOfDeclarationView { name: self.name@, options: views(self.options@) }
    }
}

/// One entry of a message body.
#[derive(Debug, PartialEq, Eq)]
pub enum MessageEntry {
    Field(FieldDeclaration),
    Message(MessageDeclaration),
    Enum(EnumDeclaration),
    OneOf(OneOfDeclaration),
}

/// A message: a name and the entries of its body, nested declarations included.
#[derive(Debug, PartialEq, Eq)]
pub struct MessageDeclaration {
    pub name: String,
    pub entries: Vec<MessageEntry>,
}

/// The view of [`MessageEntry`].
pub enum MessageEntryView {
    Field(FieldDeclarationView),
    Message(MessageDeclarationView),
    Enum(EnumDeclarationView),
    OneOf(OneOfDeclarationView),
}

/// The view of [`MessageDeclaration`].
pub struct MessageDeclarationView {
    pub name: Seq<char>,
    pub entries: Seq<MessageEntryView>,
}

impl View for MessageEntry {
    type V = MessageEntryView;

    open spec fn view(&self) -> MessageEntryView
        decreases self,
    {
        match self {
            MessageEntry::Field(field) => MessageEntryView::Field(field@),
            MessageEntry::Message(message) => MessageEntryView::Message(message@),
            MessageEntry::Enum(declaration) => MessageEntryView::Enum(declaration@),
            MessageEntry::OneOf(one_of) => MessageEntryView::OneOf(one_of@),
        }
    }
}

impl View for MessageDeclaration {
    type V = MessageDeclarationView;

    open spec fn view(&self) -> MessageDeclarationView
        decreases self,
    {
        MessageDeclarationView {
            name: self.name@,
            entries: Seq::new(
                self.entries@.len(),
                |i: int|
                    if 0 <= i < self.entries@.len() {
                        self.entries@[i]@
                    } else {
                        arbitrary()
                    },
            ),
        }
    }
}

/// The entries of a message's view are the views of its entries.
pub proof fn lemma_message_view(message: MessageDeclaration)
    ensures
        message@.entries == views(message.entries@),
        message@.name == message.name@,
{
    assert(message@.entries =~= views(message.entries@));
}

/// A top-level declaration.
#[derive(Debug, PartialEq, Eq)]
pub enum Declaration {
    Message(MessageDeclaration),
    Enum(EnumDeclaration),
}

/// The view of [`Declaration`].
pub enum DeclarationView {
    Message(MessageDeclarationView),
    Enum(EnumDeclarationView),
}

impl View for Declaration {
    type V = DeclarationView;

    open spec fn view(&self) -> DeclarationView {
        match self {
            Declaration::Message(message) => DeclarationView::Message(message@),
            Declaration::Enum(declaration) => DeclarationView::Enum(declaration@),
        }
    }
}

/// One source file.
#[derive(Debug, PartialEq, Eq)]
pub struct Package {
    pub version: ProtoVersion,
    /// The dotted package name.
    pub path: Vec<String>,
    pub imports: Vec<String>,
    pub declarations: Vec<Declaration>,
}

/// The view of [`Package`].
pub struct PackageView {
    pub version: ProtoVersion,
    pub path: Seq<Seq<char>>,
    pub imports: Seq<Seq<char>>,
    pub declarations: Seq<DeclarationView>,
}

impl View for Package {
    type V = PackageView;

    open spec fn view(&self) -> PackageView {
        PackageView {
            version: self.version,
            path: views(self.path@),
            imports: views(self.imports@),
            declarations: views(self.declarations@),
        }
    }
}

impl PackageView {
    /// The package before any statement: `Proto2`, and nothing else.
    pub open spec fn initial() -> PackageView {
        PackageView {
            version: ProtoVersion::Proto2,
            path: Seq::empty(),
            imports: Seq::empty(),
            declarations: Seq::empty(),
        }
    }
}

impl Package {
    /// The package before any statement.
    pub fn new() -> (package: Package)
        ensures
            package@ == PackageView::initial(),
    {
        let package = Package {
            version: ProtoVersion::Proto2,
            path: Vec::new(),
            imports: Vec::new(),
            declarations: Vec::new(),
        };
        assert(package@.path =~= Seq::empty());
        assert(package@.imports =~= Seq::empty());
        assert(package@.declarations =~= Seq::empty());
        package
    }
}

impl OneOfDeclarationView {
    /// The type of every alternative is well formed.
    pub open spec fn well_formed(self) -> bool {
        forall|i: int|
            0 <= i < self.options.len() ==> (#[trigger] self.options[i]).field_type.well_formed()
    }
}

impl MessageEntryView {
    /// Every field type in the entry is well formed.
    pub open spec fn well_formed(self) -> bool
        decreases self,
    {
        match self {
            MessageEntryView::Field(field) => field.field_type.well_formed(),
            MessageEntryView::Message(message) => message.well_formed(),
            MessageEntryView::Enum(_) => true,
            MessageEntryView::OneOf(one_of) => one_of.well_formed(),
        }
    }
}

impl MessageDeclarationView {
    /// Every field type in the message, at any depth, is well formed.
    pub open spec fn well_formed(self) -> bool
        decreases self,
    {
        forall|i: int| 0 <= i < self.entries.len() ==> (#[trigger] self.entries[i]).well_formed()
    }
}

impl DeclarationView {
    /// Every field type in the declaration is well formed.
    pub open spec fn well_formed(self) -> bool {
        match self {
            DeclarationView::Message(message) => message.well_formed(),
            DeclarationView::Enum(_) => true,
        }
    }
}

impl PackageView {
    /// Every field type in the package is well formed.
    pub open spec fn well_formed(self) -> bool {
        forall|i: int|
            0 <= i < self.declarations.len() ==> (#[trigger] self.declarations[i]).well_formed()
    }
}

} // verus!
