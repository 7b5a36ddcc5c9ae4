//! The wire code generator: from a message declaration to the instructions
//! that write a value of it.
//!
//! The fields of the message are taken in the order of [`crate::order`]. Each
//! yields one group of instructions, or, where its shape is not supported, a
//! notice; a type reference that cannot be resolved ends the generation with
//! an error.

use vstd::prelude::*;
use crate::views::{views, lemma_views_empty, lemma_views_push};
use crate::error::{ProtoError, ProtoErrorView};
use crate::package::{
    BasicType, FieldType, FieldTypeView, FieldDeclaration, FieldDeclarationView, MessageEntry,
    MessageEntryView, MessageDeclaration, MessageDeclarationView, lemma_message_view,
};
use crate::scope::{BlockScope, BlockScopeView, IdType, IdTypeView, resolve};
use crate::lexems::spelled;
use crate::encode::{
    FieldEncoding, FieldEncodingView, scalar_encoding, enum_encoding, repeated_encoding,
    encode_basic_type_field, encode_enum_field, encode_basic_repeated_type_field,
};
use crate::order::{tag_order, sort_by_tag, is_tag_order};

verus! {

/// The key of the option that names a field in a message value.
pub open spec fn json_name_key() -> Seq<char> {
    "json_name"@
}

/// The value of the last of the first `count` options with the given key.
pub open spec fn last_value(
    attributes: Seq<(Seq<char>, Seq<char>)>,
    key: Seq<char>,
    count: int,
) -> Option<Seq<char>>
    decreases count,
{
    if count <= 0 {
        None
    } else if attributes[count - 1].0 == key {
        Some(attributes[count - 1].1)
    } else {
        last_value(attributes, key, count - 1)
    }
}

impl FieldDeclarationView {
    /// The name under which a message value holds the field: the value of its
    /// last `json_name` option, or its declared name where it has none.
    pub open spec fn json_name(self) -> Seq<char> {
        match last_value(self.attributes, json_name_key(), self.attributes.len() as int) {
            Some(name) => name,
            None => self.name,
        }
    }
}

impl FieldDeclaration {
    /// Computes [`FieldDeclarationView::json_name`].
    pub fn json_name(&self) -> (name: String)
        ensures
            name@ == self@.json_name(),
    {
        let mut count = self.attributes.len();
        while count > 0
            invariant
                count <= self.attributes@.len(),
                last_value(
                    views(self.attributes@),
                    json_name_key(),
                    self.attributes@.len() as int,
                ) == last_value(views(self.attributes@), json_name_key(), count as int),
            decreases count,
        {
            let pair = &self.attributes[count - 1];
            if spelled(&pair.0, "json_name") {
                return pair.1.clone();
            }
            count = count - 1;
        }
        self.name.clone()
    }
}

/// What the type of a field turns out to be.
#[derive(Clone, Copy, Debug, PartialEq, Eq, Structural)]
pub enum Classified {
    Scalar(BasicType),
    EnumType,
    MessageType,
}

/// What a reference in type position names. One segment that spells a scalar
/// type names that type, whatever the scope declares; any other reference is
/// resolved in the scope. An empty reference, or one that names a package,
/// is an internal error.
pub open spec fn classify(scope: BlockScopeView, ids: Seq<Seq<char>>) -> Result<
    Classified,
    ProtoErrorView,
> {
    if ids.len() == 0 {
        Err(ProtoErrorView::Internal)
    } else if ids.len() == 1 && BasicType::spelled_as(ids[0]) is Some {
        Ok(Classified::Scalar(BasicType::spelled_as(ids[0])->Some_0))
    } else {
        match resolve(scope, ids) {
            Ok(IdTypeView::Enum(_)) => Ok(Classified::EnumType),
            Ok(IdTypeView::Message(_)) => Ok(Classified::MessageType),
            Ok(IdTypeView::Package) => Err(ProtoErrorView::Internal),
            Err(error) => Err(error),
        }
    }
}

/// Computes [`classify`].
pub fn classify_path(scope: &BlockScope, ids: &Vec<String>) -> (result: Result<
    Classified,
    ProtoError,
>)
    ensures
        match result {
            Ok(classified) => classify(scope@, views(ids@)) == Ok::<Classified, ProtoErrorView>(
                classified,
            ),
            Err(error) => classify(scope@, views(ids@)) == Err::<Classified, ProtoErrorView>(
                error@,
            ),
        },
{
    if ids.len() == 0 {
        return Err(ProtoError::Internal);
    }
    if ids.len() == 1 {
        match BasicType::from_name(&ids[0]) {
            Some(basic) => {
                return Ok(Classified::Scalar(basic));
            },
            None => {},
        }
    }
    match scope.resolve_path(ids) {
        Ok(IdType::Enum(_)) => Ok(Classified::EnumType),
        Ok(IdType::Message(_)) => Ok(Classified::MessageType),
        Ok(IdType::Package) => Err(ProtoError::Internal),
        Err(error) => Err(error),
    }
}

/// Why no instructions were generated for an entry of a message.
#[derive(Clone, Copy, Debug, PartialEq, Eq, Structural)]
pub enum UnsupportedKind {
    /// A field whose type is a message.
    MessageField,
    /// A repeated field whose elements are messages.
    RepeatedMessageField,
    /// A map field.
    MapField,
    /// A `oneof` block.
    OneOf,
}

/// The notice that an entry of a message is not written.
#[derive(Debug, PartialEq, Eq)]
pub struct Unsupported {
    /// The declared name of the entry.
    pub name: String,
    pub kind: UnsupportedKind,
}

/// The view of [`Unsupported`].
pub struct UnsupportedView {
    pub name: Seq<char>,
    pub kind: UnsupportedKind,
}

impl View for Unsupported {
    type V = UnsupportedView;

    open spec fn view(&self) -> UnsupportedView {
        UnsupportedView { name: self.name@, kind: self.kind }
    }
}

/// What the generator has for one field.
#[derive(Debug, PartialEq, Eq)]
pub enum Emitted {
    Instruction(FieldEncoding),
    Notice(Unsupported),
}

/// The view of [`Emitted`].
pub enum EmittedView {
    Instruction(FieldEncodingView),
    Notice(UnsupportedView),
}

impl View for Emitted {
    type V = EmittedView;

    open spec fn view(&self) -> EmittedView {
        match self {
            Emitted::Instruction(group) => EmittedView::Instruction(group@),
            Emitted::Notice(notice) => EmittedView::Notice(notice@),
        }
    }
}

/// The notice of the given kind for `field`.
pub open spec fn notice(field: FieldDeclarationView, kind: UnsupportedKind) -> EmittedView {
    EmittedView::Notice(UnsupportedView { name: field.name, kind })
}

/// What the generator has for `field`, by the type of the field.
///
/// A scalar is written as its tag and its value, and an enum as an `int32`.
/// A repeated field of scalars or of enums is written under a guard, packed
/// where the element can be. A message, a repeated field of messages and a
/// map get a notice each. `repeated` around `repeated` or around a map is an
/// internal error.
pub open spec fn emit_field(scope: BlockScopeView, field: FieldDeclarationView) -> Result<
    EmittedView,
    ProtoErrorView,
> {
    let name = field.json_name();
    match field.field_type {
        FieldTypeView::Basic(basic) => Ok(
            EmittedView::Instruction(scalar_encoding(name, basic, field.tag)),
        ),
        FieldTypeView::IdPath(ids) => match classify(scope, ids) {
            Ok(Classified::Scalar(basic)) => Ok(
                EmittedView::Instruction(scalar_encoding(name, basic, field.tag)),
            ),
            Ok(Classified::EnumType) => Ok(
                EmittedView::Instruction(enum_encoding(name, field.tag)),
            ),
            Ok(Classified::MessageType) => Ok(notice(field, UnsupportedKind::MessageField)),
            Err(error) => Err(error),
        },
        FieldTypeView::Repeated(element) => match *element {
            FieldTypeView::Basic(basic) => Ok(
                EmittedView::Instruction(repeated_encoding(name, basic, field.tag)),
            ),
            FieldTypeView::IdPath(ids) => match classify(scope, ids) {
                Ok(Classified::Scalar(basic)) => Ok(
                    EmittedView::Instruction(repeated_encoding(name, basic, field.tag)),
                ),
                Ok(Classified::EnumType) => Ok(
                    EmittedView::Instruction(repeated_encoding(name, BasicType::Int32, field.tag)),
                ),
                Ok(Classified::MessageType) => Ok(
                    notice(field, UnsupportedKind::RepeatedMessageField),
                ),
                Err(error) => Err(error),
            },
            _ => Err(ProtoErrorView::Internal),
        },
        FieldTypeView::MapOf(_, _) => Ok(notice(field, UnsupportedKind::MapField)),
    }
}

/// A field whose type is written as the word of a scalar type is a scalar
/// field of that type, in any scope: it is written as its tag and its value.
pub proof fn lemma_scalar_word_is_scalar(
    scope: BlockScopeView,
    field: FieldDeclarationView,
    basic: BasicType,
)
    requires
        field.field_type == FieldTypeView::IdPath(seq![basic.spelling()]),
    ensures
        emit_field(scope, field) == Ok::<EmittedView, ProtoErrorView>(
            EmittedView::Instruction(scalar_encoding(field.json_name(), basic, field.tag)),
        ),
{
    crate::wire::lemma_spelling_names_the_type(basic);
    assert(seq![basic.spelling()][0] == basic.spelling());
}

/// A field whose type, or whose element type, is a reference that does not
/// spell a scalar type and that the scope cannot resolve has no group: the
/// generator reports the error of the resolver.
pub proof fn lemma_unresolved_reference_is_reported(
    scope: BlockScopeView,
    field: FieldDeclarationView,
    ids: Seq<Seq<char>>,
)
    requires
        field.field_type == FieldTypeView::IdPath(ids) || field.field_type
            == FieldTypeView::Repeated(Box::new(FieldTypeView::IdPath(ids))),
        ids.len() > 0,
        !(ids.len() == 1 && BasicType::spelled_as(ids[0]) is Some),
        resolve(scope, ids) is Err,
    ensures
        emit_field(scope, field) == Err::<EmittedView, ProtoErrorView>(resolve(scope, ids)->Err_0),
{
}

fn unsupported(field: &FieldDeclaration, kind: UnsupportedKind) -> (emitted: Emitted)
    ensures
        emitted@ == notice(field@, kind),
{
    Emitted::Notice(Unsupported { name: field.name.clone(), kind })
}

/// Computes [`emit_field`].
pub fn encode_field(scope: &BlockScope, field: &FieldDeclaration) -> (result: Result<
    Emitted,
    ProtoError,
>)
    ensures
        match result {
            Ok(emitted) => emit_field(scope@, field@) == Ok::<EmittedView, ProtoErrorView>(
                emitted@,
            ),
            Err(error) => emit_field(scope@, field@) == Err::<EmittedView, ProtoErrorView>(error@),
        },
{
    let js_name = field.json_name();
    match &field.field_type {
        FieldType::Basic(_) => Ok(
            Emitted::Instruction(encode_basic_type_field(&js_name, &field.field_type, field.tag)),
        ),
        FieldType::IdPath(ids) => match classify_path(scope, ids) {
            Ok(Classified::Scalar(basic)) => Ok(
                Emitted::Instruction(
                    encode_basic_type_field(&js_name, &FieldType::Basic(basic), field.tag),
                ),
            ),
            Ok(Classified::EnumType) => Ok(
                Emitted::Instruction(encode_enum_field(&js_name, field.tag)),
            ),
            Ok(Classified::MessageType) => Ok(unsupported(field, UnsupportedKind::MessageField)),
            Err(error) => Err(error),
        },
        FieldType::Repeated(element) => {
            let element: &FieldType = &**element;
            assert(field.field_type@ == FieldTypeView::Repeated(Box::new(element@)));
            match element {
                FieldType::Basic(_) => Ok(
                    Emitted::Instruction(
                        encode_basic_repeated_type_field(&js_name, element, field.tag),
                    ),
                ),
                FieldType::IdPath(ids) => match classify_path(scope, ids) {
                    Ok(Classified::Scalar(basic)) => Ok(
                        Emitted::Instruction(
                            encode_basic_repeated_type_field(
                                &js_name,
                                &FieldType::Basic(basic),
                                field.tag,
                            ),
                        ),
                    ),
                    Ok(Classified::EnumType) => Ok(
                        Emitted::Instruction(
                            encode_basic_repeated_type_field(
                                &js_name,
                                &FieldType::Basic(BasicType::Int32),
                                field.tag,
                            ),
                        ),
                    ),
                    Ok(Classified::MessageType) => Ok(
                        unsupported(field, UnsupportedKind::RepeatedMessageField),
                    ),
                    Err(error) => Err(error),
                },
                _ => Err(ProtoError::Internal),
            }
        },
        FieldType::MapOf(_, _) => Ok(unsupported(field, UnsupportedKind::MapField)),
    }
}

/// The plain fields among the first `count` entries, in the order of their
/// declaration.
pub open spec fn fields_upto(entries: Seq<MessageEntryView>, count: int) -> Seq<
    FieldDeclarationView,
>
    decreases count,
{
    if count <= 0 {
        Seq::empty()
    } else {
        match entries[count - 1] {
            MessageEntryView::Field(field) => fields_upto(entries, count - 1).push(field),
            _ => fields_upto(entries, count - 1),
        }
    }
}

/// The notices for the `oneof` blocks among the first `count` entries.
pub open spec fn one_ofs_upto(entries: Seq<MessageEntryView>, count: int) -> Seq<UnsupportedView>
    decreases count,
{
    if count <= 0 {
        Seq::empty()
    } else {
        match entries[count - 1] {
            MessageEntryView::OneOf(one_of) => one_ofs_upto(entries, count - 1).push(
                UnsupportedView { name: one_of.name, kind: UnsupportedKind::OneOf },
            ),
            _ => one_ofs_upto(entries, count - 1),
        }
    }
}

/// The field numbers of `fields`.
pub open spec fn tags_of(fields: Seq<FieldDeclarationView>) -> Seq<i64> {
    Seq::new(fields.len(), |i: int| fields[i].tag)
}

/// `fields` in the order in which they are written.
pub open spec fn in_tag_order(fields: Seq<FieldDeclarationView>) -> Seq<FieldDeclarationView> {
    Seq::new(fields.len(), |p: int| fields[tag_order(tags_of(fields))[p] as int])
}

/// What the generator has for the fields from `next` on, added to the groups
/// and the notices that it has so far: those of each field in turn, up to the
/// first error.
pub open spec fn emit_from(
    scope: BlockScopeView,
    fields: Seq<FieldDeclarationView>,
    next: int,
    groups: Seq<FieldEncodingView>,
    notices: Seq<UnsupportedView>,
) -> Result<(Seq<FieldEncodingView>, Seq<UnsupportedView>), ProtoErrorView>
    decreases fields.len() - next,
{
    if next < 0 || next >= fields.len() {
        Ok((groups, notices))
    } else {
        match emit_field(scope, fields[next]) {
            Err(error) => Err(error),
            Ok(EmittedView::Instruction(group)) => emit_from(
                scope,
                fields,
                next + 1,
                groups.push(group),
                notices,
            ),
            Ok(EmittedView::Notice(notice)) => emit_from(
                scope,
                fields,
                next + 1,
                groups,
                notices.push(notice),
            ),
        }
    }
}

/// A parameter of a generated procedure.
#[derive(Debug, PartialEq, Eq)]
pub struct Parameter {
    pub name: String,
    pub parameter_type: String,
    /// Whether the caller may leave the parameter out.
    pub optional: bool,
}

/// The view of [`Parameter`].
pub struct ParameterView {
    pub name: Seq<char>,
    pub parameter_type: Seq<char>,
    pub optional: bool,
}

impl View for Parameter {
    type V = ParameterView;

    open spec fn view(&self) -> ParameterView {
        ParameterView { name: self.name@, parameter_type: self.parameter_type@, optional: self.optional }
    }
}

/// The name of the type of the writer.
pub open spec fn writer_type() -> Seq<char> {
    "Writer"@
}

/// The parameters of the procedure for the message type `message`: the
/// message value, and a writer that the caller may leave out.
pub open spec fn encode_parameters(message: Seq<char>) -> Seq<ParameterView> {
    seq![
        ParameterView { name: "message"@, parameter_type: message, optional: false },
        ParameterView { name: "writer"@, parameter_type: writer_type(), optional: true },
    ]
}

/// The procedure that writes a value of one message type. It takes the
/// message value and, if the caller has one, a writer; it makes the calls of
/// its groups on that writer, or on a new one, and returns the writer.
#[derive(Debug, PartialEq, Eq)]
pub struct EncodeProcedure {
    /// The name of the message type.
    pub message: String,
    pub parameters: Vec<Parameter>,
    /// The name of the type of the result.
    pub returns: String,
    /// One group for each field that is written, in the order of writing.
    pub instructions: Vec<FieldEncoding>,
    /// The entries that are not written: the `oneof` blocks in the order of
    /// their declaration, then the fields in the order of writing.
    pub unsupported: Vec<Unsupported>,
}

/// The view of [`EncodeProcedure`].
pub struct EncodeProcedureView {
    pub message: Seq<char>,
    pub parameters: Seq<ParameterView>,
    pub returns: Seq<char>,
    pub instructions: Seq<FieldEncodingView>,
    pub unsupported: Seq<UnsupportedView>,
}

impl View for EncodeProcedure {
    type V = EncodeProcedureView;

    open spec fn view(&self) -> EncodeProcedureView {
        EncodeProcedureView {
            message: self.message@,
            parameters: views(self.parameters@),
            returns: self.returns@,
            instructions: views(self.instructions@),
            unsupported: views(self.unsupported@),
        }
    }
}

/// The procedure for `message`, or the error that its generation ends with.
pub open spec fn encode_message(scope: BlockScopeView, message: MessageDeclarationView) -> Result<
    EncodeProcedureView,
    ProtoErrorView,
> {
    let count = message.entries.len() as int;
    match emit_from(
        scope,
        in_tag_order(fields_upto(message.entries, count)),
        0,
        Seq::empty(),
        one_ofs_upto(message.entries, count),
    ) {
        Ok((instructions, unsupported)) => Ok(
            EncodeProcedureView {
                message: message.name,
                parameters: encode_parameters(message.name),
                returns: writer_type(),
                instructions,
                unsupported,
            },
        ),
        Err(error) => Err(error),
    }
}

/// Generates the procedure that writes a value of `message`, whose field
/// types are resolved in `scope`.
pub fn generate_encode(scope: &BlockScope, message: &MessageDeclaration) -> (result: Result<
    EncodeProcedure,
    ProtoError,
>)
    ensures
        match result {
            Ok(procedure) => encode_message(scope@, message@) == Ok::<
                EncodeProcedureView,
                ProtoErrorView,
            >(procedure@),
            Err(error) => encode_message(scope@, message@) == Err::<
                EncodeProcedureView,
                ProtoErrorView,
            >(error@),
        },
{
    let entries = &message.entries;
    let mut fields: Vec<&FieldDeclaration> = Vec::new();
    let mut tags: Vec<i64> = Vec::new();
    let mut unsupported: Vec<Unsupported> = Vec::new();
    proof {
        lemma_message_view(*message);
        lemma_views_empty::<&FieldDeclaration>();
        lemma_views_empty::<Unsupported>();
    }
    let mut i: usize = 0;
    while i < entries.len()
        invariant
            i <= entries@.len(),
            views(fields@) == fields_upto(views(entries@), i as int),
            tags@ =~= tags_of(views(fields@)),
            views(unsupported@) == one_ofs_upto(views(entries@), i as int),
        decreases entries@.len() - i,
    {
        match &entries[i] {
            MessageEntry::Field(field) => {
                proof {
                    lemma_views_push(fields@, field);
                }
                fields.push(field);
                tags.push(field.tag);
            },
            MessageEntry::OneOf(one_of) => {
                let notice = Unsupported {
                    name: one_of.name.clone(),
                    kind: UnsupportedKind::OneOf,
                };
                proof {
                    lemma_views_push(unsupported@, notice);
                }
                unsupported.push(notice);
            },
            _ => {},
        }
        i = i + 1;
    }
    let order = sort_by_tag(&tags);
    let ghost sorted = in_tag_order(views(fields@));
    let ghost start = views(unsupported@);
    let mut instructions: Vec<FieldEncoding> = Vec::new();
    proof {
        lemma_views_empty::<FieldEncoding>();
    }
    let mut next: usize = 0;
    while next < order.len()
        invariant
            next <= order@.len(),
            order@.len() == fields@.len(),
            sorted == in_tag_order(views(fields@)),
            sorted == in_tag_order(fields_upto(message@.entries, message@.entries.len() as int)),
            start == one_ofs_upto(message@.entries, message@.entries.len() as int),
            order@ == tag_order(tags_of(views(fields@))),
            is_tag_order(tags_of(views(fields@)), order@),
            emit_from(scope@, sorted, 0, Seq::empty(), start) == emit_from(
                scope@,
                sorted,
                next as int,
                views(instructions@),
                views(unsupported@),
            ),
        decreases order@.len() - next,
    {
        let field = fields[order[next]];
        assert(field@ == sorted[next as int]);
        match encode_field(scope, field) {
            Ok(Emitted::Instruction(group)) => {
                proof {
                    lemma_views_push(instructions@, group);
                }
                instructions.push(group);
            },
            Ok(Emitted::Notice(notice)) => {
                proof {
                    lemma_views_push(unsupported@, notice);
                }
                unsupported.push(notice);
            },
            Err(error) => {
                return Err(error);
            },
        }
        next = next + 1;
    }
    let mut parameters: Vec<Parameter> = Vec::new();
    parameters.push(
        Parameter {
            name: String::from_str("message"),
            parameter_type: message.name.clone(),
            optional: false,
        },
    );
    parameters.push(
        Parameter {
            name: String::from_str("writer"),
            parameter_type: String::from_str("Writer"),
            optional: true,
        },
    );
    proof {
        assert(views(parameters@) =~= encode_parameters(message@.name));
    }
    Ok(
        EncodeProcedure {
            message: message.name.clone(),
            parameters,
            returns: String::from_str("Writer"),
            instructions,
            unsupported,
        },
    )
}

/// A generated file.
#[derive(Debug, PartialEq, Eq)]
pub struct File {
    pub name: String,
    pub body: FileBody,
}

/// What a generated file holds.
#[derive(Debug, PartialEq, Eq)]
pub enum FileBody {
    /// Nothing yet.
    Empty,
    Encode(EncodeProcedure),
}

/// The files generated for one message.
#[derive(Debug, PartialEq, Eq)]
pub struct Folder {
    pub entries: Vec<File>,
}

/// The view of [`FileBody`].
pub enum FileBodyView {
    Empty,
    Encode(EncodeProcedureView),
}

/// The view of [`File`].
pub struct FileView {
    pub name: Seq<char>,
    pub body: FileBodyView,
}

/// The view of [`Folder`].
pub struct FolderView {
    pub entries: Seq<FileView>,
}

impl View for FileBody {
    type V = FileBodyView;

    open spec fn view(&self) -> FileBodyView {
        match self {
            FileBody::Empty => FileBodyView::Empty,
            FileBody::Encode(procedure) => FileBodyView::Encode(procedure@),
        }
    }
}

impl View for File {
    type V = FileView;

    open spec fn view(&self) -> FileView {
        FileView { name: self.name@, body: self.body@ }
    }
}

impl View for Folder {
    type V = FolderView;

    open spec fn view(&self) -> FolderView {
        FolderView { entries: views(self.entries@) }
    }
}

/// The name of the file that holds the encode procedure.
pub open spec fn encode_file_name() -> Seq<char> {
    "encode"@
}

/// The name of the file that is to hold the decode procedure.
pub open spec fn decode_file_name() -> Seq<char> {
    "decode"@
}

/// Generates the encode procedure of `message_declaration` and adds the file
/// `encode` that holds it to `message_folder`; the procedure lists the
/// entries that are not written. Where the generation fails, the folder stays
/// as it was.
pub fn compile_encode(
    message_folder: &mut Folder,
    scope: &BlockScope,
    message_declaration: &MessageDeclaration,
) -> (result: Result<(), ProtoError>)
    ensures
        match result {
            Ok(()) => encode_message(scope@, message_declaration@) matches Ok(procedure)
                && final(message_folder)@.entries == old(message_folder)@.entries.push(
                FileView { name: encode_file_name(), body: FileBodyView::Encode(procedure) },
            ),
            Err(error) => encode_message(scope@, message_declaration@) == Err::<
                EncodeProcedureView,
                ProtoErrorView,
            >(error@) && final(message_folder)@ == old(message_folder)@,
        },
{
    match generate_encode(scope, message_declaration) {
        Ok(procedure) => {
            let file = File { name: String::from_str("encode"), body: FileBody::Encode(procedure) };
            proof {
                lemma_views_push(message_folder.entries@, file);
            }
            message_folder.entries.push(file);
            Ok(())
        },
        Err(error) => Err(error),
    }
}

/// Adds the file `decode` to `message_folder`. The file is empty: decoding is
/// not generated yet.
pub fn compile_decode(scope: &BlockScope, message_folder: &mut Folder) -> (result: Result<
    (),
    ProtoError,
>)
    ensures
        result is Ok,
        final(message_folder)@.entries == old(message_folder)@.entries.push(
            FileView { name: decode_file_name(), body: FileBodyView::Empty },
        ),
{
    let file = File { name: String::from_str("decode"), body: FileBody::Empty };
    proof {
        lemma_views_push(message_folder.entries@, file);
    }
    message_folder.entries.push(file);
    Ok(())
}

/// The field numbers are in ascending order, strictly so if `strict`.
pub open spec fn ascending(tags: Seq<i64>, strict: bool) -> bool {
    forall|p: int, q: int|
        0 <= p < q < tags.len() ==> if strict {
            #[trigger] tags[p] < #[trigger] tags[q]
        } else {
            tags[p] <= tags[q]
        }
}

/// The field numbers of `groups`.
pub open spec fn group_tags(groups: Seq<FieldEncodingView>) -> Seq<i64> {
    Seq::new(groups.len(), |i: int| groups[i].tag)
}

/// No two of the field numbers are equal.
pub open spec fn distinct(tags: Seq<i64>) -> bool {
    forall|i: int, j: int| 0 <= i < j < tags.len() ==> tags[i] != tags[j]
}

proof fn lemma_emit_ascending(
    scope: BlockScopeView,
    fields: Seq<FieldDeclarationView>,
    next: int,
    groups: Seq<FieldEncodingView>,
    notices: Seq<UnsupportedView>,
    strict: bool,
)
    requires
        0 <= next <= fields.len(),
        ascending(tags_of(fields), strict),
        ascending(group_tags(groups), strict),
        forall|g: int, q: int|
            0 <= g < groups.len() && next <= q < fields.len() ==> if strict {
                (#[trigger] groups[g]).tag < (#[trigger] fields[q]).tag
            } else {
                groups[g].tag <= fields[q].tag
            },
    ensures
        emit_from(scope, fields, next, groups, notices) matches Ok((all, _)) ==> ascending(
            group_tags(all),
            strict,
        ),
    decreases fields.len() - next,
{
    if next < fields.len() {
        match emit_field(scope, fields[next]) {
            Err(_) => {},
            Ok(EmittedView::Instruction(group)) => {
                let longer = groups.push(group);
                assert(group.tag == fields[next].tag);
                assert forall|p: int, q: int| 0 <= p < q < longer.len() implies if strict {
                    #[trigger] group_tags(longer)[p] < #[trigger] group_tags(longer)[q]
                } else {
                    group_tags(longer)[p] <= group_tags(longer)[q]
                } by {
                    if q < groups.len() {
                        assert(group_tags(groups)[p] == groups[p].tag);
                        assert(group_tags(groups)[q] == groups[q].tag);
                    } else {
                        assert(longer[p] == groups[p]);
                    }
                }
                assert forall|g: int, q: int|
                    0 <= g < longer.len() && next + 1 <= q < fields.len() implies if strict {
                    (#[trigger] longer[g]).tag < (#[trigger] fields[q]).tag
                } else {
                    longer[g].tag <= fields[q].tag
                } by {
                    if g < groups.len() {
                        assert(longer[g] == groups[g]);
                    } else {
                        assert(tags_of(fields)[next] == fields[next].tag);
                        assert(tags_of(fields)[q] == fields[q].tag);
                    }
                }
                lemma_emit_ascending(scope, fields, next + 1, longer, notices, strict);
            },
            Ok(EmittedView::Notice(notice)) => {
                lemma_emit_ascending(scope, fields, next + 1, groups, notices.push(notice), strict);
            },
        }
    }
}

/// There are no more plain fields than entries.
pub proof fn lemma_fields_upto_len(entries: Seq<MessageEntryView>, count: int)
    requires
        0 <= count,
    ensures
        fields_upto(entries, count).len() <= count,
    decreases count,
{
    if count > 0 {
        lemma_fields_upto_len(entries, count - 1);
    }
}

/// The groups of a message come in ascending order of field number, whatever
/// the order in which the fields are declared; where no two fields of the
/// message have the same number, the order is strict.
pub proof fn lemma_instructions_ascending(scope: BlockScopeView, message: MessageDeclarationView)
    requires
        message.entries.len() <= usize::MAX,
    ensures
        encode_message(scope, message) matches Ok(procedure) ==> {
            &&& ascending(group_tags(procedure.instructions), false)
            &&& distinct(tags_of(fields_upto(message.entries, message.entries.len() as int)))
                ==> ascending(group_tags(procedure.instructions), true)
        },
{
    let count = message.entries.len() as int;
    let fields = fields_upto(message.entries, count);
    let tags = tags_of(fields);
    let sorted = in_tag_order(fields);
    let order = tag_order(tags);
    lemma_fields_upto_len(message.entries, count);
    crate::order::lemma_tag_order_ascending(tags);
    assert forall|p: int, q: int| 0 <= p < q < sorted.len() implies tags_of(sorted)[p] <= tags_of(
        sorted,
    )[q] by {
        assert(tags[order[p] as int] <= tags[order[q] as int]);
    }
    assert(ascending(tags_of(sorted), false));
    lemma_emit_ascending(
        scope,
        sorted,
        0,
        Seq::empty(),
        one_ofs_upto(message.entries, count),
        false,
    );
    if distinct(tags) {
        assert forall|p: int, q: int| 0 <= p < q < sorted.len() implies #[trigger] tags_of(
            sorted,
        )[p] < #[trigger] tags_of(sorted)[q] by {
            assert(tags[order[p] as int] < tags[order[q] as int]);
        }
        assert(ascending(tags_of(sorted), true));
        lemma_emit_ascending(
            scope,
            sorted,
            0,
            Seq::empty(),
            one_ofs_upto(message.entries, count),
            true,
        );
    }
}

proof fn lemma_emit_counts(
    scope: BlockScopeView,
    fields: Seq<FieldDeclarationView>,
    next: int,
    groups: Seq<FieldEncodingView>,
    notices: Seq<UnsupportedView>,
)
    requires
        0 <= next <= fields.len(),
    ensures
        emit_from(scope, fields, next, groups, notices) matches Ok((all_groups, all_notices))
            ==> all_groups.len() + all_notices.len() == groups.len() + notices.len() + fields.len()
            - next,
    decreases fields.len() - next,
{
    if next < fields.len() {
        match emit_field(scope, fields[next]) {
            Err(_) => {},
            Ok(EmittedView::Instruction(group)) => {
                lemma_emit_counts(scope, fields, next + 1, groups.push(group), notices);
            },
            Ok(EmittedView::Notice(notice)) => {
                lemma_emit_counts(scope, fields, next + 1, groups, notices.push(notice));
            },
        }
    }
}

/// Nothing is lost: where the generation succeeds, every plain field of the
/// message has its group or its notice, and every `oneof` block its notice.
pub proof fn lemma_every_entry_accounted_for(scope: BlockScopeView, message: MessageDeclarationView)
    ensures
        encode_message(scope, message) matches Ok(procedure) ==> procedure.instructions.len()
            + procedure.unsupported.len() == fields_upto(
            message.entries,
            message.entries.len() as int,
        ).len() + one_ofs_upto(message.entries, message.entries.len() as int).len(),
{
    let count = message.entries.len() as int;
    lemma_emit_counts(
        scope,
        in_tag_order(fields_upto(message.entries, count)),
        0,
        Seq::empty(),
        one_ofs_upto(message.entries, count),
    );
}

/// Field `k` is taken at one of `places`.
pub open spec fn taken(places: Seq<int>, k: int) -> bool {
    exists|i: int| 0 <= i < places.len() && #[trigger] places[i] == k
}

/// `shuffled` holds the fields of `fields` in another order: field `i` of
/// `shuffled` is field `places[i]` of `fields`, and every field of `fields` is
/// taken once.
pub open spec fn same_fields(
    fields: Seq<FieldDeclarationView>,
    shuffled: Seq<FieldDeclarationView>,
    places: Seq<int>,
) -> bool {
    &&& shuffled.len() == fields.len()
    &&& places.len() == fields.len()
    &&& forall|i: int| 0 <= i < places.len() ==> 0 <= #[trigger] places[i] < fields.len()
    &&& forall|i: int| 0 <= i < places.len() ==> shuffled[i] == fields[#[trigger] places[i]]
    &&& forall|i: int, j: int|
        0 <= i < j < places.len() ==> #[trigger] places[i] != #[trigger] places[j]
    &&& forall|k: int| 0 <= k < fields.len() ==> #[trigger] taken(places, k)
}

/// Where no two fields have the same number, the order of writing does not
/// depend on the order of declaration.
pub proof fn lemma_tag_order_ignores_declaration_order(
    fields: Seq<FieldDeclarationView>,
    shuffled: Seq<FieldDeclarationView>,
    places: Seq<int>,
)
    requires
        fields.len() <= usize::MAX,
        same_fields(fields, shuffled, places),
        distinct(tags_of(fields)),
    ensures
        in_tag_order(shuffled) == in_tag_order(fields),
{
    let tags = tags_of(fields);
    let shuffled_tags = tags_of(shuffled);
    crate::order::lemma_tag_order(tags);
    crate::order::lemma_tag_order(shuffled_tags);
    let order = tag_order(shuffled_tags);
    let moved = Seq::new(order.len(), |p: int| places[order[p] as int] as usize);
    assert forall|p: int, q: int| 0 <= p < q < moved.len() implies crate::order::before(
        tags,
        #[trigger] moved[p] as int,
        #[trigger] moved[q] as int,
    ) by {
        assert(crate::order::before(shuffled_tags, order[p] as int, order[q] as int));
        assert(shuffled_tags[order[p] as int] == tags[places[order[p] as int]]);
        assert(shuffled_tags[order[q] as int] == tags[places[order[q] as int]]);
        if order[p] < order[q] {
            assert(places[order[p] as int] != places[order[q] as int]);
        } else if order[q] < order[p] {
            assert(places[order[q] as int] != places[order[p] as int]);
        }
        let low = places[order[p] as int];
        let high = places[order[q] as int];
        if low < high {
            assert(tags[low] != tags[high]);
        } else if high < low {
            assert(tags[high] != tags[low]);
        }
    }
    assert forall|k: int| 0 <= k < moved.len() implies #[trigger] crate::order::occurs(
        moved,
        k,
    ) by {
        assert(taken(places, k));
        let i = choose|i: int| 0 <= i < places.len() && places[i] == k;
        assert(crate::order::occurs(order, i));
        let p = choose|p: int| 0 <= p < order.len() && order[p] == i;
        assert(moved[p] == k);
    }
    assert(is_tag_order(tags, moved));
    crate::order::lemma_order_unique(tags, moved, tag_order(tags));
    assert(in_tag_order(shuffled) =~= in_tag_order(fields));
}

} // verus!
