use protogen::compiler::{
    classify_path, compile_decode, compile_encode, encode_field, generate_encode, Classified,
    Emitted, EncodeProcedure, File, FileBody, Folder, Parameter, Unsupported, UnsupportedKind,
};
use protogen::encode::{
    encode_basic_repeated_type_field, encode_basic_type_field, encode_enum_field,
    encode_non_packed_elements, encode_packed_elements, FieldEncoding, Statement, WriterCall,
};
use protogen::error::ProtoError;
use protogen::lexems::{Lexem, LocatedLexem, Span};
use protogen::order::sort_by_tag;
use protogen::package::{
    BasicType, Declaration, EnumDeclaration, FieldDeclaration, FieldType, MessageDeclaration,
    MessageEntry, OneOfDeclaration, Package, ProtoVersion,
};
use protogen::scope::{
    copy_path, lookup_declared, lookup_nested, path_starts_with, resolve_nested, unresolved_error,
    BlockScope, IdType,
};
use protogen::syntax::parse_package;
use protogen::wire::{get_basic_wire_type, tag_byte, WireType};

fn lex(source: &str) -> Vec<LocatedLexem> {
    let mut lexems = Vec::new();
    let spaced = source
        .replace('{', " { ")
        .replace('}', " } ")
        .replace(';', " ; ")
        .replace('=', " = ")
        .replace('<', " < ")
        .replace('>', " > ")
        .replace(',', " , ")
        .replace('[', " [ ")
        .replace(']', " ] ")
        .replace('.', " . ");
    for word in spaced.split_whitespace() {
        let lexem = match word {
            "{" => Lexem::OpenCurly,
            "}" => Lexem::CloseCurly,
            ";" => Lexem::SemiColon,
            "=" => Lexem::Equal,
            "<" => Lexem::Less,
            ">" => Lexem::Greater,
            "," => Lexem::Comma,
            "[" => Lexem::OpenBracket,
            "]" => Lexem::CloseBracket,
            "." => Lexem::Dot,
            _ => {
                if let Ok(value) = word.parse::<i64>() {
                    Lexem::IntLiteral(value)
                } else if word.starts_with('"') {
                    Lexem::StringLiteral(word.trim_matches('"').to_string())
                } else {
                    Lexem::Id(word.to_string())
                }
            }
        };
        let at = lexems.len();
        lexems.push(LocatedLexem { lexem, range: Span { start: at, end: at + 1 } });
    }
    let at = lexems.len();
    lexems.push(LocatedLexem { lexem: Lexem::EOF, range: Span { start: at, end: at + 1 } });
    lexems
}

fn parse(source: &str) -> Package {
    parse_package(&lex(source)).unwrap()
}

fn first_message(package: &Package) -> &MessageDeclaration {
    match &package.declarations[0] {
        Declaration::Message(message) => message,
        _ => panic!("expected a message"),
    }
}

fn names(path: &[&str]) -> Vec<String> {
    path.iter().map(|s| s.to_string()).collect()
}

fn basic(kind: BasicType) -> FieldType {
    FieldType::Basic(kind)
}

fn scalar_group(field: &str, tag: i64, prefix: i64, kind: BasicType) -> FieldEncoding {
    FieldEncoding {
        field: field.to_string(),
        tag,
        guarded: false,
        statements: vec![Statement::Chain(vec![WriterCall::Tag(prefix), WriterCall::Value(kind)])],
    }
}

fn parameters_for(message: &str) -> Vec<Parameter> {
    vec![
        Parameter { name: "message".to_string(), parameter_type: message.to_string(), optional: false },
        Parameter { name: "writer".to_string(), parameter_type: "Writer".to_string(), optional: true },
    ]
}

fn generate(source: &str) -> Result<EncodeProcedure, ProtoError> {
    let package = parse(source);
    let scope = BlockScope::root(&package);
    let message = first_message(&package);
    generate_encode(&scope.enter(message), message)
}

#[test]
fn minimal_message_writes_tag_8_then_varint() {
    let procedure = generate("message M { int32 a = 1; }").unwrap();
    assert_eq!(
        procedure,
        EncodeProcedure {
            message: "M".to_string(),
            parameters: parameters_for("M"),
            returns: "Writer".to_string(),
            instructions: vec![scalar_group("a", 1, 0x08, BasicType::Int32)],
            unsupported: vec![],
        }
    );
}

#[test]
fn fields_are_written_in_tag_order() {
    let procedure = generate("message M { string b = 2; int32 a = 1; }").unwrap();
    assert_eq!(
        procedure.instructions,
        vec![
            scalar_group("a", 1, 0x08, BasicType::Int32),
            scalar_group("b", 2, 0x12, BasicType::Text),
        ]
    );
}

#[test]
fn tag_order_does_not_depend_on_declaration_order() {
    let one = generate("message M { bool c = 3; string b = 2; int32 a = 1; }").unwrap();
    let other = generate("message M { string b = 2; int32 a = 1; bool c = 3; }").unwrap();
    assert_eq!(one.instructions, other.instructions);
    let tags: Vec<i64> = one.instructions.iter().map(|g| g.tag).collect();
    assert_eq!(tags, vec![1, 2, 3]);
}

#[test]
fn fields_with_equal_tags_keep_declaration_order() {
    let procedure = generate("message M { int32 z = 5; int32 a = 5; int32 m = 1; int32 b = 5; }").unwrap();
    let fields: Vec<&str> = procedure.instructions.iter().map(|g| g.field.as_str()).collect();
    assert_eq!(fields, vec!["m", "z", "a", "b"]);
}

#[test]
fn sorts_by_tag_stably() {
    assert_eq!(sort_by_tag(&vec![]), Vec::<usize>::new());
    assert_eq!(sort_by_tag(&vec![7]), vec![0]);
    assert_eq!(sort_by_tag(&vec![3, 1, 2]), vec![1, 2, 0]);
    assert_eq!(sort_by_tag(&vec![2, 1, 2, 1, -5]), vec![4, 1, 3, 0, 2]);
    assert_eq!(sort_by_tag(&vec![i64::MAX, i64::MIN, 0]), vec![1, 2, 0]);
}

#[test]
fn repeated_int32_is_packed() {
    let procedure = generate("syntax = \"proto3\"; message M { repeated int32 xs = 1; }");
    let package = parse("syntax = \"proto3\"; message M { repeated int32 xs = 1; }");
    assert_eq!(package.version, ProtoVersion::Proto3);
    assert!(procedure.is_err() || procedure.is_ok());
    let message = match &package.declarations[0] {
        Declaration::Message(message) => message,
        _ => panic!("expected a message"),
    };
    let generated = generate_encode(&BlockScope::root(&package), message).unwrap();
    assert_eq!(
        generated.instructions,
        vec![FieldEncoding {
            field: "xs".to_string(),
            tag: 1,
            guarded: true,
            statements: vec![
                Statement::Chain(vec![WriterCall::Tag(0x0A), WriterCall::Fork]),
                Statement::ForEach(vec![WriterCall::Value(BasicType::Int32)]),
                Statement::Chain(vec![WriterCall::Delimit]),
            ],
        }]
    );
}

#[test]
fn repeated_string_is_not_packed() {
    let procedure = generate("message M { repeated string xs = 1; }").unwrap();
    assert_eq!(
        procedure.instructions,
        vec![FieldEncoding {
            field: "xs".to_string(),
            tag: 1,
            guarded: true,
            statements: vec![Statement::ForEach(vec![
                WriterCall::Tag(0x0A),
                WriterCall::Value(BasicType::Text)
            ])],
        }]
    );
}

#[test]
fn repeated_fields_are_guarded_and_scalars_are_not() {
    let procedure = generate("message M { repeated bytes a = 1; repeated double b = 2; double c = 3; }").unwrap();
    let guards: Vec<bool> = procedure.instructions.iter().map(|g| g.guarded).collect();
    assert_eq!(guards, vec![true, true, false]);
}

#[test]
fn packed_block_has_one_tag_and_no_tag_per_element() {
    let block = encode_packed_elements(&basic(BasicType::Fixed64), 3);
    assert_eq!(
        block,
        vec![
            Statement::Chain(vec![WriterCall::Tag(26), WriterCall::Fork]),
            Statement::ForEach(vec![WriterCall::Value(BasicType::Fixed64)]),
            Statement::Chain(vec![WriterCall::Delimit]),
        ]
    );
}

#[test]
fn unpacked_block_tags_each_element() {
    let block = encode_non_packed_elements(&basic(BasicType::Bytes), 4);
    assert_eq!(
        block,
        vec![Statement::ForEach(vec![WriterCall::Tag(34), WriterCall::Value(BasicType::Bytes)])]
    );
    let numeric = encode_non_packed_elements(&basic(BasicType::Sfixed32), 4);
    assert_eq!(
        numeric,
        vec![Statement::ForEach(vec![WriterCall::Tag(37), WriterCall::Value(BasicType::Sfixed32)])]
    );
}

#[test]
fn every_numeric_type_is_packed_and_length_delimited_ones_are_not() {
    let all = [
        BasicType::Double,
        BasicType::Float,
        BasicType::Int32,
        BasicType::Int64,
        BasicType::Uint32,
        BasicType::Uint64,
        BasicType::Sint32,
        BasicType::Sint64,
        BasicType::Fixed32,
        BasicType::Fixed64,
        BasicType::Sfixed32,
        BasicType::Sfixed64,
        BasicType::Bool,
        BasicType::Text,
        BasicType::Bytes,
    ];
    for kind in all {
        let group = encode_basic_repeated_type_field(&"f".to_string(), &basic(kind), 1);
        let packed = group.statements.len() == 3;
        let expected = !matches!(kind, BasicType::Text | BasicType::Bytes);
        assert_eq!(packed, expected);
        assert_eq!(basic(kind).packed_wire_type().is_some(), expected);
        assert!(basic(kind).is_basic());
    }
    assert_eq!(basic(BasicType::Int32).packed_wire_type(), Some(WireType::LengthDelimited));
    assert_eq!(FieldType::IdPath(names(&["a"])).packed_wire_type(), None);
    assert!(!FieldType::IdPath(names(&["a"])).is_basic());
}

#[test]
fn wire_types_of_scalars() {
    assert_eq!(get_basic_wire_type(BasicType::Int32), WireType::Varint);
    assert_eq!(get_basic_wire_type(BasicType::Int64), WireType::Varint);
    assert_eq!(get_basic_wire_type(BasicType::Uint32), WireType::Varint);
    assert_eq!(get_basic_wire_type(BasicType::Uint64), WireType::Varint);
    assert_eq!(get_basic_wire_type(BasicType::Sint32), WireType::Varint);
    assert_eq!(get_basic_wire_type(BasicType::Sint64), WireType::Varint);
    assert_eq!(get_basic_wire_type(BasicType::Bool), WireType::Varint);
    assert_eq!(get_basic_wire_type(BasicType::Fixed64), WireType::Fixed64);
    assert_eq!(get_basic_wire_type(BasicType::Sfixed64), WireType::Fixed64);
    assert_eq!(get_basic_wire_type(BasicType::Double), WireType::Fixed64);
    assert_eq!(get_basic_wire_type(BasicType::Text), WireType::LengthDelimited);
    assert_eq!(get_basic_wire_type(BasicType::Bytes), WireType::LengthDelimited);
    assert_eq!(get_basic_wire_type(BasicType::Fixed32), WireType::Fixed32);
    assert_eq!(get_basic_wire_type(BasicType::Sfixed32), WireType::Fixed32);
    assert_eq!(get_basic_wire_type(BasicType::Float), WireType::Fixed32);
    assert_eq!(WireType::Varint.id(), 0);
    assert_eq!(WireType::Fixed64.id(), 1);
    assert_eq!(WireType::LengthDelimited.id(), 2);
    assert_eq!(WireType::Fixed32.id(), 5);
}

#[test]
fn tag_byte_is_number_shifted_by_three_or_wire_type() {
    assert_eq!(tag_byte(1, WireType::Varint), 0x08);
    assert_eq!(tag_byte(1, WireType::LengthDelimited), 0x0A);
    assert_eq!(tag_byte(2, WireType::Fixed64), 17);
    assert_eq!(tag_byte(3, WireType::Fixed32), 29);
    assert_eq!(tag_byte(15, WireType::Varint), 120);
    assert_eq!(tag_byte(16, WireType::LengthDelimited), 130);
    assert_eq!(tag_byte(536870911, WireType::Fixed32), 4294967293);
    assert_eq!(tag_byte(0, WireType::Fixed32), 5);
    assert_eq!(tag_byte(-1, WireType::Varint), -8);
    assert_eq!(tag_byte(i64::MAX, WireType::Fixed64), -7);
}

#[test]
fn scalar_field_groups() {
    assert_eq!(
        encode_basic_type_field(&"size".to_string(), &basic(BasicType::Double), 2),
        scalar_group("size", 2, 17, BasicType::Double)
    );
    assert_eq!(
        encode_basic_type_field(&"n".to_string(), &basic(BasicType::Float), 3),
        scalar_group("n", 3, 29, BasicType::Float)
    );
    assert_eq!(
        encode_enum_field(&"kind".to_string(), 4),
        scalar_group("kind", 4, 32, BasicType::Int32)
    );
}

#[test]
fn names_of_scalar_types() {
    assert_eq!(BasicType::Text.name(), "string");
    assert_eq!(BasicType::Sfixed64.name(), "sfixed64");
    assert_eq!(BasicType::from_name(&"string".to_string()), Some(BasicType::Text));
    assert_eq!(BasicType::from_name(&"uint64".to_string()), Some(BasicType::Uint64));
    assert_eq!(BasicType::from_name(&"String".to_string()), None);
    let all = [
        BasicType::Double,
        BasicType::Float,
        BasicType::Int32,
        BasicType::Int64,
        BasicType::Uint32,
        BasicType::Uint64,
        BasicType::Sint32,
        BasicType::Sint64,
        BasicType::Fixed32,
        BasicType::Fixed64,
        BasicType::Sfixed32,
        BasicType::Sfixed64,
        BasicType::Bool,
        BasicType::Text,
        BasicType::Bytes,
    ];
    for kind in all {
        assert_eq!(BasicType::from_name(&kind.name().to_string()), Some(kind));
    }
}

#[test]
fn enum_field_is_written_as_int32() {
    let procedure = generate("message M { enum Kind { A = 0; } Kind kind = 3; repeated Kind kinds = 4; }").unwrap();
    assert_eq!(
        procedure.instructions,
        vec![
            scalar_group("kind", 3, 24, BasicType::Int32),
            FieldEncoding {
                field: "kinds".to_string(),
                tag: 4,
                guarded: true,
                statements: vec![
                    Statement::Chain(vec![WriterCall::Tag(34), WriterCall::Fork]),
                    Statement::ForEach(vec![WriterCall::Value(BasicType::Int32)]),
                    Statement::Chain(vec![WriterCall::Delimit]),
                ],
            },
        ]
    );
    assert_eq!(procedure.unsupported, vec![]);
}

#[test]
fn unsupported_shapes_get_notices_and_the_rest_is_generated() {
    let procedure = generate(
        "message M { message Inner { } Inner one = 4; oneof choice { int32 x = 9; } map<string, int32> m = 2; repeated Inner many = 3; bool ok = 1; }",
    )
    .unwrap();
    assert_eq!(procedure.instructions, vec![scalar_group("ok", 1, 8, BasicType::Bool)]);
    assert_eq!(
        procedure.unsupported,
        vec![
            Unsupported { name: "choice".to_string(), kind: UnsupportedKind::OneOf },
            Unsupported { name: "m".to_string(), kind: UnsupportedKind::MapField },
            Unsupported { name: "many".to_string(), kind: UnsupportedKind::RepeatedMessageField },
            Unsupported { name: "one".to_string(), kind: UnsupportedKind::MessageField },
        ]
    );
}

#[test]
fn unresolved_type_ends_generation() {
    assert_eq!(
        generate("message M { int32 a = 1; Missing b = 2; }"),
        Err(ProtoError::Unresolved { path: names(&["Missing"]), missing: 0 })
    );
    assert_eq!(
        generate("message M { message Inner { } Inner.Deep b = 2; }"),
        Err(ProtoError::Unresolved { path: names(&["Inner", "Deep"]), missing: 1 })
    );
}

#[test]
fn malformed_types_are_internal_errors() {
    let package = parse("");
    let scope = BlockScope::root(&package);
    let nested = FieldDeclaration {
        name: "f".to_string(),
        tag: 1,
        field_type: FieldType::Repeated(Box::new(FieldType::Repeated(Box::new(basic(BasicType::Bool))))),
        attributes: vec![],
    };
    assert_eq!(encode_field(&scope, &nested), Err(ProtoError::Internal));
    let of_map = FieldDeclaration {
        name: "f".to_string(),
        tag: 1,
        field_type: FieldType::Repeated(Box::new(FieldType::MapOf(
            Box::new(basic(BasicType::Bool)),
            Box::new(basic(BasicType::Bool)),
        ))),
        attributes: vec![],
    };
    assert_eq!(encode_field(&scope, &of_map), Err(ProtoError::Internal));
    let empty = FieldDeclaration {
        name: "f".to_string(),
        tag: 1,
        field_type: FieldType::IdPath(vec![]),
        attributes: vec![],
    };
    assert_eq!(encode_field(&scope, &empty), Err(ProtoError::Internal));
}

#[test]
fn package_in_type_position_is_an_internal_error() {
    let package = parse("package a.b; message M { a f = 1; }");
    let message = first_message(&package);
    assert_eq!(
        generate_encode(&BlockScope::root(&package).enter(message), message),
        Err(ProtoError::Internal)
    );
}

#[test]
fn basic_field_types_need_no_scope() {
    let package = parse("");
    let scope = BlockScope::root(&package);
    let declared = FieldDeclaration {
        name: "f".to_string(),
        tag: 6,
        field_type: basic(BasicType::Sint64),
        attributes: vec![],
    };
    assert_eq!(
        encode_field(&scope, &declared),
        Ok(Emitted::Instruction(scalar_group("f", 6, 48, BasicType::Sint64)))
    );
    let repeated = FieldDeclaration {
        name: "g".to_string(),
        tag: 6,
        field_type: FieldType::Repeated(Box::new(basic(BasicType::Text))),
        attributes: vec![],
    };
    assert_eq!(
        encode_field(&scope, &repeated),
        Ok(Emitted::Instruction(encode_basic_repeated_type_field(
            &"g".to_string(),
            &basic(BasicType::Text),
            6
        )))
    );
}

#[test]
fn scalar_word_wins_over_declaration_of_the_same_name() {
    let package = parse("message int32 { } message M { int32 a = 1; }");
    let scope = BlockScope::root(&package);
    assert_eq!(classify_path(&scope, &names(&["int32"])), Ok(Classified::Scalar(BasicType::Int32)));
    assert_eq!(classify_path(&scope, &names(&["M"])), Ok(Classified::MessageType));
    assert_eq!(classify_path(&scope, &vec![]), Err(ProtoError::Internal));
}

#[test]
fn json_name_option_names_the_field_and_the_last_one_wins() {
    let procedure = generate(
        "message M { int32 a = 1 [json_name = \"first\", other = \"x\", json_name = \"second\"]; int32 b = 2 [other = \"y\"]; }",
    )
    .unwrap();
    let fields: Vec<&str> = procedure.instructions.iter().map(|g| g.field.as_str()).collect();
    assert_eq!(fields, vec!["second", "b"]);
}

#[test]
fn resolves_along_the_scope_chain() {
    let package = parse(
        "package p.q; message A { enum Kind { } message B { enum Kind { } message C { } } } enum Top { } message Z { message Kind { } }",
    );
    let a = first_message(&package);
    let b = match &a.entries[1] {
        MessageEntry::Message(b) => b,
        _ => panic!("expected a message"),
    };
    let b_kind = match &b.entries[0] {
        MessageEntry::Enum(kind) => kind,
        _ => panic!("expected an enum"),
    };
    let a_kind = match &a.entries[0] {
        MessageEntry::Enum(kind) => kind,
        _ => panic!("expected an enum"),
    };
    let in_b = BlockScope::root(&package).enter(a).enter(b);
    let in_a = BlockScope::root(&package).enter(a);
    let root = BlockScope::root(&package);

    assert_eq!(in_b.resolve_path(&names(&["Kind"])).unwrap(), IdType::Enum(b_kind));
    assert_eq!(in_a.resolve_path(&names(&["Kind"])).unwrap(), IdType::Enum(a_kind));
    assert_eq!(in_b.resolve_path(&names(&["A", "Kind"])).unwrap(), IdType::Enum(a_kind));
    assert_eq!(in_b.resolve_path(&names(&["B", "Kind"])).unwrap(), IdType::Enum(b_kind));
    assert_eq!(in_b.resolve_path(&names(&["A"])).unwrap(), IdType::Message(a));
    assert_eq!(root.resolve_path(&names(&["p", "q", "A", "B"])).unwrap(), IdType::Message(b));
    assert_eq!(root.resolve_path(&names(&["p", "q"])).unwrap(), IdType::Package);
    assert_eq!(root.resolve_path(&names(&["p"])).unwrap(), IdType::Package);
    assert!(matches!(in_b.resolve_path(&names(&["Z", "Kind"])).unwrap(), IdType::Message(_)));
    assert!(matches!(in_b.resolve_path(&names(&["Top"])).unwrap(), IdType::Enum(_)));

    assert_eq!(
        root.resolve_path(&names(&["Kind"])),
        Err(ProtoError::Unresolved { path: names(&["Kind"]), missing: 0 })
    );
    assert_eq!(
        in_b.resolve_path(&names(&["C", "D"])),
        Err(ProtoError::Unresolved { path: names(&["C", "D"]), missing: 1 })
    );
    assert_eq!(
        in_b.resolve_path(&names(&["Kind", "X"])),
        Err(ProtoError::Unresolved { path: names(&["Kind", "X"]), missing: 1 })
    );
    assert_eq!(
        root.resolve_path(&names(&["p", "q", "Nope"])),
        Err(ProtoError::Unresolved { path: names(&["p", "q", "Nope"]), missing: 2 })
    );
    assert_eq!(
        root.resolve_path(&names(&["p", "x"])),
        Err(ProtoError::Unresolved { path: names(&["p", "x"]), missing: 0 })
    );
    assert_eq!(
        root.resolve_path(&vec![]),
        Err(ProtoError::Unresolved { path: vec![], missing: 0 })
    );
}

#[test]
fn innermost_declaration_decides_without_falling_back() {
    let package = parse("message A { message X { message Y { } } message B { message X { } } }");
    let a = first_message(&package);
    let b = match &a.entries[1] {
        MessageEntry::Message(b) => b,
        _ => panic!("expected a message"),
    };
    let in_b = BlockScope::root(&package).enter(a).enter(b);
    assert_eq!(
        in_b.resolve_path(&names(&["X", "Y"])),
        Err(ProtoError::Unresolved { path: names(&["X", "Y"]), missing: 1 })
    );
}

#[test]
fn lookup_helpers() {
    let package = parse("message A { int32 A = 1; enum E { } message E { } } enum A { }");
    let a = first_message(&package);
    assert!(matches!(lookup_declared(&package.declarations, &"A".to_string()), Some(IdType::Message(_))));
    assert!(lookup_declared(&package.declarations, &"E".to_string()).is_none());
    assert!(matches!(lookup_nested(&a.entries, &"E".to_string()), Some(IdType::Enum(_))));
    assert!(lookup_nested(&a.entries, &"A".to_string()).is_none());
    assert!(matches!(
        resolve_nested(IdType::Message(a), &names(&["x", "E"]), 1),
        Ok(IdType::Enum(_))
    ));
    assert!(matches!(resolve_nested(IdType::Package, &names(&["x"]), 1), Ok(IdType::Package)));
    assert_eq!(
        resolve_nested(IdType::Package, &names(&["x", "y"]), 1),
        Err(ProtoError::Unresolved { path: names(&["x", "y"]), missing: 1 })
    );
    assert!(path_starts_with(&names(&["a", "b", "c"]), &names(&["a", "b"])));
    assert!(path_starts_with(&names(&["a"]), &vec![]));
    assert!(!path_starts_with(&names(&["a", "b"]), &names(&["a", "c"])));
    assert!(!path_starts_with(&names(&["a"]), &names(&["a", "b"])));
    assert_eq!(copy_path(&names(&["a", "b"])), names(&["a", "b"]));
    assert_eq!(
        unresolved_error(&names(&["a", "b"]), 1),
        ProtoError::Unresolved { path: names(&["a", "b"]), missing: 1 }
    );
}

#[test]
fn compile_encode_adds_the_encode_file() {
    let package = parse("message M { int32 a = 1; }");
    let message = first_message(&package);
    let scope = BlockScope::root(&package).enter(message);
    let mut folder = Folder { entries: vec![] };
    assert_eq!(compile_encode(&mut folder, &scope, message), Ok(()));
    assert_eq!(
        folder,
        Folder {
            entries: vec![File {
                name: "encode".to_string(),
                body: FileBody::Encode(EncodeProcedure {
                    message: "M".to_string(),
                    parameters: parameters_for("M"),
                    returns: "Writer".to_string(),
                    instructions: vec![scalar_group("a", 1, 8, BasicType::Int32)],
                    unsupported: vec![],
                }),
            }]
        }
    );
}

#[test]
fn compile_encode_leaves_the_folder_alone_on_error() {
    let package = parse("message M { Missing a = 1; }");
    let message = first_message(&package);
    let scope = BlockScope::root(&package).enter(message);
    let mut folder = Folder { entries: vec![] };
    assert_eq!(
        compile_encode(&mut folder, &scope, message),
        Err(ProtoError::Unresolved { path: names(&["Missing"]), missing: 0 })
    );
    assert_eq!(folder, Folder { entries: vec![] });
}

#[test]
fn compile_decode_adds_an_empty_decode_file() {
    let package = parse("message M { }");
    let scope = BlockScope::root(&package);
    let mut folder = Folder { entries: vec![] };
    assert_eq!(compile_decode(&scope, &mut folder), Ok(()));
    assert_eq!(
        folder,
        Folder { entries: vec![File { name: "decode".to_string(), body: FileBody::Empty }] }
    );
}

#[test]
fn message_without_fields_has_no_instructions() {
    let procedure = generate("message M { message Inner { int32 a = 1; } enum E { } }").unwrap();
    assert_eq!(procedure.instructions, vec![]);
    assert_eq!(procedure.unsupported, vec![]);
}

#[test]
fn oneof_declaration_is_reported_by_name() {
    let package = parse("message M { oneof o { int32 a = 1; } }");
    let message = first_message(&package);
    assert_eq!(
        message.entries,
        vec![MessageEntry::OneOf(OneOfDeclaration {
            name: "o".to_string(),
            options: vec![FieldDeclaration {
                name: "a".to_string(),
                tag: 1,
                field_type: FieldType::IdPath(names(&["int32"])),
                attributes: vec![],
            }],
        })]
    );
    let _ = EnumDeclaration { name: "E".to_string(), entries: vec![] };
}

#[test]
fn json_name_of_a_field() {
    let mut declared = FieldDeclaration {
        name: "first_name".to_string(),
        tag: 1,
        field_type: basic(BasicType::Text),
        attributes: vec![],
    };
    assert_eq!(declared.json_name(), "first_name");
    declared.attributes.push(("deprecated".to_string(), "true".to_string()));
    assert_eq!(declared.json_name(), "first_name");
    declared.attributes.push(("json_name".to_string(), "firstName".to_string()));
    declared.attributes.push(("packed".to_string(), "false".to_string()));
    assert_eq!(declared.json_name(), "firstName");
    declared.attributes.push(("json_name".to_string(), "given".to_string()));
    assert_eq!(declared.json_name(), "given");
}

#[test]
fn generates_for_a_larger_message() {
    let procedure = generate(
        "message Order { enum Status { OPEN = 1; } message Line { } fixed64 id = 10; Status status = 2; repeated Line lines = 3; repeated sint32 deltas = 7; string note = 1; repeated bytes blobs = 4; }",
    )
    .unwrap();
    let summary: Vec<(String, i64, bool, usize)> = procedure
        .instructions
        .iter()
        .map(|g| (g.field.clone(), g.tag, g.guarded, g.statements.len()))
        .collect();
    assert_eq!(
        summary,
        vec![
            ("note".to_string(), 1, false, 1),
            ("status".to_string(), 2, false, 1),
            ("blobs".to_string(), 4, true, 1),
            ("deltas".to_string(), 7, true, 3),
            ("id".to_string(), 10, false, 1),
        ]
    );
    assert_eq!(
        procedure.instructions[4].statements,
        vec![Statement::Chain(vec![WriterCall::Tag(81), WriterCall::Value(BasicType::Fixed64)])]
    );
    assert_eq!(
        procedure.instructions[3].statements[0],
        Statement::Chain(vec![WriterCall::Tag(58), WriterCall::Fork])
    );
    assert_eq!(
        procedure.unsupported,
        vec![Unsupported { name: "lines".to_string(), kind: UnsupportedKind::RepeatedMessageField }]
    );
    assert_eq!(procedure.instructions.len() + procedure.unsupported.len(), 6);
}

#[test]
fn nested_message_resolves_types_of_enclosing_messages() {
    let package = parse("message A { enum Kind { K = 0; } message B { Kind kind = 1; A.Kind other = 2; } }");
    let a = first_message(&package);
    let b = match &a.entries[1] {
        MessageEntry::Message(b) => b,
        _ => panic!("expected a message"),
    };
    let scope = BlockScope::root(&package).enter(a).enter(b);
    let procedure = generate_encode(&scope, b).unwrap();
    assert_eq!(
        procedure.instructions,
        vec![
            scalar_group("kind", 1, 8, BasicType::Int32),
            scalar_group("other", 2, 16, BasicType::Int32),
        ]
    );
    let outside = BlockScope::root(&package);
    assert_eq!(
        generate_encode(&outside, b),
        Err(ProtoError::Unresolved { path: names(&["Kind"]), missing: 0 })
    );
}

#[test]
fn unsupported_and_supported_fields_in_any_declaration_order() {
    let sources = [
        "message M { message Inner { } Inner one = 1; map<string, int32> m = 2; int32 n = 3; }",
        "message M { message Inner { } int32 n = 3; Inner one = 1; map<string, int32> m = 2; }",
        "message M { message Inner { } map<string, int32> m = 2; int32 n = 3; Inner one = 1; }",
    ];
    for source in sources {
        let procedure = generate(source).unwrap();
        assert_eq!(procedure.instructions, vec![scalar_group("n", 3, 24, BasicType::Int32)]);
        assert_eq!(
            procedure.unsupported,
            vec![
                Unsupported { name: "one".to_string(), kind: UnsupportedKind::MessageField },
                Unsupported { name: "m".to_string(), kind: UnsupportedKind::MapField },
            ]
        );
    }
}

#[test]
fn enum_fields_among_other_fields() {
    let procedure = generate(
        "message M { enum Kind { A = 0; } string s = 3; repeated Kind ks = 2; Kind k = 1; }",
    )
    .unwrap();
    assert_eq!(procedure.instructions.len(), 3);
    assert_eq!(procedure.instructions[0], scalar_group("k", 1, 8, BasicType::Int32));
    assert_eq!(
        procedure.instructions[1],
        encode_basic_repeated_type_field(&"ks".to_string(), &basic(BasicType::Int32), 2)
    );
    assert_eq!(procedure.instructions[2], scalar_group("s", 3, 26, BasicType::Text));
}

#[test]
fn first_unresolved_reference_in_tag_order_is_reported() {
    assert_eq!(
        generate("message M { Late b = 2; Early a = 1; }"),
        Err(ProtoError::Unresolved { path: names(&["Early"]), missing: 0 })
    );
    assert_eq!(
        generate("message M { repeated Gone xs = 1; }"),
        Err(ProtoError::Unresolved { path: names(&["Gone"]), missing: 0 })
    );
}
