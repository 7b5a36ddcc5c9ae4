use protogen::error::{Production, ProtoError, SyntaxErrorKind};
use protogen::grammar::TypePosition;
use protogen::lexems::{
    error_span, separator, spelled, Lexem, LocatedLexem, Separator, Span, Symbol,
};
use protogen::machine::{StackItem, Task};
use protogen::package::{
    Declaration, EnumDeclaration, EnumEntry, FieldDeclaration, FieldType, MessageDeclaration,
    MessageEntry, OneOfDeclaration, Package, ProtoVersion,
};
use protogen::syntax::{
    assert_enough_length, into_fields, parse_package, read_id_path, read_package_path, Parser,
};

/// Splits `source` into tokens; token `i` gets the span `i..i + 1`, and an
/// end-of-input token closes the list.
fn lex(source: &str) -> Vec<LocatedLexem> {
    let chars: Vec<char> = source.chars().collect();
    let mut lexems = Vec::new();
    let mut i = 0;
    while i < chars.len() {
        let c = chars[i];
        let lexem = if c.is_whitespace() {
            i += 1;
            continue;
        } else if c.is_ascii_alphabetic() || c == '_' {
            let start = i;
            while i < chars.len() && (chars[i].is_ascii_alphanumeric() || chars[i] == '_') {
                i += 1;
            }
            Lexem::Id(chars[start..i].iter().collect())
        } else if c.is_ascii_digit() || c == '-' {
            let start = i;
            i += 1;
            while i < chars.len() && chars[i].is_ascii_digit() {
                i += 1;
            }
            let text: String = chars[start..i].iter().collect();
            Lexem::IntLiteral(text.parse().unwrap())
        } else if c == '"' {
            let start = i + 1;
            i += 1;
            while i < chars.len() && chars[i] != '"' {
                i += 1;
            }
            let text: String = chars[start..i].iter().collect();
            i += 1;
            Lexem::StringLiteral(text)
        } else {
            i += 1;
            match c {
                ';' => Lexem::SemiColon,
                '=' => Lexem::Equal,
                '{' => Lexem::OpenCurly,
                '}' => Lexem::CloseCurly,
                '[' => Lexem::OpenBracket,
                ']' => Lexem::CloseBracket,
                '.' => Lexem::Dot,
                ',' => Lexem::Comma,
                '<' => Lexem::Less,
                '>' => Lexem::Greater,
                other => panic!("unexpected character {}", other),
            }
        };
        let at = lexems.len();
        lexems.push(LocatedLexem { lexem, range: Span { start: at, end: at + 1 } });
    }
    let at = lexems.len();
    lexems.push(LocatedLexem { lexem: Lexem::EOF, range: Span { start: at, end: at + 1 } });
    lexems
}

fn parse(source: &str) -> Result<Package, ProtoError> {
    parse_package(&lex(source))
}

fn syntax_error(kind: SyntaxErrorKind, at: usize) -> ProtoError {
    ProtoError::Syntax { kind, span: Span { start: at, end: at + 1 } }
}

fn id_path(segments: &[&str]) -> FieldType {
    FieldType::IdPath(segments.iter().map(|s| s.to_string()).collect())
}

fn field(name: &str, tag: i64, field_type: FieldType) -> FieldDeclaration {
    FieldDeclaration { name: name.to_string(), tag, field_type, attributes: vec![] }
}

fn message(name: &str, entries: Vec<MessageEntry>) -> MessageDeclaration {
    MessageDeclaration { name: name.to_string(), entries }
}

fn package_of(declarations: Vec<Declaration>) -> Package {
    Package { version: ProtoVersion::Proto2, path: vec![], imports: vec![], declarations }
}

#[test]
fn parses_empty_input() {
    assert_eq!(parse(""), Ok(package_of(vec![])));
}

#[test]
fn parses_minimal_message() {
    let expected = package_of(vec![Declaration::Message(message(
        "M",
        vec![MessageEntry::Field(field("a", 1, id_path(&["int32"])))],
    ))]);
    assert_eq!(parse("message M { int32 a = 1; }"), Ok(expected));
}

#[test]
fn default_version_is_proto2() {
    assert_eq!(parse("message M { }").unwrap().version, ProtoVersion::Proto2);
}

#[test]
fn syntax_proto3_sets_version() {
    assert_eq!(parse("syntax = \"proto3\";").unwrap().version, ProtoVersion::Proto3);
}

#[test]
fn syntax_proto2_sets_version() {
    assert_eq!(parse("syntax = \"proto2\";").unwrap().version, ProtoVersion::Proto2);
    assert_eq!(
        parse("syntax = \"proto3\"; syntax = \"proto2\";").unwrap().version,
        ProtoVersion::Proto2
    );
}

#[test]
fn syntax_with_other_literal_is_rejected() {
    assert_eq!(
        parse("syntax = \"proto4\";"),
        Err(syntax_error(SyntaxErrorKind::InvalidSyntaxStatement, 0))
    );
    assert_eq!(
        parse("message M { } syntax = proto3;"),
        Err(syntax_error(SyntaxErrorKind::InvalidSyntaxStatement, 4))
    );
}

#[test]
fn syntax_statement_needs_four_lexems() {
    let mut lexems = lex("syntax = \"proto3\"");
    lexems.pop();
    assert_eq!(
        parse_package(&lexems),
        Err(syntax_error(SyntaxErrorKind::NotEnoughLexems(Production::SyntaxStatement), 0))
    );
}

#[test]
fn imports_are_appended_in_order() {
    let package = parse("import \"a.proto\"; import \"b/c.proto\";").unwrap();
    assert_eq!(package.imports, vec!["a.proto".to_string(), "b/c.proto".to_string()]);
}

#[test]
fn invalid_import_is_rejected() {
    assert_eq!(
        parse("import a;"),
        Err(syntax_error(SyntaxErrorKind::InvalidImportStatement, 0))
    );
    let mut lexems = lex("import \"a\"");
    lexems.pop();
    assert_eq!(
        parse_package(&lexems),
        Err(syntax_error(SyntaxErrorKind::NotEnoughLexems(Production::ImportStatement), 0))
    );
}

#[test]
fn package_statement_sets_path() {
    let package = parse("package a.b.c;").unwrap();
    assert_eq!(package.path, vec!["a".to_string(), "b".to_string(), "c".to_string()]);
}

#[test]
fn later_package_statement_replaces_path() {
    let package = parse("package a.b; package c;").unwrap();
    assert_eq!(package.path, vec!["c".to_string()]);
}

#[test]
fn package_path_errors() {
    assert_eq!(parse("package a b;"), Err(syntax_error(SyntaxErrorKind::ExpectedDotOrSemiColon, 2)));
    assert_eq!(parse("package a.;"), Err(syntax_error(SyntaxErrorKind::ExpectedIdentifier, 3)));
    let mut lexems = lex("package a");
    lexems.pop();
    assert_eq!(
        parse_package(&lexems),
        Err(syntax_error(SyntaxErrorKind::NotEnoughLexems(Production::PackageStatement), 0))
    );
}

#[test]
fn lone_semicolons_are_skipped() {
    assert_eq!(parse(";; message M { } ;"), Ok(package_of(vec![Declaration::Message(message("M", vec![]))])));
}

#[test]
fn unknown_identifier_at_top_level_is_rejected() {
    assert_eq!(
        parse("service S { }"),
        Err(syntax_error(SyntaxErrorKind::UnexpectedIdentifier("service".to_string()), 0))
    );
}

#[test]
fn unexpected_lexem_at_top_level_is_rejected() {
    assert_eq!(parse("message M { } }"), Err(syntax_error(SyntaxErrorKind::UnexpectedLexem, 4)));
}

#[test]
fn input_without_end_marker_is_rejected() {
    let mut lexems = lex("message M { }");
    lexems.pop();
    assert_eq!(
        parse_package(&lexems),
        Err(ProtoError::Syntax { kind: SyntaxErrorKind::UnexpectedEnd, span: Span { start: 3, end: 4 } })
    );
    assert_eq!(
        parse_package(&[]),
        Err(ProtoError::Syntax { kind: SyntaxErrorKind::UnexpectedEnd, span: Span { start: 0, end: 0 } })
    );
}

#[test]
fn parses_enum() {
    let expected = package_of(vec![Declaration::Enum(EnumDeclaration {
        name: "E".to_string(),
        entries: vec![
            EnumEntry { name: "A".to_string(), value: 0 },
            EnumEntry { name: "B".to_string(), value: -3 },
            EnumEntry { name: "C".to_string(), value: 0 },
        ],
    })]);
    assert_eq!(parse("enum E { A = 0; B = -3; C = 0; }"), Ok(expected));
}

#[test]
fn enum_errors() {
    assert_eq!(parse("enum 1 { }"), Err(syntax_error(SyntaxErrorKind::ExpectedEnumName, 1)));
    assert_eq!(parse("enum E [ ]"), Err(syntax_error(SyntaxErrorKind::ExpectedCurlyOpen, 2)));
    assert_eq!(parse("enum E { A = 1 }"), Err(syntax_error(SyntaxErrorKind::InvalidEnumEntry, 3)));
    assert_eq!(parse("enum E { ; }"), Err(syntax_error(SyntaxErrorKind::UnexpectedLexem, 3)));
    let mut short = lex("enum E {");
    short.pop();
    assert_eq!(
        parse_package(&short),
        Err(syntax_error(SyntaxErrorKind::NotEnoughLexems(Production::EnumStatement), 0))
    );
    let mut cut = lex("enum E { A = 1");
    cut.pop();
    assert_eq!(
        parse_package(&cut),
        Err(syntax_error(SyntaxErrorKind::NotEnoughLexems(Production::EnumEntry), 3))
    );
    let mut open = lex("enum E { A = 1;");
    open.pop();
    assert_eq!(
        parse_package(&open),
        Err(ProtoError::Syntax { kind: SyntaxErrorKind::UnexpectedEnd, span: Span { start: 6, end: 7 } })
    );
}

#[test]
fn parses_nested_declarations() {
    let inner = message("Inner", vec![MessageEntry::Field(field("x", 1, id_path(&["bool"])))]);
    let kind = EnumDeclaration {
        name: "Kind".to_string(),
        entries: vec![EnumEntry { name: "K".to_string(), value: 1 }],
    };
    let expected = package_of(vec![Declaration::Message(message(
        "Outer",
        vec![
            MessageEntry::Message(inner),
            MessageEntry::Enum(kind),
            MessageEntry::Field(field("i", 2, id_path(&["Inner"]))),
        ],
    ))]);
    assert_eq!(
        parse("message Outer { message Inner { bool x = 1; } enum Kind { K = 1; } Inner i = 2; }"),
        Ok(expected)
    );
}

#[test]
fn parses_deeply_nested_messages() {
    let depth = 300;
    let mut source = String::new();
    for i in 0..depth {
        source.push_str(&format!("message M{} {{ ", i));
    }
    for _ in 0..depth {
        source.push_str("} ");
    }
    let package = parse(&source).unwrap();
    let mut current = match &package.declarations[0] {
        Declaration::Message(m) => m,
        _ => panic!("expected a message"),
    };
    let mut seen = 1;
    while let Some(MessageEntry::Message(next)) = current.entries.first() {
        current = next;
        seen += 1;
    }
    assert_eq!(seen, depth);
}

#[test]
fn parses_dotted_type_reference() {
    let package = parse("message M { a.b.C c = 7; }").unwrap();
    let expected = package_of(vec![Declaration::Message(message(
        "M",
        vec![MessageEntry::Field(field("c", 7, id_path(&["a", "b", "C"])))],
    ))]);
    assert_eq!(package, expected);
}

#[test]
fn parses_repeated_and_map_types() {
    let package = parse("message M { repeated int32 xs = 1; map<string, Inner> m = 2; map<int32, map<string, bool>> n = 3; }").unwrap();
    let expected = package_of(vec![Declaration::Message(message(
        "M",
        vec![
            MessageEntry::Field(field("xs", 1, FieldType::Repeated(Box::new(id_path(&["int32"]))))),
            MessageEntry::Field(field(
                "m",
                2,
                FieldType::MapOf(Box::new(id_path(&["string"])), Box::new(id_path(&["Inner"]))),
            )),
            MessageEntry::Field(field(
                "n",
                3,
                FieldType::MapOf(
                    Box::new(id_path(&["int32"])),
                    Box::new(FieldType::MapOf(
                        Box::new(id_path(&["string"])),
                        Box::new(id_path(&["bool"])),
                    )),
                ),
            )),
        ],
    ))]);
    assert_eq!(package, expected);
}

#[test]
fn repeated_repeated_is_rejected() {
    assert_eq!(
        parse("message M { repeated repeated int32 xs = 1; }"),
        Err(syntax_error(SyntaxErrorKind::NestedFieldType, 4))
    );
}

#[test]
fn repeated_map_is_rejected() {
    assert_eq!(
        parse("message M { repeated map<string, int32> xs = 1; }"),
        Err(syntax_error(SyntaxErrorKind::NestedFieldType, 4))
    );
}

#[test]
fn map_of_repeated_is_rejected() {
    assert_eq!(
        parse("message M { map<string, repeated int32> xs = 1; }"),
        Err(syntax_error(SyntaxErrorKind::NestedFieldType, 7))
    );
    assert_eq!(
        parse("message M { map<repeated string, int32> xs = 1; }"),
        Err(syntax_error(SyntaxErrorKind::NestedFieldType, 5))
    );
}

#[test]
fn map_type_errors() {
    assert_eq!(
        parse("message M { map string, int32> xs = 1; }"),
        Err(syntax_error(SyntaxErrorKind::Expected(Symbol::Less), 4))
    );
    assert_eq!(
        parse("message M { map<string int32> xs = 1; }"),
        Err(syntax_error(SyntaxErrorKind::Expected(Symbol::Comma), 6))
    );
    assert_eq!(
        parse("message M { map<string, int32 xs = 1; }"),
        Err(syntax_error(SyntaxErrorKind::Expected(Symbol::Greater), 8))
    );
    assert_eq!(
        parse("message M { map<string, 5> xs = 1; }"),
        Err(syntax_error(SyntaxErrorKind::ExpectedFieldType, 7))
    );
}

#[test]
fn field_errors() {
    assert_eq!(
        parse("message M { int32 = 1; }"),
        Err(syntax_error(SyntaxErrorKind::ExpectedIdentifier, 4))
    );
    assert_eq!(
        parse("message M { int32 a 1; }"),
        Err(syntax_error(SyntaxErrorKind::Expected(Symbol::Equal), 5))
    );
    assert_eq!(
        parse("message M { int32 a = b; }"),
        Err(syntax_error(SyntaxErrorKind::ExpectedIntLiteral, 6))
    );
    assert_eq!(
        parse("message M { int32 a = 1 }"),
        Err(syntax_error(SyntaxErrorKind::Expected(Symbol::SemiColon), 7))
    );
    assert_eq!(
        parse("message M { a. = 1; }"),
        Err(syntax_error(SyntaxErrorKind::ExpectedIdentifier, 5))
    );
}

#[test]
fn message_errors() {
    assert_eq!(parse("message { }"), Err(syntax_error(SyntaxErrorKind::ExpectedIdentifier, 1)));
    assert_eq!(
        parse("message M int32 a = 1; }"),
        Err(syntax_error(SyntaxErrorKind::Expected(Symbol::OpenCurly), 2))
    );
    assert_eq!(parse("message M { ; }"), Err(syntax_error(SyntaxErrorKind::UnexpectedLexem, 3)));
    assert_eq!(parse("message M {"), Err(syntax_error(SyntaxErrorKind::UnexpectedLexem, 3)));
}

#[test]
fn parses_field_attributes() {
    let package = parse(
        "message M { int32 a = 1 [deprecated = \"true\", json_name = \"x\", deprecated = \"false\"]; int32 b = 2 []; int32 c = 3; }",
    )
    .unwrap();
    let mut a = field("a", 1, id_path(&["int32"]));
    a.attributes = vec![
        ("deprecated".to_string(), "true".to_string()),
        ("json_name".to_string(), "x".to_string()),
        ("deprecated".to_string(), "false".to_string()),
    ];
    let expected = package_of(vec![Declaration::Message(message(
        "M",
        vec![
            MessageEntry::Field(a),
            MessageEntry::Field(field("b", 2, id_path(&["int32"]))),
            MessageEntry::Field(field("c", 3, id_path(&["int32"]))),
        ],
    ))]);
    assert_eq!(package, expected);
}

#[test]
fn attribute_errors() {
    assert_eq!(
        parse("message M { int32 a = 1 [x = \"1\" y = \"2\"]; }"),
        Err(syntax_error(SyntaxErrorKind::ExpectedCommaOrCloseBracket, 11))
    );
    assert_eq!(
        parse("message M { int32 a = 1 [, x = \"1\"]; }"),
        Err(syntax_error(SyntaxErrorKind::ExpectedIdentifier, 8))
    );
    assert_eq!(
        parse("message M { int32 a = 1 [x = \"1\",]; }"),
        Err(syntax_error(SyntaxErrorKind::ExpectedIdentifier, 12))
    );
    assert_eq!(
        parse("message M { int32 a = 1 [x = 1]; }"),
        Err(syntax_error(SyntaxErrorKind::ExpectedStringLiteral, 10))
    );
    assert_eq!(
        parse("message M { int32 a = 1 [x \"1\"]; }"),
        Err(syntax_error(SyntaxErrorKind::Expected(Symbol::Equal), 9))
    );
    let mut lexems = lex("message M { int32 a = 1 [x = \"1\"");
    lexems.pop();
    assert_eq!(
        parse_package(&lexems),
        Err(ProtoError::Syntax {
            kind: SyntaxErrorKind::ExpectedCommaOrCloseBracket,
            span: Span { start: 10, end: 11 },
        })
    );
}

#[test]
fn parses_oneof() {
    let package = parse("message M { oneof choice { int32 a = 1; string b = 2; } }").unwrap();
    let expected = package_of(vec![Declaration::Message(message(
        "M",
        vec![MessageEntry::OneOf(OneOfDeclaration {
            name: "choice".to_string(),
            options: vec![field("a", 1, id_path(&["int32"])), field("b", 2, id_path(&["string"]))],
        })],
    ))]);
    assert_eq!(package, expected);
}

#[test]
fn oneof_with_nested_message_is_rejected() {
    assert_eq!(
        parse("message M { oneof o { message Inner { } } }"),
        Err(syntax_error(SyntaxErrorKind::OneOfNonField, 10))
    );
    assert_eq!(
        parse("message M { oneof o { int32 a = 1; enum E { } } }"),
        Err(syntax_error(SyntaxErrorKind::OneOfNonField, 15))
    );
    assert_eq!(
        parse("message M { oneof o { oneof p { } } }"),
        Err(syntax_error(SyntaxErrorKind::OneOfNonField, 10))
    );
}

#[test]
fn oneof_header_errors() {
    assert_eq!(
        parse("message M { oneof { } }"),
        Err(syntax_error(SyntaxErrorKind::ExpectedIdentifier, 4))
    );
    assert_eq!(
        parse("message M { oneof o int32 a = 1; }"),
        Err(syntax_error(SyntaxErrorKind::Expected(Symbol::OpenCurly), 5))
    );
}

#[test]
fn error_inside_body_comes_before_oneof_check() {
    assert_eq!(
        parse("message M { oneof o { message Inner { } int32 = 1; } }"),
        Err(syntax_error(SyntaxErrorKind::ExpectedIdentifier, 11))
    );
}

#[test]
fn parses_several_statements_in_order() {
    let package = parse(
        "syntax = \"proto3\"; package p.q; import \"x\"; message A { } enum E { } message B { }",
    )
    .unwrap();
    assert_eq!(package.version, ProtoVersion::Proto3);
    assert_eq!(package.path, vec!["p".to_string(), "q".to_string()]);
    assert_eq!(package.imports, vec!["x".to_string()]);
    assert_eq!(
        package.declarations,
        vec![
            Declaration::Message(message("A", vec![])),
            Declaration::Enum(EnumDeclaration { name: "E".to_string(), entries: vec![] }),
            Declaration::Message(message("B", vec![])),
        ]
    );
}

#[test]
fn enough_length_is_checked_exactly() {
    let lexems = lex("a b c");
    assert_eq!(lexems.len(), 4);
    assert_eq!(assert_enough_length(&lexems, 0, 4, SyntaxErrorKind::UnexpectedEnd), Ok(()));
    assert_eq!(assert_enough_length(&lexems, 1, 3, SyntaxErrorKind::UnexpectedEnd), Ok(()));
    assert_eq!(assert_enough_length(&lexems, 4, 0, SyntaxErrorKind::UnexpectedEnd), Ok(()));
    assert_eq!(
        assert_enough_length(&lexems, 1, 4, SyntaxErrorKind::InvalidEnumEntry),
        Err(syntax_error(SyntaxErrorKind::InvalidEnumEntry, 1))
    );
    assert_eq!(
        assert_enough_length(&lexems, 5, 0, SyntaxErrorKind::UnexpectedEnd),
        Err(syntax_error(SyntaxErrorKind::UnexpectedEnd, 3))
    );
    assert_eq!(
        assert_enough_length(&lexems, usize::MAX, usize::MAX, SyntaxErrorKind::UnexpectedEnd),
        Err(syntax_error(SyntaxErrorKind::UnexpectedEnd, 3))
    );
}

#[test]
fn error_span_points_at_token_or_last() {
    let lexems = lex("a b");
    assert_eq!(error_span(&lexems, 1), Span { start: 1, end: 2 });
    assert_eq!(error_span(&lexems, 9), Span { start: 2, end: 3 });
    assert_eq!(error_span(&[], 0), Span { start: 0, end: 0 });
}

#[test]
fn lexem_tests_for_words_and_symbols() {
    let word = Lexem::Id("message".to_string());
    assert!(word.has_word("message"));
    assert!(!word.has_word("messages"));
    assert!(word.has_symbol(Symbol::Message));
    assert!(!word.has_symbol(Symbol::Enum));
    assert!(!Lexem::StringLiteral("message".to_string()).has_word("message"));
    assert!(Lexem::Less.has_symbol(Symbol::Less));
    assert!(!Lexem::Less.has_symbol(Symbol::Greater));
    assert!(Lexem::Id("map".to_string()).has_symbol(Symbol::MapWord));
    assert!(Lexem::Id("oneof".to_string()).has_symbol(Symbol::OneOf));
    assert!(spelled(&"proto3".to_string(), "proto3"));
    assert!(!spelled(&"proto3".to_string(), "proto2"));
}

#[test]
fn reads_id_path() {
    let lexems = lex("a.b.c d");
    let (ids, next) = read_id_path(&lexems, 0).unwrap();
    assert_eq!(ids, vec!["a".to_string(), "b".to_string(), "c".to_string()]);
    assert_eq!(next, 5);
    let (ids, next) = read_id_path(&lexems, 5).unwrap();
    assert_eq!(ids, vec!["d".to_string()]);
    assert_eq!(next, 6);
    assert_eq!(
        read_id_path(&lexems, 1),
        Err(syntax_error(SyntaxErrorKind::ExpectedIdentifier, 1))
    );
}

#[test]
fn reads_package_path() {
    let lexems = lex("a.b;");
    let (path, next) = read_package_path(&lexems, 0).unwrap();
    assert_eq!(path, vec!["a".to_string(), "b".to_string()]);
    assert_eq!(next, 4);
}

#[test]
fn takes_fields_out_of_entries() {
    let entries = vec![
        MessageEntry::Field(field("a", 1, id_path(&["int32"]))),
        MessageEntry::Field(field("b", 2, id_path(&["int32"]))),
        MessageEntry::Field(field("c", 3, id_path(&["int32"]))),
    ];
    assert_eq!(
        into_fields(entries),
        Some(vec![
            field("a", 1, id_path(&["int32"])),
            field("b", 2, id_path(&["int32"])),
            field("c", 3, id_path(&["int32"])),
        ])
    );
    let mixed = vec![
        MessageEntry::Field(field("a", 1, id_path(&["int32"]))),
        MessageEntry::Message(message("M", vec![])),
    ];
    assert_eq!(into_fields(mixed), None);
    assert_eq!(into_fields(vec![]), Some(vec![]));
}

#[test]
fn parser_starts_with_one_task() {
    let parser = Parser::new();
    assert_eq!(parser.tasks, vec![Task::ParseStatements]);
    assert!(parser.stack.is_empty());
    assert_eq!(parser.cursor, 0);
    assert_eq!(parser.package, package_of(vec![]));
    assert!(!parser.is_done());
}

#[test]
fn stepping_replaces_a_task_by_its_parts_in_reverse() {
    let lexems = lex("message M { }");
    let mut parser = Parser::new();
    parser.step(&lexems).unwrap();
    assert_eq!(parser.tasks, vec![Task::ParseStatements, Task::ParseStatement]);
    parser.step(&lexems).unwrap();
    assert_eq!(
        parser.tasks,
        vec![
            Task::ParseStatements,
            Task::AppendDeclarationToPackage,
            Task::ParseMessageStatement
        ]
    );
    parser.step(&lexems).unwrap();
    assert_eq!(
        parser.tasks,
        vec![
            Task::ParseStatements,
            Task::AppendDeclarationToPackage,
            Task::PushMessageStatement,
            Task::ExpectLexem(Symbol::CloseCurly),
            Task::ParseMessageEntries,
            Task::PushEntriesList,
            Task::ExpectLexem(Symbol::OpenCurly),
            Task::ParseId,
            Task::ExpectLexem(Symbol::Message),
        ]
    );
    assert_eq!(parser.cursor, 0);
    parser.step(&lexems).unwrap();
    parser.step(&lexems).unwrap();
    assert_eq!(parser.cursor, 2);
    assert_eq!(parser.stack, vec![StackItem::Text("M".to_string())]);
}

#[test]
fn stepping_to_the_end_gives_what_parsing_gives() {
    let lexems = lex("syntax = \"proto3\"; message M { repeated int32 xs = 1 [a = \"b\"]; oneof o { bool c = 2; } }");
    let mut parser = Parser::new();
    let mut steps = 0;
    while !parser.is_done() {
        parser.step(&lexems).unwrap();
        steps += 1;
        assert!(steps < 10_000);
    }
    assert!(parser.stack.is_empty());
    assert_eq!(parser.cursor, lexems.len() - 1);
    assert_eq!(Ok(parser.package), parse_package(&lexems));
}

#[test]
fn stepping_field_type_of_map_schedules_both_arguments() {
    let lexems = lex("map<a, b>");
    let mut parser = Parser::new();
    parser.tasks = vec![Task::ParseFieldType(TypePosition::Field)];
    parser.step(&lexems).unwrap();
    assert_eq!(
        parser.tasks,
        vec![
            Task::WrapMapType,
            Task::ExpectLexem(Symbol::Greater),
            Task::ParseFieldType(TypePosition::MapArgument),
            Task::ExpectLexem(Symbol::Comma),
            Task::ParseFieldType(TypePosition::MapArgument),
            Task::ExpectLexem(Symbol::Less),
            Task::ExpectLexem(Symbol::MapWord),
        ]
    );
    while !parser.is_done() {
        parser.step(&lexems).unwrap();
    }
    assert_eq!(
        parser.stack,
        vec![StackItem::FieldType(FieldType::MapOf(
            Box::new(id_path(&["a"])),
            Box::new(id_path(&["b"]))
        ))]
    );
}

#[test]
fn step_without_tasks_does_nothing() {
    let lexems = lex("");
    let mut parser = Parser::new();
    parser.step(&lexems).unwrap();
    assert!(parser.is_done());
    parser.step(&lexems).unwrap();
    assert!(parser.is_done());
    assert_eq!(parser.cursor, 0);
}

#[test]
fn error_messages_read_well() {
    assert_eq!(
        SyntaxErrorKind::UnexpectedIdentifier("service".to_string()).message(),
        "Unexpected identifier: service"
    );
    assert_eq!(SyntaxErrorKind::Expected(Symbol::CloseCurly).message(), "Expected lexem: }");
    assert_eq!(SyntaxErrorKind::Expected(Symbol::OneOf).message(), "Expected lexem: oneof");
    assert_eq!(
        SyntaxErrorKind::NotEnoughLexems(Production::EnumEntry).message(),
        "Not enough lexems for enum entry"
    );
    assert_eq!(
        SyntaxErrorKind::OneOfNonField.message(),
        "oneof can contain only field declarations"
    );
    assert_eq!(
        syntax_error(SyntaxErrorKind::InvalidSyntaxStatement, 0).message(),
        "Invalid syntax statement"
    );
    assert_eq!(
        ProtoError::Unresolved { path: vec!["a".to_string(), "B".to_string()], missing: 1 }.message(),
        "Unresolved reference: B"
    );
    assert_eq!(
        ProtoError::Unresolved { path: vec![], missing: 0 }.message(),
        "Unresolved reference"
    );
    assert_eq!(ProtoError::Internal.message(), "Internal error");
    assert_eq!(Symbol::MapWord.as_str(), "map");
    assert_eq!(Production::SyntaxStatement.as_str(), "syntax statement");
}

#[test]
fn step_on_a_stack_without_the_fragment_is_an_internal_error() {
    let lexems = lex("a");
    for task in [
        Task::WrapRepeated,
        Task::WrapMapType,
        Task::WrapFieldType,
        Task::WrapMessageEntry,
        Task::PushMessageEntry,
        Task::PushMessageStatement,
        Task::PushFieldDeclaration,
        Task::PushFieldAttribute,
        Task::PushOneOf,
        Task::AppendDeclarationToPackage,
        Task::ParseEnumEntry,
    ] {
        let mut parser = Parser::new();
        parser.tasks = vec![task];
        assert_eq!(parser.step(&lexems), Err(ProtoError::Internal));
    }
    let mut parser = Parser::new();
    parser.tasks = vec![Task::WrapMapType];
    parser.stack = vec![StackItem::Int64(1), StackItem::FieldType(id_path(&["a"]))];
    assert_eq!(parser.step(&lexems), Err(ProtoError::Internal));
}

#[test]
fn enum_declaration_task_asks_for_the_keyword() {
    let lexems = lex("message E { }");
    let mut parser = Parser::new();
    parser.tasks = vec![Task::ParseEnumDeclaration];
    assert_eq!(parser.step(&lexems), Err(syntax_error(SyntaxErrorKind::Expected(Symbol::Enum), 0)));
}

#[test]
fn assemblies_take_fragments_in_reverse_of_pushing() {
    let lexems = lex("");
    let mut parser = Parser::new();
    parser.tasks = vec![Task::PushFieldDeclaration];
    parser.stack = vec![
        StackItem::MessageEntriesList(vec![]),
        StackItem::FieldType(id_path(&["bool"])),
        StackItem::Text("flag".to_string()),
        StackItem::Int64(4),
        StackItem::OptionalAttributes(None),
    ];
    assert_eq!(parser.step(&lexems), Ok(()));
    assert_eq!(
        parser.stack,
        vec![StackItem::MessageEntriesList(vec![MessageEntry::Field(field(
            "flag",
            4,
            id_path(&["bool"])
        ))])]
    );
    assert!(parser.is_done());

    let mut parser = Parser::new();
    parser.tasks = vec![Task::PushFieldAttribute];
    parser.stack = vec![
        StackItem::OptionalAttributes(Some(vec![("a".to_string(), "1".to_string())])),
        StackItem::Text("key".to_string()),
        StackItem::Text("value".to_string()),
    ];
    assert_eq!(parser.step(&lexems), Ok(()));
    assert_eq!(
        parser.stack,
        vec![StackItem::OptionalAttributes(Some(vec![
            ("a".to_string(), "1".to_string()),
            ("key".to_string(), "value".to_string()),
        ]))]
    );

    let mut parser = Parser::new();
    parser.tasks = vec![Task::WrapMapType];
    parser.stack =
        vec![StackItem::FieldType(id_path(&["k"])), StackItem::FieldType(id_path(&["v"]))];
    assert_eq!(parser.step(&lexems), Ok(()));
    assert_eq!(
        parser.stack,
        vec![StackItem::FieldType(FieldType::MapOf(
            Box::new(id_path(&["k"])),
            Box::new(id_path(&["v"]))
        ))]
    );
}

#[test]
fn tasks_of_a_field_and_of_a_oneof_are_scheduled_in_reverse() {
    let lexems = lex("oneof o { }");
    let mut parser = Parser::new();
    parser.tasks = vec![Task::ParseFieldDeclaration];
    parser.step(&lexems).unwrap();
    assert_eq!(
        parser.tasks,
        vec![
            Task::PushFieldDeclaration,
            Task::ExpectLexem(Symbol::SemiColon),
            Task::ParseOptionalAttributes,
            Task::ParseInt64,
            Task::ExpectLexem(Symbol::Equal),
            Task::ParseId,
            Task::ParseFieldType(TypePosition::Field),
        ]
    );
    let mut parser = Parser::new();
    parser.tasks = vec![Task::ParseMessageEntry];
    parser.stack = vec![StackItem::MessageEntriesList(vec![])];
    parser.step(&lexems).unwrap();
    assert_eq!(
        parser.tasks,
        vec![Task::PushMessageEntry, Task::WrapMessageEntry, Task::ParseOneOf]
    );
    parser.step(&lexems).unwrap();
    assert_eq!(
        parser.tasks,
        vec![
            Task::PushMessageEntry,
            Task::WrapMessageEntry,
            Task::PushOneOf,
            Task::ExpectLexem(Symbol::CloseCurly),
            Task::ParseMessageEntries,
            Task::ExpectLexem(Symbol::OpenCurly),
            Task::PushEntriesList,
            Task::ParseId,
            Task::ExpectLexem(Symbol::OneOf),
        ]
    );
    while !parser.is_done() {
        parser.step(&lexems).unwrap();
    }
    assert_eq!(
        parser.stack,
        vec![StackItem::MessageEntriesList(vec![MessageEntry::OneOf(OneOfDeclaration {
            name: "o".to_string(),
            options: vec![],
        })])]
    );
}

#[test]
fn stack_item_kinds_are_named() {
    assert_eq!(StackItem::Text("a".to_string()).kind_name(), "string");
    assert_eq!(StackItem::StringList(vec![]).kind_name(), "string[]");
    assert_eq!(StackItem::EnumEntriesList(vec![]).kind_name(), "EnumEntry[]");
    assert_eq!(StackItem::MessageEntriesList(vec![]).kind_name(), "MessageEntry[]");
    assert_eq!(StackItem::FieldType(id_path(&["a"])).kind_name(), "type");
    assert_eq!(StackItem::Int64(1).kind_name(), "i64");
    assert_eq!(StackItem::OptionalAttributes(None).kind_name(), "attributes[]?");
    assert_eq!(StackItem::Message(message("M", vec![])).kind_name(), "message");
}

#[test]
fn separators_of_a_listing() {
    let id = Lexem::Id("a".to_string());
    assert_eq!(separator(&Lexem::OpenCurly, &id), Separator::NewLine);
    assert_eq!(separator(&Lexem::CloseCurly, &Lexem::SemiColon), Separator::NewLine);
    assert_eq!(separator(&Lexem::SemiColon, &id), Separator::NewLine);
    assert_eq!(separator(&id, &Lexem::SemiColon), Separator::Nothing);
    assert_eq!(separator(&id, &Lexem::Equal), Separator::Space);
}

#[test]
fn every_syntax_error_has_a_message() {
    let kinds = vec![
        (SyntaxErrorKind::UnexpectedIdentifier("x".to_string()), "Unexpected identifier: x"),
        (SyntaxErrorKind::UnexpectedLexem, "Unexpected lexem"),
        (SyntaxErrorKind::UnexpectedEnd, "Unexpected end of input"),
        (
            SyntaxErrorKind::NotEnoughLexems(Production::SyntaxStatement),
            "Not enough lexems for syntax statement",
        ),
        (
            SyntaxErrorKind::NotEnoughLexems(Production::ImportStatement),
            "Not enough lexems for import statement",
        ),
        (
            SyntaxErrorKind::NotEnoughLexems(Production::PackageStatement),
            "Not enough lexems for package statement",
        ),
        (
            SyntaxErrorKind::NotEnoughLexems(Production::EnumStatement),
            "Not enough lexems for enum statement",
        ),
        (SyntaxErrorKind::InvalidSyntaxStatement, "Invalid syntax statement"),
        (SyntaxErrorKind::InvalidImportStatement, "Invalid import statement"),
        (SyntaxErrorKind::InvalidPackageStatement, "Invalid package statement"),
        (SyntaxErrorKind::InvalidEnumEntry, "Cannot parse enum entry"),
        (SyntaxErrorKind::ExpectedIdentifier, "Expected identifier"),
        (SyntaxErrorKind::ExpectedStringLiteral, "Expected string literal"),
        (SyntaxErrorKind::ExpectedIntLiteral, "Expected int literal"),
        (SyntaxErrorKind::ExpectedDotOrSemiColon, "Expected dot or semicolon"),
        (SyntaxErrorKind::ExpectedEnumName, "Expected enum name"),
        (SyntaxErrorKind::ExpectedCurlyOpen, "Expected curly open"),
        (SyntaxErrorKind::ExpectedCommaOrCloseBracket, "Expected comma or closing bracket"),
        (SyntaxErrorKind::ExpectedFieldType, "Expected field type"),
        (SyntaxErrorKind::Expected(Symbol::SemiColon), "Expected lexem: ;"),
        (SyntaxErrorKind::Expected(Symbol::Equal), "Expected lexem: ="),
        (SyntaxErrorKind::Expected(Symbol::OpenCurly), "Expected lexem: {"),
        (SyntaxErrorKind::Expected(Symbol::OpenBracket), "Expected lexem: ["),
        (SyntaxErrorKind::Expected(Symbol::CloseBracket), "Expected lexem: ]"),
        (SyntaxErrorKind::Expected(Symbol::Comma), "Expected lexem: ,"),
        (SyntaxErrorKind::Expected(Symbol::Less), "Expected lexem: <"),
        (SyntaxErrorKind::Expected(Symbol::Greater), "Expected lexem: >"),
        (SyntaxErrorKind::Expected(Symbol::Message), "Expected lexem: message"),
        (SyntaxErrorKind::Expected(Symbol::Enum), "Expected lexem: enum"),
        (SyntaxErrorKind::NestedFieldType, "repeated and map cannot be nested directly"),
    ];
    for (kind, text) in kinds {
        assert_eq!(kind.message(), text);
    }
}

#[test]
fn parses_a_larger_file() {
    let source = "
        syntax = \"proto3\";
        package shop.v1;
        import \"common.proto\";

        enum Status { UNKNOWN = 0; OPEN = 1; CLOSED = 2; }

        message Order {
            message Line {
                string sku = 1;
                uint32 count = 2;
                repeated string notes = 3 [deprecated = \"true\"];
            }
            int64 id = 1;
            Status status = 2;
            repeated Line lines = 3;
            map<string, common.Money> totals = 4;
            oneof payment { string card = 5; string account = 6; }
        }
    ";
    let package = parse(source).unwrap();
    assert_eq!(package.version, ProtoVersion::Proto3);
    assert_eq!(package.path, vec!["shop".to_string(), "v1".to_string()]);
    assert_eq!(package.imports, vec!["common.proto".to_string()]);
    assert_eq!(package.declarations.len(), 2);
    let order = match &package.declarations[1] {
        Declaration::Message(order) => order,
        _ => panic!("expected a message"),
    };
    assert_eq!(order.name, "Order");
    assert_eq!(order.entries.len(), 6);
    assert_eq!(
        order.entries[4],
        MessageEntry::Field(field(
            "totals",
            4,
            FieldType::MapOf(
                Box::new(id_path(&["string"])),
                Box::new(id_path(&["common", "Money"]))
            )
        ))
    );
    let line = match &order.entries[0] {
        MessageEntry::Message(line) => line,
        _ => panic!("expected a message"),
    };
    let mut notes = field("notes", 3, FieldType::Repeated(Box::new(id_path(&["string"]))));
    notes.attributes = vec![("deprecated".to_string(), "true".to_string())];
    assert_eq!(line.entries[2], MessageEntry::Field(notes));
}

#[test]
fn identifier_path_ends_where_no_dot_follows() {
    let lexems = lex("a.b c.d");
    let (ids, next) = read_id_path(&lexems, 0).unwrap();
    assert_eq!(ids.len(), 2);
    assert_eq!(next, 3);
    let mut cut = lex("a");
    cut.pop();
    assert_eq!(read_id_path(&cut, 0).unwrap(), (vec!["a".to_string()], 1));
    assert_eq!(
        read_id_path(&cut, 1),
        Err(syntax_error(SyntaxErrorKind::ExpectedIdentifier, 0))
    );
}

#[test]
fn oneof_violation_is_reported_at_the_closing_brace() {
    let lexems = lex("message M { oneof o { message Inner { } } } message N { }");
    assert_eq!(lexems[10].lexem, Lexem::CloseCurly);
    assert_eq!(
        parse_package(&lexems),
        Err(ProtoError::Syntax { kind: SyntaxErrorKind::OneOfNonField, span: lexems[10].range })
    );
    let mut parser = Parser::new();
    parser.tasks = vec![Task::PushOneOf];
    parser.stack = vec![
        StackItem::Text("o".to_string()),
        StackItem::MessageEntriesList(vec![MessageEntry::Message(message("Inner", vec![]))]),
    ];
    parser.cursor = 11;
    assert_eq!(parser.step(&lexems), Err(syntax_error(SyntaxErrorKind::OneOfNonField, 10)));
}
