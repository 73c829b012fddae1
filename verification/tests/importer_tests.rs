use sourceror::error::ImportsParseError;
use sourceror::frontendvar::VarValue;
use sourceror::importer::{
    has_imports_header, make_export_state, make_vartype, parse_import, parse_imports, Import,
    ImportSpec, ImportValType,
};
use sourceror::log::Position;
use sourceror::vartype::VarType;

#[test]
fn header_on_first_line_is_recognised() {
    assert!(has_imports_header("@SourceImports\nfoo bar baz number"));
    assert!(has_imports_header("@SourceImports\r\n"));
    assert!(has_imports_header("@SourceImports"));
    assert!(!has_imports_header(" @SourceImports"));
    assert!(!has_imports_header("@SourceImports \n"));
    assert!(!has_imports_header("\n@SourceImports"));
    assert!(!has_imports_header(""));
}

#[test]
fn type_names_of_imports() {
    assert_eq!(make_vartype("undefined"), Some(ImportValType::Undefined));
    assert_eq!(make_vartype("number"), Some(ImportValType::Number));
    assert_eq!(make_vartype("string"), Some(ImportValType::String));
    assert_eq!(make_vartype("boolean"), None);
    assert_eq!(make_vartype(""), None);
}

#[test]
fn line_names_one_import() {
    let (name, import) = parse_import("imports.txt", "__ffi_display misc display undefined string", 2)
        .unwrap()
        .unwrap();
    assert_eq!(name, "__ffi_display");
    assert_eq!(import.module_name, "misc");
    assert_eq!(import.entity_name, "display");
    assert_eq!(import.result, ImportValType::Undefined);
    assert_eq!(import.params, vec![ImportValType::String]);
}

#[test]
fn any_number_of_spaces_may_stand_between_tokens() {
    let (name, import) = parse_import("f", "  sin   math  sin number    number  ", 2).unwrap().unwrap();
    assert_eq!(name, "sin");
    assert_eq!(import.params, vec![ImportValType::Number]);
    let (_, none) = parse_import("f", "now time now number", 2).unwrap().unwrap();
    assert!(none.params.is_empty());
}

#[test]
fn empty_line_names_nothing() {
    assert!(parse_import("f", "", 2).unwrap().is_none());
    assert!(parse_import("f", "    ", 2).unwrap().is_none());
}

#[test]
fn missing_tokens_are_reported_at_the_end_of_the_line() {
    let e = parse_import("imports.txt", "a", 4).unwrap_err();
    assert!(matches!(e.message, ImportsParseError::MissingHostModuleName));
    assert_eq!(e.location.file.as_deref(), Some("imports.txt"));
    assert_eq!(e.location.start, Position { line: 4, column: 1 });
    assert_eq!(e.location.end, Position { line: 5, column: 0 });
    let e = parse_import("imports.txt", "a b", 4).unwrap_err();
    assert!(matches!(e.message, ImportsParseError::MissingHostEntityName));
    let e = parse_import("imports.txt", "a b c", 4).unwrap_err();
    assert!(matches!(e.message, ImportsParseError::MissingReturnType));
    assert_eq!(e.location.start, Position { line: 4, column: 5 });
}

#[test]
fn unknown_type_is_reported_with_its_bytes() {
    let e = parse_import("imports.txt", "\u{e9}t\u{e9} m e number  bool string", 3).unwrap_err();
    match e.message {
        ImportsParseError::InvalidVarType(token) => assert_eq!(token, "bool"),
        _ => panic!("not the error of a type"),
    }
    // the two accented letters take two bytes each
    assert_eq!(e.location.start, Position { line: 3, column: 18 });
    assert_eq!(e.location.end, Position { line: 3, column: 22 });
    let e = parse_import("imports.txt", "a b c void", 3).unwrap_err();
    assert!(matches!(e.message, ImportsParseError::InvalidVarType(_)));
    assert_eq!(e.location.start, Position { line: 3, column: 6 });
}

#[test]
fn manifest_is_read_line_by_line() {
    let spec = parse_imports(
        "imports.txt",
        "@SourceImports\r\ndisplay misc display undefined string\r\n\r\nsin math sin number number\n",
    )
    .unwrap();
    assert_eq!(spec.content.len(), 2);
    assert_eq!(spec.content[0].0, "display");
    assert_eq!(spec.content[1].0, "sin");
    assert_eq!(spec.content[1].1.module_name, "math");
}

#[test]
fn manifest_without_header_is_refused() {
    let e = parse_imports("imports.txt", "display misc display undefined string").unwrap_err();
    assert!(matches!(e.message, ImportsParseError::InvalidHeader));
    assert_eq!(e.location.start, Position { line: 1, column: 0 });
    assert_eq!(e.location.end, Position { line: 2, column: 0 });
    assert!(parse_imports("imports.txt", "").is_err());
}

#[test]
fn error_in_a_manifest_names_its_line() {
    let e = parse_imports("imports.txt", "@SourceImports\n\na b c number\nx y\n").unwrap_err();
    assert!(matches!(e.message, ImportsParseError::MissingHostEntityName));
    assert_eq!(e.location.start.line, 4);
}

fn import(module: &str, entity: &str, params: Vec<ImportValType>, result: ImportValType) -> Import {
    Import { module_name: module.to_string(), entity_name: entity.to_string(), params, result }
}

#[test]
fn imports_become_direct_functions_with_their_indices() {
    let spec = ImportSpec {
        content: vec![
            ("show".to_string(), import("misc", "show", vec![ImportValType::String], ImportValType::Undefined)),
            ("show".to_string(), import("misc", "show_n", vec![ImportValType::Number], ImportValType::Undefined)),
            ("now".to_string(), import("time", "now", vec![], ImportValType::Number)),
        ],
    };
    let map = vec![
        (import("time", "now", vec![], ImportValType::Number), 7),
        (import("misc", "show_n", vec![ImportValType::Number], ImportValType::Undefined), 8),
        (import("misc", "show", vec![ImportValType::String], ImportValType::Undefined), 9),
    ];
    let (pre_exports, parse_state) = make_export_state(spec, 0, &map);
    assert_eq!(pre_exports.entries.len(), 2);
    assert_eq!(pre_exports.entries[0].0, "show");
    match &pre_exports.entries[0].1 {
        VarValue::Direct(sigs) => assert_eq!(*sigs, vec![vec![VarType::String], vec![VarType::Number]]),
        _ => panic!("not a direct function"),
    }
    assert_eq!(
        parse_state.direct,
        vec![
            ("show".to_string(), vec![(vec![VarType::String], 9), (vec![VarType::Number], 8)]),
            ("now".to_string(), vec![(vec![], 7)]),
        ]
    );
}
