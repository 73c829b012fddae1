use sourceror::error::ImportsParseError;
use sourceror::frontendvar::{
    copy_signatures, copy_types, types_eq, NameCtx, PreVar, VarCtx, VarLocId, VarValue,
};
use sourceror::log::{into_sl, CompileMessage, Position, Severity, SourceLocation, Span};
use sourceror::text::{
    byte_len_of, chars_eq, chars_of, find_char, is_space, range_eq, split_ranges, str_eq,
    substring, trim_range,
};
use sourceror::vartype::VarType;

fn piece(chars: &Vec<char>, bounds: (usize, usize)) -> String {
    chars[bounds.0..bounds.1].iter().collect()
}

#[test]
fn text_is_a_list_of_characters() {
    assert_eq!(chars_of("aé\u{3000}z"), vec!['a', 'é', '\u{3000}', 'z']);
    assert_eq!(chars_of(""), Vec::<char>::new());
    assert!(chars_eq(&chars_of("abc"), &chars_of("abc")));
    assert!(!chars_eq(&chars_of("abc"), &chars_of("abd")));
    assert!(!chars_eq(&chars_of("abc"), &chars_of("ab")));
    assert!(str_eq("direct", "direct"));
    assert!(!str_eq("direct", "Direct"));
    assert!(str_eq("", ""));
}

#[test]
fn parts_of_a_text_are_counted_in_characters() {
    // positions count characters, not bytes
    assert_eq!(substring("héllo wörld", 1, 8), "éllo wö");
    assert_eq!(substring("abc", 1, 1), "");
    assert_eq!(substring("abc", 0, 3), "abc");
    let chars = chars_of("let x = 1");
    assert!(range_eq(&chars, 0, 3, "let"));
    assert!(!range_eq(&chars, 0, 3, "le"));
    assert!(!range_eq(&chars, 1, 4, "let"));
    assert!(range_eq(&chars, 4, 4, ""));
}

#[test]
fn white_space_is_what_unicode_calls_white_space() {
    for c in [' ', '\t', '\n', '\u{0b}', '\u{0c}', '\r', '\u{85}', '\u{a0}', '\u{1680}', '\u{2000}',
        '\u{200a}', '\u{2028}', '\u{2029}', '\u{202f}', '\u{205f}', '\u{3000}']
    {
        assert!(is_space(c), "{:?}", c);
        assert!(c.is_whitespace());
    }
    for c in ['a', '0', ';', '=', '\u{08}', '\u{0e}', '\u{200b}', '\u{feff}', '\u{2060}'] {
        assert!(!is_space(c), "{:?}", c);
        assert!(!c.is_whitespace());
    }
}

#[test]
fn first_separator_is_found_or_the_end() {
    let chars = chars_of("a=b=c");
    assert_eq!(find_char(&chars, 0, 5, '='), 1);
    assert_eq!(find_char(&chars, 2, 5, '='), 3);
    assert_eq!(find_char(&chars, 4, 5, '='), 5);
    assert_eq!(find_char(&chars, 0, 1, '='), 1);
    assert_eq!(find_char(&chars, 2, 2, '='), 2);
}

#[test]
fn white_space_is_cut_off_at_both_ends() {
    let chars = chars_of("  a b \t");
    assert_eq!(trim_range(&chars, 0, chars.len()), (2, 5));
    assert_eq!(trim_range(&chars, 2, 5), (2, 5));
    assert_eq!(piece(&chars, trim_range(&chars, 3, 7)), "b");
    let blank = chars_of(" \n ");
    assert_eq!(piece(&blank, trim_range(&blank, 0, 3)), "");
    assert_eq!(piece(&blank, trim_range(&blank, 1, 1)), "");
}

#[test]
fn separator_cuts_a_text_into_pieces() {
    let chars = chars_of("a;bc;;d");
    let pieces: Vec<String> =
        split_ranges(&chars, 0, chars.len(), ';').into_iter().map(|b| piece(&chars, b)).collect();
    assert_eq!(pieces, vec!["a", "bc", "", "d"]);
    // as `str::split` cuts
    let expected: Vec<&str> = "a;bc;;d".split(';').collect();
    assert_eq!(pieces, expected);
    assert_eq!(split_ranges(&chars, 2, 4, ';'), vec![(2, 4)]);
    assert_eq!(split_ranges(&chars, 0, 0, ';'), vec![(0, 0)]);
    assert_eq!(split_ranges(&chars, 4, 6, ';'), vec![(4, 4), (5, 5), (6, 6)]);
}

#[test]
fn length_in_bytes_is_that_of_the_encoding() {
    let chars = chars_of("a\u{e9}\u{20ac}\u{1f600}");
    assert_eq!(byte_len_of(&chars, 0, 1), 1);
    assert_eq!(byte_len_of(&chars, 1, 2), 2);
    assert_eq!(byte_len_of(&chars, 2, 3), 3);
    assert_eq!(byte_len_of(&chars, 3, 4), 4);
    assert_eq!(byte_len_of(&chars, 0, 4), 10);
    assert_eq!(byte_len_of(&chars, 0, 4) as usize, "a\u{e9}\u{20ac}\u{1f600}".len());
    assert_eq!(byte_len_of(&chars, 2, 2), 0);
}

#[test]
fn location_of_a_node_is_its_span_or_the_start_of_the_file() {
    let span = Span { start: Position { line: 3, column: 4 }, end: Position { line: 5, column: 6 } };
    let sl = into_sl(&Some(span), Some("a.js"));
    assert_eq!(sl.file.as_deref(), Some("a.js"));
    assert_eq!((sl.start.line, sl.start.column, sl.end.line, sl.end.column), (3, 4, 5, 6));
    let sl = into_sl(&None, None);
    assert_eq!(sl.file, None);
    assert_eq!((sl.start.line, sl.start.column, sl.end.line, sl.end.column), (0, 0, 0, 0));
}

#[test]
fn location_of_a_line_ends_where_the_next_line_starts() {
    let sl = SourceLocation::entire_line(7, Some("m.imports"));
    assert_eq!(sl.file.as_deref(), Some("m.imports"));
    assert_eq!((sl.start.line, sl.start.column, sl.end.line, sl.end.column), (7, 0, 8, 0));
    // the last line that can be counted has no next line
    let sl = SourceLocation::entire_line(i32::MAX, None);
    assert_eq!((sl.start.line, sl.end.line), (i32::MAX, i32::MAX));
    let sl = SourceLocation::new(1, 2, 3, 4, None);
    assert_eq!((sl.start.line, sl.start.column, sl.end.line, sl.end.column), (1, 2, 3, 4));
}

#[test]
fn new_message_is_an_error() {
    let cm = CompileMessage::new_error(
        SourceLocation::entire_line(2, None),
        ImportsParseError::InvalidVarType("int".to_string()),
    );
    assert_eq!(cm.severity, Severity::Error);
    assert!(matches!(cm.message(), ImportsParseError::InvalidVarType(t) if t == "int"));
    assert_eq!(cm.location.start.line, 2);
}

fn loc(depth: usize, index: usize) -> VarLocId {
    VarLocId { depth, index }
}

#[test]
fn name_is_resolved_to_its_innermost_declaration() {
    let mut ctx = NameCtx::new();
    assert_eq!(ctx.get("x"), None);
    ctx.insert("x".to_string(), PreVar::Target(loc(0, 0)));
    ctx.insert("f".to_string(), PreVar::Direct);
    let undo = ctx.add_scope(vec![
        ("x".to_string(), PreVar::Target(loc(1, 0))),
        ("y".to_string(), PreVar::Target(loc(1, 1))),
    ]);
    assert_eq!(undo, 2);
    assert_eq!(ctx.get("x"), Some(PreVar::Target(loc(1, 0))));
    assert_eq!(ctx.get("y"), Some(PreVar::Target(loc(1, 1))));
    assert_eq!(ctx.get("f"), Some(PreVar::Direct));
    ctx.remove_scope(undo);
    assert_eq!(ctx.get("x"), Some(PreVar::Target(loc(0, 0))));
    assert_eq!(ctx.get("y"), None);
    assert_eq!(ctx.entries.len(), 2);
}

fn signatures(ctx: &VarCtx, name: &str) -> Vec<Vec<VarType>> {
    match ctx.get(name) {
        Some(VarValue::Direct(sigs)) => copy_signatures(sigs),
        _ => panic!("no direct function"),
    }
}

#[test]
fn direct_functions_of_one_name_are_gathered() {
    let mut ctx = VarCtx::new();
    assert!(ctx.try_coalesce("g".to_string(), VarValue::new_direct(vec![VarType::Any, VarType::Any])));
    assert!(ctx.try_coalesce("v".to_string(), VarValue::Target(loc(0, 3))));
    assert!(ctx.try_coalesce("g".to_string(), VarValue::new_direct(vec![VarType::Any])));
    assert_eq!(ctx.len(), 2);
    assert_eq!(ctx.position("g"), Some(0));
    assert_eq!(ctx.position("v"), Some(1));
    assert_eq!(ctx.position("w"), None);
    assert_eq!(signatures(&ctx, "g"), vec![vec![VarType::Any, VarType::Any], vec![VarType::Any]]);
    // a signature that is there already, a variable under the name of a
    // function and a function under the name of a variable are refused,
    // and nothing changes
    assert!(!ctx.try_coalesce("g".to_string(), VarValue::new_direct(vec![VarType::Any])));
    assert!(!ctx.try_coalesce("g".to_string(), VarValue::Target(loc(0, 4))));
    assert!(!ctx.try_coalesce("v".to_string(), VarValue::new_direct(vec![])));
    assert!(!ctx.try_coalesce("v".to_string(), VarValue::Target(loc(0, 3))));
    assert_eq!(ctx.len(), 2);
    assert_eq!(signatures(&ctx, "g").len(), 2);
    assert!(matches!(ctx.get("v"), Some(VarValue::Target(l)) if *l == loc(0, 3)));
    assert!(ctx.get("w").is_none());
}

#[test]
fn value_of_a_name_is_used_as_a_place_or_as_a_direct_function() {
    assert_eq!(VarValue::Target(loc(2, 1)).prevar(), PreVar::Target(loc(2, 1)));
    let direct = VarValue::new_direct(vec![VarType::Number]);
    assert_eq!(direct.prevar(), PreVar::Direct);
    assert_eq!(direct.duplicate().prevar(), PreVar::Direct);
    assert!(matches!(direct.duplicate(), VarValue::Direct(s) if s == vec![vec![VarType::Number]]));
    assert_eq!(copy_types(&vec![VarType::Any, VarType::Func]), vec![VarType::Any, VarType::Func]);
    assert!(types_eq(&vec![VarType::Any, VarType::Func], &vec![VarType::Any, VarType::Func]));
    assert!(!types_eq(&vec![VarType::Any], &vec![VarType::Any, VarType::Func]));
    assert!(!types_eq(
        &vec![VarType::StructT { typeidx: 1 }],
        &vec![VarType::StructT { typeidx: 2 }]
    ));
}
