use sourceror::attributes::{
    each_with_attributes, each_with_attributes_with, next_attributed, parse_attributes, Attributes,
    NodeForEachWithAttributes, NodeForEachWithAttributesInto, NodeForEachWithAttributesMut,
};
use sourceror::attributes_laws::serialize_attributes;
use sourceror::error::{new_program_error, ParseProgramError};
use sourceror::estree::{
    AssignmentExpression, ExpressionStatement, Identifier, Literal, LiteralValue, Node, NodeKind,
};
use sourceror::constraint::parse_constraint;
use sourceror::vartype::VarType;

fn parsed(text: &str) -> Option<Vec<(String, Option<String>)>> {
    parse_attributes(text).ok().map(|a| a.entries)
}

fn entry(key: &str, value: Option<&str>) -> (String, Option<String>) {
    (key.to_string(), value.map(|v| v.to_string()))
}

#[test]
fn attribute_string_is_a_list_of_keys_and_values() {
    assert_eq!(
        parsed("x;y=val;z;k"),
        Some(vec![entry("x", None), entry("y", Some("val")), entry("z", None), entry("k", None)])
    );
}

#[test]
fn last_semicolon_may_be_left_out_or_written() {
    assert_eq!(parsed("x;y=val;"), parsed("x;y=val"));
    assert_eq!(parsed("direct;"), Some(vec![entry("direct", None)]));
}

#[test]
fn empty_string_has_no_attributes() {
    assert_eq!(parsed(""), Some(vec![]));
}

#[test]
fn white_space_around_keys_and_values_does_not_count() {
    assert_eq!(
        parsed("  direct ;\tconstraint  =  a : number \u{3000}"),
        Some(vec![entry("direct", None), entry("constraint", Some("a : number"))])
    );
}

#[test]
fn value_may_hold_further_equal_signs() {
    assert_eq!(parsed("k=a=b"), Some(vec![entry("k", Some("a=b"))]));
}

#[test]
fn empty_items_keys_and_values_are_refused() {
    assert_eq!(parsed(";"), None);
    assert_eq!(parsed("a;;b"), None);
    assert_eq!(parsed("a; "), None);
    assert_eq!(parsed("=v"), None);
    assert_eq!(parsed("k="), None);
    assert_eq!(parsed(" = "), None);
}

#[test]
fn repeated_key_is_refused() {
    assert_eq!(parsed("a;b;a"), None);
    assert_eq!(parsed("a=1; a =2"), None);
}

#[test]
fn attribute_lookup_finds_keys() {
    let attrs: Attributes = parse_attributes("direct;constraint=x:number").unwrap();
    assert_eq!(attrs.len(), 2);
    assert!(!attrs.is_empty());
    assert!(attrs.contains_key("direct"));
    assert!(!attrs.contains_key("other"));
    assert_eq!(attrs.get("direct"), Some(&None));
    assert_eq!(attrs.get("constraint"), Some(&Some("x:number".to_string())));
    assert_eq!(attrs.get("other"), None);
    assert_eq!(attrs.position("constraint"), Some(1));
}

#[test]
fn constraint_gives_types_to_parameters() {
    assert_eq!(
        parse_constraint("a: number, b :string,c:any , d:boolean,e:undefined,f:function"),
        Ok(vec![
            ("a".to_string(), VarType::Number),
            ("b".to_string(), VarType::String),
            ("c".to_string(), VarType::Any),
            ("d".to_string(), VarType::Boolean),
            ("e".to_string(), VarType::Undefined),
            ("f".to_string(), VarType::Func),
        ])
    );
}

#[test]
fn ill_formed_constraint_is_refused() {
    assert!(parse_constraint("").is_err());
    assert!(parse_constraint("a").is_err());
    assert!(parse_constraint(":number").is_err());
    assert!(parse_constraint("a:int").is_err());
    assert!(parse_constraint("a:number,").is_err());
    assert!(parse_constraint("a:number,a:string").is_err());
}

#[test]
fn attributes_are_written_one_after_the_other() {
    let attrs = Attributes {
        entries: vec![entry("direct", None), entry("constraint", Some("a:number,b:string"))],
    };
    assert_eq!(serialize_attributes(&attrs), "direct;constraint=a:number,b:string;");
    assert_eq!(serialize_attributes(&Attributes::new()), "");
}

#[test]
fn what_is_read_and_written_is_read_as_the_same_again() {
    let texts = [
        "",
        "x",
        "x;y=val;z;k",
        "  direct ;\tconstraint  =  a : number \u{3000}",
        "k=a=b;",
        " a = b c ; d ",
    ];
    for text in texts {
        let read = parse_attributes(text).unwrap();
        let written = serialize_attributes(&read);
        let again = parse_attributes(written.as_str()).unwrap();
        assert_eq!(again.entries, read.entries, "for {:?}", text);
        // what was written once is written the same way again
        assert_eq!(serialize_attributes(&again), written);
    }
}

#[test]
fn copy_of_attributes_holds_the_same_entries() {
    let attrs = parse_attributes("a;b=c").unwrap();
    let copy = attrs.duplicate();
    assert_eq!(copy.entries, attrs.entries);
}

fn stmt(kind: NodeKind) -> Node {
    Node { loc: None, kind }
}

fn name(text: &str) -> Node {
    stmt(NodeKind::Identifier(Identifier { name: text.to_string(), prevar: None }))
}

fn string(text: &str) -> Node {
    stmt(NodeKind::Literal(Literal { value: LiteralValue::String(text.to_string()) }))
}

fn assignment(to: Node, operator: &str, right: Node) -> Node {
    stmt(NodeKind::ExpressionStatement(ExpressionStatement {
        expression: Box::new(stmt(NodeKind::AssignmentExpression(AssignmentExpression {
            operator: operator.to_string(),
            left: Box::new(to),
            right: Box::new(right),
        }))),
    }))
}

fn attribute_statement(text: &str) -> Node {
    assignment(name("__attributes"), "=", string(text))
}

fn plain_statement(text: &str) -> Node {
    stmt(NodeKind::ExpressionStatement(ExpressionStatement { expression: Box::new(name(text)) }))
}

fn statement_name(node: &Node) -> String {
    match &node.kind {
        NodeKind::ExpressionStatement(s) => match &s.expression.kind {
            NodeKind::Identifier(id) => id.name.clone(),
            _ => panic!("not a name"),
        },
        _ => panic!("not an expression statement"),
    }
}

fn keys(attrs: &Attributes) -> Vec<String> {
    attrs.entries.iter().map(|e| e.0.clone()).collect()
}

#[test]
fn attributes_go_to_the_statement_that_follows() {
    let body = vec![
        plain_statement("a"),
        attribute_statement("direct;constraint=x:number"),
        plain_statement("b"),
        plain_statement("c"),
        attribute_statement("k"),
        plain_statement("d"),
    ];
    let items = each_with_attributes(&body, None).unwrap();
    let found: Vec<(usize, Vec<String>)> = items.iter().map(|(i, a)| (*i, keys(a))).collect();
    assert_eq!(
        found,
        vec![
            (0, vec![]),
            (2, vec!["direct".to_string(), "constraint".to_string()]),
            (3, vec![]),
            (5, vec!["k".to_string()]),
        ]
    );
    // the three ways of going through a list give the same statements
    assert_eq!(body.each_with_attributes(None).unwrap().len(), 4);
    let mut changeable = vec![attribute_statement("k"), plain_statement("d")];
    let positions = changeable.each_with_attributes_mut(None).unwrap();
    assert_eq!(positions.len(), 1);
    assert_eq!(positions[0].0, 1);
    let owned = body.each_with_attributes_into(None).unwrap();
    assert_eq!(owned.len(), 4);
    assert_eq!(statement_name(&owned[1].0), "b");
    assert_eq!(keys(&owned[1].1), vec!["direct".to_string(), "constraint".to_string()]);
    assert_eq!(statement_name(&owned[3].0), "d");
}

#[test]
fn reading_goes_on_behind_the_statement_that_was_given() {
    let body = vec![attribute_statement("k=v"), plain_statement("a"), plain_statement("b")];
    let (index, attrs, next) = next_attributed(&body, 0, None).unwrap().unwrap();
    assert_eq!((index, next), (1, 2));
    assert_eq!(attrs.get("k"), Some(&Some("v".to_string())));
    let (index, attrs, next) = next_attributed(&body, next, None).unwrap().unwrap();
    assert_eq!((index, next), (2, 3));
    assert!(attrs.is_empty());
    assert!(next_attributed(&body, next, None).unwrap().is_none());
    assert!(each_with_attributes(&Vec::new(), None).unwrap().is_empty());
}

#[test]
fn attributes_without_a_statement_behind_them_dangle() {
    let last = vec![plain_statement("a"), attribute_statement("k")];
    let e = each_with_attributes(&last, Some("m.js")).unwrap_err();
    assert!(matches!(e.message, ParseProgramError::DanglingAttributeError));
    assert_eq!(e.location.file.as_deref(), Some("m.js"));
    let twice = vec![attribute_statement("k"), attribute_statement("l"), plain_statement("a")];
    let e = each_with_attributes(&twice, None).unwrap_err();
    assert!(matches!(e.message, ParseProgramError::DanglingAttributeError));
}

#[test]
fn assignment_to_the_reserved_name_holds_attributes() {
    // an assignment to another name is an ordinary statement
    let body = vec![assignment(name("attributes"), "=", string("k")), plain_statement("a")];
    let items = each_with_attributes(&body, None).unwrap();
    assert_eq!(items.len(), 2);
    assert!(items[0].1.is_empty());
    assert!(items[1].1.is_empty());
    // what is assigned to the reserved name has to be a string
    let no_string = vec![assignment(name("__attributes"), "=", name("k")), plain_statement("a")];
    let e = each_with_attributes(&no_string, None).unwrap_err();
    assert!(matches!(e.message, ParseProgramError::AttributeNotStringLiteralError));
    // and the string has to be a list of attributes
    let ill_formed = vec![attribute_statement("a;;b"), plain_statement("a")];
    let e = each_with_attributes(&ill_formed, None).unwrap_err();
    assert!(matches!(e.message, ParseProgramError::AttributeParseError));
}

#[test]
fn statements_are_handed_on_one_by_one_with_what_is_carried_along() {
    let body = vec![
        plain_statement("a"),
        attribute_statement("direct"),
        plain_statement("b"),
        plain_statement("c"),
    ];
    let seen = each_with_attributes_with(
        &body,
        None,
        Vec::new(),
        |mut seen: Vec<(String, usize)>, node: &Node, attrs: Attributes| {
            seen.push((statement_name(node), attrs.len()));
            Ok(seen)
        },
    )
    .unwrap();
    assert_eq!(seen, vec![("a".to_string(), 0), ("b".to_string(), 1), ("c".to_string(), 0)]);
    // an empty list gives back what it was started with
    let none = each_with_attributes_with(&Vec::new(), None, 7, |n: i32, _: &Node, _: Attributes| Ok(n + 1));
    assert!(matches!(none, Ok(7)));
}

#[test]
fn first_error_ends_the_reading_whoever_finds_it() {
    // the second statement is refused by the callback, the attributes
    // behind it are ill formed: the callback's error comes first
    let body = vec![
        plain_statement("a"),
        plain_statement("b"),
        attribute_statement("x;;y"),
        plain_statement("c"),
    ];
    let calls = std::cell::Cell::new(0);
    let refuse_b = |count: usize, node: &Node, _: Attributes| {
        calls.set(calls.get() + 1);
        if statement_name(node) == "b" {
            Err(new_program_error(&node.loc, Some("cb.js"), ParseProgramError::DirectFunctionCaptureError))
        } else {
            Ok(count + 1)
        }
    };
    let err = each_with_attributes_with(&body, Some("m.js"), 0, &refuse_b).unwrap_err();
    assert!(matches!(err.message, ParseProgramError::DirectFunctionCaptureError));
    assert_eq!(err.location.file.as_deref(), Some("cb.js"));
    assert_eq!(calls.get(), 2);
    // the list form reads all attributes first and finds the other error
    let err = each_with_attributes(&body, Some("m.js")).unwrap_err();
    assert!(matches!(err.message, ParseProgramError::AttributeParseError));
    // where the callback accepts everything the attributes are the first error
    calls.set(0);
    let err = each_with_attributes_with(&body, Some("m.js"), 0, |c: usize, _: &Node, _: Attributes| {
        calls.set(calls.get() + 1);
        Ok(c + 1)
    })
    .unwrap_err();
    assert!(matches!(err.message, ParseProgramError::AttributeParseError));
    assert_eq!(calls.get(), 2);
}
