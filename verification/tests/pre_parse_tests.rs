use sourceror::error::ParseProgramError;
use sourceror::estree::{
    ArrayExpression, ArrowFunctionExpression, AssignmentExpression, BinaryExpression,
    BlockStatement, CallExpression, ExportNamedDeclaration, ExportSpecifier, ExpressionStatement,
    Function, FunctionDeclaration, Identifier, IfStatement, ImportDeclaration, ImportSpecifier,
    Literal, LiteralValue, Node, NodeKind, Program, ReturnStatement, VariableDeclaration,
    VariableDeclarator,
};
use sourceror::frontendvar::{NameCtx, PreVar, ProgramPreExports, VarLocId, VarValue};
use sourceror::attributes::parse_attributes;
use sourceror::func::decls::{try_coalesce_id_direct, try_coalesce_id_target};
use sourceror::func::pre_parse::{pre_parse_program, pre_parse_statement};
use sourceror::log::{Position, Span};
use sourceror::vartype::VarType;

fn at(line: i32) -> Option<Span> {
    Some(Span { start: Position { line, column: 0 }, end: Position { line, column: 10 } })
}

fn node(kind: NodeKind) -> Node {
    Node { loc: None, kind }
}

fn ident(name: &str) -> Node {
    node(NodeKind::Identifier(Identifier { name: name.to_string(), prevar: None }))
}

fn number(bits: u64) -> Node {
    node(NodeKind::Literal(Literal { value: LiteralValue::Number(bits) }))
}

fn text(s: &str) -> Node {
    node(NodeKind::Literal(Literal { value: LiteralValue::String(s.to_string()) }))
}

fn binary(left: Node, right: Node) -> Node {
    node(NodeKind::BinaryExpression(BinaryExpression {
        operator: "+".to_string(),
        left: Box::new(left),
        right: Box::new(right),
    }))
}

fn call(callee: Node, arguments: Vec<Node>) -> Node {
    node(NodeKind::CallExpression(CallExpression { callee: Box::new(callee), arguments }))
}

fn ret(argument: Node) -> Node {
    node(NodeKind::ReturnStatement(ReturnStatement { argument: Some(Box::new(argument)) }))
}

fn block(body: Vec<Node>) -> Node {
    node(NodeKind::BlockStatement(BlockStatement {
        body,
        address_taken_vars: Vec::new(),
        direct_funcs: Vec::new(),
    }))
}

fn function(params: Vec<Node>, body: Node) -> Function {
    Function {
        params,
        body: Box::new(body),
        address_taken_vars: Vec::new(),
        captured_vars: Vec::new(),
        direct_funcs: Vec::new(),
    }
}

fn func_decl(name: &str, params: Vec<Node>, body: Vec<Node>) -> Node {
    Node {
        loc: at(7),
        kind: NodeKind::FunctionDeclaration(FunctionDeclaration {
            id: Box::new(ident(name)),
            function: function(params, block(body)),
        }),
    }
}

fn arrow(params: Vec<Node>, body: Node) -> Node {
    node(NodeKind::ArrowFunctionExpression(ArrowFunctionExpression {
        function: function(params, body),
        expression: true,
    }))
}

fn var_decl(name: &str, init: Node) -> Node {
    node(NodeKind::VariableDeclaration(VariableDeclaration {
        declarations: vec![node(NodeKind::VariableDeclarator(VariableDeclarator {
            id: Box::new(ident(name)),
            init: Some(Box::new(init)),
        }))],
        kind: "let".to_string(),
    }))
}

fn expr_stmt(expression: Node) -> Node {
    node(NodeKind::ExpressionStatement(ExpressionStatement { expression: Box::new(expression) }))
}

fn assign_expr(name: &str, operator: &str, right: Node) -> Node {
    node(NodeKind::AssignmentExpression(AssignmentExpression {
        operator: operator.to_string(),
        left: Box::new(ident(name)),
        right: Box::new(right),
    }))
}

fn assign(name: &str, operator: &str, right: Node) -> Node {
    expr_stmt(assign_expr(name, operator, right))
}

fn attributes(value: &str) -> Node {
    Node { loc: at(3), kind: assign("__attributes", "=", text(value)).kind }
}

fn program(body: Vec<Node>) -> Program {
    Program { body, direct_funcs: Vec::new() }
}

fn analyse(
    program: &mut Program,
    imports: &[&ProgramPreExports],
    start_idx: &mut usize,
) -> Result<ProgramPreExports, ParseProgramError> {
    let mut name_ctx = NameCtx::new();
    let result = pre_parse_program(program, &None, &mut name_ctx, imports, start_idx, Some("main.js"));
    assert_eq!(name_ctx.entries.len(), 0);
    result.map_err(|e| {
        assert_eq!(e.location.file.as_deref(), Some("main.js"));
        e.message
    })
}

fn function_of(node: &Node) -> &FunctionDeclaration {
    match &node.kind {
        NodeKind::FunctionDeclaration(decl) => decl,
        _ => panic!("not a function declaration"),
    }
}

fn prevar_of(node: &Node) -> Option<PreVar> {
    match &node.kind {
        NodeKind::Identifier(id) => id.prevar,
        _ => panic!("not an identifier"),
    }
}

fn body_of(function: &Function) -> &Vec<Node> {
    match &function.body.kind {
        NodeKind::BlockStatement(block) => &block.body,
        _ => panic!("not a block"),
    }
}

fn loc(depth: usize, index: usize) -> VarLocId {
    VarLocId { depth, index }
}

#[test]
fn function_at_module_scope_gets_the_first_global() {
    // function f(x) { return x + 1; }
    let mut p = program(vec![func_decl("f", vec![ident("x")], vec![ret(binary(ident("x"), number(1)))])]);
    let mut start_idx = 0;
    let exports = analyse(&mut p, &[], &mut start_idx).unwrap();
    assert_eq!(exports.entries.len(), 0);
    assert_eq!(start_idx, 1);
    let f = function_of(&p.body[0]);
    assert_eq!(prevar_of(&f.id), Some(PreVar::Target(loc(0, 0))));
    assert!(f.function.address_taken_vars.is_empty());
    assert!(f.function.captured_vars.is_empty());
    match &body_of(&f.function)[0].kind {
        NodeKind::ReturnStatement(stmt) => match &stmt.argument.as_ref().unwrap().kind {
            NodeKind::BinaryExpression(b) => {
                assert_eq!(prevar_of(&b.left), Some(PreVar::Target(loc(1, 0))));
            }
            _ => panic!("not a binary expression"),
        },
        _ => panic!("not a return statement"),
    }
}

#[test]
fn globals_are_numbered_from_the_start_index() {
    // let a = 1; function f() { return a; }
    let mut p = program(vec![var_decl("a", number(1)), func_decl("f", vec![], vec![ret(ident("a"))])]);
    let mut start_idx = 5;
    analyse(&mut p, &[], &mut start_idx).unwrap();
    assert_eq!(start_idx, 7);
    let f = function_of(&p.body[1]);
    assert_eq!(prevar_of(&f.id), Some(PreVar::Target(loc(0, 6))));
    // a global is not captured
    assert!(f.function.captured_vars.is_empty());
}

#[test]
fn captured_local_lives_in_the_heap() {
    // function outer() { let x = 1; return () => x; }
    let mut p = program(vec![func_decl(
        "outer",
        vec![],
        vec![var_decl("x", number(1)), ret(arrow(vec![], ident("x")))],
    )]);
    let mut start_idx = 0;
    analyse(&mut p, &[], &mut start_idx).unwrap();
    let outer = function_of(&p.body[0]);
    assert_eq!(outer.function.address_taken_vars, vec![0]);
    assert!(outer.function.captured_vars.is_empty());
    match &body_of(&outer.function)[1].kind {
        NodeKind::ReturnStatement(stmt) => match &stmt.argument.as_ref().unwrap().kind {
            NodeKind::ArrowFunctionExpression(inner) => {
                assert_eq!(inner.function.captured_vars, vec![loc(1, 0)]);
                assert!(inner.function.address_taken_vars.is_empty());
                assert_eq!(prevar_of(&inner.function.body), Some(PreVar::Target(loc(1, 0))));
            }
            _ => panic!("not an arrow function"),
        },
        _ => panic!("not a return statement"),
    }
}

#[test]
fn parameters_come_before_the_variables_of_the_body() {
    // function f(a, b) { let c = a; return () => c + b; }
    let mut p = program(vec![func_decl(
        "f",
        vec![ident("a"), ident("b")],
        vec![var_decl("c", ident("a")), ret(arrow(vec![], binary(ident("c"), ident("b"))))],
    )]);
    let mut start_idx = 0;
    analyse(&mut p, &[], &mut start_idx).unwrap();
    let f = function_of(&p.body[0]);
    // b has index 1 and c has index 2; both are used by the arrow function
    assert_eq!(f.function.address_taken_vars, vec![1, 2]);
    match &body_of(&f.function)[1].kind {
        NodeKind::ReturnStatement(stmt) => match &stmt.argument.as_ref().unwrap().kind {
            NodeKind::ArrowFunctionExpression(inner) => {
                assert_eq!(inner.function.captured_vars, vec![loc(1, 1), loc(1, 2)]);
            }
            _ => panic!("not an arrow function"),
        },
        _ => panic!("not a return statement"),
    }
}

#[test]
fn variable_of_a_block_is_taken_out_by_the_block() {
    // function f() { { let y = 1; return () => y; } }
    let mut p = program(vec![func_decl(
        "f",
        vec![],
        vec![block(vec![var_decl("y", number(1)), ret(arrow(vec![], ident("y")))])],
    )]);
    let mut start_idx = 0;
    analyse(&mut p, &[], &mut start_idx).unwrap();
    let f = function_of(&p.body[0]);
    assert!(f.function.address_taken_vars.is_empty());
    match &body_of(&f.function)[0].kind {
        NodeKind::BlockStatement(inner) => assert_eq!(inner.address_taken_vars, vec![0]),
        _ => panic!("not a block"),
    }
}

#[test]
fn import_is_resolved_to_what_the_other_module_exports() {
    // module A: function f() { return 1; } export { f };
    let mut a = program(vec![
        func_decl("f", vec![], vec![ret(number(1))]),
        node(NodeKind::ExportNamedDeclaration(ExportNamedDeclaration {
            declaration: None,
            specifiers: vec![node(NodeKind::ExportSpecifier(ExportSpecifier {
                local: Box::new(ident("f")),
                exported: Box::new(ident("f")),
            }))],
            source: None,
        })),
    ]);
    let mut start_idx = 3;
    let exports_a = analyse(&mut a, &[], &mut start_idx).unwrap();
    assert_eq!(exports_a.entries.len(), 1);
    assert_eq!(exports_a.entries[0].0, "f");
    match &exports_a.entries[0].1 {
        VarValue::Target(v) => assert_eq!(*v, loc(0, 3)),
        _ => panic!("not a variable"),
    }

    // module B: import { f as g } from "A"; g();
    let mut b = program(vec![
        node(NodeKind::ImportDeclaration(ImportDeclaration {
            specifiers: vec![node(NodeKind::ImportSpecifier(ImportSpecifier {
                local: Box::new(ident("g")),
                imported: Box::new(ident("f")),
            }))],
            source: Box::new(text("A")),
        })),
        expr_stmt(call(ident("g"), vec![])),
    ]);
    let before = start_idx;
    let exports_b = analyse(&mut b, &[&exports_a], &mut start_idx).unwrap();
    assert_eq!(exports_b.entries.len(), 0);
    // an import declares no global of its own
    assert_eq!(start_idx, before);
    match &b.body[1].kind {
        NodeKind::ExpressionStatement(stmt) => match &stmt.expression.kind {
            NodeKind::CallExpression(c) => {
                assert_eq!(prevar_of(&c.callee), Some(PreVar::Target(loc(0, 3))));
            }
            _ => panic!("not a call"),
        },
        _ => panic!("not an expression statement"),
    }
    match &b.body[0].kind {
        NodeKind::ImportDeclaration(decl) => match &decl.specifiers[0].kind {
            NodeKind::ImportSpecifier(spec) => {
                assert_eq!(prevar_of(&spec.local), Some(PreVar::Target(loc(0, 3))));
            }
            _ => panic!("not an import specifier"),
        },
        _ => panic!("not an import"),
    }
}

#[test]
fn import_of_a_name_that_is_not_exported_is_refused() {
    let exports = ProgramPreExports { entries: Vec::new() };
    let mut b = program(vec![node(NodeKind::ImportDeclaration(ImportDeclaration {
        specifiers: vec![node(NodeKind::ImportSpecifier(ImportSpecifier {
            local: Box::new(ident("g")),
            imported: Box::new(ident("f")),
        }))],
        source: Box::new(text("A")),
    }))]);
    let mut start_idx = 0;
    match analyse(&mut b, &[&exports], &mut start_idx) {
        Err(ParseProgramError::UndeclaredExportError(name)) => assert_eq!(name, "f"),
        other => panic!("unexpected: {:?}", other.map(|_| ())),
    }
}

#[test]
fn direct_function_without_constraint_takes_any() {
    // __attributes = "direct"; function g(a, b) { return a + b; }
    // __attributes = "direct"; function g(a) { return a; }
    let mut p = program(vec![
        attributes("direct"),
        func_decl("g", vec![ident("a"), ident("b")], vec![ret(binary(ident("a"), ident("b")))]),
        attributes("direct"),
        func_decl("g", vec![ident("a")], vec![ret(ident("a"))]),
    ]);
    let mut start_idx = 0;
    analyse(&mut p, &[], &mut start_idx).unwrap();
    assert_eq!(
        p.direct_funcs,
        vec![
            ("g".to_string(), vec![VarType::Any, VarType::Any]),
            ("g".to_string(), vec![VarType::Any]),
        ]
    );
    assert_eq!(prevar_of(&function_of(&p.body[1]).id), Some(PreVar::Direct));
    assert_eq!(prevar_of(&function_of(&p.body[3]).id), Some(PreVar::Direct));
}

#[test]
fn direct_function_with_constraint_takes_the_given_types() {
    let mut p = program(vec![
        attributes("direct; constraint = b: number, a : string"),
        func_decl("g", vec![ident("a"), ident("b"), ident("c")], vec![ret(ident("c"))]),
    ]);
    let mut start_idx = 0;
    analyse(&mut p, &[], &mut start_idx).unwrap();
    assert_eq!(
        p.direct_funcs,
        vec![("g".to_string(), vec![VarType::String, VarType::Number, VarType::Any])]
    );
}

#[test]
fn direct_function_with_the_signature_of_another_is_a_duplicate() {
    let mut p = program(vec![
        attributes("direct"),
        func_decl("g", vec![ident("a")], vec![ret(ident("a"))]),
        attributes("direct"),
        func_decl("g", vec![ident("b")], vec![ret(ident("b"))]),
    ]);
    let mut start_idx = 0;
    match analyse(&mut p, &[], &mut start_idx) {
        Err(ParseProgramError::DuplicateDeclarationError(name)) => assert_eq!(name, "g"),
        other => panic!("unexpected: {:?}", other.map(|_| ())),
    }
}

#[test]
fn direct_function_cannot_share_its_name_with_a_variable() {
    let mut p = program(vec![
        var_decl("g", number(1)),
        attributes("direct"),
        func_decl("g", vec![ident("a")], vec![ret(ident("a"))]),
    ]);
    let mut start_idx = 0;
    match analyse(&mut p, &[], &mut start_idx) {
        Err(ParseProgramError::DuplicateDeclarationError(name)) => assert_eq!(name, "g"),
        other => panic!("unexpected: {:?}", other.map(|_| ())),
    }
}

#[test]
fn direct_function_that_captures_is_refused() {
    // function outer(x) { __attributes = "direct"; function g() { return x; } return 1; }
    let mut p = program(vec![func_decl(
        "outer",
        vec![ident("x")],
        vec![attributes("direct"), func_decl("g", vec![], vec![ret(ident("x"))]), ret(number(1))],
    )]);
    let mut name_ctx = NameCtx::new();
    let mut start_idx = 0;
    let err = pre_parse_program(&mut p, &None, &mut name_ctx, &[], &mut start_idx, None).unwrap_err();
    assert!(matches!(err.message, ParseProgramError::DirectFunctionCaptureError));
    // the error points to the function
    assert_eq!(err.location.start, Position { line: 7, column: 0 });
    assert_eq!(err.location.file, None);
}

#[test]
fn direct_function_may_use_globals() {
    let mut p = program(vec![
        var_decl("x", number(1)),
        attributes("direct"),
        func_decl("g", vec![], vec![ret(ident("x"))]),
    ]);
    let mut start_idx = 0;
    analyse(&mut p, &[], &mut start_idx).unwrap();
}

#[test]
fn attribute_without_a_statement_is_dangling() {
    let mut p = program(vec![var_decl("x", number(1)), attributes("direct")]);
    let mut start_idx = 0;
    let mut name_ctx = NameCtx::new();
    let err = pre_parse_program(&mut p, &None, &mut name_ctx, &[], &mut start_idx, None).unwrap_err();
    assert!(matches!(err.message, ParseProgramError::DanglingAttributeError));
    assert_eq!(err.location.start.line, 3);
}

#[test]
fn two_attribute_statements_in_a_row_are_dangling() {
    let mut p = program(vec![
        attributes("direct"),
        attributes("constraint=a:number"),
        func_decl("g", vec![ident("a")], vec![ret(ident("a"))]),
    ]);
    let mut start_idx = 0;
    assert!(matches!(
        analyse(&mut p, &[], &mut start_idx),
        Err(ParseProgramError::DanglingAttributeError)
    ));
}

#[test]
fn attribute_must_be_a_well_formed_string() {
    let mut p = program(vec![attributes("direct;;"), func_decl("g", vec![], vec![ret(number(1))])]);
    let mut start_idx = 0;
    assert!(matches!(
        analyse(&mut p, &[], &mut start_idx),
        Err(ParseProgramError::AttributeParseError)
    ));
    let mut q = program(vec![
        Node { loc: None, kind: assign("__attributes", "=", number(1)).kind },
        func_decl("g", vec![], vec![ret(number(1))]),
    ]);
    assert!(matches!(
        analyse(&mut q, &[], &mut start_idx),
        Err(ParseProgramError::AttributeNotStringLiteralError)
    ));
}

#[test]
fn unknown_attribute_is_refused() {
    let mut p = program(vec![attributes("inline"), func_decl("g", vec![], vec![ret(number(1))])]);
    let mut start_idx = 0;
    match analyse(&mut p, &[], &mut start_idx) {
        Err(ParseProgramError::AttributeUnrecognizedError(key)) => assert_eq!(key, "inline"),
        other => panic!("unexpected: {:?}", other.map(|_| ())),
    }
}

#[test]
fn direct_is_for_functions_only() {
    let mut p = program(vec![attributes("direct"), var_decl("x", number(1))]);
    let mut start_idx = 0;
    assert!(matches!(
        analyse(&mut p, &[], &mut start_idx),
        Err(ParseProgramError::AttributeContentError(_))
    ));
    let mut q = program(vec![attributes("direct=yes"), func_decl("g", vec![], vec![ret(number(1))])]);
    assert!(matches!(
        analyse(&mut q, &[], &mut start_idx),
        Err(ParseProgramError::AttributeContentError(_))
    ));
    let mut r =
        program(vec![attributes("constraint=a:number"), func_decl("g", vec![ident("a")], vec![ret(number(1))])]);
    assert!(matches!(
        analyse(&mut r, &[], &mut start_idx),
        Err(ParseProgramError::AttributeContentError(_))
    ));
}

#[test]
fn constraint_on_an_unknown_parameter_is_refused() {
    let mut p = program(vec![
        attributes("direct;constraint=z:number"),
        func_decl("g", vec![ident("a")], vec![ret(ident("a"))]),
    ]);
    let mut start_idx = 0;
    assert!(matches!(
        analyse(&mut p, &[], &mut start_idx),
        Err(ParseProgramError::AttributeContentError(_))
    ));
}

#[test]
fn name_declared_twice_in_one_scope_is_refused() {
    let mut p = program(vec![var_decl("x", number(1)), var_decl("x", number(2))]);
    let mut start_idx = 0;
    match analyse(&mut p, &[], &mut start_idx) {
        Err(ParseProgramError::DuplicateDeclarationError(name)) => assert_eq!(name, "x"),
        other => panic!("unexpected: {:?}", other.map(|_| ())),
    }
}

#[test]
fn parameter_and_variable_of_the_body_do_not_collide() {
    // function f(x) { let x = 1; return x; }
    let mut p = program(vec![func_decl(
        "f",
        vec![ident("x")],
        vec![var_decl("x", number(1)), ret(ident("x"))],
    )]);
    let mut start_idx = 0;
    analyse(&mut p, &[], &mut start_idx).unwrap();
    let f = function_of(&p.body[0]);
    match &body_of(&f.function)[1].kind {
        NodeKind::ReturnStatement(stmt) => {
            // the variable of the body hides the parameter
            assert_eq!(prevar_of(stmt.argument.as_ref().unwrap()), Some(PreVar::Target(loc(1, 1))));
        }
        _ => panic!("not a return statement"),
    }
}

#[test]
fn undeclared_name_is_refused() {
    let mut p = program(vec![expr_stmt(ident("nowhere"))]);
    let mut start_idx = 0;
    match analyse(&mut p, &[], &mut start_idx) {
        Err(ParseProgramError::UndeclaredNameError(name)) => assert_eq!(name, "nowhere"),
        other => panic!("unexpected: {:?}", other.map(|_| ())),
    }
}

#[test]
fn names_in_scope_everywhere_can_be_used_and_hidden() {
    let mut name_ctx = NameCtx::new();
    name_ctx.insert("display".to_string(), PreVar::Direct);
    name_ctx.insert("pi".to_string(), PreVar::Target(loc(0, 0)));
    let mut p = program(vec![var_decl("pi", number(3)), expr_stmt(call(ident("display"), vec![ident("pi")]))]);
    let mut start_idx = 1;
    pre_parse_program(&mut p, &None, &mut name_ctx, &[], &mut start_idx, None).unwrap();
    assert_eq!(name_ctx.entries.len(), 2);
    match &p.body[1].kind {
        NodeKind::ExpressionStatement(stmt) => match &stmt.expression.kind {
            NodeKind::CallExpression(c) => {
                assert_eq!(prevar_of(&c.callee), Some(PreVar::Direct));
                assert_eq!(prevar_of(&c.arguments[0]), Some(PreVar::Target(loc(0, 1))));
            }
            _ => panic!("not a call"),
        },
        _ => panic!("not an expression statement"),
    }
}

#[test]
fn constructs_outside_the_subset_are_refused() {
    let mut start_idx = 0;
    let cases: Vec<Node> = vec![
        expr_stmt(node(NodeKind::Literal(Literal { value: LiteralValue::Null }))),
        expr_stmt(node(NodeKind::Literal(Literal { value: LiteralValue::RegExp }))),
        expr_stmt(node(NodeKind::FunctionExpression)),
        expr_stmt(node(NodeKind::UpdateExpression)),
        assign("x", "+=", number(1)),
        expr_stmt(binary(number(1), assign_expr("x", "=", number(1)))),
        node(NodeKind::ReturnStatement(ReturnStatement { argument: None })),
        node(NodeKind::IfStatement(IfStatement {
            test: Box::new(number(1)),
            consequent: Box::new(block(vec![])),
            alternate: None,
        })),
        node(NodeKind::IfStatement(IfStatement {
            test: Box::new(number(1)),
            consequent: Box::new(expr_stmt(number(1))),
            alternate: Some(Box::new(block(vec![]))),
        })),
        node(NodeKind::VariableDeclaration(VariableDeclaration {
            declarations: vec![node(NodeKind::VariableDeclarator(VariableDeclarator {
                id: Box::new(ident("y")),
                init: None,
            }))],
            kind: "let".to_string(),
        })),
        var_decl("y", node(NodeKind::ArrayExpression(ArrayExpression { elements: vec![] }))),
        expr_stmt(node(NodeKind::ArrayExpression(ArrayExpression { elements: vec![number(1)] }))),
    ];
    for case in cases {
        let mut p = program(vec![var_decl("x", number(0)), case]);
        assert!(matches!(
            analyse(&mut p, &[], &mut start_idx),
            Err(ParseProgramError::SourceRestrictionError(_))
        ));
    }
}

#[test]
fn statements_that_are_not_allowed_are_refused() {
    let mut start_idx = 0;
    for kind in [
        NodeKind::DebuggerStatement,
        NodeKind::WithStatement,
        NodeKind::LabeledStatement,
        NodeKind::BreakStatement,
        NodeKind::ContinueStatement,
        NodeKind::WhileStatement,
        NodeKind::EmptyStatement,
    ] {
        let mut p = program(vec![node(kind)]);
        assert!(matches!(analyse(&mut p, &[], &mut start_idx), Err(ParseProgramError::ESTreeError(_))));
    }
    // an empty statement inside a function
    let mut p = program(vec![func_decl("f", vec![], vec![node(NodeKind::EmptyStatement), ret(number(1))])]);
    assert!(matches!(analyse(&mut p, &[], &mut start_idx), Err(ParseProgramError::ESTreeError(_))));
    // an import inside a function
    let mut p = program(vec![func_decl(
        "f",
        vec![],
        vec![node(NodeKind::ImportDeclaration(ImportDeclaration {
            specifiers: vec![],
            source: Box::new(text("A")),
        }))],
    )]);
    assert!(matches!(analyse(&mut p, &[], &mut start_idx), Err(ParseProgramError::ESTreeError(_))));
}

#[test]
fn array_initializer_is_accepted() {
    // function f(a) { let xs = [a, 1]; return xs; }
    let mut p = program(vec![func_decl(
        "f",
        vec![ident("a")],
        vec![
            var_decl(
                "xs",
                node(NodeKind::ArrayExpression(ArrayExpression { elements: vec![ident("a"), number(1)] })),
            ),
            ret(ident("xs")),
        ],
    )]);
    let mut start_idx = 0;
    analyse(&mut p, &[], &mut start_idx).unwrap();
}

#[test]
fn export_of_an_undeclared_name_is_refused() {
    let mut p = program(vec![node(NodeKind::ExportNamedDeclaration(ExportNamedDeclaration {
        declaration: None,
        specifiers: vec![node(NodeKind::ExportSpecifier(ExportSpecifier {
            local: Box::new(ident("f")),
            exported: Box::new(ident("f")),
        }))],
        source: None,
    }))]);
    let mut start_idx = 0;
    match analyse(&mut p, &[], &mut start_idx) {
        Err(ParseProgramError::UndeclaredNameError(name)) => assert_eq!(name, "f"),
        other => panic!("unexpected: {:?}", other.map(|_| ())),
    }
}

#[test]
fn export_of_one_name_twice_is_refused() {
    let spec = |local: &str| {
        node(NodeKind::ExportSpecifier(ExportSpecifier {
            local: Box::new(ident(local)),
            exported: Box::new(ident("out")),
        }))
    };
    let mut p = program(vec![
        var_decl("a", number(1)),
        var_decl("b", number(2)),
        node(NodeKind::ExportNamedDeclaration(ExportNamedDeclaration {
            declaration: None,
            specifiers: vec![spec("a"), spec("b")],
            source: None,
        })),
    ]);
    let mut start_idx = 0;
    match analyse(&mut p, &[], &mut start_idx) {
        Err(ParseProgramError::DuplicateExportError(name)) => assert_eq!(name, "out"),
        other => panic!("unexpected: {:?}", other.map(|_| ())),
    }
}

#[test]
fn assignment_modifies_the_variable() {
    // function f(a) { a = 1; return () => a; }
    let mut p = program(vec![func_decl(
        "f",
        vec![ident("a")],
        vec![assign("a", "=", number(1)), ret(arrow(vec![], ident("a")))],
    )]);
    let mut start_idx = 0;
    analyse(&mut p, &[], &mut start_idx).unwrap();
    let f = function_of(&p.body[0]);
    assert_eq!(f.function.address_taken_vars, vec![0]);
    match &body_of(&f.function)[0].kind {
        NodeKind::ExpressionStatement(stmt) => match &stmt.expression.kind {
            NodeKind::AssignmentExpression(a) => {
                assert_eq!(prevar_of(&a.left), Some(PreVar::Target(loc(1, 0))));
            }
            _ => panic!("not an assignment"),
        },
        _ => panic!("not an expression statement"),
    }
}

#[test]
fn if_statement_joins_both_branches() {
    // function f(a, b) { if (a) { return () => a; } else { return () => b; } }
    let mut p = program(vec![func_decl(
        "f",
        vec![ident("a"), ident("b")],
        vec![node(NodeKind::IfStatement(IfStatement {
            test: Box::new(ident("a")),
            consequent: Box::new(block(vec![ret(arrow(vec![], ident("a")))])),
            alternate: Some(Box::new(block(vec![ret(arrow(vec![], ident("b")))]))),
        }))],
    )]);
    let mut start_idx = 0;
    analyse(&mut p, &[], &mut start_idx).unwrap();
    let f = function_of(&p.body[0]);
    assert_eq!(f.function.address_taken_vars, vec![0, 1]);
}

#[test]
fn name_that_is_declared_already_leaves_the_scope_as_it_was() {
    let mut scope = ProgramPreExports::new();
    let mut next = 4;
    let x = ident("x");
    let (name, at) = try_coalesce_id_target(&mut scope, &x, 2, &mut next, None).unwrap();
    assert_eq!((name, at), ("x", loc(2, 4)));
    assert_eq!(next, 5);
    assert_eq!(scope.len(), 1);
    // a second variable of the name
    let err = try_coalesce_id_target(&mut scope, &x, 2, &mut next, Some("m.js")).unwrap_err();
    assert!(matches!(err.message, ParseProgramError::DuplicateDeclarationError(n) if n == "x"));
    assert_eq!(next, 5);
    assert_eq!(scope.len(), 1);
    assert!(matches!(scope.get("x"), Some(VarValue::Target(l)) if *l == loc(2, 4)));
    // a direct function of the name
    let err = try_coalesce_id_direct(&mut scope, &vec![], &x, None, 2, &mut next, None).unwrap_err();
    assert!(matches!(err.message, ParseProgramError::DuplicateDeclarationError(n) if n == "x"));
    assert_eq!(next, 5);
    assert!(matches!(scope.get("x"), Some(VarValue::Target(l)) if *l == loc(2, 4)));
    // what is no identifier
    let err = try_coalesce_id_target(&mut scope, &number(1), 2, &mut next, None).unwrap_err();
    assert!(matches!(err.message, ParseProgramError::ESTreeError(_)));
    assert_eq!((next, scope.len()), (5, 1));
}

#[test]
fn scope_without_a_free_index_takes_no_new_name() {
    let mut scope = ProgramPreExports::new();
    let mut next = usize::MAX - 1;
    let g = ident("g");
    assert_eq!(try_coalesce_id_direct(&mut scope, &vec![], &g, None, 0, &mut next, None).unwrap(), Some("g"));
    assert_eq!(next, usize::MAX);
    // one more signature of the same function takes no index
    let params = vec![ident("a")];
    assert_eq!(try_coalesce_id_direct(&mut scope, &params, &g, None, 0, &mut next, None).unwrap(), None);
    assert_eq!(next, usize::MAX);
    // a new name would take one, and there is none: nothing changes
    let h = ident("h");
    let err = try_coalesce_id_direct(&mut scope, &vec![], &h, None, 0, &mut next, None).unwrap_err();
    assert!(matches!(err.message, ParseProgramError::ESTreeError(_)));
    assert_eq!(scope.len(), 1);
    assert!(scope.get("h").is_none());
    let err = try_coalesce_id_target(&mut scope, &h, 0, &mut next, None).unwrap_err();
    assert!(matches!(err.message, ParseProgramError::ESTreeError(_)));
    assert_eq!((next, scope.len()), (usize::MAX, 1));
}

#[test]
fn statement_that_fails_adds_no_direct_function() {
    let mut name_ctx = NameCtx::new();
    name_ctx.insert("x".to_string(), PreVar::Target(loc(1, 0)));
    let mut direct_funcs = vec![("old".to_string(), vec![VarType::Any])];
    let before = direct_funcs.clone();
    // a direct function that uses a variable of the function around it
    let mut g = func_decl("g", vec![], vec![ret(ident("x"))]);
    let attrs = parse_attributes("direct").unwrap();
    let err = pre_parse_statement(&mut g, attrs, &mut name_ctx, &mut direct_funcs, 1, None).unwrap_err();
    assert!(matches!(err.message, ParseProgramError::DirectFunctionCaptureError));
    assert_eq!(direct_funcs, before);
    // attributes that no statement can have
    let mut g = func_decl("g", vec![], vec![ret(number(1))]);
    let attrs = parse_attributes("direct;inline").unwrap();
    let err = pre_parse_statement(&mut g, attrs, &mut name_ctx, &mut direct_funcs, 1, None).unwrap_err();
    assert!(matches!(err.message, ParseProgramError::AttributeUnrecognizedError(k) if k == "inline"));
    assert_eq!(direct_funcs, before);
    // `direct` on what is no function
    let mut r = ret(number(1));
    let attrs = parse_attributes("direct").unwrap();
    let err = pre_parse_statement(&mut r, attrs, &mut name_ctx, &mut direct_funcs, 1, None).unwrap_err();
    assert!(matches!(err.message, ParseProgramError::AttributeContentError(_)));
    assert_eq!(direct_funcs, before);
    // and the function that can be direct is added
    let mut g = func_decl("g", vec![ident("a")], vec![ret(ident("a"))]);
    let attrs = parse_attributes("direct").unwrap();
    pre_parse_statement(&mut g, attrs, &mut name_ctx, &mut direct_funcs, 1, None).unwrap();
    assert_eq!(direct_funcs.len(), 2);
    assert_eq!(direct_funcs[1], ("g".to_string(), vec![VarType::Any]));
    assert_eq!(name_ctx.entries.len(), 1);
}
