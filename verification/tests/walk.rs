use jawk_typing::ast::{BinOp, Expr, Function, LogicalOp, MathOp, Program, Stmt, TypedExpr};
use jawk_typing::error::{ConflictKind, PrintableError};
use jawk_typing::lattice::ScalarType;
use jawk_typing::typing::{analyze, TypeAnalysis};

// ---------------------------------------------------------------------------
// Building trees. Every annotation starts out as `Variable`.
// ---------------------------------------------------------------------------

fn untyped(expr: Expr) -> TypedExpr {
    TypedExpr { typ: ScalarType::Variable, expr }
}

fn num(value: f64) -> TypedExpr {
    untyped(Expr::NumberF64(value.to_bits()))
}

fn text(value: &str) -> TypedExpr {
    untyped(Expr::String(value.to_string()))
}

fn regex(value: &str) -> TypedExpr {
    untyped(Expr::Regex(value.to_string()))
}

fn var(name: &str) -> TypedExpr {
    untyped(Expr::Variable(name.to_string()))
}

fn assign(name: &str, value: TypedExpr) -> TypedExpr {
    untyped(Expr::ScalarAssign(name.to_string(), Box::new(value)))
}

fn col(index: TypedExpr) -> TypedExpr {
    untyped(Expr::Column(Box::new(index)))
}

fn concat(parts: Vec<TypedExpr>) -> TypedExpr {
    untyped(Expr::Concatenation(parts))
}

fn ternary(cond: TypedExpr, first: TypedExpr, second: TypedExpr) -> TypedExpr {
    untyped(Expr::Ternary(Box::new(cond), Box::new(first), Box::new(second)))
}

fn call() -> TypedExpr {
    untyped(Expr::Call)
}

fn array_index(name: &str, indices: Vec<TypedExpr>) -> TypedExpr {
    untyped(Expr::ArrayIndex { name: name.to_string(), indices })
}

fn in_array(name: &str, indices: Vec<TypedExpr>) -> TypedExpr {
    untyped(Expr::InArray { name: name.to_string(), indices })
}

fn array_assign(name: &str, indices: Vec<TypedExpr>, value: TypedExpr) -> TypedExpr {
    untyped(Expr::ArrayAssign { name: name.to_string(), indices, value: Box::new(value) })
}

fn print(e: TypedExpr) -> Stmt {
    Stmt::Print(e)
}

fn expr(e: TypedExpr) -> Stmt {
    Stmt::Expr(e)
}

fn group(body: Vec<Stmt>) -> Stmt {
    Stmt::Group(body)
}

fn if_then(test: TypedExpr, then: Stmt) -> Stmt {
    Stmt::If(test, Box::new(then), None)
}

fn if_else(test: TypedExpr, then: Stmt, otherwise: Stmt) -> Stmt {
    Stmt::If(test, Box::new(then), Some(Box::new(otherwise)))
}

fn while_loop(test: TypedExpr, body: Stmt) -> Stmt {
    Stmt::While(test, Box::new(body))
}

fn program(body: Stmt) -> Program {
    Program { main: Function { name: "main function".to_string(), body } }
}

/// A program whose action block runs once for every line of input,
/// followed by what runs at the end.
fn per_line(action: Stmt, end: Stmt) -> Program {
    program(group(vec![while_loop(call(), action), end]))
}

// ---------------------------------------------------------------------------
// Printing trees, with each annotation as `f`, `s` or `v` before its node.
// ---------------------------------------------------------------------------

fn render_list(list: &[TypedExpr], separator: &str) -> String {
    let parts: Vec<String> = list.iter().map(render_typed).collect();
    parts.join(separator)
}

fn render_expr(e: &Expr) -> String {
    match e {
        Expr::ScalarAssign(name, value) => format!("{} = {}", name, render_typed(value)),
        Expr::NumberF64(bits) => format!("{}", f64::from_bits(*bits)),
        Expr::String(value) => format!("\"{}\"", value),
        Expr::Regex(value) => format!("\"{}\"", value),
        Expr::Concatenation(parts) => render_list(parts, " "),
        Expr::BinOp(left, op, right) => {
            format!("{} {:?} {}", render_typed(left), op, render_typed(right))
        }
        Expr::MathOp(left, op, right) => {
            format!("{} {:?} {}", render_typed(left), op, render_typed(right))
        }
        Expr::LogicalOp(left, op, right) => {
            format!("{} {:?} {}", render_typed(left), op, render_typed(right))
        }
        Expr::Variable(name) => name.clone(),
        Expr::Column(index) => format!("${}", render_typed(index)),
        Expr::Call => "check_if_there_is_another_line".to_string(),
        Expr::Ternary(cond, first, second) => format!(
            "{} ? {} : {}",
            render_typed(cond),
            render_typed(first),
            render_typed(second)
        ),
        Expr::ArrayIndex { name, indices } => format!("{}[{}]", name, render_list(indices, ",")),
        Expr::InArray { name, indices } => format!("({}) in {}", render_list(indices, ","), name),
        Expr::ArrayAssign { name, indices, value } => {
            format!("{}[{}] = {}", name, render_list(indices, ","), render_typed(value))
        }
    }
}

fn render_typed(e: &TypedExpr) -> String {
    let tag = match e.typ {
        ScalarType::Float => "f",
        ScalarType::String => "s",
        ScalarType::Variable => "v",
    };
    format!("({} {})", tag, render_expr(&e.expr))
}

fn render_stmt(s: &Stmt) -> String {
    match s {
        Stmt::Expr(e) => format!("{}\n", render_typed(e)),
        Stmt::Print(e) => format!("print {}\n", render_typed(e)),
        Stmt::Group(body) => body.iter().map(render_stmt).collect::<Vec<String>>().join(""),
        Stmt::If(test, then, otherwise) => {
            let mut out = format!("if {} {{{}}}", render_typed(test), render_stmt(then));
            if let Some(branch) = otherwise {
                out.push_str(&format!(" else {{ {} }}", render_stmt(branch)));
            }
            out.push('\n');
            out
        }
        Stmt::While(test, body) => {
            format!("while {} {{{}}}\n", render_typed(test), render_stmt(body))
        }
        Stmt::Printf { args, fstring } => {
            format!("printf {} {}\n", render_typed(fstring), render_list(args, ","))
        }
        Stmt::Break => "break\n".to_string(),
    }
}

fn strip(data: &str) -> String {
    data.replace("\n", "").replace(" ", "").replace("\t", "").replace(";", "")
}

/// Analyses `ast`, the tree of the program text `program`, and compares the
/// annotated tree with `expected`, white space and semicolons aside.
fn test_it(program: &str, mut ast: Program, expected: &str) {
    analyze(&mut ast).unwrap();
    let result_clean = strip(&render_stmt(&ast.main.body));
    let expected_clean = strip(expected);
    if result_clean != expected_clean {
        println!("Program: \n{}", program);
        println!("Got: \n{}", render_stmt(&ast.main.body));
        println!("Expected: \n{}", expected);
    }
    assert_eq!(result_clean, expected_clean);
}

// ---------------------------------------------------------------------------
// Whole programs.
// ---------------------------------------------------------------------------

#[test]
fn test_typing_basic() {
    test_it("BEGIN { print \"a\" }", program(group(vec![print(text("a"))])), "print (s \"a\")");
}

#[test]
fn test_typing_basic2() {
    test_it("BEGIN { print 123 }", program(group(vec![print(num(123.0))])), "print (f 123)");
}

#[test]
fn test_if_basic() {
    test_it(
        "BEGIN { a = 1; print a; if($1) { print a } } ",
        program(group(vec![
            expr(assign("a", num(1.0))),
            print(var("a")),
            if_then(col(num(1.0)), group(vec![print(var("a"))])),
        ])),
        "(f a = (f 1)); print (f a); if (s $(f 1)) { print (f a) }",
    );
}

#[test]
fn test_if_polluting() {
    test_it(
        "BEGIN { a = 1; print a; if($1) { a = \"a\"; } print a; print a;    } ",
        program(group(vec![
            expr(assign("a", num(1.0))),
            print(var("a")),
            if_then(col(num(1.0)), group(vec![expr(assign("a", text("a")))])),
            print(var("a")),
            print(var("a")),
        ])),
        "(f a = (f 1)); print (f a); if (s $(f 1)) { (s a = (s \"a\")); } print (v a); print (v a)",
    );
}

#[test]
fn test_if_nonpolluting() {
    test_it(
        "BEGIN { a = 1; print a; if($1) { a = 5; } print a; } ",
        program(group(vec![
            expr(assign("a", num(1.0))),
            print(var("a")),
            if_then(col(num(1.0)), group(vec![expr(assign("a", num(5.0)))])),
            print(var("a")),
        ])),
        "(f a = (f 1)); print (f a); if (s $(f 1)) { (f a = (f 5)); } print (f a);",
    );
}

#[test]
fn test_ifelse_polluting() {
    test_it(
        "BEGIN { a = 1; print a; if($1) { a = 5; } else { a = \"a\" } print a; } ",
        program(group(vec![
            expr(assign("a", num(1.0))),
            print(var("a")),
            if_else(
                col(num(1.0)),
                group(vec![expr(assign("a", num(5.0)))]),
                group(vec![expr(assign("a", text("a")))]),
            ),
            print(var("a")),
        ])),
        "(f a = (f 1)); print (f a); if (s $(f 1)) { (f a = (f 5)); } else { (s a = (s \"a\")) } print (v a);",
    );
}

#[test]
fn test_ifelse_swapping() {
    test_it(
        "BEGIN { a = 1; print a; if($1) { a = \"a\"; } else { a = \"a\" } print a; } ",
        program(group(vec![
            expr(assign("a", num(1.0))),
            print(var("a")),
            if_else(
                col(num(1.0)),
                group(vec![expr(assign("a", text("a")))]),
                group(vec![expr(assign("a", text("a")))]),
            ),
            print(var("a")),
        ])),
        "(f a = (f 1)); print (f a); if (s $(f 1)) { (s a = (s \"a\")); } else { (s a = (s \"a\")) } print (s a);",
    );
}

#[test]
fn test_ifelse_swapping_2() {
    test_it(
        "BEGIN { a = \"a\"; print a; if($1) { a = 3; } else { a = 4 } print a; } ",
        program(group(vec![
            expr(assign("a", text("a"))),
            print(var("a")),
            if_else(
                col(num(1.0)),
                group(vec![expr(assign("a", num(3.0)))]),
                group(vec![expr(assign("a", num(4.0)))]),
            ),
            print(var("a")),
        ])),
        "(s a = (s \"a\")); print (s a); if (s $(f 1)) { (f a = ( f 3)); } else { (f a = (f 4)) } print (f a);",
    );
}

#[test]
fn test_if_else_polluting() {
    test_it(
        "BEGIN { a = 1; print a; if($1) { a = \"a\"; } else { a = \"a\" } print a; } ",
        program(group(vec![
            expr(assign("a", num(1.0))),
            print(var("a")),
            if_else(
                col(num(1.0)),
                group(vec![expr(assign("a", text("a")))]),
                group(vec![expr(assign("a", text("a")))]),
            ),
            print(var("a")),
        ])),
        "(f a = (f 1)); print (f a); if (s $(f 1)) { (s a = (s \"a\"); ) } else { (s a = (s \"a\")); } print (s a)",
    );
}

#[test]
fn test_concat_loop() {
    test_it(
        "{ a = a $1 } END { print a; }",
        per_line(
            group(vec![expr(assign("a", concat(vec![var("a"), col(num(1.0))])))]),
            group(vec![print(var("a"))]),
        ),
        "while (f check_if_there_is_another_line) { (s a = (s (s a) (s$(f 1)))) }; print (s a);",
    );
}

#[test]
fn test_while_loop() {
    test_it(
        "BEGIN { while(123) { a = \"bb\"}; print a;}",
        program(group(vec![
            while_loop(num(123.0), group(vec![expr(assign("a", text("bb")))])),
            print(var("a")),
        ])),
        "while (f 123) { (s a = (s \"bb\")) }; print (s a);",
    );
}

#[test]
fn test_assignment() {
    test_it(
        "BEGIN { x = 0; print x; }",
        program(group(vec![expr(assign("x", num(0.0))), print(var("x"))])),
        "(f x = (f 0 )); print (f x);",
    );
}

#[test]
fn test_assignment_col() {
    test_it(
        "{ x = $0; } END { print x; }",
        per_line(
            group(vec![expr(assign("x", col(num(0.0))))]),
            group(vec![print(var("x"))]),
        ),
        "while(fcheck_if_there_is_another_line){ (s x = (s$(f 0) ))}; print (s x);",
    );
}

#[test]
fn test_ternary() {
    test_it(
        "\
    BEGIN { x = \"a\"; x ? (x=1) : (x=2); print x; }",
        program(group(vec![
            expr(assign("x", text("a"))),
            expr(ternary(var("x"), assign("x", num(1.0)), assign("x", num(2.0)))),
            print(var("x")),
        ])),
        "(s x = (s \"a\")); \n(f (s x) ? (f x = (f 1)) : (f x = (f 2))); \nprint (f x)",
    );
}

#[test]
fn test_ternary_2() {
    test_it(
        "\
    BEGIN { x = \"a\"; x ? (x=1) : (x=\"a\"); print x; }",
        program(group(vec![
            expr(assign("x", text("a"))),
            expr(ternary(var("x"), assign("x", num(1.0)), assign("x", text("a")))),
            print(var("x")),
        ])),
        "(s x = (s \"a\")); \n(v (s x) ? (f x = (f 1)) : (s x = (s \"a\"))); \nprint (v x)",
    );
}

#[test]
fn test_ternary_3() {
    test_it(
        "\
    BEGIN { x ? (x=1) : (x=\"a\"); print x; }",
        program(group(vec![
            expr(ternary(var("x"), assign("x", num(1.0)), assign("x", text("a")))),
            print(var("x")),
        ])),
        "(v (s x) ? (f x = (f 1)) : (s x = (s \"a\"))); \nprint (v x)",
    );
}

#[test]
fn test_ternary_4() {
    test_it(
        "\
    BEGIN { x ? (x=1) : (x=4); print x; }",
        program(group(vec![
            expr(ternary(var("x"), assign("x", num(1.0)), assign("x", num(4.0)))),
            print(var("x")),
        ])),
        "(f (s x) ? (f x = (f 1)) : (f x = (f 4)));\nprint (f x)",
    );
}

/// The tree of `BEGIN { a = 0; a[0] = 1; }`.
fn scalar_then_array() -> Program {
    program(group(vec![
        expr(assign("a", num(0.0))),
        expr(array_assign("a", vec![num(0.0)], num(1.0))),
    ]))
}

/// The tree of `BEGIN { a[0] = 1; a = 0;  }`.
fn array_then_scalar() -> Program {
    program(group(vec![
        expr(array_assign("a", vec![num(0.0)], num(1.0))),
        expr(assign("a", num(0.0))),
    ]))
}

/// Analyses `ast`, the tree of the program text `program`.
fn analysis_of(program: &str, mut ast: Program) -> Result<(), PrintableError> {
    let res = analyze(&mut ast);
    if res.is_ok() {
        println!("No conflict found in: \n{}", program);
    }
    res
}

#[test]
fn test_fails() {
    let res = analysis_of("BEGIN { a = 0; a[0] = 1; }", scalar_then_array());
    assert!(res.is_err());
}

#[test]
fn test_fails_2() {
    let res = analysis_of("BEGIN { a[0] = 1; a = 0;  }", array_then_scalar());
    assert!(res.is_err());
}

#[test]
fn test_fails_3() {
    let ast = program(group(vec![
        if_then(var("x"), group(vec![expr(array_assign("a", vec![num(0.0)], num(1.0)))])),
        expr(assign("a", num(0.0))),
    ]));
    let res = analysis_of("BEGIN { if(x) { a[0] = 1; } a = 0;  }", ast);
    assert!(res.is_err());
}

// ---------------------------------------------------------------------------
// Conflicts: which one, naming which variable, with which message.
// ---------------------------------------------------------------------------

#[test]
fn scalar_then_array_names_the_variable() {
    let mut ast = scalar_then_array();
    let err = analyze(&mut ast).unwrap_err();
    assert_eq!(err.kind, ConflictKind::ScalarInArrayContext);
    assert_eq!(err.name, "a");
    assert_eq!(err.message(), "fatal: attempt to scalar `a` in an array context");
}

#[test]
fn array_then_scalar_names_the_variable() {
    let mut ast = array_then_scalar();
    let err = analyze(&mut ast).unwrap_err();
    assert_eq!(err.kind, ConflictKind::ArrayInScalarContext);
    assert_eq!(err.name, "a");
    assert_eq!(err.message(), "fatal: attempt to use array `a` in a scalar context");
}

#[test]
fn array_read_after_scalar_fails() {
    let mut ast = program(group(vec![
        expr(assign("total", num(0.0))),
        print(array_index("total", vec![text("k")])),
    ]));
    let err = analyze(&mut ast).unwrap_err();
    assert_eq!(err.kind, ConflictKind::ScalarInArrayContext);
    assert_eq!(err.name, "total");
}

#[test]
fn membership_test_after_scalar_fails() {
    let mut ast = program(group(vec![
        print(var("seen")),
        print(in_array("seen", vec![num(1.0)])),
    ]));
    let err = analyze(&mut ast).unwrap_err();
    assert_eq!(err.kind, ConflictKind::ScalarInArrayContext);
    assert_eq!(err.name, "seen");
}

#[test]
fn scalar_read_after_array_fails() {
    let mut ast = program(group(vec![
        print(array_index("arr", vec![num(1.0)])),
        print(var("arr")),
    ]));
    let err = analyze(&mut ast).unwrap_err();
    assert_eq!(err.kind, ConflictKind::ArrayInScalarContext);
    assert_eq!(err.name, "arr");
}

#[test]
fn array_name_used_as_operand_fails() {
    let mut ast = program(group(vec![
        expr(array_assign("arr", vec![num(1.0)], num(2.0))),
        print(untyped(Expr::MathOp(Box::new(num(1.0)), MathOp::Plus, Box::new(var("arr"))))),
    ]));
    let err = analyze(&mut ast).unwrap_err();
    assert_eq!(err.kind, ConflictKind::ArrayInScalarContext);
    assert_eq!(err.name, "arr");
}

#[test]
fn exclusivity_holds_across_many_statements() {
    let mut body = vec![expr(assign("a", num(0.0)))];
    for i in 0..50 {
        body.push(print(num(i as f64)));
        body.push(if_then(var("c"), group(vec![expr(assign("b", text("x")))])));
        body.push(while_loop(var("d"), group(vec![print(var("b")), Stmt::Break])));
    }
    body.push(expr(array_assign("a", vec![num(0.0)], num(1.0))));
    let err = analyze(&mut program(group(body))).unwrap_err();
    assert_eq!(err.kind, ConflictKind::ScalarInArrayContext);
    assert_eq!(err.name, "a");

    let mut body = vec![expr(array_assign("a", vec![num(0.0)], num(1.0)))];
    for i in 0..50 {
        body.push(print(num(i as f64)));
        body.push(if_then(var("c"), group(vec![expr(assign("b", text("x")))])));
    }
    body.push(expr(assign("a", num(0.0))));
    let err = analyze(&mut program(group(body))).unwrap_err();
    assert_eq!(err.kind, ConflictKind::ArrayInScalarContext);
    assert_eq!(err.name, "a");
}

#[test]
fn first_conflict_in_program_order_wins() {
    let mut ast = program(group(vec![
        expr(assign("a", num(0.0))),
        expr(array_assign("b", vec![num(0.0)], num(1.0))),
        print(var("b")),
        print(array_index("a", vec![num(0.0)])),
    ]));
    let err = analyze(&mut ast).unwrap_err();
    assert_eq!(err.kind, ConflictKind::ArrayInScalarContext);
    assert_eq!(err.name, "b");
}

#[test]
fn array_use_in_one_arm_is_not_reconciled_with_scalar_use_in_the_other() {
    // The array set is not forked: the second arm sees no scalar `a`, so it
    // may mark `a`; afterwards `a` is both bound and marked.
    let mut analysis = TypeAnalysis::new();
    let mut stmt = if_else(
        var("c"),
        group(vec![expr(assign("a", num(1.0)))]),
        group(vec![expr(array_assign("a", vec![num(0.0)], num(1.0)))]),
    );
    analysis.analyze_stmt(&mut stmt).unwrap();
    assert_eq!(analysis.scalar_type(&"a".to_string()), Some(ScalarType::Float));
    assert!(analysis.is_array(&"a".to_string()));
    // A read of such a name finds its scalar type; an assignment fails.
    let mut read = print(var("a"));
    analysis.analyze_stmt(&mut read).unwrap();
    assert_eq!(strip(&render_stmt(&read)), "print(fa)");
    let err = analysis.analyze_stmt(&mut expr(assign("a", num(2.0)))).unwrap_err();
    assert_eq!(err.kind, ConflictKind::ArrayInScalarContext);
}

#[test]
fn array_marked_in_first_arm_is_seen_by_second_arm() {
    let mut ast = program(if_else(
        var("c"),
        group(vec![expr(array_assign("a", vec![num(0.0)], num(1.0)))]),
        group(vec![expr(assign("a", num(1.0)))]),
    ));
    let err = analyze(&mut ast).unwrap_err();
    assert_eq!(err.kind, ConflictKind::ArrayInScalarContext);
    assert_eq!(err.name, "a");
}

#[test]
fn tree_keeps_its_shape_when_the_pass_fails() {
    let mut ast = scalar_then_array();
    assert!(analyze(&mut ast).is_err());
    assert_eq!(
        strip(&render_stmt(&ast.main.body)),
        strip("(f a = (f 0)) (v a[(v 0)] = (v 1))")
    );
}

// ---------------------------------------------------------------------------
// Single expression forms.
// ---------------------------------------------------------------------------

fn typed_alone(mut e: TypedExpr) -> String {
    let mut analysis = TypeAnalysis::new();
    analysis.analyze_expr(&mut e).unwrap();
    strip(&render_typed(&e))
}

#[test]
fn literals_have_their_own_type() {
    assert_eq!(typed_alone(num(2.5)), "(f2.5)");
    assert_eq!(typed_alone(text("x")), "(s\"x\")");
    assert_eq!(typed_alone(regex("^a")), "(s\"^a\")");
    assert_eq!(typed_alone(call()), "(fcheck_if_there_is_another_line)");
}

#[test]
fn operators_are_numeric_whatever_their_operands() {
    let e = untyped(Expr::BinOp(Box::new(text("a")), BinOp::Less, Box::new(text("b"))));
    assert_eq!(typed_alone(e), "(f(s\"a\")Less(s\"b\"))");
    let e = untyped(Expr::MathOp(Box::new(text("a")), MathOp::Star, Box::new(num(2.0))));
    assert_eq!(typed_alone(e), "(f(s\"a\")Star(f2))");
    let e = untyped(Expr::LogicalOp(Box::new(num(1.0)), LogicalOp::And, Box::new(text("b"))));
    assert_eq!(typed_alone(e), "(f(f1)And(s\"b\"))");
}

#[test]
fn operands_are_analysed_left_to_right() {
    // The left operand assigns, the right operand reads what was assigned.
    let e = untyped(Expr::MathOp(
        Box::new(assign("x", num(1.0))),
        MathOp::Plus,
        Box::new(var("x")),
    ));
    assert_eq!(typed_alone(e), "(f(fx=(f1))Plus(fx))");
    // The other way round the read comes first and finds nothing.
    let e = untyped(Expr::MathOp(
        Box::new(var("x")),
        MathOp::Plus,
        Box::new(assign("x", num(1.0))),
    ));
    assert_eq!(typed_alone(e), "(f(sx)Plus(fx=(f1)))");
}

#[test]
fn concatenation_and_field_access_are_strings() {
    assert_eq!(typed_alone(concat(vec![num(1.0), num(2.0)])), "(s(f1)(f2))");
    assert_eq!(typed_alone(concat(vec![])), "(s)");
    assert_eq!(typed_alone(col(var("n"))), "(s$(sn))");
}

#[test]
fn assignment_takes_the_type_of_its_value() {
    assert_eq!(typed_alone(assign("x", num(1.0))), "(fx=(f1))");
    assert_eq!(typed_alone(assign("x", text("t"))), "(sx=(s\"t\"))");
    assert_eq!(typed_alone(assign("x", assign("y", col(num(1.0))))), "(sx=(sy=(s$(f1))))");
}

#[test]
fn first_read_is_a_string_and_leaves_the_name_ambiguous() {
    let mut analysis = TypeAnalysis::new();
    let name = "a".to_string();
    assert_eq!(analysis.scalar_type(&name), None);
    let mut first = var("a");
    analysis.analyze_expr(&mut first).unwrap();
    assert_eq!(first.typ, ScalarType::String);
    assert_eq!(analysis.scalar_type(&name), Some(ScalarType::Variable));
    let mut second = var("a");
    analysis.analyze_expr(&mut second).unwrap();
    assert_eq!(second.typ, ScalarType::Variable);
}

#[test]
fn first_read_inside_a_conditional() {
    let mut ast = program(group(vec![
        if_then(col(num(1.0)), group(vec![print(var("a"))])),
        print(var("a")),
    ]));
    analyze(&mut ast).unwrap();
    assert_eq!(
        strip(&render_stmt(&ast.main.body)),
        strip("if (s $(f 1)) { print (s a) } print (v a)")
    );
}

#[test]
fn array_forms_keep_their_annotation_and_type_their_parts() {
    let mut read = array_index("a", vec![num(1.0), text("k")]);
    read.typ = ScalarType::Float;
    assert_eq!(typed_alone(read), "(fa[(f1),(s\"k\")])");
    assert_eq!(typed_alone(array_index("a", vec![var("i")])), "(va[(si)])");
    let mut test = in_array("a", vec![num(1.0)]);
    test.typ = ScalarType::String;
    assert_eq!(typed_alone(test), "(s((f1))ina)");
    assert_eq!(
        typed_alone(array_assign("a", vec![num(1.0)], text("t"))),
        "(va[(f1)]=(s\"t\"))"
    );
}

#[test]
fn array_name_is_marked_before_its_indices_are_analysed() {
    let mut analysis = TypeAnalysis::new();
    let mut e = array_index("a", vec![var("a")]);
    let err = analysis.analyze_expr(&mut e).unwrap_err();
    assert_eq!(err.kind, ConflictKind::ArrayInScalarContext);
    assert_eq!(err.name, "a");
}

#[test]
fn assignment_of_an_array_read_takes_the_annotation_that_the_read_had() {
    assert_eq!(typed_alone(assign("x", array_index("a", vec![num(0.0)]))), "(vx=(va[(f0)]))");
    let mut read = array_index("a", vec![num(0.0)]);
    read.typ = ScalarType::Float;
    assert_eq!(typed_alone(assign("x", read)), "(fx=(fa[(f0)]))");
}

#[test]
fn marking_an_array_twice_is_fine() {
    let mut analysis = TypeAnalysis::new();
    let name = "a".to_string();
    assert!(!analysis.is_array(&name));
    analysis.use_as_array(&name).unwrap();
    analysis.use_as_array(&name).unwrap();
    assert!(analysis.is_array(&name));
    assert!(!analysis.is_array(&"b".to_string()));
}

#[test]
fn binding_overwrites_the_earlier_type() {
    let mut analysis = TypeAnalysis::new();
    let name = "x".to_string();
    analysis.use_as_scalar(&name, ScalarType::Float).unwrap();
    assert_eq!(analysis.scalar_type(&name), Some(ScalarType::Float));
    analysis.use_as_scalar(&name, ScalarType::String).unwrap();
    assert_eq!(analysis.scalar_type(&name), Some(ScalarType::String));
    assert_eq!(analysis.scalar_type(&"y".to_string()), None);
}

#[test]
fn failed_use_leaves_the_state_as_it_was() {
    let mut analysis = TypeAnalysis::new();
    let x = "x".to_string();
    let a = "a".to_string();
    analysis.use_as_scalar(&x, ScalarType::Float).unwrap();
    analysis.use_as_array(&a).unwrap();
    assert!(analysis.use_as_array(&x).is_err());
    assert!(analysis.use_as_scalar(&a, ScalarType::String).is_err());
    assert_eq!(analysis.scalar_type(&x), Some(ScalarType::Float));
    assert_eq!(analysis.scalar_type(&a), None);
    assert!(analysis.is_array(&a));
    assert!(!analysis.is_array(&x));
}

// ---------------------------------------------------------------------------
// Statements.
// ---------------------------------------------------------------------------

fn typed_stmt(mut s: Stmt) -> String {
    let mut analysis = TypeAnalysis::new();
    analysis.analyze_stmt(&mut s).unwrap();
    strip(&render_stmt(&s))
}

#[test]
fn printf_types_its_format_and_its_arguments() {
    let s = Stmt::Printf { args: vec![num(1.0), var("x"), var("x")], fstring: text("%d %s") };
    assert_eq!(typed_stmt(s), strip("printf (s \"%d %s\") (f 1),(s x),(v x)"));
}

#[test]
fn printf_analyses_its_format_before_its_arguments() {
    // The format is the first read of `fmt`, the argument the second.
    let s = Stmt::Printf { args: vec![var("fmt")], fstring: var("fmt") };
    assert_eq!(typed_stmt(s), strip("printf (s fmt) (v fmt)"));
    // An assignment in the format is seen by the arguments.
    let s = Stmt::Printf { args: vec![var("n")], fstring: assign("n", num(1.0)) };
    assert_eq!(typed_stmt(s), strip("printf (f n = (f 1)) (f n)"));
}

#[test]
fn printf_fails_on_a_conflict_in_its_format() {
    let mut analysis = TypeAnalysis::new();
    analysis.use_as_array(&"fmt".to_string()).unwrap();
    let mut s = Stmt::Printf { args: vec![assign("x", num(1.0))], fstring: var("fmt") };
    let err = analysis.analyze_stmt(&mut s).unwrap_err();
    assert_eq!(err.kind, ConflictKind::ArrayInScalarContext);
    assert_eq!(err.name, "fmt");
    // The walk stopped before the arguments.
    assert_eq!(analysis.scalar_type(&"x".to_string()), None);
}

#[test]
fn break_and_empty_group_change_nothing() {
    assert_eq!(typed_stmt(Stmt::Break), "break");
    assert_eq!(typed_stmt(group(vec![])), "");
    let mut analysis = TypeAnalysis::new();
    analysis.analyze_stmt(&mut Stmt::Break).unwrap();
    assert_eq!(analysis.scalar_type(&"a".to_string()), None);
}

#[test]
fn test_expression_of_a_conditional_is_seen_by_both_arms() {
    let s = if_else(
        assign("x", num(1.0)),
        group(vec![print(var("x"))]),
        group(vec![print(var("x"))]),
    );
    assert_eq!(
        typed_stmt(s),
        strip("if (f x = (f 1)) { print (f x) } else { print (f x) }")
    );
}

#[test]
fn arms_of_a_conditional_do_not_see_each_other() {
    let s = group(vec![
        expr(assign("a", num(1.0))),
        if_else(
            var("c"),
            group(vec![expr(assign("a", text("x"))), print(var("a"))]),
            group(vec![print(var("a"))]),
        ),
    ]);
    assert_eq!(
        typed_stmt(s),
        strip("(f a = (f 1)) if (s c) { (s a = (s \"x\")) print (s a) } else { print (f a) }")
    );
}

#[test]
fn arms_of_a_ternary_do_not_see_each_other() {
    let s = group(vec![
        expr(assign("a", num(1.0))),
        expr(ternary(num(1.0), assign("a", text("x")), var("a"))),
        print(var("a")),
    ]);
    assert_eq!(
        typed_stmt(s),
        strip("(f a = (f 1)) (v (f 1) ? (s a = (s \"x\")) : (f a)) print (v a)")
    );
}

#[test]
fn name_bound_in_one_arm_only_keeps_its_type() {
    let s = group(vec![
        if_then(var("c"), group(vec![expr(assign("a", num(1.0)))])),
        print(var("a")),
    ]);
    assert_eq!(typed_stmt(s), strip("if (s c) { (f a = (f 1)) } print (f a)"));
    let s = group(vec![
        if_else(var("c"), group(vec![]), group(vec![expr(assign("a", text("t")))])),
        print(var("a")),
    ]);
    assert_eq!(typed_stmt(s), strip("if (s c) { } else { (s a = (s \"t\")) } print (s a)"));
}

#[test]
fn conditional_joins_what_each_arm_alone_gives() {
    let arms: Vec<(f64, &str)> = vec![(1.0, ""), (0.0, "x")];
    for (first_is_number, _) in &arms {
        for (second_is_number, _) in &arms {
            let value = |is_number: f64| if is_number == 1.0 { num(1.0) } else { text("x") };
            let a = "a".to_string();

            let mut alone_first = TypeAnalysis::new();
            alone_first.use_as_scalar(&a, ScalarType::String).unwrap();
            alone_first.analyze_stmt(&mut expr(assign("a", value(*first_is_number)))).unwrap();

            let mut alone_second = TypeAnalysis::new();
            alone_second.use_as_scalar(&a, ScalarType::String).unwrap();
            alone_second.analyze_stmt(&mut expr(assign("a", value(*second_is_number)))).unwrap();

            let mut both = TypeAnalysis::new();
            both.use_as_scalar(&a, ScalarType::String).unwrap();
            both.analyze_stmt(&mut if_else(
                num(1.0),
                expr(assign("a", value(*first_is_number))),
                expr(assign("a", value(*second_is_number))),
            ))
            .unwrap();

            let expected = jawk_typing::lattice::merge_types(
                &alone_first.scalar_type(&a).unwrap(),
                &alone_second.scalar_type(&a).unwrap(),
            );
            assert_eq!(both.scalar_type(&a), Some(expected));
        }
    }
}

#[test]
fn loop_body_is_walked_twice() {
    // On the first walk `a` is read before it is assigned and `b` becomes a
    // string; the second walk sees `a` as the first one left it, and the
    // last annotations are those of the second walk.
    let s = group(vec![
        while_loop(
            var("go"),
            group(vec![expr(assign("b", var("a"))), expr(assign("a", num(1.0)))]),
        ),
        print(var("a")),
        print(var("b")),
    ]);
    assert_eq!(
        typed_stmt(s),
        strip("while (v go) { (f b = (f a)) (f a = (f 1)) } print (f a) print (v b)")
    );
}

#[test]
fn loop_that_never_runs_is_accounted_for() {
    let s = group(vec![
        expr(assign("a", num(1.0))),
        while_loop(num(0.0), group(vec![expr(assign("a", text("x")))])),
        print(var("a")),
    ]);
    assert_eq!(
        typed_stmt(s),
        strip("(f a = (f 1)) while (f 0) { (s a = (s \"x\")) } print (v a)")
    );
}

#[test]
fn two_rounds_are_not_a_fixpoint() {
    // Types rotate through three variables: two rounds do not settle `c`.
    let s = group(vec![
        expr(assign("a", num(1.0))),
        expr(assign("b", num(1.0))),
        expr(assign("c", num(1.0))),
        while_loop(
            num(1.0),
            group(vec![
                expr(assign("c", var("b"))),
                expr(assign("b", var("a"))),
                expr(assign("a", text("x"))),
            ]),
        ),
        print(var("c")),
    ]);
    assert_eq!(
        typed_stmt(s),
        strip(
            "(f a = (f 1)) (f b = (f 1)) (f c = (f 1)) \
             while (f 1) { (f c = (f b)) (v b = (v a)) (s a = (s \"x\")) } print (f c)"
        )
    );
}

#[test]
fn analysing_a_tree_again_gives_the_same_annotations() {
    let build = || {
        program(group(vec![
            expr(assign("a", num(1.0))),
            if_then(col(num(1.0)), group(vec![expr(assign("a", text("a")))])),
            print(ternary(var("a"), var("b"), array_index("arr", vec![var("a")]))),
        ]))
    };
    let mut once = build();
    analyze(&mut once).unwrap();
    let mut twice = build();
    analyze(&mut twice).unwrap();
    analyze(&mut twice).unwrap();
    assert_eq!(once, twice);
}

#[test]
fn only_the_entry_block_is_analysed() {
    let mut ast = program(print(num(1.0)));
    analyze(&mut ast).unwrap();
    assert_eq!(ast.main.name, "main function");
    assert_eq!(ast.main.body, Stmt::Print(TypedExpr {
        typ: ScalarType::Float,
        expr: Expr::NumberF64(1.0f64.to_bits()),
    }));
}

#[test]
fn lists_are_analysed_in_order_from_a_running_state() {
    let mut analysis = TypeAnalysis::new();
    let mut exprs = vec![var("x"), assign("x", num(1.0)), var("x"), assign("y", var("x"))];
    analysis.analyze_exprs(&mut exprs).unwrap();
    assert_eq!(strip(&render_list(&exprs, ",")), "(sx),(fx=(f1)),(fx),(fy=(fx))");
    assert_eq!(analysis.scalar_type(&"y".to_string()), Some(ScalarType::Float));

    let mut stmts = vec![print(var("y")), expr(assign("y", text("t"))), print(var("y"))];
    analysis.analyze_stmts(&mut stmts).unwrap();
    assert_eq!(strip(&render_stmt(&group(stmts))), strip("print (f y) (s y = (s \"t\")) print (s y)"));

    let mut none: Vec<TypedExpr> = vec![];
    analysis.analyze_exprs(&mut none).unwrap();
    assert!(none.is_empty());
}

#[test]
fn list_stops_at_its_first_conflict() {
    let mut analysis = TypeAnalysis::new();
    let mut exprs = vec![
        assign("a", num(1.0)),
        array_index("a", vec![num(0.0)]),
        assign("b", num(1.0)),
    ];
    let err = analysis.analyze_exprs(&mut exprs).unwrap_err();
    assert_eq!(err.kind, ConflictKind::ScalarInArrayContext);
    assert_eq!(err.name, "a");
    assert_eq!(analysis.scalar_type(&"a".to_string()), Some(ScalarType::Float));
    assert_eq!(analysis.scalar_type(&"b".to_string()), None);
    assert_eq!(strip(&render_list(&exprs, ",")), "(fa=(f1)),(va[(v0)]),(vb=(v1))");
}

#[test]
fn a_run_can_go_on_over_several_programs() {
    let mut analysis = TypeAnalysis::new();
    let mut first = program(expr(assign("a", num(1.0))));
    analysis.analyze_program(&mut first).unwrap();
    let mut second = program(print(var("a")));
    analysis.analyze_program(&mut second).unwrap();
    assert_eq!(strip(&render_stmt(&second.main.body)), "print(fa)");
    // A fresh run knows nothing of `a`.
    let mut third = program(print(var("a")));
    analyze(&mut third).unwrap();
    assert_eq!(strip(&render_stmt(&third.main.body)), "print(sa)");
}

#[test]
fn failed_scalar_use_binds_nothing() {
    let a = "a".to_string();
    let mut analysis = TypeAnalysis::new();
    analysis.use_as_array(&a).unwrap();

    let err = analysis.analyze_expr(&mut var("a")).unwrap_err();
    assert_eq!(err.kind, ConflictKind::ArrayInScalarContext);
    assert_eq!(err.name, "a");
    assert_eq!(analysis.scalar_type(&a), None);
    assert!(analysis.is_array(&a));

    let err = analysis.analyze_expr(&mut assign("a", num(1.0))).unwrap_err();
    assert_eq!(err.kind, ConflictKind::ArrayInScalarContext);
    assert_eq!(err.name, "a");
    assert_eq!(analysis.scalar_type(&a), None);
}

#[test]
fn failed_array_use_marks_nothing() {
    let a = "a".to_string();
    let mut analysis = TypeAnalysis::new();
    analysis.use_as_scalar(&a, ScalarType::String).unwrap();
    for mut array_use in [
        array_index("a", vec![assign("i", num(1.0))]),
        in_array("a", vec![assign("i", num(1.0))]),
        array_assign("a", vec![assign("i", num(1.0))], assign("v", num(1.0))),
    ] {
        let err = analysis.analyze_expr(&mut array_use).unwrap_err();
        assert_eq!(err.kind, ConflictKind::ScalarInArrayContext);
        assert_eq!(err.name, "a");
        assert!(!analysis.is_array(&a));
        assert_eq!(analysis.scalar_type(&a), Some(ScalarType::String));
        // Neither the indices nor the value were reached.
        assert_eq!(analysis.scalar_type(&"i".to_string()), None);
        assert_eq!(analysis.scalar_type(&"v".to_string()), None);
    }
}

#[test]
fn group_stops_at_its_first_conflict() {
    let mut analysis = TypeAnalysis::new();
    let mut s = group(vec![
        expr(assign("x", num(1.0))),
        expr(array_assign("arr", vec![num(0.0)], num(1.0))),
        expr(assign("y", var("arr"))),
        expr(assign("z", num(1.0))),
        expr(array_index("x", vec![num(0.0)])),
    ]);
    let err = analysis.analyze_stmt(&mut s).unwrap_err();
    assert_eq!(err.kind, ConflictKind::ArrayInScalarContext);
    assert_eq!(err.name, "arr");
    // The state is the one that the statements before the conflict left.
    assert_eq!(analysis.scalar_type(&"x".to_string()), Some(ScalarType::Float));
    assert!(analysis.is_array(&"arr".to_string()));
    assert_eq!(analysis.scalar_type(&"arr".to_string()), None);
    assert_eq!(analysis.scalar_type(&"y".to_string()), None);
    assert_eq!(analysis.scalar_type(&"z".to_string()), None);
    assert!(!analysis.is_array(&"x".to_string()));
}

#[test]
fn conflict_in_the_second_arm_leaves_the_state_of_that_arm() {
    let mut analysis = TypeAnalysis::new();
    analysis.use_as_array(&"arr".to_string()).unwrap();
    let mut s = if_else(
        num(1.0),
        group(vec![expr(assign("only_then", num(1.0)))]),
        group(vec![expr(assign("only_else", num(1.0))), print(var("arr"))]),
    );
    let err = analysis.analyze_stmt(&mut s).unwrap_err();
    assert_eq!(err.name, "arr");
    assert_eq!(analysis.scalar_type(&"only_else".to_string()), Some(ScalarType::Float));
    assert_eq!(analysis.scalar_type(&"only_then".to_string()), None);
}

#[test]
fn swapping_the_arms_of_a_conditional_gives_the_same_types() {
    let arms = || {
        (
            group(vec![expr(assign("a", num(1.0))), expr(assign("b", text("t")))]),
            group(vec![expr(assign("a", text("u"))), expr(assign("c", var("b")))]),
        )
    };
    let mut one_way = TypeAnalysis::new();
    let (first, second) = arms();
    one_way.analyze_stmt(&mut if_else(var("t"), first, second)).unwrap();
    let mut other_way = TypeAnalysis::new();
    let (first, second) = arms();
    other_way.analyze_stmt(&mut if_else(var("t"), second, first)).unwrap();
    for name in ["a", "b", "c", "t", "none"] {
        let name = name.to_string();
        assert_eq!(one_way.scalar_type(&name), other_way.scalar_type(&name));
    }
    assert_eq!(one_way.scalar_type(&"a".to_string()), Some(ScalarType::Variable));
    // One arm assigns a string to `b`, the other reads it before any write.
    assert_eq!(one_way.scalar_type(&"b".to_string()), Some(ScalarType::Variable));
    assert_eq!(one_way.scalar_type(&"c".to_string()), Some(ScalarType::String));
}
