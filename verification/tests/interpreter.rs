use moon::error::RuntimeErrorKind;
use moon::expressions::{Expr, Literal, Operation, Super};
use moon::list::List;
use moon::machine::Frame;
use moon::statements::Function;
use moon::value::Callable;
use moon::interpreter::{Interpreter, Printed};
use moon::machine::{Action, Control, Event};
use moon::moon::Moon;
use moon::moonenv::Environment;
use moon::parser::Parser;
use moon::scanner::Scanner;
use moon::table::Table;
use moon::token::{Token, TokenType};
use moon::value::{Class, Value};
use std::rc::Rc;

fn to_bits(lexeme: &String) -> u64 {
    lexeme.parse::<f64>().unwrap().to_bits()
}

struct Run {
    out: Vec<String>,
    err: Vec<String>,
    error: Option<RuntimeErrorKind>,
    result: Option<Value>,
    exit: i32,
}

/// Drives the machine as a host does: rounds, prints, reads a clock.
fn drive(moon: &mut Moon, out: &mut Vec<String>) -> Result<Value, moon::error::RuntimeError> {
    let mut event = Event::Resume;
    let mut steps = 0u64;
    loop {
        steps += 1;
        assert!(steps < 5_000_000, "the program does not end");
        match moon.interpreter.step(event) {
            Action::Continue => event = Event::Resume,
            Action::Print(value) => {
                out.push(match moon.interpreter.display(&value) {
                    Printed::Text(text) => text,
                    Printed::Number(bits) => format!("{}", f64::from_bits(bits)),
                });
                event = Event::Resume;
            }
            Action::Arithmetic(operation, a, b) => {
                let (a, b) = (f64::from_bits(a), f64::from_bits(b));
                let result = match operation {
                    Operation::Add => a + b,
                    Operation::Subtract => a - b,
                    Operation::Multiply => a * b,
                    Operation::Divide => a / b,
                };
                event = Event::Number(result.to_bits());
            }
            Action::Clock => event = Event::Number(1234.5f64.to_bits()),
            Action::Done(result) => return result,
        }
    }
}

fn execute(source: &str) -> Run {
    let mut moon = Moon::new();
    let mut run = Run { out: Vec::new(), err: Vec::new(), error: None, result: None, exit: 0 };
    run.err = moon.run(source.to_string(), true, &to_bits);
    if moon.had_error {
        run.exit = 65;
        return run;
    }
    match drive(&mut moon, &mut run.out) {
        Ok(value) => run.result = Some(value),
        Err(error) => {
            run.error = Some(error.kind);
            run.err.push(moon.runtime_error(error));
            run.exit = 70;
        }
    }
    run
}

fn prints(source: &str) -> Vec<String> {
    let run = execute(source);
    assert_eq!(run.exit, 0, "{:?}", run.err);
    run.out
}

fn fails(source: &str) -> RuntimeErrorKind {
    let run = execute(source);
    assert_eq!(run.exit, 70, "{:?} {:?}", run.out, run.err);
    run.error.unwrap()
}

#[test]
fn arithmetic_with_precedence() {
    assert_eq!(prints("print 1 + 2 * 3;"), vec!["7"]);
}

#[test]
fn string_concatenation_prints_quoted() {
    assert_eq!(prints("var a = \"foo\"; print a + \"bar\";"), vec!["\"foobar\""]);
}

#[test]
fn counter_closure() {
    assert_eq!(
        prints(
            "fun make() { var n = 0; fun inc() { n = n + 1; return n; } return inc; } \
             var c = make(); print c(); print c();"
        ),
        vec!["1", "2"]
    );
}

#[test]
fn method_call() {
    assert_eq!(prints("class A { greet() { print \"hi\"; } } A().greet();"), vec!["\"hi\""]);
}

#[test]
fn initialiser_sets_a_field() {
    assert_eq!(prints("class B { init(x) { this.x = x; } } print B(42).x;"), vec!["42"]);
}

#[test]
fn super_call() {
    assert_eq!(
        prints(
            "class P { m() { print \"P\"; } } \
             class C < P { m() { super.m(); print \"C\"; } } C().m();"
        ),
        vec!["\"P\"", "\"C\""]
    );
}

#[test]
fn type_mismatch_is_a_runtime_error() {
    let run = execute("1 + \"a\";");
    assert_eq!(run.exit, 70);
    assert_eq!(run.error, Some(RuntimeErrorKind::AddOperands));
    assert_eq!(run.err, vec!["Lze spojit/secist jen dva retezce/cisla.\n[line 1]"]);
    assert!(run.err[0].contains("[line 1]"));
}

#[test]
fn undefined_variable() {
    let run = execute("print z;");
    assert_eq!(run.exit, 70);
    assert_eq!(run.error, Some(RuntimeErrorKind::UndefinedVariable));
    assert_eq!(run.err, vec!["Undefined variable: 'z'.\n[line 1]"]);
    assert!(run.out.is_empty());
}

#[test]
fn redefinition_keeps_the_later_value() {
    assert_eq!(prints("var x = 1; var x = 2; print x;"), vec!["2"]);
}

#[test]
fn block_variable_is_not_visible_outside() {
    assert_eq!(prints("var a = 1; { var a = 2; print a; } print a;"), vec!["2", "1"]);
    assert_eq!(fails("{ var inner = 1; } print inner;"), RuntimeErrorKind::UndefinedVariable);
}

#[test]
fn assignment_in_a_block_changes_the_outer_variable() {
    assert_eq!(prints("var a = 1; { a = 2; } print a;"), vec!["2"]);
    assert_eq!(prints("var a = 1; { { a = a + 1; } a = a + 1; } print a;"), vec!["3"]);
}

#[test]
fn closure_sees_its_defining_scope_after_that_has_ended() {
    assert_eq!(
        prints(
            "fun outer() { var x = \"kept\"; fun inner() { return x; } return inner; } \
             var f = outer(); print f();"
        ),
        vec!["\"kept\""]
    );
    assert_eq!(
        prints(
            "var get; var set; \
             { var shared = 1; fun g() { return shared; } fun s(v) { shared = v; } get = g; set = s; } \
             print get(); set(5); print get();"
        ),
        vec!["1", "5"]
    );
}

#[test]
fn two_closures_have_their_own_variables() {
    assert_eq!(
        prints(
            "fun make() { var n = 0; fun inc() { n = n + 1; return n; } return inc; } \
             var a = make(); var b = make(); print a(); print a(); print b();"
        ),
        vec!["1", "2", "1"]
    );
}

#[test]
fn and_does_not_evaluate_its_right_side_after_false() {
    assert_eq!(
        prints("var called = false; fun f() { called = true; return true; } print false and f(); print called;"),
        vec!["false", "false"]
    );
    assert_eq!(prints("print nil and missing;"), vec!["nil"]);
}

#[test]
fn or_does_not_evaluate_its_right_side_after_true() {
    assert_eq!(
        prints("var called = false; fun f() { called = true; return true; } print true or f(); print called;"),
        vec!["true", "false"]
    );
    assert_eq!(prints("print 1 or missing;"), vec!["1"]);
}

#[test]
fn logical_operators_give_an_operand() {
    assert_eq!(prints("print nil or \"x\";"), vec!["\"x\""]);
    assert_eq!(prints("print false or nil;"), vec!["nil"]);
    assert_eq!(prints("print 1 and 2;"), vec!["2"]);
    assert_eq!(prints("print true and false;"), vec!["false"]);
    assert_eq!(fails("print true and missing;"), RuntimeErrorKind::UndefinedVariable);
    assert_eq!(fails("print false or missing;"), RuntimeErrorKind::UndefinedVariable);
}

#[test]
fn expression_statement_prints_nothing() {
    assert_eq!(prints("1 + 2; \"text\"; nil;"), Vec::<String>::new());
}

#[test]
fn display_forms() {
    assert_eq!(
        prints("print 1; print 1.5; print -0.25; print true; print false; print nil; print \"s\"; print \"\";"),
        vec!["1", "1.5", "-0.25", "true", "false", "nil", "\"s\"", "\"\""]
    );
    assert_eq!(prints("fun f() {} print f; print clock;"), vec!["<fn f>", "<native fn>"]);
    assert_eq!(prints("class A {} print A; print A();"), vec!["A", "A instance"]);
    assert_eq!(prints("class A { m() {} } print A().m;"), vec!["<fn m>"]);
    assert_eq!(prints("print 100 / 8; print 10 / 4; print 2 * 3.5;"), vec!["12.5", "2.5", "7"]);
}

#[test]
fn arithmetic() {
    assert_eq!(prints("print 7 - 10; print 2 * 3 * 4; print 1 / 4; print (1 + 2) * 3;"), vec!["-3", "24", "0.25", "9"]);
    assert_eq!(prints("print -(1 + 2); print --3; print 0.1 + 0.2;"), vec!["-3", "3", "0.30000000000000004"]);
}

#[test]
fn comparison_and_equality() {
    assert_eq!(
        prints("print 1 < 2; print 2 < 1; print 2 <= 2; print 3 > 2; print 2 >= 3; print 2 >= 2;"),
        vec!["true", "false", "true", "true", "false", "true"]
    );
    assert_eq!(
        prints("print 1 == 1; print 1 != 1; print 1 == 2; print 1 != 2; print \"a\" == \"a\"; print \"a\" != \"b\";"),
        vec!["true", "false", "false", "true", "true", "true"]
    );
    assert_eq!(
        prints("print nil == nil; print nil == false; print 1 == \"1\"; print true == true; print 0 == -0;"),
        vec!["true", "false", "false", "true", "true"]
    );
    assert_eq!(prints("print !true; print !nil; print !0; print !\"\"; print !!nil;"), vec!["false", "true", "false", "false", "false"]);
}

#[test]
fn identity_of_functions_classes_and_instances() {
    assert_eq!(prints("fun f() {} fun g() {} print f == f; print f == g;"), vec!["true", "false"]);
    assert_eq!(prints("class A {} class B {} print A == A; print A == B;"), vec!["true", "false"]);
    assert_eq!(prints("class A {} var a = A(); var b = A(); print a == a; print a == b;"), vec!["true", "false"]);
}

#[test]
fn operand_errors() {
    assert_eq!(fails("1 / 0;"), RuntimeErrorKind::DivideByZero);
    assert_eq!(fails("1 / -0;"), RuntimeErrorKind::DivideByZero);
    assert_eq!(fails("1 / nil;"), RuntimeErrorKind::DivideOperands);
    assert_eq!(fails("1 - \"a\";"), RuntimeErrorKind::SubtractOperands);
    assert_eq!(fails("\"a\" * 2;"), RuntimeErrorKind::MultiplyOperands);
    assert_eq!(fails("1 < \"a\";"), RuntimeErrorKind::CompareOperands);
    assert_eq!(fails("\"a\" >= \"b\";"), RuntimeErrorKind::CompareOperands);
    assert_eq!(fails("-\"a\";"), RuntimeErrorKind::NegateOperand);
    assert_eq!(fails("-nil;"), RuntimeErrorKind::NegateOperand);
    assert_eq!(fails("\"a\" + 1;"), RuntimeErrorKind::AddOperands);
    assert_eq!(fails("nil + nil;"), RuntimeErrorKind::AddOperands);
}

#[test]
fn left_operand_is_evaluated_first() {
    assert_eq!(
        prints("fun a() { print \"a\"; return 1; } fun b() { print \"b\"; return 2; } print a() + b();"),
        vec!["\"a\"", "\"b\"", "3"]
    );
    assert_eq!(
        prints("fun a() { print 1; return 1; } fun f(x, y, z) {} f(a(), a() + a(), a());"),
        vec!["1", "1", "1", "1"]
    );
    assert_eq!(fails("missing + (1 / 0);"), RuntimeErrorKind::UndefinedVariable);
    assert_eq!(fails("(1 / 0) + missing;"), RuntimeErrorKind::DivideByZero);
}

#[test]
fn runtime_error_stops_the_program() {
    let run = execute("print 1; print missing; print 2;");
    assert_eq!(run.out, vec!["1"]);
    assert_eq!(run.exit, 70);
}

#[test]
fn runtime_error_reports_the_line_of_its_token() {
    let run = execute("var a = 1;\n\nprint a +\n nil;");
    assert_eq!(run.err, vec!["Lze spojit/secist jen dva retezce/cisla.\n[line 3]"]);
}

#[test]
fn if_and_else() {
    assert_eq!(prints("if (true) print 1; else print 2;"), vec!["1"]);
    assert_eq!(prints("if (false) print 1; else print 2;"), vec!["2"]);
    assert_eq!(prints("if (nil) print 1; print 3;"), vec!["3"]);
    assert_eq!(prints("if (0) print 1;"), vec!["1"]);
    assert_eq!(prints("if (\"\") { print 1; print 2; }"), vec!["1", "2"]);
}

#[test]
fn while_loop() {
    assert_eq!(prints("var i = 0; while (i < 3) { print i; i = i + 1; }"), vec!["0", "1", "2"]);
    assert_eq!(prints("while (false) print 1; print 2;"), vec!["2"]);
    assert_eq!(prints("var i = 0; while (i < 1000) i = i + 1; print i;"), vec!["1000"]);
}

#[test]
fn for_loop() {
    assert_eq!(prints("for (var i = 0; i < 3; i = i + 1) print i;"), vec!["0", "1", "2"]);
    assert_eq!(prints("var i = 5; for (; i > 3;) { print i; i = i - 1; }"), vec!["5", "4"]);
    assert_eq!(fails("for (var i = 0; i < 1; i = i + 1) {} print i;"), RuntimeErrorKind::UndefinedVariable);
    assert_eq!(
        prints("var s = 0; for (var i = 1; i <= 10; i = i + 1) s = s + i; print s;"),
        vec!["55"]
    );
}

#[test]
fn loop_body_closures_capture_their_own_iteration() {
    assert_eq!(
        prints(
            "var f; var g; var i = 0; \
             while (i < 2) { var j = i; fun h() { return j; } if (i == 0) f = h; else g = h; i = i + 1; } \
             print f(); print g();"
        ),
        vec!["0", "1"]
    );
}

#[test]
fn function_calls() {
    assert_eq!(prints("fun add(a, b) { return a + b; } print add(1, 2);"), vec!["3"]);
    assert_eq!(prints("fun f() {} print f();"), vec!["nil"]);
    assert_eq!(prints("fun f() { return; } print f();"), vec!["nil"]);
    assert_eq!(prints("fun f() { return 1; print 2; } print f();"), vec!["1"]);
    assert_eq!(prints("fun f(a) { a = a + 1; return a; } var a = 1; print f(a); print a;"), vec!["2", "1"]);
}

#[test]
fn return_unwinds_loops_and_blocks() {
    assert_eq!(
        prints("fun f() { var i = 0; while (true) { { if (i == 3) return i; } i = i + 1; } } print f();"),
        vec!["3"]
    );
    assert_eq!(
        prints("fun f() { for (var i = 0; i < 10; i = i + 1) { if (i == 2) { return \"two\"; } } return \"none\"; } print f();"),
        vec!["\"two\""]
    );
}

#[test]
fn recursion() {
    assert_eq!(
        prints("fun fib(n) { if (n < 2) return n; return fib(n - 1) + fib(n - 2); } print fib(15);"),
        vec!["610"]
    );
    assert_eq!(
        prints("fun count(n) { if (n > 0) { count(n - 1); } print n; } count(2);"),
        vec!["0", "1", "2"]
    );
}

#[test]
fn local_function_can_call_itself() {
    assert_eq!(
        prints("{ fun down(n) { if (n == 0) return \"done\"; return down(n - 1); } print down(3); }"),
        vec!["\"done\""]
    );
}

#[test]
fn call_errors() {
    assert_eq!(fails("fun f(a) {} f();"), RuntimeErrorKind::WrongArity(1, 0));
    assert_eq!(fails("fun f(a) {} f(1, 2);"), RuntimeErrorKind::WrongArity(1, 2));
    assert_eq!(fails("clock(1);"), RuntimeErrorKind::WrongArity(0, 1));
    assert_eq!(fails("\"text\"();"), RuntimeErrorKind::NotCallable);
    assert_eq!(fails("nil();"), RuntimeErrorKind::NotCallable);
    assert_eq!(fails("var a = 1; a(2);"), RuntimeErrorKind::NotCallable);
    assert_eq!(fails("class A {} A(1);"), RuntimeErrorKind::WrongArity(0, 1));
    assert_eq!(fails("class A { init(a, b) {} } A(1);"), RuntimeErrorKind::WrongArity(2, 1));
    let run = execute("fun f(a) {}\nf(1,\n2);");
    assert_eq!(run.err, vec!["Ocekavano 1 argumentu ale bylo zadano 2.\n[line 3]"]);
}

#[test]
fn arguments_are_evaluated_before_the_arity_is_checked() {
    let run = execute("fun f() {} fun g() { print \"g\"; } f(g());");
    assert_eq!(run.out, vec!["\"g\""]);
    assert_eq!(run.error, Some(RuntimeErrorKind::WrongArity(0, 1)));
}

#[test]
fn nested_calls_keep_their_arguments_apart() {
    assert_eq!(
        prints("fun add(a, b) { return a + b; } print add(add(1, 2), add(add(3, 4), 5));"),
        vec!["15"]
    );
    assert_eq!(
        prints("fun three(a, b, c) { return a * 100 + b * 10 + c; } fun id(x) { return x; } print three(1, id(2), id(id(3)));"),
        vec!["123"]
    );
}

#[test]
fn clock_is_the_hosts_number() {
    assert_eq!(prints("print clock();"), vec!["1234.5"]);
    assert_eq!(prints("print clock() + 1;"), vec!["1235.5"]);
    assert_eq!(prints("var clock = 3; print clock;"), vec!["3"]);
}

#[test]
fn fields() {
    assert_eq!(prints("class A {} var a = A(); a.x = 1; a.y = a.x + 1; print a.x; print a.y;"), vec!["1", "2"]);
    assert_eq!(prints("class A {} var a = A(); print a.x = 5;"), vec!["5"]);
    assert_eq!(prints("class A {} var a = A(); var b = a; b.x = 7; print a.x;"), vec!["7"]);
    assert_eq!(prints("class A {} var a = A(); var b = A(); a.x = 1; b.x = 2; print a.x; print b.x;"), vec!["1", "2"]);
    assert_eq!(fails("class A {} A().missing;"), RuntimeErrorKind::UndefinedProperty);
    assert_eq!(fails("var a = 1; a.x;"), RuntimeErrorKind::NoProperties);
    assert_eq!(fails("var a = \"s\"; a.x = 1;"), RuntimeErrorKind::NoFields);
    assert_eq!(fails("class A {} A.x;"), RuntimeErrorKind::NoProperties);
}

#[test]
fn property_errors_name_the_property() {
    let run = execute("class A {}\nA().size;");
    assert_eq!(run.err, vec!["Undefined property 'size'.\n[line 2]"]);
}

#[test]
fn object_of_an_assignment_is_checked_before_the_value_is_evaluated() {
    let run = execute("fun f() { print \"f\"; return 1; } var a = 1; a.x = f();");
    assert!(run.out.is_empty());
    assert_eq!(run.error, Some(RuntimeErrorKind::NoFields));
}

#[test]
fn a_field_hides_a_method() {
    assert_eq!(
        prints("class A { m() { return \"method\"; } } var a = A(); print a.m(); a.m = 3; print a.m;"),
        vec!["\"method\"", "3"]
    );
}

#[test]
fn methods_and_this() {
    assert_eq!(
        prints("class A { init(n) { this.n = n; } get() { return this.n; } } print A(1).get(); print A(2).get();"),
        vec!["1", "2"]
    );
    assert_eq!(
        prints(
            "class Counter { init() { this.n = 0; } inc() { this.n = this.n + 1; return this; } } \
             var c = Counter(); c.inc().inc(); print c.n;"
        ),
        vec!["2"]
    );
}

#[test]
fn bound_method_keeps_its_instance() {
    assert_eq!(
        prints(
            "class A { init(n) { this.n = n; } get() { return this.n; } } \
             var a = A(1); var b = A(2); var ga = a.get; var gb = b.get; print ga(); print gb(); print ga();"
        ),
        vec!["1", "2", "1"]
    );
}

#[test]
fn initialiser_returns_the_instance() {
    assert_eq!(prints("class A { init() { this.x = 1; return; } } print A().x;"), vec!["1"]);
    assert_eq!(prints("class A { init() { this.x = 1; } } var a = A(); print a.init().x;"), vec!["1"]);
    assert_eq!(prints("class A { init() {} } print A();"), vec!["A instance"]);
}

#[test]
fn inheritance() {
    assert_eq!(
        prints("class P { m() { return \"p\"; } n() { return \"n\"; } } class C < P { m() { return \"c\"; } } var c = C(); print c.m(); print c.n();"),
        vec!["\"c\"", "\"n\""]
    );
    assert_eq!(
        prints("class P { init(x) { this.x = x; } } class C < P {} print C(3).x;"),
        vec!["3"]
    );
    assert_eq!(fails("class P { init(x) {} } class C < P {} C();"), RuntimeErrorKind::WrongArity(1, 0));
}

#[test]
fn super_reaches_past_an_override() {
    assert_eq!(
        prints(
            "class A { m() { return \"A\"; } } class B < A { m() { return \"B\" + super.m(); } } \
             class C < B { m() { return \"C\" + super.m(); } } print C().m();"
        ),
        vec!["\"CBA\""]
    );
    assert_eq!(
        prints(
            "class A { init(n) { this.n = n; } } class B < A { init(n) { super.init(n + 1); } } print B(1).n;"
        ),
        vec!["2"]
    );
}

#[test]
fn super_is_the_class_above_the_method_not_above_the_instance() {
    assert_eq!(
        prints(
            "class A { m() { return \"A\"; } } class B < A { m() { return \"B\"; } t() { return super.m(); } } \
             class C < B { m() { return \"C\"; } } print C().t();"
        ),
        vec!["\"A\""]
    );
}

#[test]
fn class_errors() {
    assert_eq!(fails("class A < A {}"), RuntimeErrorKind::InheritFromSelf);
    assert_eq!(fails("var x = 1; class A < x {}"), RuntimeErrorKind::SuperclassNotClass);
    assert_eq!(fails("class A < Missing {}"), RuntimeErrorKind::UndefinedVariable);
    assert_eq!(fails("class A {} class B < A { m() { super.missing(); } } B().m();"), RuntimeErrorKind::UnknownSuperMethod);
    let run = execute("var x = 1;\nclass A < x {}");
    assert_eq!(run.err, vec!["superclass must be a class\n[line 2]"]);
}

#[test]
fn top_level_return_is_the_result() {
    let run = execute("print 1; return 5; print 2;");
    assert_eq!(run.out, vec!["1"]);
    assert_eq!(run.result, Some(Value::Number(5f64.to_bits())));
    assert_eq!(execute("print 1;").result, Some(Value::Nil));
}

#[test]
fn scan_error_stops_the_run() {
    let run = execute("print 1;\n@");
    assert_eq!(run.exit, 65);
    assert!(run.out.is_empty());
    assert_eq!(run.err, vec!["[line 2] Error : unexpected character."]);
}

#[test]
fn parse_error_stops_the_run() {
    let run = execute("print 1;\nprint ;");
    assert_eq!(run.exit, 65);
    assert!(run.out.is_empty());
    assert_eq!(run.err, vec!["[line 2] Error at ';': Expect expression."]);
    let run = execute("print 1");
    assert_eq!(run.err, vec!["[line 1] Error at end: Ocekevam ';' for vyrazu."]);
}

#[test]
fn report_lines() {
    let mut moon = Moon::new();
    assert_eq!(moon.report(12, "at 'x'".to_string(), "bad".to_string()), "[line 12] Error at 'x': bad");
    assert!(moon.had_error);
    assert!(!moon.had_runtime_error);
    let mut moon = Moon::new();
    assert_eq!(moon.error(3, "worse".to_string()), "[line 3] Error : worse");
    assert!(moon.had_error);
}

#[test]
fn prompt_keeps_definitions_between_lines() {
    let mut moon = Moon::new();
    let mut out = Vec::new();
    for line in ["var a = 1;", "fun f() { return a + 1; }", "a = 10;", "print f();"] {
        let lines = moon.run(line.to_string(), false, &to_bits);
        assert!(lines.is_empty());
        assert!(drive(&mut moon, &mut out).is_ok());
        moon.had_error = false;
    }
    assert_eq!(out, vec!["11"]);
}

#[test]
fn prompt_goes_on_after_a_runtime_error() {
    let mut moon = Moon::new();
    let mut out = Vec::new();
    moon.run("var a = 1; print missing; a = 2;".to_string(), false, &to_bits);
    let error = drive(&mut moon, &mut out).unwrap_err();
    assert_eq!(moon.runtime_error(error), "Undefined variable: 'missing'.\n[line 1]");
    assert!(moon.had_runtime_error);
    moon.run("print a;".to_string(), false, &to_bits);
    assert!(drive(&mut moon, &mut out).is_ok());
    assert_eq!(out, vec!["1"]);
}

#[test]
fn a_new_machine_is_idle_and_knows_the_clock() {
    let mut interpreter = Interpreter::new();
    assert!(matches!(interpreter.control, Control::Idle));
    assert_eq!(interpreter.environments.len(), 1);
    assert_eq!(Environment::get_by_string(&interpreter.environments, 0, &"clock".to_string()), Some(Value::Function(0)));
    assert!(matches!(interpreter.step(Event::Resume), Action::Done(Ok(Value::Nil))));
    assert!(matches!(interpreter.step(Event::Number(1)), Action::Done(Ok(Value::Nil))));
}

#[test]
fn a_machine_over_a_given_frame() {
    let mut globals = Environment::new();
    globals.define("seven".to_string(), Value::Number(7f64.to_bits()));
    let mut interpreter = Interpreter::new_with_env(globals);
    let (tokens, _) = Scanner::new("return seven;".to_string()).scan_tokens(&to_bits);
    let (statements, errors) = Parser::new(tokens).parse();
    assert!(errors.is_empty());
    interpreter.interpret(statements);
    let mut result = None;
    for _ in 0..100 {
        if let Action::Done(done) = interpreter.step(Event::Resume) {
            result = Some(done);
            break;
        }
    }
    assert_eq!(result.unwrap().unwrap(), Value::Number(7f64.to_bits()));
    let (tokens, _) = Scanner::new("clock();".to_string()).scan_tokens(&to_bits);
    let (statements, _) = Parser::new(tokens).parse();
    interpreter.interpret(statements);
    let mut failed = None;
    for _ in 0..100 {
        if let Action::Done(done) = interpreter.step(Event::Resume) {
            failed = Some(done);
            break;
        }
    }
    assert_eq!(failed.unwrap().unwrap_err().kind, RuntimeErrorKind::UndefinedVariable);
}

#[test]
fn waiting_machine_asks_again_until_it_is_answered() {
    let mut moon = Moon::new();
    moon.run("print 1 + 2;".to_string(), true, &to_bits);
    let mut asked = 0;
    let mut printed = None;
    let mut event = Event::Resume;
    for _ in 0..100 {
        match moon.interpreter.step(event) {
            Action::Arithmetic(Operation::Add, a, b) => {
                assert_eq!((a, b), (1f64.to_bits(), 2f64.to_bits()));
                asked += 1;
                event = if asked < 3 { Event::Resume } else { Event::Number(3f64.to_bits()) };
            }
            Action::Print(value) => {
                printed = Some(value);
                event = Event::Resume;
            }
            Action::Done(_) => break,
            _ => event = Event::Resume,
        }
    }
    assert_eq!(asked, 3);
    assert_eq!(printed, Some(Value::Number(3f64.to_bits())));
}

#[test]
fn deep_recursion_needs_no_deep_stack() {
    assert_eq!(
        prints("fun down(n) { if (n == 0) return 0; return down(n - 1); } print down(20000);"),
        vec!["0"]
    );
}

fn word(kind: TokenType, lexeme: &str) -> Token {
    Token { token_type: kind, lexeme: lexeme.to_string(), literal: Value::Nil, line: 1 }
}

/// Evaluates one expression in the global frame of a machine.
fn evaluate(interpreter: &mut Interpreter, expression: Expr) -> Result<Value, RuntimeErrorKind> {
    interpreter.control = Control::Evaluate(Rc::new(expression), 0);
    let mut handed = None;
    for _ in 0..100 {
        if let Control::Value(value) = &interpreter.control {
            handed = Some(value.clone());
        }
        match interpreter.step(Event::Resume) {
            Action::Done(Ok(_)) => return Ok(handed.unwrap()),
            Action::Done(Err(error)) => return Err(error.kind),
            _ => {}
        }
    }
    panic!("the expression does not end");
}

fn super_access() -> Expr {
    Expr::Super(Super { keyword: word(TokenType::Super, "super"), method: word(TokenType::Identifier, "m") })
}

#[test]
fn super_that_is_no_class() {
    let mut globals = Environment::new();
    globals.define("super".to_string(), Value::Number(0));
    let mut interpreter = Interpreter::new_with_env(globals);
    assert_eq!(evaluate(&mut interpreter, super_access()), Err(RuntimeErrorKind::MissingSuper));
}

#[test]
fn super_without_an_instance() {
    let mut globals = Environment::new();
    globals.define("super".to_string(), Value::Class(0));
    globals.define("this".to_string(), Value::Nil);
    let mut interpreter = Interpreter::new();
    interpreter.environments[0] = globals;
    let mut methods = Table::new();
    methods.insert("m".to_string(), 0);
    interpreter.classes.push(Class { name: "A".to_string(), arity: 0, methods, super_class: None });
    assert_eq!(evaluate(&mut interpreter, super_access()), Err(RuntimeErrorKind::MissingThis));
}

#[test]
fn super_outside_any_class_is_undefined() {
    let mut interpreter = Interpreter::new();
    assert_eq!(evaluate(&mut interpreter, super_access()), Err(RuntimeErrorKind::UndefinedVariable));
}

#[test]
fn a_literal_evaluates_to_its_value() {
    let mut interpreter = Interpreter::new();
    let literal = Expr::Literal(Literal { value: Value::String("kept".to_string()) });
    assert_eq!(evaluate(&mut interpreter, literal), Ok(Value::String("kept".to_string())));
}

#[test]
fn unknown_super_method_is_reported_at_the_keyword() {
    let run = execute(
        "class A {}\nclass B < A { m() {\nsuper\n.missing(); } }\nB().m();",
    );
    assert_eq!(run.error, Some(RuntimeErrorKind::UnknownSuperMethod));
    assert_eq!(run.err, vec!["Neznama property'missing'.\n[line 3]"]);
}

#[test]
fn unknown_super_method_carries_the_keyword_and_names_the_method() {
    let mut globals = Environment::new();
    globals.define("super".to_string(), Value::Class(0));
    let mut interpreter = Interpreter::new();
    interpreter.environments[0] = globals;
    interpreter.classes.push(Class { name: "A".to_string(), arity: 0, methods: Table::new(), super_class: None });
    let mut keyword = word(TokenType::Super, "super");
    keyword.line = 7;
    let mut method = word(TokenType::Identifier, "m");
    method.line = 8;
    interpreter.control = Control::Evaluate(Rc::new(Expr::Super(Super { keyword, method })), 0);
    match interpreter.step(Event::Resume) {
        Action::Done(Err(error)) => {
            assert_eq!(error.kind, RuntimeErrorKind::UnknownSuperMethod);
            assert_eq!(error.token.token_type, TokenType::Super);
            assert_eq!(error.token.line, 7);
            assert_eq!(error.name, "m");
            assert_eq!(error.message(), "Neznama property'm'.");
        }
        other => panic!("{:?}", other),
    }
}

#[test]
fn an_initialiser_that_ends_without_this_names_this() {
    let mut interpreter = Interpreter::new();
    let declaration = Function {
        name: word(TokenType::Identifier, "init"),
        parameters: List::empty(),
        body: List::empty(),
    };
    interpreter.functions.push(Callable {
        arity: 0,
        declaration: Some(Rc::new(declaration)),
        environment: 0,
        is_initializer: true,
    });
    interpreter.stack.push(Frame::Call(1));
    interpreter.control = Control::Value(Value::Nil);
    match interpreter.step(Event::Resume) {
        Action::Done(Err(error)) => {
            assert_eq!(error.kind, RuntimeErrorKind::InitializerWithoutThis);
            assert_eq!(error.token.lexeme, "init");
            assert_eq!(error.message(), "Undefined variable: 'this'.");
        }
        other => panic!("{:?}", other),
    }
}
