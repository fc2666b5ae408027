use moon::expressions::Expr;
use moon::grammar::{ParseError, ParseErrorKind};
use moon::list::List;
use moon::parser::Parser;
use moon::scanner::Scanner;
use moon::statements::{Statement, StatementKind};
use moon::token::{Token, TokenType};
use moon::value::Value;
use std::rc::Rc;

fn to_bits(lexeme: &String) -> u64 {
    lexeme.parse::<f64>().unwrap().to_bits()
}

fn parse(source: &str) -> (Vec<Rc<Statement>>, Vec<ParseError>) {
    let (tokens, errors) = Scanner::new(source.to_string()).scan_tokens(&to_bits);
    assert!(errors.is_empty(), "{:?}", errors);
    Parser::new(tokens).parse()
}

fn items<T: Clone>(list: &Rc<List<T>>) -> Vec<T> {
    let mut out = Vec::new();
    let mut rest = list.clone();
    loop {
        let next = match &*rest {
            List::Nil => return out,
            List::Cons(head, tail) => {
                out.push(head.clone());
                tail.clone()
            }
        };
        rest = next;
    }
}

/// The expression in fully parenthesised prefix form.
fn show(expression: &Expr) -> String {
    match expression {
        Expr::Binary(e) => format!("({} {} {})", e.op.lexeme, show(&e.left), show(&e.right)),
        Expr::Logical(e) => format!("({} {} {})", e.op.lexeme, show(&e.left), show(&e.right)),
        Expr::Grouping(e) => format!("(group {})", show(&e.expression)),
        Expr::Literal(e) => match &e.value {
            Value::Number(bits) => format!("{}", f64::from_bits(*bits)),
            Value::String(text) => format!("{:?}", text),
            Value::Bool(b) => format!("{}", b),
            Value::Nil => "nil".to_string(),
            other => format!("{:?}", other),
        },
        Expr::Unary(e) => format!("({} {})", e.operator.lexeme, show(&e.right)),
        Expr::Variable(e) => e.name.lexeme.clone(),
        Expr::NoOp(_) => "noop".to_string(),
        Expr::Assign(e) => format!("(= {} {})", e.name.lexeme, show(&e.value)),
        Expr::Call(e) => {
            let arguments: Vec<String> = items(&e.arguments).iter().map(|a| show(a)).collect();
            format!("(call {} [{}])", show(&e.calling), arguments.join(" "))
        }
        Expr::Get(e) => format!("(get {} {})", show(&e.object), e.name.lexeme),
        Expr::SetField(e) => format!("(set {} {} {})", show(&e.object), e.name.lexeme, show(&e.value)),
        Expr::This(_) => "this".to_string(),
        Expr::Super(e) => format!("(super {})", e.method.lexeme),
    }
}

fn show_statement(statement: &Statement) -> String {
    match statement {
        Statement::Expression(s) => format!("{};", show(&s.expression)),
        Statement::Print(s) => format!("print {};", show(&s.expressions)),
        Statement::Var(s) => format!("var {} = {};", s.name.lexeme, show(&s.init)),
        Statement::Block(s) => {
            let inner: Vec<String> = items(&s.statements).iter().map(|s| show_statement(s)).collect();
            format!("{{ {} }}", inner.join(" "))
        }
        Statement::If(s) => match &s.else_branch {
            Some(other) => format!(
                "if {} {} else {}",
                show(&s.condition),
                show_statement(&s.then_branch),
                show_statement(other)
            ),
            None => format!("if {} {}", show(&s.condition), show_statement(&s.then_branch)),
        },
        Statement::While(s) => format!("while {} {}", show(&s.condition), show_statement(&s.body)),
        Statement::Function(f) => {
            let names: Vec<String> = items(&f.parameters).iter().map(|p| p.lexeme.clone()).collect();
            let body: Vec<String> = items(&f.body).iter().map(|s| show_statement(s)).collect();
            format!("fun {}({}) {{ {} }}", f.name.lexeme, names.join(" "), body.join(" "))
        }
        Statement::ReturnStatement(s) => format!("return {};", show(&s.value)),
        Statement::ClassStatement(c) => {
            let methods: Vec<String> = items(&c.methods).iter().map(|m| m.name.lexeme.clone()).collect();
            let above = match &c.super_class {
                Some(variable) => format!(" < {}", variable.name.lexeme),
                None => String::new(),
            };
            format!("class {}{} [{}]", c.name.lexeme, above, methods.join(" "))
        }
    }
}

fn shown(source: &str) -> Vec<String> {
    let (statements, errors) = parse(source);
    assert!(errors.is_empty(), "{:?}", errors);
    statements.iter().map(|s| show_statement(s)).collect()
}

fn first_error(source: &str) -> ParseError {
    let (_, mut errors) = parse(source);
    assert!(!errors.is_empty(), "no error in {:?}", source);
    errors.remove(0)
}

#[test]
fn factor_binds_tighter_than_term() {
    assert_eq!(shown("1 + 2 * 3;"), vec!["(+ 1 (* 2 3));"]);
    assert_eq!(shown("1 * 2 + 3;"), vec!["(+ (* 1 2) 3);"]);
    assert_eq!(shown("1 - 2 / 3;"), vec!["(- 1 (/ 2 3));"]);
}

#[test]
fn binary_operators_associate_to_the_left() {
    assert_eq!(shown("1 - 2 - 3;"), vec!["(- (- 1 2) 3);"]);
    assert_eq!(shown("8 / 4 / 2;"), vec!["(/ (/ 8 4) 2);"]);
    assert_eq!(shown("a or b or c;"), vec!["(or (or a b) c);"]);
    assert_eq!(shown("1 < 2 < 3;"), vec!["(< (< 1 2) 3);"]);
    assert_eq!(shown("1 == 2 != 3;"), vec!["(!= (== 1 2) 3);"]);
}

#[test]
fn precedence_ladder() {
    assert_eq!(
        shown("a or b and c == d < e + f * -g;"),
        vec!["(or a (and b (== c (< d (+ e (* f (- g)))))));"]
    );
    assert_eq!(shown("!a == b;"), vec!["(== (! a) b);"]);
    assert_eq!(shown("a >= b == c <= d;"), vec!["(== (>= a b) (<= c d));"]);
    assert_eq!(shown("a > b;"), vec!["(> a b);"]);
}

#[test]
fn grouping_is_kept() {
    assert_eq!(shown("(1 + 2) * 3;"), vec!["(* (group (+ 1 2)) 3);"]);
    assert_eq!(shown("((a));"), vec!["(group (group a));"]);
}

#[test]
fn unary_nests() {
    assert_eq!(shown("--1;"), vec!["(- (- 1));"]);
    assert_eq!(shown("!-a;"), vec!["(! (- a));"]);
}

#[test]
fn literal_expressions() {
    assert_eq!(
        shown("true; false; nil; 1.5; \"s\";"),
        vec!["true;", "false;", "nil;", "1.5;", "\"s\";"]
    );
}

#[test]
fn assignment_associates_to_the_right() {
    assert_eq!(shown("a = b = 1;"), vec!["(= a (= b 1));"]);
    assert_eq!(shown("a.b = 1;"), vec!["(set a b 1);"]);
    assert_eq!(shown("a.b.c = d = 2;"), vec!["(set (get a b) c (= d 2));"]);
    assert_eq!(shown("a = b or c;"), vec!["(= a (or b c));"]);
}

#[test]
fn calls_and_properties() {
    assert_eq!(shown("f();"), vec!["(call f []);"]);
    assert_eq!(shown("f(1, a + 2)(3).g;"), vec!["(get (call (call f [1 (+ a 2)]) [3]) g);"]);
    assert_eq!(shown("a.b.c;"), vec!["(get (get a b) c);"]);
    assert_eq!(shown("a.b(1);"), vec!["(call (get a b) [1]);"]);
    assert_eq!(shown("-f();"), vec!["(- (call f []));"]);
}

#[test]
fn call_records_its_closing_parenthesis() {
    let (statements, _) = parse("f(\n1\n);");
    match &*statements[0] {
        Statement::Expression(s) => match &*s.expression {
            Expr::Call(call) => {
                assert_eq!(call.parent.token_type, TokenType::RightParen);
                assert_eq!(call.parent.line, 3);
            }
            _ => panic!("no call"),
        },
        _ => panic!("no expression statement"),
    }
}

#[test]
fn statement_forms() {
    assert_eq!(shown("print 1;"), vec!["print 1;"]);
    assert_eq!(shown("var a;"), vec!["var a = noop;"]);
    assert_eq!(shown("var a = 1 + 2;"), vec!["var a = (+ 1 2);"]);
    assert_eq!(shown("{ var a = 1; print a; }"), vec!["{ var a = 1; print a; }"]);
    assert_eq!(shown("{}"), vec!["{  }"]);
    assert_eq!(shown("if (a) print 1;"), vec!["if a print 1;"]);
    assert_eq!(shown("if (a) print 1; else print 2;"), vec!["if a print 1; else print 2;"]);
    assert_eq!(shown("while (a < 3) a = a + 1;"), vec!["while (< a 3) (= a (+ a 1));"]);
    assert_eq!(shown("return;"), vec!["return noop;"]);
    assert_eq!(shown("return 1;"), vec!["return 1;"]);
}

#[test]
fn else_belongs_to_the_nearest_if() {
    assert_eq!(
        shown("if (a) if (b) print 1; else print 2;"),
        vec!["if a if b print 1; else print 2;"]
    );
    let (statements, _) = parse("if (a) if (b) print 1; else print 2;");
    match &*statements[0] {
        Statement::If(outer) => {
            assert!(outer.else_branch.is_none());
            match &*outer.then_branch {
                Statement::If(inner) => assert!(inner.else_branch.is_some()),
                _ => panic!("no inner if"),
            }
        }
        _ => panic!("no if"),
    }
}

#[test]
fn for_becomes_while() {
    assert_eq!(
        shown("for (var i = 0; i < 3; i = i + 1) print i;"),
        vec!["{ var i = 0; while (< i 3) { print i; (= i (+ i 1)); } }"]
    );
}

#[test]
fn for_without_parts() {
    assert_eq!(shown("for (;;) print 1;"), vec!["while true print 1;"]);
    assert_eq!(shown("for (; a;) print 1;"), vec!["while a print 1;"]);
    assert_eq!(shown("for (a = 1;;) print 1;"), vec!["{ (= a 1); while true print 1; }"]);
    assert_eq!(shown("for (;; a = 1) print 1;"), vec!["while true { print 1; (= a 1); }"]);
}

#[test]
fn function_declarations() {
    assert_eq!(shown("fun f() {}"), vec!["fun f() {  }"]);
    assert_eq!(shown("fun f(a) { return a; }"), vec!["fun f(a) { return a; }"]);
    assert_eq!(
        shown("fun add(a, b, c) { print a + b + c; }"),
        vec!["fun add(a b c) { print (+ (+ a b) c); }"]
    );
    assert_eq!(
        shown("fun outer() { fun inner() {} return inner; }"),
        vec!["fun outer() { fun inner() {  } return inner; }"]
    );
}

#[test]
fn class_declarations() {
    assert_eq!(shown("class A {}"), vec!["class A []"]);
    assert_eq!(shown("class A { m() {} n(a) { return a; } }"), vec!["class A [m n]"]);
    assert_eq!(shown("class B < A { init() { this.x = 1; } }"), vec!["class B < A [init]"]);
}

#[test]
fn this_and_super_inside_classes() {
    let (statements, errors) = parse("class B < A { m() { return super.m() + this.x; } }");
    assert!(errors.is_empty(), "{:?}", errors);
    match &*statements[0] {
        Statement::ClassStatement(class) => {
            let methods = items(&class.methods);
            assert_eq!(show_statement(&Statement::Function(methods[0].clone())),
                "fun m() { return (+ (call (super m) []) (get this x)); }");
        }
        _ => panic!("no class"),
    }
}

#[test]
fn kinds_of_nodes() {
    let (statements, _) = parse("print 1; var a; {} if (a) a; while (a) a; fun f() {} class A {} a; return;");
    let kinds: Vec<StatementKind> = statements.iter().map(|s| s.kind()).collect();
    assert_eq!(
        kinds,
        vec![
            StatementKind::Print,
            StatementKind::Var,
            StatementKind::Block,
            StatementKind::If,
            StatementKind::While,
            StatementKind::Function,
            StatementKind::ClassStatement,
            StatementKind::Expression,
            StatementKind::ReturnStatement,
        ]
    );
    match &*statements[0] {
        Statement::Print(s) => assert_eq!(s.expressions.kind(), moon::expressions::Kind::Literal),
        _ => panic!("no print"),
    }
}

#[test]
fn missing_semicolon() {
    let error = first_error("print 1");
    assert_eq!(error.kind, ParseErrorKind::ExpectPrintEnd);
    assert_eq!(error.token.token_type, TokenType::EOF);
    assert_eq!(error.message(), "Ocekevam ';' for vyrazu.");
    let error = first_error("1 + 2");
    assert_eq!(error.kind, ParseErrorKind::ExpectExpressionEnd);
    assert_eq!(error.token.token_type, TokenType::EOF);
    let error = first_error("var a = 1 print a;");
    assert_eq!(error.kind, ParseErrorKind::ExpectVariableEnd);
    assert_eq!(error.token.lexeme, "print");
    let error = first_error("var a 1;");
    assert_eq!(error.kind, ParseErrorKind::ExpectVariableEnd);
    assert_eq!(error.token.lexeme, "1");
    let error = first_error("return 1 }");
    assert_eq!(error.kind, ParseErrorKind::ExpectReturnEnd);
}

#[test]
fn missing_expression() {
    let error = first_error("print ;");
    assert_eq!(error.kind, ParseErrorKind::ExpectExpression);
    assert_eq!(error.token.token_type, TokenType::Semicolon);
    assert_eq!(error.message(), "Expect expression.");
    let error = first_error("1 + ;");
    assert_eq!(error.kind, ParseErrorKind::ExpectExpression);
    let error = first_error("(1 + 2;");
    assert_eq!(error.kind, ParseErrorKind::ExpectGroupingEnd);
    assert_eq!(error.token.lexeme, ";");
}

#[test]
fn errors_of_each_construct() {
    assert_eq!(first_error("var 1;").kind, ParseErrorKind::ExpectVariableName);
    assert_eq!(first_error("if a) b;").kind, ParseErrorKind::ExpectIfParen);
    assert_eq!(first_error("if (a b;").kind, ParseErrorKind::ExpectIfClose);
    assert_eq!(first_error("while a) b;").kind, ParseErrorKind::ExpectWhileParen);
    assert_eq!(first_error("while (a b;").kind, ParseErrorKind::ExpectWhileClose);
    assert_eq!(first_error("for a;;) b;").kind, ParseErrorKind::ExpectForParen);
    assert_eq!(first_error("for (;a b;) c;").kind, ParseErrorKind::ExpectForConditionEnd);
    assert_eq!(first_error("for (;;a b) c;").kind, ParseErrorKind::ExpectForClose);
    assert_eq!(first_error("{ a;").kind, ParseErrorKind::ExpectBlockEnd);
    assert_eq!(first_error("fun () {}").kind, ParseErrorKind::ExpectFunctionName);
    assert_eq!(first_error("fun f {}").kind, ParseErrorKind::ExpectFunctionParen);
    assert_eq!(first_error("fun f(1) {}").kind, ParseErrorKind::ExpectParameterName);
    assert_eq!(first_error("fun f(a,) {}").kind, ParseErrorKind::ExpectParameterName);
    assert_eq!(first_error("fun f(a b) {}").kind, ParseErrorKind::ExpectParametersEnd);
    assert_eq!(first_error("fun f() a;").kind, ParseErrorKind::ExpectFunctionBody);
    assert_eq!(first_error("class {}").kind, ParseErrorKind::ExpectClassName);
    assert_eq!(first_error("class A < {}").kind, ParseErrorKind::ExpectSuperclassName);
    assert_eq!(first_error("class A m() {} }").kind, ParseErrorKind::ExpectClassBody);
    assert_eq!(first_error("class A { m() {} ").kind, ParseErrorKind::ExpectClassEnd);
    assert_eq!(first_error("class A { 1 }").kind, ParseErrorKind::ExpectMethodName);
    assert_eq!(first_error("class A { m {} }").kind, ParseErrorKind::ExpectMethodParen);
    assert_eq!(first_error("class A { m() 1 }").kind, ParseErrorKind::ExpectMethodBody);
    assert_eq!(first_error("a.1;").kind, ParseErrorKind::ExpectPropertyName);
    assert_eq!(first_error("f(1 2);").kind, ParseErrorKind::ExpectArgumentsEnd);
    assert_eq!(first_error("f(1,);").kind, ParseErrorKind::ExpectExpression);
}

#[test]
fn error_messages() {
    assert_eq!(first_error("fun () {}").message(), "Ocekavam function jmeno.");
    assert_eq!(first_error("class A { 1 }").message(), "Ocekavam method jmeno.");
    assert_eq!(first_error("class A { m() 1 }").message(), "Ocekavam '{' pred method telem funkce.");
    assert_eq!(first_error("{ a;").message(), "Expect '}' after block.");
    assert_eq!(first_error("1 = 2;").message(), "invalid assignment target");
}

#[test]
fn invalid_assignment_target_is_reported_at_the_equals_sign() {
    let (statements, errors) = parse("1 = 2; print 3;");
    assert_eq!(errors[0].kind, ParseErrorKind::InvalidAssignmentTarget);
    assert_eq!(errors[0].token.token_type, TokenType::Equal);
    let printed: Vec<String> = statements.iter().map(|s| show_statement(s)).collect();
    assert_eq!(printed.last().unwrap(), "print 3;");
    let error = first_error("a + b = c;");
    assert_eq!(error.kind, ParseErrorKind::InvalidAssignmentTarget);
    let error = first_error("(a) = 1;");
    assert_eq!(error.kind, ParseErrorKind::InvalidAssignmentTarget);
}

#[test]
fn parsing_resumes_at_the_next_statement() {
    let (statements, errors) = parse("var = 1; print 2; print ; print 3;");
    assert_eq!(errors.len(), 2);
    assert_eq!(errors[0].kind, ParseErrorKind::ExpectVariableName);
    assert_eq!(errors[1].kind, ParseErrorKind::ExpectExpression);
    let printed: Vec<String> = statements.iter().map(|s| show_statement(s)).collect();
    assert_eq!(printed, vec!["print 2;", "print 3;"]);
}

#[test]
fn recovery_stops_in_front_of_a_statement_keyword() {
    let (statements, errors) = parse("a b c var d = 1;");
    assert_eq!(errors.len(), 1);
    assert_eq!(errors[0].kind, ParseErrorKind::ExpectExpressionEnd);
    assert_eq!(errors[0].token.lexeme, "b");
    let printed: Vec<String> = statements.iter().map(|s| show_statement(s)).collect();
    assert_eq!(printed, vec!["var d = 1;"]);
}

#[test]
fn every_error_carries_a_token_of_the_input() {
    for source in ["print", "(", "a +", "var", "fun f(", "class A {", "1 = 2", "} } }", "if (", "for (;;"] {
        let (tokens, _) = Scanner::new(source.to_string()).scan_tokens(&to_bits);
        let given: Vec<(TokenType, String, u64)> =
            tokens.iter().map(|t| (t.token_type, t.lexeme.clone(), t.line)).collect();
        let (_, errors) = Parser::new(tokens).parse();
        assert!(!errors.is_empty(), "{:?}", source);
        for error in errors {
            let token = (error.token.token_type, error.token.lexeme.clone(), error.token.line);
            assert!(given.contains(&token), "{:?}", source);
        }
    }
}

#[test]
fn contextual_checks() {
    assert_eq!(first_error("print this;").kind, ParseErrorKind::ThisOutsideClass);
    assert_eq!(first_error("fun f() { return this; }").kind, ParseErrorKind::ThisOutsideClass);
    assert_eq!(first_error("class A { m() { super.m(); } }").kind, ParseErrorKind::SuperOutsideSubclass);
    assert_eq!(first_error("print super.m;").kind, ParseErrorKind::SuperOutsideSubclass);
    assert_eq!(first_error("class A < B { m() { super; } }").kind, ParseErrorKind::ExpectSuperDot);
    assert_eq!(first_error("class A < B { m() { super.1; } }").kind, ParseErrorKind::ExpectSuperMethod);
    let error = first_error("class A { init() { return 1; } }");
    assert_eq!(error.kind, ParseErrorKind::ReturnFromInitializer);
    assert_eq!(error.token.token_type, TokenType::Return);
    assert_eq!(error.message(), "Nemuzu vratit z initializeru.");
}

#[test]
fn what_an_initialiser_may_hold() {
    assert!(parse("class A { init() { return; } }").1.is_empty());
    assert!(parse("class A { init() { fun f() { return 1; } } }").1.is_empty());
    assert!(parse("class A { m() { return 1; } }").1.is_empty());
    assert!(parse("fun init() { return 1; }").1.is_empty());
    assert!(parse("class A { m() { fun f() { return this; } } }").1.is_empty());
    assert!(parse("class A { m() {} } print 1;").1.is_empty());
    assert_eq!(first_error("class A { m() {} } print this;").kind, ParseErrorKind::ThisOutsideClass);
}

#[test]
fn a_token_sequence_without_eof_gets_one() {
    let number = Token { token_type: TokenType::Number, lexeme: "1".to_string(), literal: Value::Number(0), line: 4 };
    let semicolon = Token { token_type: TokenType::Semicolon, lexeme: ";".to_string(), literal: Value::Nil, line: 4 };
    let mut parser = Parser::new(vec![number, semicolon]);
    assert_eq!(parser.tokens.len(), 3);
    assert_eq!(parser.tokens[2].token_type, TokenType::EOF);
    assert_eq!(parser.tokens[2].line, 4);
    let (statements, errors) = parser.parse();
    assert_eq!(statements.len(), 1);
    assert!(errors.is_empty());

    let mut empty = Parser::new(Vec::new());
    assert_eq!(empty.tokens.len(), 1);
    assert_eq!(empty.tokens[0].line, 1);
    let (statements, errors) = empty.parse();
    assert!(statements.is_empty() && errors.is_empty());
}

#[test]
fn empty_program() {
    let (statements, errors) = parse("");
    assert!(statements.is_empty());
    assert!(errors.is_empty());
    let (statements, errors) = parse("// nothing\n");
    assert!(statements.is_empty());
    assert!(errors.is_empty());
}
