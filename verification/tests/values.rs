use moon::error::{decimal, RuntimeError, RuntimeErrorKind};
use moon::expressions::{is_equal, is_truth, Binary, Literal, Logical, Operation, Outcome, Unary};
use moon::list::List;
use moon::moonenv::Environment;
use moon::table::Table;
use moon::token::{Token, TokenType};
use moon::value::{bits_eq, bits_is_nan, bits_is_zero, bits_le, bits_lt, bits_neg, Class, InstanceValue, Value};

fn samples() -> Vec<f64> {
    vec![
        0.0,
        -0.0,
        1.0,
        -1.0,
        0.5,
        -0.5,
        2.0,
        1e300,
        -1e300,
        5e-324,
        -5e-324,
        f64::MAX,
        f64::MIN,
        f64::INFINITY,
        f64::NEG_INFINITY,
        f64::NAN,
        -f64::NAN,
        f64::from_bits(0x7ff0_0000_0000_0001),
        f64::from_bits(0xfff8_0000_0000_0001),
        f64::from_bits(u64::MAX),
        3.141592653589793,
    ]
}

fn token(kind: TokenType, lexeme: &str) -> Token {
    Token { token_type: kind, lexeme: lexeme.to_string(), literal: Value::Nil, line: 1 }
}

fn num(x: f64) -> Value {
    Value::Number(x.to_bits())
}

#[test]
fn number_comparisons_agree_with_the_hardware() {
    for a in samples() {
        assert_eq!(bits_is_nan(a.to_bits()), a.is_nan(), "{:?}", a);
        assert_eq!(bits_is_zero(a.to_bits()), a == 0.0, "{:?}", a);
        assert_eq!(bits_neg(a.to_bits()), (-a).to_bits(), "{:?}", a);
        for b in samples() {
            assert_eq!(bits_eq(a.to_bits(), b.to_bits()), a == b, "{:?} == {:?}", a, b);
            assert_eq!(bits_lt(a.to_bits(), b.to_bits()), a < b, "{:?} < {:?}", a, b);
            assert_eq!(bits_le(a.to_bits(), b.to_bits()), a <= b, "{:?} <= {:?}", a, b);
        }
    }
}

#[test]
fn zero_equals_negative_zero_and_nan_nothing() {
    assert!(bits_eq(0f64.to_bits(), (-0f64).to_bits()));
    assert!(!bits_lt((-0f64).to_bits(), 0f64.to_bits()));
    assert!(bits_le((-0f64).to_bits(), 0f64.to_bits()));
    assert!(!bits_eq(f64::NAN.to_bits(), f64::NAN.to_bits()));
    assert!(!bits_le(f64::NAN.to_bits(), f64::NAN.to_bits()));
}

#[test]
fn value_equality() {
    assert_eq!(Value::String("a".to_string()), Value::String("a".to_string()));
    assert_ne!(Value::String("a".to_string()), Value::String("b".to_string()));
    assert_eq!(num(1.0), num(1.0));
    assert_eq!(num(0.0), num(-0.0));
    assert_ne!(num(f64::NAN), num(f64::NAN));
    assert_eq!(Value::Bool(true), Value::Bool(true));
    assert_ne!(Value::Bool(true), Value::Bool(false));
    assert_eq!(Value::Nil, Value::Nil);
    assert_eq!(Value::Function(3), Value::Function(3));
    assert_ne!(Value::Function(3), Value::Function(4));
    assert_eq!(Value::Class(1), Value::Class(1));
    assert_ne!(Value::Class(1), Value::Class(2));
    assert_eq!(Value::Instance(0), Value::Instance(0));
    assert_ne!(Value::Instance(0), Value::Instance(1));
    assert_ne!(Value::Nil, Value::Bool(false));
    assert_ne!(num(0.0), Value::Bool(false));
    assert_ne!(Value::String("1".to_string()), num(1.0));
    assert_ne!(Value::Function(1), Value::Class(1));
    assert_ne!(Value::Class(1), Value::Instance(1));
}

#[test]
fn truthiness() {
    assert!(!Value::Nil.is_truthy());
    assert!(!Value::Bool(false).is_truthy());
    assert!(Value::Bool(true).is_truthy());
    assert!(num(0.0).is_truthy());
    assert!(Value::String(String::new()).is_truthy());
    assert!(Value::Function(0).is_truthy());
    assert_eq!(is_truth(&Value::Nil, false), Value::Bool(false));
    assert_eq!(is_truth(&Value::Nil, true), Value::Bool(true));
    assert_eq!(is_truth(&num(0.0), false), Value::Bool(true));
    assert_eq!(is_truth(&num(0.0), true), Value::Bool(false));
    assert_eq!(is_truth(&Value::Bool(false), true), Value::Bool(true));
}

#[test]
fn equality_rule() {
    assert_eq!(is_equal(&num(1.0), &num(1.0), false), Value::Bool(true));
    assert_eq!(is_equal(&num(1.0), &num(1.0), true), Value::Bool(false));
    assert_eq!(is_equal(&num(1.0), &Value::Nil, false), Value::Bool(false));
    assert_eq!(is_equal(&num(1.0), &Value::Nil, true), Value::Bool(true));
}

#[test]
fn value_clone_is_equal() {
    for value in [
        Value::String("x".to_string()),
        num(2.5),
        Value::Bool(true),
        Value::Nil,
        Value::Function(1),
        Value::Class(2),
        Value::Instance(3),
    ] {
        assert_eq!(value.clone(), value);
    }
}

fn outcome(kind: TokenType, left: Value, right: Value) -> Outcome {
    Binary::evaluate(&token(kind, "?"), &left, &right)
}

#[test]
fn binary_comparisons() {
    assert!(matches!(outcome(TokenType::Less, num(1.0), num(2.0)), Outcome::Value(Value::Bool(true))));
    assert!(matches!(outcome(TokenType::Less, num(2.0), num(2.0)), Outcome::Value(Value::Bool(false))));
    assert!(matches!(outcome(TokenType::LessEqual, num(2.0), num(2.0)), Outcome::Value(Value::Bool(true))));
    assert!(matches!(outcome(TokenType::Greater, num(3.0), num(2.0)), Outcome::Value(Value::Bool(true))));
    assert!(matches!(outcome(TokenType::Greater, num(2.0), num(3.0)), Outcome::Value(Value::Bool(false))));
    assert!(matches!(outcome(TokenType::GreaterEqual, num(2.0), num(3.0)), Outcome::Value(Value::Bool(false))));
    assert!(matches!(outcome(TokenType::GreaterEqual, num(3.0), num(3.0)), Outcome::Value(Value::Bool(true))));
    assert!(matches!(
        outcome(TokenType::Less, num(1.0), Value::String("a".to_string())),
        Outcome::Fail(RuntimeErrorKind::CompareOperands)
    ));
    assert!(matches!(
        outcome(TokenType::Greater, Value::String("b".to_string()), Value::String("a".to_string())),
        Outcome::Fail(RuntimeErrorKind::CompareOperands)
    ));
}

#[test]
fn binary_equality_never_fails() {
    assert!(matches!(
        outcome(TokenType::EqualEqual, num(1.0), Value::String("a".to_string())),
        Outcome::Value(Value::Bool(false))
    ));
    assert!(matches!(
        outcome(TokenType::BangEqual, num(1.0), Value::String("a".to_string())),
        Outcome::Value(Value::Bool(true))
    ));
    assert!(matches!(outcome(TokenType::EqualEqual, Value::Nil, Value::Nil), Outcome::Value(Value::Bool(true))));
    assert!(matches!(outcome(TokenType::BangEqual, Value::Nil, Value::Nil), Outcome::Value(Value::Bool(false))));
}

#[test]
fn binary_arithmetic_is_asked_of_the_host() {
    let a = 6f64.to_bits();
    let b = 3f64.to_bits();
    assert!(matches!(outcome(TokenType::Plus, num(6.0), num(3.0)), Outcome::Arithmetic(Operation::Add, x, y) if x == a && y == b));
    assert!(matches!(outcome(TokenType::Minus, num(6.0), num(3.0)), Outcome::Arithmetic(Operation::Subtract, x, y) if x == a && y == b));
    assert!(matches!(outcome(TokenType::Star, num(6.0), num(3.0)), Outcome::Arithmetic(Operation::Multiply, x, y) if x == a && y == b));
    assert!(matches!(outcome(TokenType::Slash, num(6.0), num(3.0)), Outcome::Arithmetic(Operation::Divide, x, y) if x == a && y == b));
}

#[test]
fn binary_errors() {
    assert!(matches!(outcome(TokenType::Slash, num(6.0), num(0.0)), Outcome::Fail(RuntimeErrorKind::DivideByZero)));
    assert!(matches!(outcome(TokenType::Slash, num(6.0), num(-0.0)), Outcome::Fail(RuntimeErrorKind::DivideByZero)));
    assert!(matches!(outcome(TokenType::Slash, num(6.0), Value::Nil), Outcome::Fail(RuntimeErrorKind::DivideOperands)));
    assert!(matches!(outcome(TokenType::Star, Value::Nil, num(6.0)), Outcome::Fail(RuntimeErrorKind::MultiplyOperands)));
    assert!(matches!(outcome(TokenType::Minus, Value::Bool(true), num(6.0)), Outcome::Fail(RuntimeErrorKind::SubtractOperands)));
    assert!(matches!(
        outcome(TokenType::Plus, num(1.0), Value::String("a".to_string())),
        Outcome::Fail(RuntimeErrorKind::AddOperands)
    ));
    assert!(matches!(
        outcome(TokenType::Minus, Value::String("b".to_string()), Value::String("a".to_string())),
        Outcome::Fail(RuntimeErrorKind::SubtractOperands)
    ));
    assert!(matches!(outcome(TokenType::Comma, num(1.0), num(2.0)), Outcome::Fail(RuntimeErrorKind::UnknownOperator)));
    assert!(matches!(outcome(TokenType::Comma, Value::Nil, num(2.0)), Outcome::Fail(RuntimeErrorKind::UnknownOperator)));
}

#[test]
fn binary_plus_joins_strings() {
    match outcome(TokenType::Plus, Value::String("foo".to_string()), Value::String("bar".to_string())) {
        Outcome::Join(a, b) => {
            assert_eq!(a, "foo");
            assert_eq!(b, "bar");
        }
        other => panic!("{:?}", other),
    }
}

#[test]
fn unary_rules() {
    assert_eq!(Unary::evaluate(&token(TokenType::Minus, "-"), &num(2.0)), Ok(num(-2.0)));
    assert_eq!(Unary::evaluate(&token(TokenType::Minus, "-"), &num(0.0)), Ok(Value::Number((-0f64).to_bits())));
    assert_eq!(
        Unary::evaluate(&token(TokenType::Minus, "-"), &Value::String("a".to_string())),
        Err(RuntimeErrorKind::NegateOperand)
    );
    assert_eq!(Unary::evaluate(&token(TokenType::Bang, "!"), &Value::Nil), Ok(Value::Bool(true)));
    assert_eq!(Unary::evaluate(&token(TokenType::Bang, "!"), &num(0.0)), Ok(Value::Bool(false)));
    assert_eq!(Unary::evaluate(&token(TokenType::Bang, "!"), &Value::Bool(false)), Ok(Value::Bool(true)));
    assert_eq!(Unary::evaluate(&token(TokenType::Plus, "+"), &num(1.0)), Err(RuntimeErrorKind::UnknownOperator));
}

#[test]
fn logical_rules() {
    let or = token(TokenType::Or, "or");
    let and = token(TokenType::And, "and");
    assert!(Logical::evaluate(&or, &Value::Bool(true)));
    assert!(!Logical::evaluate(&or, &Value::Bool(false)));
    assert!(!Logical::evaluate(&or, &Value::Nil));
    assert!(Logical::evaluate(&or, &num(0.0)));
    assert!(Logical::evaluate(&and, &Value::Bool(false)));
    assert!(Logical::evaluate(&and, &Value::Nil));
    assert!(!Logical::evaluate(&and, &Value::Bool(true)));
    assert!(!Logical::evaluate(&and, &Value::String(String::new())));
}

#[test]
fn literal_rule() {
    assert_eq!(Literal { value: num(4.0) }.evaluate(), num(4.0));
    assert_eq!(Literal { value: Value::String("s".to_string()) }.evaluate(), Value::String("s".to_string()));
}

#[test]
fn table_insert_and_get() {
    let mut table: Table<u64> = Table::new();
    assert_eq!(table.get(&"a".to_string()), None);
    assert!(!table.contains_key(&"a".to_string()));
    table.insert("a".to_string(), 1);
    table.insert("b".to_string(), 2);
    assert_eq!(table.get(&"a".to_string()), Some(&1));
    assert_eq!(table.get(&"b".to_string()), Some(&2));
    table.insert("a".to_string(), 3);
    assert_eq!(table.get(&"a".to_string()), Some(&3));
    assert_eq!(table.get(&"b".to_string()), Some(&2));
    assert_eq!(table.entries.len(), 2);
    assert_eq!(table.position(&"b".to_string()), Some(1));
    assert_eq!(table.position(&"c".to_string()), None);
}

#[test]
fn environment_redefinition_keeps_the_later_value() {
    let mut frame = Environment::new();
    frame.define("x".to_string(), num(1.0));
    frame.define("x".to_string(), num(2.0));
    let frames = vec![frame];
    assert_eq!(Environment::get_by_string(&frames, 0, &"x".to_string()), Some(num(2.0)));
}

#[test]
fn environment_chain() {
    let mut outer = Environment::new();
    outer.define("a".to_string(), num(1.0));
    outer.define("b".to_string(), num(2.0));
    let mut inner = Environment::new_child(0);
    inner.define("a".to_string(), num(10.0));
    inner.define("c".to_string(), num(30.0));
    let mut frames = vec![outer, inner];
    assert_eq!(Environment::get_by_string(&frames, 1, &"a".to_string()), Some(num(10.0)));
    assert_eq!(Environment::get_by_string(&frames, 1, &"b".to_string()), Some(num(2.0)));
    assert_eq!(Environment::get_by_string(&frames, 1, &"c".to_string()), Some(num(30.0)));
    assert_eq!(Environment::get_by_string(&frames, 0, &"a".to_string()), Some(num(1.0)));
    assert_eq!(Environment::get_by_string(&frames, 0, &"c".to_string()), None);
    assert_eq!(Environment::get_by_string(&frames, 1, &"d".to_string()), None);
    assert_eq!(Environment::find(&frames, 1, &"b".to_string()), Some(0));
    assert_eq!(Environment::find(&frames, 1, &"a".to_string()), Some(1));
    assert_eq!(Environment::find(&frames, 7, &"a".to_string()), None);

    assert!(Environment::assign(&mut frames, 1, &token(TokenType::Identifier, "b"), num(20.0)));
    assert_eq!(Environment::get_by_string(&frames, 0, &"b".to_string()), Some(num(20.0)));
    assert_eq!(Environment::get_by_string(&frames, 1, &"b".to_string()), Some(num(20.0)));
    assert!(Environment::assign(&mut frames, 1, &token(TokenType::Identifier, "a"), num(11.0)));
    assert_eq!(Environment::get_by_string(&frames, 0, &"a".to_string()), Some(num(1.0)));
    assert_eq!(Environment::get_by_string(&frames, 1, &"a".to_string()), Some(num(11.0)));
    assert!(!Environment::assign(&mut frames, 1, &token(TokenType::Identifier, "zz"), num(0.0)));
    assert_eq!(Environment::get_by_string(&frames, 1, &"zz".to_string()), None);

    Environment::define_in(&mut frames, 0, "n".to_string(), Value::Nil);
    assert_eq!(Environment::get_by_string(&frames, 1, &"n".to_string()), Some(Value::Nil));
    Environment::define_in(&mut frames, 9, "m".to_string(), Value::Nil);
    assert_eq!(frames.len(), 2);
}

#[test]
fn instance_fields() {
    let mut instance = InstanceValue { class: 0, fields: Table::new() };
    assert_eq!(instance.get_value(&token(TokenType::Identifier, "x")), None);
    instance.set_value("x".to_string(), num(1.0));
    instance.set_value("x".to_string(), num(2.0));
    assert_eq!(instance.get_value(&token(TokenType::Identifier, "x")), Some(num(2.0)));
}

#[test]
fn methods_are_found_up_the_chain() {
    let mut base = Class { name: "A".to_string(), arity: 0, methods: Table::new(), super_class: None };
    base.methods.insert("m".to_string(), 5);
    base.methods.insert("n".to_string(), 6);
    let mut derived = Class { name: "B".to_string(), arity: 0, methods: Table::new(), super_class: Some(0) };
    derived.methods.insert("m".to_string(), 7);
    let classes = vec![base, derived];
    assert_eq!(Class::find_method(&classes, 1, &"m".to_string()), Some(7));
    assert_eq!(Class::find_method(&classes, 1, &"n".to_string()), Some(6));
    assert_eq!(Class::find_method(&classes, 0, &"m".to_string()), Some(5));
    assert_eq!(Class::find_method(&classes, 1, &"o".to_string()), None);
    assert_eq!(Class::find_method(&classes, 4, &"m".to_string()), None);
}

#[test]
fn lists() {
    let list = List::from_vec(vec![1, 2, 3]);
    assert_eq!(list.len(), 3);
    match &*list {
        List::Cons(head, tail) => {
            assert_eq!(*head, 1);
            assert_eq!(tail.len(), 2);
        }
        List::Nil => panic!("empty"),
    }
    let none: std::rc::Rc<List<u8>> = List::from_vec(Vec::new());
    assert!(matches!(&*none, List::Nil));
    assert_eq!(List::<u8>::empty().len(), 0);
    assert_eq!(List::cons(9u8, List::empty()).len(), 1);
}

#[test]
fn decimals() {
    assert_eq!(decimal(0), "0");
    assert_eq!(decimal(7), "7");
    assert_eq!(decimal(10), "10");
    assert_eq!(decimal(1234567890), "1234567890");
    assert_eq!(decimal(u64::MAX), "18446744073709551615");
}

#[test]
fn runtime_messages() {
    let error = |kind, lexeme: &str| RuntimeError::at(kind, token(TokenType::Identifier, lexeme));
    assert_eq!(error(RuntimeErrorKind::UndefinedVariable, "z").message(), "Undefined variable: 'z'.");
    assert_eq!(error(RuntimeErrorKind::UndefinedProperty, "p").message(), "Undefined property 'p'.");
    assert_eq!(error(RuntimeErrorKind::UnknownSuperMethod, "m").message(), "Neznama property'm'.");
    assert_eq!(error(RuntimeErrorKind::InitializerWithoutThis, "init").message(), "Undefined variable: 'this'.");
    assert_eq!(
        error(RuntimeErrorKind::WrongArity(2, 13), ")").message(),
        "Ocekavano 2 argumentu ale bylo zadano 13."
    );
    assert_eq!(error(RuntimeErrorKind::DivideByZero, "/").message(), "Nelze delit nulou.");
    assert_eq!(error(RuntimeErrorKind::AddOperands, "+").message(), "Lze spojit/secist jen dva retezce/cisla.");
    assert_eq!(error(RuntimeErrorKind::CompareOperands, "<").message(), "Lze porovnat jen 2 cisla.");
    assert_eq!(error(RuntimeErrorKind::SubtractOperands, "-").message(), "Lze odecist jen 2 cisla.");
    assert_eq!(error(RuntimeErrorKind::DivideOperands, "/").message(), "Lze delit jen 2 cisla.");
    assert_eq!(error(RuntimeErrorKind::MultiplyOperands, "*").message(), "Lze nasobit jen 2 cisla.");
    assert_eq!(error(RuntimeErrorKind::UnknownOperator, ",").message(), "Neznama operace.");
    assert_eq!(error(RuntimeErrorKind::NegateOperand, "-").message(), "Jsou mozna jen zaporna cisla.");
    assert_eq!(error(RuntimeErrorKind::NotCallable, ")").message(), "Lze volat jen funkce a tridy.");
    assert_eq!(error(RuntimeErrorKind::NoProperties, "x").message(), "Jen instance maji vlastnosti.");
    assert_eq!(error(RuntimeErrorKind::NoFields, "x").message(), "Jen instance maji pole.");
    assert_eq!(error(RuntimeErrorKind::MissingThis, "super").message(), "Zde melo byt this.");
    assert_eq!(error(RuntimeErrorKind::MissingSuper, "super").message(), "Chybi super.");
    assert_eq!(error(RuntimeErrorKind::InheritFromSelf, "A").message(), "Trida nemuze dedit sama sebe.");
    assert_eq!(error(RuntimeErrorKind::SuperclassNotClass, "A").message(), "superclass must be a class");
}

#[test]
fn undefined_variable_is_reported_at_its_name() {
    let mut frame = Environment::new();
    frame.define("a".to_string(), num(1.0));
    let frames = vec![frame];
    assert_eq!(Environment::get(&frames, 0, &token(TokenType::Identifier, "a")).unwrap(), num(1.0));
    let error = Environment::get(&frames, 0, &token(TokenType::Identifier, "b")).unwrap_err();
    assert_eq!(error.kind, RuntimeErrorKind::UndefinedVariable);
    assert_eq!(error.token.lexeme, "b");
    assert_eq!(error.message(), "Undefined variable: 'b'.");
}

#[test]
fn an_error_at_a_token_is_about_its_lexeme() {
    let error = RuntimeError::at(RuntimeErrorKind::UndefinedVariable, token(TokenType::Identifier, "x"));
    assert_eq!(error.kind, RuntimeErrorKind::UndefinedVariable);
    assert_eq!(error.token.lexeme, "x");
    assert_eq!(error.name, "x");
}

#[test]
fn an_unknown_super_method_is_named_apart_from_its_token() {
    let error = RuntimeError {
        kind: RuntimeErrorKind::UnknownSuperMethod,
        token: Token { token_type: TokenType::Super, lexeme: "super".to_string(), literal: Value::Nil, line: 3 },
        name: "missing".to_string(),
    };
    assert_eq!(error.message(), "Neznama property'missing'.");
    assert_eq!(error.token.line, 3);
}
