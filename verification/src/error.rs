//! Runtime errors.

use vstd::prelude::*;
use crate::grammar::{ParseError, ParseErrorKind};
use crate::token::Token;

verus! {

/// What went wrong while evaluating.
#[derive(Clone, Copy, Debug, PartialEq, Eq)]
pub enum RuntimeErrorKind {
    /// A comparison of anything but two numbers.
    CompareOperands,
    /// A subtraction of anything but two numbers.
    SubtractOperands,
    /// An addition of anything but two numbers or two strings.
    AddOperands,
    /// A division by a zero of either sign.
    DivideByZero,
    /// A division of anything but two numbers.
    DivideOperands,
    /// A multiplication of anything but two numbers.
    MultiplyOperands,
    /// A binary or unary node with a token that is no operator.
    UnknownOperator,
    /// A negation of anything but a number.
    NegateOperand,
    /// A name that no frame along the chain binds.
    UndefinedVariable,
    /// A call with another number of arguments than the callee takes.
    WrongArity(usize, usize),
    /// A call of anything but a function or a class.
    NotCallable,
    /// A property read on anything but an instance.
    NoProperties,
    /// A property written on anything but an instance.
    NoFields,
    /// A property that is neither a field nor a method.
    UndefinedProperty,
    /// A `super` access to a method that the superclass lacks.
    UnknownSuperMethod,
    /// An initialiser that ends where no `this` is visible.
    InitializerWithoutThis,
    /// A `super` access where `this` is no instance.
    MissingThis,
    /// A `super` access where `super` is no class.
    MissingSuper,
    /// A class that names itself as its superclass.
    InheritFromSelf,
    /// A superclass that is no class.
    SuperclassNotClass,
}

/// A runtime error: what went wrong, the token to report it at, and the name
/// that its message quotes.
#[derive(Debug)]
pub struct RuntimeError {
    pub kind: RuntimeErrorKind,
    /// The token whose line the error is reported on.
    pub token: Token,
    /// The name of the variable, property or method that the error is about.
    /// For most errors it is the lexeme of `token`; an unknown method of a
    /// superclass is reported at `super` and names the method.
    pub name: String,
}

/// The error of the given kind at a token, about the token's own lexeme.
pub open spec fn error_at(kind: RuntimeErrorKind, token: Token) -> RuntimeError {
    RuntimeError { kind, token, name: token.lexeme }
}

/// The character of a decimal digit.
pub open spec fn digit_char(digit: nat) -> char {
    if digit == 0 {
        '0'
    } else if digit == 1 {
        '1'
    } else if digit == 2 {
        '2'
    } else if digit == 3 {
        '3'
    } else if digit == 4 {
        '4'
    } else if digit == 5 {
        '5'
    } else if digit == 6 {
        '6'
    } else if digit == 7 {
        '7'
    } else if digit == 8 {
        '8'
    } else {
        '9'
    }
}

/// A number in decimal, without leading zeros.
pub open spec fn decimal_of(n: nat) -> Seq<char>
    decreases n,
{
    if n < 10 {
        seq![digit_char(n)]
    } else {
        decimal_of(n / 10).push(digit_char(n % 10))
    }
}

fn digit(d: u64) -> (c: char)
    requires
        d < 10,
    ensures
        c == digit_char(d as nat),
{
    if d == 0 {
        '0'
    } else if d == 1 {
        '1'
    } else if d == 2 {
        '2'
    } else if d == 3 {
        '3'
    } else if d == 4 {
        '4'
    } else if d == 5 {
        '5'
    } else if d == 6 {
        '6'
    } else if d == 7 {
        '7'
    } else if d == 8 {
        '8'
    } else {
        '9'
    }
}

/// Appends `n` in decimal to `text`.
fn append_decimal(text: &mut String, n: u64)
    ensures
        final(text)@ == old(text)@ + decimal_of(n as nat),
    decreases n,
{
    if n < 10 {
        text.push(digit(n));
        assert(text@ =~= old(text)@ + decimal_of(n as nat));
    } else {
        append_decimal(text, n / 10);
        text.push(digit(n % 10));
        assert(text@ =~= old(text)@ + decimal_of(n as nat));
    }
}

/// `n` in decimal.
pub fn decimal(n: u64) -> (text: String)
    ensures
        text@ == decimal_of(n as nat),
{
    let mut text = String::new();
    append_decimal(&mut text, n);
    assert(text@ =~= decimal_of(n as nat));
    text
}

/// The message of a parse error.
pub open spec fn parse_message(kind: ParseErrorKind) -> Seq<char> {
    match kind {
        ParseErrorKind::ExpectClassName => "Ocekavam nazev tridy."@,
        ParseErrorKind::ExpectSuperclassName => "Ocekavam nazev supertridy."@,
        ParseErrorKind::ExpectClassBody => "Ocekavam '{' pred zacatkem tela tridy."@,
        ParseErrorKind::ExpectClassEnd => "Ocekavam '}' po tele tridy."@,
        ParseErrorKind::ExpectIfParen => "Ocekavam '(' po 'if'."@,
        ParseErrorKind::ExpectIfClose => "Ocekavam ')' na konci podminky."@,
        ParseErrorKind::ExpectForParen => "Ocekavam '(' po 'for'."@,
        ParseErrorKind::ExpectForConditionEnd => "Ocekavam ';' po podmince smycky."@,
        ParseErrorKind::ExpectForClose => "Ocekavam ')' po 'for'."@,
        ParseErrorKind::ExpectPrintEnd => "Ocekevam ';' for vyrazu."@,
        ParseErrorKind::ReturnFromInitializer => "Nemuzu vratit z initializeru."@,
        ParseErrorKind::ExpectReturnEnd => "Ocekavam ';' po hodnote co mam vratit."@,
        ParseErrorKind::ExpectVariableName => "Ocekavam jmeno promenne."@,
        ParseErrorKind::ExpectVariableEnd => "Ocekavam ';' po deklaraci promenne."@,
        ParseErrorKind::ExpectWhileParen => "Ocekavam '(' po while."@,
        ParseErrorKind::ExpectWhileClose => "Ocekavam ')' po podmince."@,
        ParseErrorKind::ExpectExpressionEnd => "Ocekavam ';' po vyrazu."@,
        ParseErrorKind::ExpectFunctionName => "Ocekavam function jmeno."@,
        ParseErrorKind::ExpectMethodName => "Ocekavam method jmeno."@,
        ParseErrorKind::ExpectFunctionParen => "Ocekavam '(' po function jmenu."@,
        ParseErrorKind::ExpectMethodParen => "Ocekavam '(' po method jmenu."@,
        ParseErrorKind::ExpectParameterName => "Ocekavam jmeno parametru."@,
        ParseErrorKind::ExpectParametersEnd => "Ocekavam ')' po parametrech."@,
        ParseErrorKind::ExpectFunctionBody => "Ocekavam '{' pred function telem funkce."@,
        ParseErrorKind::ExpectMethodBody => "Ocekavam '{' pred method telem funkce."@,
        ParseErrorKind::ExpectBlockEnd => "Expect '}' after block."@,
        ParseErrorKind::InvalidAssignmentTarget => "invalid assignment target"@,
        ParseErrorKind::ExpectPropertyName => "Ocekavam jmeno property po '.'."@,
        ParseErrorKind::ExpectArgumentsEnd => "Ocekavam '(' po argumentech funkce."@,
        ParseErrorKind::ExpectExpression => "Expect expression."@,
        ParseErrorKind::ExpectGroupingEnd => "Expect ')' after expression."@,
        ParseErrorKind::ExpectSuperDot => "Expect '.' after 'super'."@,
        ParseErrorKind::ExpectSuperMethod => "Expect superclass method name."@,
        ParseErrorKind::ThisOutsideClass => "Can't use 'this' outside of a class."@,
        ParseErrorKind::SuperOutsideSubclass => "Can't use 'super' outside of a subclass."@,
    }
}

/// The message of a runtime error about `name`.
pub open spec fn runtime_message(kind: RuntimeErrorKind, name: Seq<char>) -> Seq<char> {
    match kind {
        RuntimeErrorKind::CompareOperands => "Lze porovnat jen 2 cisla."@,
        RuntimeErrorKind::SubtractOperands => "Lze odecist jen 2 cisla."@,
        RuntimeErrorKind::AddOperands => "Lze spojit/secist jen dva retezce/cisla."@,
        RuntimeErrorKind::DivideByZero => "Nelze delit nulou."@,
        RuntimeErrorKind::DivideOperands => "Lze delit jen 2 cisla."@,
        RuntimeErrorKind::MultiplyOperands => "Lze nasobit jen 2 cisla."@,
        RuntimeErrorKind::UnknownOperator => "Neznama operace."@,
        RuntimeErrorKind::NegateOperand => "Jsou mozna jen zaporna cisla."@,
        RuntimeErrorKind::NotCallable => "Lze volat jen funkce a tridy."@,
        RuntimeErrorKind::NoProperties => "Jen instance maji vlastnosti."@,
        RuntimeErrorKind::NoFields => "Jen instance maji pole."@,
        RuntimeErrorKind::MissingThis => "Zde melo byt this."@,
        RuntimeErrorKind::MissingSuper => "Chybi super."@,
        RuntimeErrorKind::InheritFromSelf => "Trida nemuze dedit sama sebe."@,
        RuntimeErrorKind::SuperclassNotClass => "superclass must be a class"@,
        RuntimeErrorKind::InitializerWithoutThis => "Undefined variable: 'this'."@,
        RuntimeErrorKind::UndefinedVariable => "Undefined variable: '"@ + name + "'."@,
        RuntimeErrorKind::UndefinedProperty => "Undefined property '"@ + name + "'."@,
        RuntimeErrorKind::UnknownSuperMethod => "Neznama property'"@ + name + "'."@,
        RuntimeErrorKind::WrongArity(expected, given) => "Ocekavano "@ + decimal_of(expected as nat)
            + " argumentu ale bylo zadano "@ + decimal_of(given as nat) + "."@,
    }
}

/// `before`, the text, `after`.
fn wrapped(before: &str, text: &String, after: &str) -> (message: String)
    ensures
        message@ == before@ + text@ + after@,
{
    before.to_owned().concat(text.as_str()).concat(after)
}

impl ParseError {
    /// The message of this error.
    pub fn message(&self) -> (message: String)
        ensures
            message@ == parse_message(self.kind),
    {
        match self.kind {
            ParseErrorKind::ExpectClassName => "Ocekavam nazev tridy.".to_owned(),
            ParseErrorKind::ExpectSuperclassName => "Ocekavam nazev supertridy.".to_owned(),
            ParseErrorKind::ExpectClassBody => "Ocekavam '{' pred zacatkem tela tridy.".to_owned(),
            ParseErrorKind::ExpectClassEnd => "Ocekavam '}' po tele tridy.".to_owned(),
            ParseErrorKind::ExpectIfParen => "Ocekavam '(' po 'if'.".to_owned(),
            ParseErrorKind::ExpectIfClose => "Ocekavam ')' na konci podminky.".to_owned(),
            ParseErrorKind::ExpectForParen => "Ocekavam '(' po 'for'.".to_owned(),
            ParseErrorKind::ExpectForConditionEnd => "Ocekavam ';' po podmince smycky.".to_owned(),
            ParseErrorKind::ExpectForClose => "Ocekavam ')' po 'for'.".to_owned(),
            ParseErrorKind::ExpectPrintEnd => "Ocekevam ';' for vyrazu.".to_owned(),
            ParseErrorKind::ReturnFromInitializer => "Nemuzu vratit z initializeru.".to_owned(),
            ParseErrorKind::ExpectReturnEnd => "Ocekavam ';' po hodnote co mam vratit.".to_owned(),
            ParseErrorKind::ExpectVariableName => "Ocekavam jmeno promenne.".to_owned(),
            ParseErrorKind::ExpectVariableEnd => "Ocekavam ';' po deklaraci promenne.".to_owned(),
            ParseErrorKind::ExpectWhileParen => "Ocekavam '(' po while.".to_owned(),
            ParseErrorKind::ExpectWhileClose => "Ocekavam ')' po podmince.".to_owned(),
            ParseErrorKind::ExpectExpressionEnd => "Ocekavam ';' po vyrazu.".to_owned(),
            ParseErrorKind::ExpectFunctionName => "Ocekavam function jmeno.".to_owned(),
            ParseErrorKind::ExpectMethodName => "Ocekavam method jmeno.".to_owned(),
            ParseErrorKind::ExpectFunctionParen => "Ocekavam '(' po function jmenu.".to_owned(),
            ParseErrorKind::ExpectMethodParen => "Ocekavam '(' po method jmenu.".to_owned(),
            ParseErrorKind::ExpectParameterName => "Ocekavam jmeno parametru.".to_owned(),
            ParseErrorKind::ExpectParametersEnd => "Ocekavam ')' po parametrech.".to_owned(),
            ParseErrorKind::ExpectFunctionBody => "Ocekavam '{' pred function telem funkce.".to_owned(),
            ParseErrorKind::ExpectMethodBody => "Ocekavam '{' pred method telem funkce.".to_owned(),
            ParseErrorKind::ExpectBlockEnd => "Expect '}' after block.".to_owned(),
            ParseErrorKind::InvalidAssignmentTarget => "invalid assignment target".to_owned(),
            ParseErrorKind::ExpectPropertyName => "Ocekavam jmeno property po '.'.".to_owned(),
            ParseErrorKind::ExpectArgumentsEnd => "Ocekavam '(' po argumentech funkce.".to_owned(),
            ParseErrorKind::ExpectExpression => "Expect expression.".to_owned(),
            ParseErrorKind::ExpectGroupingEnd => "Expect ')' after expression.".to_owned(),
            ParseErrorKind::ExpectSuperDot => "Expect '.' after 'super'.".to_owned(),
            ParseErrorKind::ExpectSuperMethod => "Expect superclass method name.".to_owned(),
            ParseErrorKind::ThisOutsideClass => "Can't use 'this' outside of a class.".to_owned(),
            ParseErrorKind::SuperOutsideSubclass => "Can't use 'super' outside of a subclass.".to_owned(),
        }
    }
}

impl RuntimeError {
    /// The error of the given kind at a token, about the token's own lexeme.
    pub fn at(kind: RuntimeErrorKind, token: Token) -> (error: Self)
        ensures
            error == error_at(kind, token),
    {
        let name = token.lexeme.clone();
        RuntimeError { kind, token, name }
    }

    /// The message of this error.
    pub fn message(&self) -> (message: String)
        ensures
            message@ == runtime_message(self.kind, self.name@),
    {
        match self.kind {
            RuntimeErrorKind::CompareOperands => "Lze porovnat jen 2 cisla.".to_owned(),
            RuntimeErrorKind::SubtractOperands => "Lze odecist jen 2 cisla.".to_owned(),
            RuntimeErrorKind::AddOperands => "Lze spojit/secist jen dva retezce/cisla.".to_owned(),
            RuntimeErrorKind::DivideByZero => "Nelze delit nulou.".to_owned(),
            RuntimeErrorKind::DivideOperands => "Lze delit jen 2 cisla.".to_owned(),
            RuntimeErrorKind::MultiplyOperands => "Lze nasobit jen 2 cisla.".to_owned(),
            RuntimeErrorKind::UnknownOperator => "Neznama operace.".to_owned(),
            RuntimeErrorKind::NegateOperand => "Jsou mozna jen zaporna cisla.".to_owned(),
            RuntimeErrorKind::NotCallable => "Lze volat jen funkce a tridy.".to_owned(),
            RuntimeErrorKind::NoProperties => "Jen instance maji vlastnosti.".to_owned(),
            RuntimeErrorKind::NoFields => "Jen instance maji pole.".to_owned(),
            RuntimeErrorKind::MissingThis => "Zde melo byt this.".to_owned(),
            RuntimeErrorKind::MissingSuper => "Chybi super.".to_owned(),
            RuntimeErrorKind::InheritFromSelf => "Trida nemuze dedit sama sebe.".to_owned(),
            RuntimeErrorKind::SuperclassNotClass => "superclass must be a class".to_owned(),
            RuntimeErrorKind::InitializerWithoutThis => "Undefined variable: 'this'.".to_owned(),
            RuntimeErrorKind::UndefinedVariable => wrapped("Undefined variable: '", &self.name, "'."),
            RuntimeErrorKind::UndefinedProperty => wrapped("Undefined property '", &self.name, "'."),
            RuntimeErrorKind::UnknownSuperMethod => wrapped("Neznama property'", &self.name, "'."),
            RuntimeErrorKind::WrongArity(expected, given) => {
                let first = wrapped("Ocekavano ", &decimal(expected as u64), " argumentu ale bylo zadano ");
                first.concat(decimal(given as u64).as_str()).concat(".")
            },
        }
    }
}

} // verus!
