//! The driver: source text in, diagnostics and a loaded machine out.
//!
//! Nothing here reads or writes. Each function returns the lines that the
//! caller is to write to standard error; the caller then runs the machine.

use vstd::prelude::*;
use crate::error::{decimal, decimal_of, parse_message, runtime_message, RuntimeError};
use crate::grammar::{program, ParseError};
use crate::interpreter::Interpreter;
use crate::list::list_of;
use crate::machine::initial;
use crate::parser::Parser;
use crate::scanner::{errors_of, token_fits, tokens_of, Scanner};
use crate::token::{Token, TokenType};

verus! {

/// One run of the pipeline after another, over one machine.
pub struct Moon {
    /// Whether a scan or parse error has been reported.
    pub had_error: bool,
    /// Whether a runtime error has been reported.
    pub had_runtime_error: bool,
    pub interpreter: Interpreter,
}

/// The line that reports a scan or parse error.
pub open spec fn report_line(line: u64, where_error: Seq<char>, message: Seq<char>) -> Seq<char> {
    "[line "@ + decimal_of(line as nat) + "] Error "@ + where_error + ": "@ + message
}

/// Where a parse error is: at the end, or at a lexeme.
pub open spec fn parse_where(token: Token) -> Seq<char> {
    if token.token_type == TokenType::EOF {
        "at end"@
    } else {
        "at '"@ + token.lexeme@ + "'"@
    }
}

/// The two lines that report a runtime error: the message, and the line of
/// its token.
pub open spec fn runtime_lines(error: RuntimeError) -> Seq<char> {
    runtime_message(error.kind, error.name@) + "\n[line "@ + decimal_of(error.token.line as nat) + "]"@
}

/// The texts of a sequence of strings.
pub open spec fn texts(lines: Seq<String>) -> Seq<Seq<char>> {
    Seq::new(lines.len(), |i: int| lines[i]@)
}

/// The lines that report scan errors.
pub open spec fn scan_report(errors: Seq<(u64, Seq<char>)>) -> Seq<Seq<char>> {
    Seq::new(errors.len(), |i: int| report_line(errors[i].0, Seq::empty(), errors[i].1))
}

/// The lines that report parse errors.
pub open spec fn parse_report(errors: Seq<ParseError>) -> Seq<Seq<char>> {
    Seq::new(
        errors.len(),
        |i: int|
            report_line(errors[i].token.line, parse_where(errors[i].token), parse_message(errors[i].kind)),
    )
}

impl Moon {
    /// A driver without errors, over a new machine.
    pub fn new() -> (moon: Self)
        ensures
            !moon.had_error,
            !moon.had_runtime_error,
            moon.interpreter@ == initial(),
    {
        Moon { had_error: false, had_runtime_error: false, interpreter: Interpreter::new() }
    }

    /// Scans and parses `source` and loads the program into the machine.
    /// Returns the lines that report the scan and parse errors. With
    /// `quit_on_error`, nothing is parsed after a scan error and nothing is
    /// loaded after any error. `number` turns the lexeme of a number literal
    /// into the number's bits.
    pub fn run<F: Fn(&String) -> u64>(&mut self, source: String, quit_on_error: bool, number: &F) -> (lines:
        Vec<String>)
        requires
            forall|lexeme: &String| number.requires((lexeme,)),
        ensures
            exists|tokens: Seq<Token>|
                {
                    &&& tokens.len() == tokens_of(source@).len()
                    &&& forall|i: int|
                        0 <= i < tokens.len() ==> token_fits(
                            #[trigger] tokens[i],
                            tokens_of(source@)[i],
                            source@,
                            number,
                        )
                    &&& final(self).ran(*old(self), errors_of(source@), tokens, quit_on_error, lines@)
                },
    {
        let mut scanner = Scanner::new(source);
        let (tokens, errors) = scanner.scan_tokens(number);
        let ghost scanned = tokens@;
        let mut lines: Vec<String> = Vec::new();
        let mut i: usize = 0;
        while i < errors.len()
            invariant
                i <= errors@.len(),
                errors@.len() == errors_of(source@).len(),
                forall|k: int|
                    0 <= k < errors@.len() ==> (#[trigger] errors@[k]).0 == errors_of(source@)[k].0
                        && errors@[k].1@ == errors_of(source@)[k].1,
                texts(lines@) == scan_report(errors_of(source@)).take(i as int),
                self.had_runtime_error == old(self).had_runtime_error,
                self.interpreter == old(self).interpreter,
                self.had_error == (old(self).had_error || i > 0),
            decreases errors@.len() - i,
        {
            let line = self.error(errors[i].0, errors[i].1.clone());
            let ghost before = lines@;
            lines.push(line);
            proof {
                let all = scan_report(errors_of(source@));
                assert(errors@[i as int].1@ == errors_of(source@)[i as int].1);
                assert(texts(lines@) =~= texts(before).push(line@));
                assert(all.take(i + 1) =~= all.take(i as int).push(all[i as int]));
            }
            i = i + 1;
        }
        assert(scan_report(errors_of(source@)).take(i as int) =~= scan_report(errors_of(source@)));
        self.load(tokens, quit_on_error, &mut lines);
        assert(self.ran(*old(self), errors_of(source@), scanned, quit_on_error, lines@));
        lines
    }

    /// Whether this driver is what `before` becomes by a run that scanned
    /// `tokens` with the scan errors `scan_errors`, and `lines` are the lines
    /// that the run reports.
    pub open spec fn ran(
        self,
        before: Moon,
        scan_errors: Seq<(u64, Seq<char>)>,
        tokens: Seq<Token>,
        quit_on_error: bool,
        lines: Seq<String>,
    ) -> bool {
        let scanned = Moon {
            had_error: before.had_error || scan_errors.len() > 0,
            had_runtime_error: before.had_runtime_error,
            interpreter: before.interpreter,
        };
        self.loaded(scanned, tokens, quit_on_error, scan_report(scan_errors), lines)
    }

    /// Whether this driver is what `before` becomes by parsing `tokens` and
    /// loading the program, and `lines` are `reported` followed by the lines
    /// that report the parse errors.
    pub open spec fn loaded(
        self,
        before: Moon,
        tokens: Seq<Token>,
        quit_on_error: bool,
        reported: Seq<Seq<char>>,
        lines: Seq<String>,
    ) -> bool {
        if quit_on_error && (before.had_error || before.had_runtime_error) {
            self == before && texts(lines) == reported
        } else {
            let parsed = program(tokens, 0);
            let failed = before.had_error || parsed.errors.len() > 0;
            &&& texts(lines) == reported + parse_report(parsed.errors)
            &&& self.had_error == failed
            &&& self.had_runtime_error == before.had_runtime_error
            &&& if quit_on_error && (failed || before.had_runtime_error) {
                self.interpreter == before.interpreter
            } else {
                self.interpreter@ == before.interpreter@.load(list_of(parsed.statements))
            }
        }
    }

    /// Parses `tokens` and loads the program into the machine; appends the
    /// lines that report the parse errors to `lines`. With `quit_on_error`,
    /// does nothing after an earlier error and loads nothing after a parse
    /// error.
    pub fn load(&mut self, tokens: Vec<Token>, quit_on_error: bool, lines: &mut Vec<String>)
        requires
            tokens@.len() > 0,
            tokens@.last().token_type == TokenType::EOF,
        ensures
            final(self).loaded(*old(self), tokens@, quit_on_error, texts(old(lines)@), final(lines)@),
    {
        if quit_on_error && (self.had_error || self.had_runtime_error) {
            return ;
        }
        let mut parser = Parser::new(tokens);
        let (statements, errors) = parser.parse();
        let ghost reported = texts(lines@);
        let ghost parsed = program(tokens@, 0);
        let mut i: usize = 0;
        while i < errors.len()
            invariant
                i <= errors@.len(),
                errors@ == parsed.errors,
                texts(lines@) == reported + parse_report(parsed.errors).take(i as int),
                self.had_runtime_error == old(self).had_runtime_error,
                self.interpreter == old(self).interpreter,
                self.had_error == (old(self).had_error || i > 0),
            decreases errors@.len() - i,
        {
            let message = errors[i].message();
            let line = self.error_parse(&errors[i].token, message.as_str());
            let ghost before = lines@;
            lines.push(line);
            proof {
                let all = parse_report(parsed.errors);
                assert(texts(lines@) =~= texts(before).push(line@));
                assert(all.take(i + 1) =~= all.take(i as int).push(all[i as int]));
                assert(texts(lines@) =~= reported + all.take(i + 1));
            }
            i = i + 1;
        }
        assert(parse_report(parsed.errors).take(i as int) =~= parse_report(parsed.errors));
        if quit_on_error && (self.had_error || self.had_runtime_error) {
            return ;
        }
        self.interpreter.interpret(statements);
    }

    /// Reports a scan error: returns the line to write, and notes the error.
    pub fn error(&mut self, line: u64, message: String) -> (text: String)
        ensures
            text@ == report_line(line, Seq::empty(), message@),
            final(self).had_error,
            final(self).had_runtime_error == old(self).had_runtime_error,
            final(self).interpreter == old(self).interpreter,
    {
        let text = self.report(line, String::new(), message);
        assert(text@ =~= report_line(line, Seq::empty(), message@));
        text
    }

    /// Reports an error on `line`: returns the line to write,
    /// `[line N] Error WHERE: MESSAGE`, and notes the error.
    pub fn report(&mut self, line: u64, where_error: String, message: String) -> (text: String)
        ensures
            text@ == report_line(line, where_error@, message@),
            final(self).had_error,
            final(self).had_runtime_error == old(self).had_runtime_error,
            final(self).interpreter == old(self).interpreter,
    {
        self.had_error = true;
        "[line ".to_owned().concat(decimal(line).as_str()).concat("] Error ").concat(
            where_error.as_str(),
        ).concat(": ").concat(message.as_str())
    }

    /// Reports a parse error at `token`: at the end for `EOF`, at the lexeme
    /// otherwise.
    pub fn error_parse(&mut self, token: &Token, msg: &str) -> (text: String)
        ensures
            text@ == report_line(token.line, parse_where(*token), msg@),
            final(self).had_error,
            final(self).had_runtime_error == old(self).had_runtime_error,
            final(self).interpreter == old(self).interpreter,
    {
        let place = match token.token_type {
            TokenType::EOF => "at end".to_owned(),
            _ => "at '".to_owned().concat(token.lexeme.as_str()).concat("'"),
        };
        self.report(token.line, place, msg.to_owned())
    }

    /// Reports a runtime error: returns its message and, on a line of its
    /// own, the line of its token; notes the error.
    pub fn runtime_error(&mut self, error: RuntimeError) -> (text: String)
        ensures
            text@ == runtime_lines(error),
            final(self).had_runtime_error,
            final(self).had_error == old(self).had_error,
            final(self).interpreter == old(self).interpreter,
    {
        self.had_runtime_error = true;
        error.message().concat("\n[line ").concat(decimal(error.token.line).as_str()).concat("]")
    }
}

} // verus!
