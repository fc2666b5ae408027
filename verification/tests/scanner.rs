use moon::scanner::{characters, is_alpha, is_alphanumeric, is_digit, is_word, keyword, text_of, Scanner};
use moon::token::{Token, TokenType};
use moon::value::Value;

fn number(lexeme: &String) -> u64 {
    lexeme.parse::<f64>().unwrap().to_bits()
}

fn scan(source: &str) -> (Vec<Token>, Vec<(u64, String)>) {
    Scanner::new(source.to_string()).scan_tokens(&number)
}

fn kinds(source: &str) -> Vec<TokenType> {
    scan(source).0.iter().map(|token| token.token_type).collect()
}

#[test]
fn empty_source_is_one_eof() {
    let (tokens, errors) = scan("");
    assert_eq!(tokens.len(), 1);
    assert_eq!(tokens[0].token_type, TokenType::EOF);
    assert_eq!(tokens[0].lexeme, "");
    assert_eq!(tokens[0].line, 1);
    assert!(errors.is_empty());
}

#[test]
fn every_scan_ends_with_eof() {
    for source in ["", "1", "var x = 1;", "\"open", "@@@", "// only a comment", "a\nb\nc", "1."] {
        let (tokens, _) = scan(source);
        assert_eq!(tokens.last().unwrap().token_type, TokenType::EOF, "{:?}", source);
        let others = &tokens[..tokens.len() - 1];
        assert!(others.iter().all(|token| token.token_type != TokenType::EOF));
    }
}

#[test]
fn single_characters() {
    assert_eq!(
        kinds("(){},.-+;*/"),
        vec![
            TokenType::LeftParen,
            TokenType::RightParen,
            TokenType::LeftBrace,
            TokenType::RightBrace,
            TokenType::Comma,
            TokenType::Dot,
            TokenType::Minus,
            TokenType::Plus,
            TokenType::Semicolon,
            TokenType::Star,
            TokenType::Slash,
            TokenType::EOF,
        ]
    );
}

#[test]
fn star_is_star() {
    let (tokens, _) = scan("*");
    assert_eq!(tokens[0].token_type, TokenType::Star);
    assert_eq!(tokens[0].lexeme, "*");
}

#[test]
fn one_and_two_character_operators() {
    assert_eq!(
        kinds("! != = == < <= > >="),
        vec![
            TokenType::Bang,
            TokenType::BangEqual,
            TokenType::Equal,
            TokenType::EqualEqual,
            TokenType::Less,
            TokenType::LessEqual,
            TokenType::Greater,
            TokenType::GreaterEqual,
            TokenType::EOF,
        ]
    );
    assert_eq!(kinds("!"), vec![TokenType::Bang, TokenType::EOF]);
    assert_eq!(
        kinds("==="),
        vec![TokenType::EqualEqual, TokenType::Equal, TokenType::EOF]
    );
}

#[test]
fn comment_runs_to_the_end_of_the_line() {
    let (tokens, errors) = scan("// nothing here\n1 // nor here");
    assert!(errors.is_empty());
    assert_eq!(tokens.len(), 2);
    assert_eq!(tokens[0].token_type, TokenType::Number);
    assert_eq!(tokens[0].line, 2);
    assert_eq!(tokens[1].line, 2);
    assert_eq!(kinds("1 / 2"), vec![TokenType::Number, TokenType::Slash, TokenType::Number, TokenType::EOF]);
}

#[test]
fn white_space_and_lines() {
    let (tokens, _) = scan(" \t\r\na\n\nb");
    assert_eq!(tokens[0].lexeme, "a");
    assert_eq!(tokens[0].line, 2);
    assert_eq!(tokens[1].lexeme, "b");
    assert_eq!(tokens[1].line, 4);
    assert_eq!(tokens[2].line, 4);
}

#[test]
fn string_literal_without_its_quotes() {
    let (tokens, errors) = scan("\"foo bar\"");
    assert!(errors.is_empty());
    assert_eq!(tokens[0].token_type, TokenType::String);
    assert_eq!(tokens[0].lexeme, "\"foo bar\"");
    assert_eq!(tokens[0].literal, Value::String("foo bar".to_string()));
}

#[test]
fn string_literal_over_two_lines() {
    let (tokens, errors) = scan("\"a\nb\" x");
    assert!(errors.is_empty());
    assert_eq!(tokens[0].literal, Value::String("a\nb".to_string()));
    assert_eq!(tokens[0].line, 2);
    assert_eq!(tokens[1].line, 2);
}

#[test]
fn empty_string_literal() {
    let (tokens, _) = scan("\"\"");
    assert_eq!(tokens[0].token_type, TokenType::String);
    assert_eq!(tokens[0].literal, Value::String(String::new()));
}

#[test]
fn unterminated_string_is_an_error_and_no_token() {
    let (tokens, errors) = scan("1 \"open\nstill open");
    assert_eq!(errors, vec![(2, "Unterminated string.".to_string())]);
    assert_eq!(tokens.len(), 2);
    assert_eq!(tokens[0].token_type, TokenType::Number);
    assert_eq!(tokens[1].token_type, TokenType::EOF);
    assert_eq!(tokens[1].line, 2);
}

#[test]
fn unexpected_character_does_not_stop_the_scan() {
    let (tokens, errors) = scan("@ 1\n# 2");
    assert_eq!(
        errors,
        vec![(1, "unexpected character.".to_string()), (2, "unexpected character.".to_string())]
    );
    assert_eq!(
        tokens.iter().map(|token| token.token_type).collect::<Vec<_>>(),
        vec![TokenType::Number, TokenType::Number, TokenType::EOF]
    );
}

#[test]
fn number_literals() {
    let (tokens, _) = scan("12 12.5 0.25");
    assert_eq!(tokens[0].literal, Value::Number(12f64.to_bits()));
    assert_eq!(tokens[0].lexeme, "12");
    assert_eq!(tokens[1].literal, Value::Number(12.5f64.to_bits()));
    assert_eq!(tokens[1].lexeme, "12.5");
    assert_eq!(tokens[2].literal, Value::Number(0.25f64.to_bits()));
}

#[test]
fn dot_without_digits_is_not_part_of_a_number() {
    assert_eq!(kinds("12."), vec![TokenType::Number, TokenType::Dot, TokenType::EOF]);
    assert_eq!(kinds(".5"), vec![TokenType::Dot, TokenType::Number, TokenType::EOF]);
    assert_eq!(
        kinds("1.2.3"),
        vec![TokenType::Number, TokenType::Dot, TokenType::Number, TokenType::EOF]
    );
    let (tokens, _) = scan("12.a");
    assert_eq!(tokens[0].lexeme, "12");
    assert_eq!(tokens[2].lexeme, "a");
}

#[test]
fn number_literal_is_what_the_converter_returns() {
    let (tokens, _) = Scanner::new("7 8".to_string()).scan_tokens(&|lexeme: &String| lexeme.len() as u64 + 40);
    assert_eq!(tokens[0].literal, Value::Number(41));
    assert_eq!(tokens[1].literal, Value::Number(41));
}

#[test]
fn reserved_words() {
    assert_eq!(
        kinds("and class else false for fun if nil or print return super this true var while"),
        vec![
            TokenType::And,
            TokenType::Class,
            TokenType::Else,
            TokenType::False,
            TokenType::For,
            TokenType::Fun,
            TokenType::If,
            TokenType::Nil,
            TokenType::Or,
            TokenType::Print,
            TokenType::Return,
            TokenType::Super,
            TokenType::This,
            TokenType::True,
            TokenType::Var,
            TokenType::While,
            TokenType::EOF,
        ]
    );
}

#[test]
fn keyword_literals_carry_their_values() {
    let (tokens, _) = scan("true false nil x");
    assert_eq!(tokens[0].literal, Value::Bool(true));
    assert_eq!(tokens[1].literal, Value::Bool(false));
    assert_eq!(tokens[2].literal, Value::Nil);
    assert_eq!(tokens[3].literal, Value::Nil);
}

#[test]
fn identifiers() {
    let (tokens, _) = scan("_a1 classy fork Var orchid");
    for token in &tokens[..5] {
        assert_eq!(token.token_type, TokenType::Identifier, "{}", token.lexeme);
    }
    assert_eq!(tokens[0].lexeme, "_a1");
    assert_eq!(tokens[1].lexeme, "classy");
}

#[test]
fn statement_tokens() {
    let (tokens, errors) = scan("var a = \"foo\";\nprint a + 1.5;");
    assert!(errors.is_empty());
    let lexemes: Vec<&str> = tokens.iter().map(|token| token.lexeme.as_str()).collect();
    assert_eq!(lexemes, vec!["var", "a", "=", "\"foo\"", ";", "print", "a", "+", "1.5", ";", ""]);
    assert_eq!(tokens[5].line, 2);
}

#[test]
fn scanning_twice_gives_the_same_tokens() {
    let mut scanner = Scanner::new("a + 1".to_string());
    let (first, _) = scanner.scan_tokens(&number);
    let (second, _) = scanner.scan_tokens(&number);
    assert_eq!(first.len(), second.len());
    for (a, b) in first.iter().zip(second.iter()) {
        assert_eq!(a.token_type, b.token_type);
        assert_eq!(a.lexeme, b.lexeme);
    }
}

#[test]
fn characters_beyond_ascii() {
    let (tokens, errors) = scan("\"žluťoučký\" é");
    assert_eq!(tokens[0].literal, Value::String("žluťoučký".to_string()));
    assert_eq!(errors, vec![(1, "unexpected character.".to_string())]);
}

#[test]
fn character_classes() {
    assert!(is_digit('0') && is_digit('9') && !is_digit('a') && !is_digit('/') && !is_digit(':'));
    assert!(is_alpha('a') && is_alpha('z') && is_alpha('A') && is_alpha('Z') && is_alpha('_'));
    assert!(!is_alpha('0') && !is_alpha('[') && !is_alpha('`') && !is_alpha('{') && !is_alpha('@'));
    assert!(is_alphanumeric('a') && is_alphanumeric('5') && is_alphanumeric('_'));
    assert!(!is_alphanumeric(' ') && !is_alphanumeric('-'));
}

#[test]
fn keyword_table() {
    assert_eq!(keyword(&"and".to_string()), Some(TokenType::And));
    assert_eq!(keyword(&"while".to_string()), Some(TokenType::While));
    assert_eq!(keyword(&"nil".to_string()), Some(TokenType::Nil));
    assert_eq!(keyword(&"While".to_string()), None);
    assert_eq!(keyword(&"an".to_string()), None);
    assert_eq!(keyword(&"andy".to_string()), None);
    assert_eq!(keyword(&"".to_string()), None);
}

#[test]
fn text_helpers() {
    assert!(is_word("init", "init"));
    assert!(!is_word("init", "inif"));
    assert!(!is_word("init", "ini"));
    assert!(is_word("", ""));
    assert_eq!(characters("aé"), vec!['a', 'é']);
    assert_eq!(text_of(&vec!['a', 'b', 'c', 'd'], 1, 3), "bc");
    assert_eq!(text_of(&vec!['a', 'b'], 1, 1), "");
}
