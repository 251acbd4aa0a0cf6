use hasty::util::HastyError;
use hasty::scanner::{
    is_alphanumeric, is_digit, is_whitespace, keyword_or_identifier, Scanner, ScannerError, Token,
    TokenType,
};

fn scan(input: &str) -> Vec<Token> {
    Scanner::new(input).scan().unwrap()
}

fn kinds(input: &str) -> Vec<TokenType> {
    scan(input).iter().map(|token| token.token_type).collect()
}

fn lexemes(input: &str) -> Vec<String> {
    scan(input).iter().map(|token| token.lexeme.clone()).collect()
}

#[test]
fn empty_source_gives_the_end_token_alone() {
    let tokens = scan("");
    assert_eq!(tokens.len(), 1);
    assert_eq!(tokens[0].token_type, TokenType::EOF);
    assert_eq!(tokens[0].lexeme, "");
    assert_eq!(tokens[0].line, 0);
    assert_eq!(tokens[0].start, 0);
    assert!(tokens[0].data.is_none());
}

#[test]
fn single_character_tokens() {
    assert_eq!(
        kinds("(){},.;*:"),
        vec![
            TokenType::LEFT_PAREN,
            TokenType::RIGHT_PAREN,
            TokenType::LEFT_BRACE,
            TokenType::RIGHT_BRACE,
            TokenType::COMMA,
            TokenType::DOT,
            TokenType::SEMICOLON,
            TokenType::STAR,
            TokenType::COLON,
            TokenType::EOF,
        ]
    );
}

#[test]
fn two_character_operators_are_tried_first() {
    assert_eq!(
        kinds("!= == <= >= && || ++ --"),
        vec![
            TokenType::BANG_EQUAL,
            TokenType::EQUAL_EQUAL,
            TokenType::LESS_EQUAL,
            TokenType::GREATER_EQUAL,
            TokenType::AND,
            TokenType::OR,
            TokenType::INCREMENT,
            TokenType::DECREMENT,
            TokenType::EOF,
        ]
    );
    assert_eq!(
        kinds("! = < > & | + - /"),
        vec![
            TokenType::BANG,
            TokenType::EQUAL,
            TokenType::LESS,
            TokenType::GREATER,
            TokenType::AMPERSAND,
            TokenType::PIPE,
            TokenType::PLUS,
            TokenType::MINUS,
            TokenType::SLASH,
            TokenType::EOF,
        ]
    );
    assert_eq!(
        kinds("===+++"),
        vec![
            TokenType::EQUAL_EQUAL,
            TokenType::EQUAL,
            TokenType::INCREMENT,
            TokenType::PLUS,
            TokenType::EOF,
        ]
    );
}

#[test]
fn lexemes_and_offsets_are_those_of_the_source() {
    let tokens = scan("let x = 12;");
    let found: Vec<(TokenType, &str, usize)> = tokens
        .iter()
        .map(|token| (token.token_type, token.lexeme.as_str(), token.start))
        .collect();
    assert_eq!(
        found,
        vec![
            (TokenType::LET, "let", 0),
            (TokenType::IDENTIFIER, "x", 4),
            (TokenType::EQUAL, "=", 6),
            (TokenType::INTEGER, "12", 8),
            (TokenType::SEMICOLON, ";", 10),
            (TokenType::EOF, "", 0),
        ]
    );
}

#[test]
fn comments_run_to_the_end_of_the_line() {
    let tokens = scan("1 // one + two\n2 // the end");
    assert_eq!(tokens.len(), 3);
    assert_eq!(tokens[0].lexeme, "1");
    assert_eq!(tokens[0].line, 0);
    assert_eq!(tokens[1].lexeme, "2");
    assert_eq!(tokens[1].line, 1);
    assert_eq!(tokens[2].token_type, TokenType::EOF);
    assert_eq!(tokens[2].line, 1);
}

#[test]
fn white_space_is_dropped_and_lines_are_counted() {
    let tokens = scan(" \t\r\n\n  a\n");
    assert_eq!(tokens.len(), 2);
    assert_eq!(tokens[0].token_type, TokenType::IDENTIFIER);
    assert_eq!(tokens[0].line, 2);
    assert_eq!(tokens[0].start, 7);
    assert_eq!(tokens[1].line, 3);
}

#[test]
fn strings_carry_their_text_as_data() {
    let tokens = scan("\"hello\"");
    assert_eq!(tokens[0].token_type, TokenType::STRING);
    assert_eq!(tokens[0].lexeme, "\"hello\"");
    assert_eq!(tokens[0].data.as_deref(), Some("hello"));
    let tokens = scan("\"\"");
    assert_eq!(tokens[0].lexeme, "\"\"");
    assert_eq!(tokens[0].data.as_deref(), Some(""));
}

#[test]
fn strings_are_not_escaped() {
    let tokens = scan("\"a\\\" b");
    assert_eq!(tokens[0].token_type, TokenType::STRING);
    assert_eq!(tokens[0].lexeme, "\"a\\\"");
    assert_eq!(tokens[0].data.as_deref(), Some("a\\"));
    assert_eq!(tokens[1].token_type, TokenType::IDENTIFIER);
    assert_eq!(tokens[1].lexeme, "b");
}

#[test]
fn a_string_stands_on_the_line_it_ends_on() {
    let tokens = scan("\"a\nb\nc\" x");
    assert_eq!(tokens[0].token_type, TokenType::STRING);
    assert_eq!(tokens[0].line, 2);
    assert_eq!(tokens[0].start, 0);
    assert_eq!(tokens[0].data.as_deref(), Some("a\nb\nc"));
    assert_eq!(tokens[1].line, 2);
}

#[test]
fn strings_may_hold_any_text() {
    let tokens = scan("\"h\u{e9}llo \u{4e16}\u{754c}\" 1");
    assert_eq!(tokens[0].token_type, TokenType::STRING);
    assert_eq!(tokens[0].data.as_deref(), Some("h\u{e9}llo \u{4e16}\u{754c}"));
    assert_eq!(tokens[1].token_type, TokenType::INTEGER);
}

#[test]
fn numbers() {
    assert_eq!(kinds("1"), vec![TokenType::INTEGER, TokenType::EOF]);
    assert_eq!(kinds("1234567890"), vec![TokenType::INTEGER, TokenType::EOF]);
    assert_eq!(kinds("1.5"), vec![TokenType::FLOATING, TokenType::EOF]);
    assert_eq!(lexemes("12.345"), vec!["12.345", ""]);
}

#[test]
fn a_point_without_a_digit_after_it_is_left_alone() {
    assert_eq!(kinds("1."), vec![TokenType::INTEGER, TokenType::DOT, TokenType::EOF]);
    assert_eq!(
        kinds("1.x"),
        vec![TokenType::INTEGER, TokenType::DOT, TokenType::IDENTIFIER, TokenType::EOF]
    );
    assert_eq!(
        kinds("1.2.3"),
        vec![TokenType::FLOATING, TokenType::DOT, TokenType::INTEGER, TokenType::EOF]
    );
    assert_eq!(lexemes("1.2.3"), vec!["1.2", ".", "3", ""]);
}

#[test]
fn keywords_are_told_from_identifiers() {
    assert_eq!(
        kinds("fn if else true false while for return self var nil guard pub import from as const let"),
        vec![
            TokenType::FN,
            TokenType::IF,
            TokenType::ELSE,
            TokenType::TRUE,
            TokenType::FALSE,
            TokenType::WHILE,
            TokenType::FOR,
            TokenType::RETURN,
            TokenType::SELF,
            TokenType::VAR,
            TokenType::NIL,
            TokenType::GUARD,
            TokenType::PUB,
            TokenType::IMPORT,
            TokenType::FROM,
            TokenType::AS,
            TokenType::CONST,
            TokenType::LET,
            TokenType::EOF,
        ]
    );
    assert_eq!(
        kinds("lets iff Fn x1 $a"),
        vec![
            TokenType::IDENTIFIER,
            TokenType::IDENTIFIER,
            TokenType::IDENTIFIER,
            TokenType::IDENTIFIER,
            TokenType::IDENTIFIER,
            TokenType::EOF,
        ]
    );
}

#[test]
fn the_kind_of_a_word() {
    assert_eq!(keyword_or_identifier(&"let".to_string()), TokenType::LET);
    assert_eq!(keyword_or_identifier(&"const".to_string()), TokenType::CONST);
    assert_eq!(keyword_or_identifier(&"Let".to_string()), TokenType::IDENTIFIER);
    assert_eq!(keyword_or_identifier(&"".to_string()), TokenType::IDENTIFIER);
}

#[test]
fn an_underscore_before_white_space_stands_alone() {
    assert_eq!(kinds("_ x"), vec![TokenType::UNDERSCORE, TokenType::IDENTIFIER, TokenType::EOF]);
    assert_eq!(kinds("_\n"), vec![TokenType::UNDERSCORE, TokenType::EOF]);
    assert_eq!(kinds("_x"), vec![TokenType::IDENTIFIER, TokenType::EOF]);
    assert_eq!(lexemes("_x1"), vec!["_x1", ""]);
    assert_eq!(kinds("_"), vec![TokenType::IDENTIFIER, TokenType::EOF]);
    assert_eq!(kinds("_+"), vec![TokenType::IDENTIFIER, TokenType::PLUS, TokenType::EOF]);
}

#[test]
fn a_word_ends_at_an_underscore() {
    assert_eq!(lexemes("a_b"), vec!["a", "_b", ""]);
}

#[test]
fn the_characters_between_the_two_alphabets_start_a_word() {
    assert_eq!(kinds("[a"), vec![TokenType::IDENTIFIER, TokenType::EOF]);
    assert_eq!(lexemes("^ab ]"), vec!["^ab", "]", ""]);
    assert_eq!(kinds("`"), vec![TokenType::IDENTIFIER, TokenType::EOF]);
    assert_eq!(kinds("\\"), vec![TokenType::IDENTIFIER, TokenType::EOF]);
}

#[test]
fn letters_of_the_second_half_of_the_code_page_go_on_a_word() {
    // U+00AA is the bytes C2 AA, and both count as letters.
    let tokens = scan("x\u{aa} y");
    assert_eq!(tokens[0].token_type, TokenType::IDENTIFIER);
    assert_eq!(tokens[0].lexeme, "x\u{aa}");
    assert_eq!(tokens[1].lexeme, "y");
}

#[test]
fn a_word_that_ends_inside_a_character_is_refused() {
    // U+00E9 is the bytes C3 A9: the first counts as a letter, the second does not.
    let error = Scanner::new("caf\u{e9}").scan().unwrap_err();
    match error {
        ScannerError::UnexpectedCharacter { line, start, lexeme } => {
            assert_eq!(line, 0);
            assert_eq!(start, 0);
            assert_eq!(lexeme, "caf\u{fffd}");
        }
        other => panic!("{:?}", other),
    }
}

#[test]
fn a_character_that_no_rule_accepts() {
    let error = Scanner::new("1 +\n  # 2").scan().unwrap_err();
    match error {
        ScannerError::UnexpectedCharacter { line, start, lexeme } => {
            assert_eq!(line, 1);
            assert_eq!(start, 6);
            assert_eq!(lexeme, "#");
        }
        other => panic!("{:?}", other),
    }
    assert!(matches!(
        Scanner::new("@").scan(),
        Err(ScannerError::UnexpectedCharacter { .. })
    ));
    assert!(matches!(
        Scanner::new("\u{e9}").scan(),
        Err(ScannerError::UnexpectedCharacter { .. })
    ));
    assert!(matches!(
        Scanner::new("\0").scan(),
        Err(ScannerError::UnexpectedCharacter { .. })
    ));
}

#[test]
fn a_single_quote_is_no_token() {
    let error = Scanner::new("'a'").scan().unwrap_err();
    match error {
        ScannerError::UnexpectedCharacter { line, start, lexeme } => {
            assert_eq!((line, start), (0, 0));
            assert_eq!(lexeme, "'");
        }
        other => panic!("{:?}", other),
    }
}

#[test]
fn an_unterminated_string_fails_the_whole_scan() {
    let result = Scanner::new("1 + \"unterminated").scan();
    match result {
        Err(ScannerError::UnterminatedString { line, start, lexeme }) => {
            assert_eq!(line, 0);
            assert_eq!(start, 4);
            assert_eq!(lexeme, "\"unterminated");
        }
        other => panic!("{:?}", other),
    }
}

#[test]
fn an_unterminated_string_is_reported_where_it_opens() {
    let result = Scanner::new("a\n\"b\nc\n").scan();
    match result {
        Err(ScannerError::UnterminatedString { line, start, lexeme }) => {
            assert_eq!(line, 1);
            assert_eq!(start, 2);
            assert_eq!(lexeme, "\"b\nc\n");
        }
        other => panic!("{:?}", other),
    }
    assert!(matches!(
        Scanner::new("\"").scan(),
        Err(ScannerError::UnterminatedString { .. })
    ));
}

#[test]
fn the_first_error_wins() {
    assert!(matches!(
        Scanner::new("# \"open").scan(),
        Err(ScannerError::UnexpectedCharacter { .. })
    ));
    assert!(matches!(
        Scanner::new("\"open #").scan(),
        Err(ScannerError::UnterminatedString { .. })
    ));
}

#[test]
fn scanning_twice_gives_the_same_tokens() {
    let source = "let x: int = (1 + 2) * 3; // done\nx";
    let first = scan(source);
    let second = scan(source);
    assert_eq!(first.len(), second.len());
    for (a, b) in first.iter().zip(second.iter()) {
        assert_eq!(a.token_type, b.token_type);
        assert_eq!(a.lexeme, b.lexeme);
        assert_eq!(a.line, b.line);
        assert_eq!(a.start, b.start);
        assert_eq!(a.data, b.data);
    }
}

#[test]
fn bytes_are_classed_as_their_characters_are() {
    for code in 0..=255u8 {
        let c = code as char;
        assert_eq!(is_digit(code), c.is_ascii_digit(), "digit {}", code);
        assert_eq!(is_alphanumeric(code), c.is_alphanumeric(), "alphanumeric {}", code);
        assert_eq!(is_whitespace(code), c.is_whitespace(), "white space {}", code);
    }
}

#[test]
fn the_names_of_the_kinds() {
    assert_eq!(TokenType::RIGHT_PAREN.name(), "RIGHT_PAREN");
    assert_eq!(TokenType::EOF.name(), "EOF");
    assert_eq!(TokenType::LET.name(), format!("{:?}", TokenType::LET));
    assert_eq!(TokenType::BANG_EQUAL.name(), format!("{:?}", TokenType::BANG_EQUAL));
}

#[test]
fn tokens_are_built_field_by_field() {
    let token = Token::new(TokenType::STRING, "\"a\"".to_string(), 3, 14);
    assert_eq!(token.token_type, TokenType::STRING);
    assert_eq!(token.lexeme, "\"a\"");
    assert_eq!(token.line, 3);
    assert_eq!(token.start, 14);
    assert!(token.data.is_none());
    let token = token.with_data("a".to_string());
    assert_eq!(token.data.as_deref(), Some("a"));
    assert_eq!(token.lexeme, "\"a\"");
    let copy = token.clone();
    assert_eq!(copy.lexeme, token.lexeme);
    assert_eq!(copy.data, token.data);
    assert_eq!((copy.line, copy.start), (3, 14));
}

#[test]
fn the_facts_of_a_scanner_error() {
    let error = Scanner::new("ab\n $$ \"x").scan().unwrap_err();
    assert_eq!(error.stage(), "SCANNER");
    assert_eq!(error.line(), 1);
    assert_eq!(error.column(), 7);
    assert_eq!(error.lexeme(), "\"x");
    assert_eq!(error.get_error_description(), "Unterminated string.");
}
