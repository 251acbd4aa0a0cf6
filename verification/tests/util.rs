use hasty::parser::{ParserError, ParserErrorTy};
use hasty::passes::scope_pass::{ScopePassError, TypeInfo};
use hasty::scanner::{Scanner, Token, TokenType};
use hasty::util::metacontainer::MetaContainer;
use hasty::util::scope::Scope;
use hasty::util::text::{is_white_space, repeat, to_decimal};
use hasty::util::{headline, preview, unified_error, HastyError};

#[test]
fn adding_sizes() {
    assert_eq!(hasty::add(2, 2), 4);
    assert_eq!(hasty::add(0, 0), 0);
    assert_eq!(hasty::add(usize::MAX - 1, 1), usize::MAX);
}

#[test]
fn a_container_holds_one_value_of_a_kind() {
    let mut meta = MetaContainer::new();
    assert!(meta.get::<i32>().is_none());
    assert!(meta.get::<TypeInfo>().is_none());
    meta.insert(1);
    meta.insert(2);
    assert_eq!(meta.get::<i32>(), Some(&2));
    assert!(meta.get::<TypeInfo>().is_none());
    meta.insert(TypeInfo { ty: "int".to_string() });
    meta.insert(TypeInfo { ty: "float".to_string() });
    assert_eq!(meta.get::<TypeInfo>(), Some(&TypeInfo { ty: "float".to_string() }));
    assert_eq!(meta.get::<i32>(), Some(&2));
    meta.insert(-7);
    assert_eq!(meta.get::<i32>(), Some(&-7));
    assert_eq!(meta.get::<TypeInfo>().unwrap().ty, "float");
}

#[test]
fn a_copy_of_a_container_holds_the_same() {
    let mut meta = MetaContainer::new();
    meta.insert(5);
    meta.insert(TypeInfo { ty: "bool".to_string() });
    let copy = meta.clone();
    meta.insert(6);
    assert_eq!(copy.get::<i32>(), Some(&5));
    assert_eq!(copy.get::<TypeInfo>().unwrap().ty, "bool");
    assert_eq!(meta.get::<i32>(), Some(&6));
    let info = TypeInfo { ty: "nil".to_string() };
    assert_eq!(info.clone(), info);
}

#[test]
fn a_scope_finds_what_was_inserted() {
    let mut scope = Scope::<u32>::new();
    assert_eq!(scope.get("x"), None);
    scope.insert("x", 1);
    scope.insert("y", 2);
    assert_eq!(scope.get("x"), Some(&1));
    assert_eq!(scope.get("y"), Some(&2));
    assert_eq!(scope.get("z"), None);
    scope.insert("x", 3);
    assert_eq!(scope.get("x"), Some(&3));
    assert_eq!(scope.get(""), None);
}

#[test]
fn the_innermost_frame_is_searched_first() {
    let mut scope = Scope::<u32>::new();
    scope.insert("x", 1);
    scope.insert("y", 2);
    let mut scope = scope.child();
    assert_eq!(scope.get("x"), Some(&1));
    scope.insert("x", 10);
    assert_eq!(scope.get("x"), Some(&10));
    assert_eq!(scope.get("y"), Some(&2));
    let mut scope = scope.child();
    scope.insert("z", 30);
    assert_eq!(scope.get("x"), Some(&10));
    assert_eq!(scope.get("z"), Some(&30));
    let scope = scope.parent().unwrap();
    assert_eq!(scope.get("z"), None);
    assert_eq!(scope.get("x"), Some(&10));
    let scope = scope.parent().unwrap();
    assert_eq!(scope.get("x"), Some(&1));
    assert_eq!(scope.get("y"), Some(&2));
    assert!(scope.parent().is_none());
}

#[test]
fn setting_changes_the_frame_that_binds_the_name() {
    let mut scope = Scope::<u32>::new();
    scope.insert("x", 1);
    let mut scope = scope.child();
    scope.insert("y", 2);
    let mut scope = scope.child();
    scope.set("x", 11);
    scope.set("y", 22);
    scope.set("z", 33);
    assert_eq!(scope.get("x"), Some(&11));
    assert_eq!(scope.get("y"), Some(&22));
    assert_eq!(scope.get("z"), Some(&33));
    let scope = scope.parent().unwrap();
    assert_eq!(scope.get("z"), None);
    assert_eq!(scope.get("y"), Some(&22));
    let scope = scope.parent().unwrap();
    assert_eq!(scope.get("y"), None);
    assert_eq!(scope.get("x"), Some(&11));
}

#[test]
fn setting_prefers_the_inner_of_two_bindings() {
    let mut scope = Scope::<u32>::new();
    scope.insert("x", 1);
    let mut scope = scope.child();
    scope.insert("x", 2);
    scope.set("x", 3);
    assert_eq!(scope.get("x"), Some(&3));
    let mut scope = scope.parent().unwrap();
    assert_eq!(scope.get("x"), Some(&1));
    scope.set("new", 9);
    assert_eq!(scope.get("new"), Some(&9));
}

#[test]
fn numbers_in_decimal() {
    assert_eq!(to_decimal(0), "0");
    assert_eq!(to_decimal(7), "7");
    assert_eq!(to_decimal(10), "10");
    assert_eq!(to_decimal(1234567890), "1234567890");
    assert_eq!(to_decimal(usize::MAX), usize::MAX.to_string());
}

#[test]
fn white_space_is_what_trimming_removes() {
    for code in 0..=0x10ffffu32 {
        if let Some(c) = char::from_u32(code) {
            assert_eq!(is_white_space(c), c.is_whitespace(), "U+{:04X}", code);
            let padded = format!("{}x{}", c, c);
            assert_eq!(padded.trim() == "x", is_white_space(c), "U+{:04X}", code);
        }
    }
}

#[test]
fn copies_of_a_text() {
    assert_eq!(repeat("^", 0), "");
    assert_eq!(repeat("^", 3), "^^^");
    assert_eq!(repeat("ab", 2), "abab");
    assert_eq!(repeat("", 5), "");
}

#[test]
fn the_lines_of_a_report() {
    assert_eq!(
        headline("PARSER", "Error", "3", ".", "14", ":", "Expected EOF."),
        "[PARSER] Error 3.14: Expected EOF.\n"
    );
    assert_eq!(headline("", "", "", "", "", "", ""), "[]   \n");
    assert_eq!(preview("  let x = ;  \n", 4, "^^^", "Here"), "let x = ;\n    ^^^ Here");
    assert_eq!(preview("\u{a0}\tx\u{3000}", 0, "^", "Here"), "x\n^ Here");
    assert_eq!(preview(" \t ", 2, "", "Here"), "\n   Here");
}

#[test]
fn what_went_wrong_in_a_sentence() {
    let error = Scanner::new("#").scan().unwrap_err();
    assert_eq!(error.get_error_description(), "Unexpected character.");
    let error = Scanner::new("\"").scan().unwrap_err();
    assert_eq!(error.get_error_description(), "Unterminated string.");
    let token = Token::new(TokenType::IDENTIFIER, "x".to_string(), 1, 2);
    let error =
        ParserError::new(ParserErrorTy::ExpectedToken { token: TokenType::RIGHT_PAREN }, token.clone());
    assert_eq!(error.get_error_description(), "Expected RIGHT_PAREN.");
    let error = ParserError::new(ParserErrorTy::UnexpectedToken, token.clone());
    assert_eq!(error.get_error_description(), "Unexpected token.");
    let error = ScopePassError::UndeclaredVariable { token: token.clone() };
    assert_eq!(error.get_error_description(), "Undeclared variable.");
    let error = ScopePassError::MalformedDeclaration { token };
    assert_eq!(error.get_error_description(), "Malformed declaration.");
}

#[test]
fn the_facts_of_the_errors_of_the_later_stages() {
    let token = Token::new(TokenType::IDENTIFIER, "name".to_string(), 4, 9);
    let error = ParserError::new(ParserErrorTy::UnexpectedToken, token.clone());
    assert_eq!(error.stage(), "PARSER");
    assert_eq!((error.line(), error.column()), (4, 9));
    assert_eq!(error.lexeme(), "name");
    let error = ScopePassError::MalformedDeclaration { token };
    assert_eq!(error.stage(), "RESOLVER");
    assert_eq!((error.line(), error.column()), (4, 9));
    assert_eq!(error.lexeme(), "name");
}

#[test]
fn reports_with_and_without_colours() {
    colored::control::set_override(false);
    assert_eq!(
        unified_error("PARSER", "Expected RIGHT_PAREN.", 3, 14, "let", ""),
        "[PARSER] Error 3.14: Expected RIGHT_PAREN.\n"
    );
    assert_eq!(
        unified_error("SCANNER", "Unexpected character.", 0, 4, "abc", "  x = abc \n"),
        "[SCANNER] Error 0.4: Unexpected character.\nx = abc\n    ^^^ Here"
    );
    assert_eq!(
        unified_error("S", "e", 1, 0, "\u{e9}", "\u{e9}"),
        "[S] Error 1.0: e\n\u{e9}\n^^ Here"
    );
    assert_eq!(unified_error("S", "e", 1, 2, "", "a"), "[S] Error 1.2: e\na\n   Here");
    let scan_error = Scanner::new("ab\n  #").scan().unwrap_err();
    assert_eq!(
        scan_error.as_hasty_error_string(),
        "[SCANNER] Error 1.5: Unexpected character.\n"
    );
    let token = Token::new(TokenType::IDENTIFIER, "x".to_string(), 7, 2);
    let parse_error =
        ParserError::new(ParserErrorTy::ExpectedToken { token: TokenType::SEMICOLON }, token.clone());
    assert_eq!(parse_error.as_hasty_error_string(), "[PARSER] Error 7.2: Expected SEMICOLON.\n");
    let pass_error = ScopePassError::UndeclaredVariable { token };
    assert_eq!(pass_error.as_hasty_error_string(), "[RESOLVER] Error 7.2: Undeclared variable.\n");

    colored::control::set_override(true);
    let y = "\u{1b}[33m";
    let r = "\u{1b}[31m";
    let z = "\u{1b}[0m";
    assert_eq!(
        unified_error("PARSER", "Expected RIGHT_PAREN.", 3, 14, "let", ""),
        format!("[{y}PARSER{z}] {r}Error{z} {r}3{z}{r}.{z}{r}14{z}{r}:{z} {r}Expected RIGHT_PAREN.{z}\n")
    );
    assert_eq!(
        unified_error("SCANNER", "Unexpected character.", 0, 4, "abc", "  x = abc \n"),
        format!(
            "[{y}SCANNER{z}] {r}Error{z} {r}0{z}{r}.{z}{r}4{z}{r}:{z} {r}Unexpected character.{z}\nx = abc\n    {y}^^^{z} {y}Here{z}"
        )
    );
    assert_eq!(
        pass_error.as_hasty_error_string(),
        format!("[{y}RESOLVER{z}] {r}Error{z} {r}7{z}{r}.{z}{r}2{z}{r}:{z} {r}Undeclared variable.{z}\n")
    );
    colored::control::unset_override();
}
