use hasty::parser::ast::{ASTNode, BoxedASTNode};
use hasty::parser::Parser;
use hasty::passes::scope_pass::{literal_type_name, ScopePass, ScopePassError, TypeInfo, VarInfo};
use hasty::passes::Pass;
use hasty::scanner::{Scanner, Token, TokenType};
use hasty::util::scope::Scope;

fn parsed(input: &str) -> Vec<BoxedASTNode> {
    Parser::new(Scanner::new(input).scan().unwrap()).parse().unwrap()
}

fn resolved(input: &str) -> Vec<BoxedASTNode> {
    let mut ast = parsed(input);
    ScopePass::new().process(&mut ast).unwrap();
    ast
}

fn type_of(node: &BoxedASTNode) -> Option<String> {
    node.meta.get::<TypeInfo>().map(|info| info.ty.clone())
}

fn types(input: &str) -> Vec<Option<String>> {
    resolved(input).iter().map(type_of).collect()
}

fn some(name: &str) -> Option<String> {
    Some(name.to_string())
}

#[test]
fn a_declared_type_is_attached_and_bound() {
    let mut ast = parsed("let x: int = 1;");
    let mut scope = Scope::<VarInfo>::new();
    let mut pass = ScopePass::new();
    assert!(scope.get("x").is_none());
    pass.process_node(&mut ast[0], &mut scope).unwrap();
    assert_eq!(type_of(&ast[0]), some("int"));
    assert_eq!(scope.get("x"), Some(&VarInfo { ty: "int".to_string() }));
    assert!(scope.get("y").is_none());
}

#[test]
fn the_initializer_of_a_typed_declaration_is_not_looked_at() {
    let ast = resolved("let x: int = y; let z: float = \"s\";");
    assert_eq!(type_of(&ast[0]), some("int"));
    assert_eq!(type_of(&ast[1]), some("float"));
    match ast[0].borrow() {
        ASTNode::VarDecl { initializer, .. } => {
            assert_eq!(type_of(initializer.as_ref().unwrap()), None);
        }
        other => panic!("{:?}", other),
    }
}

#[test]
fn a_type_is_taken_from_a_literal() {
    let mut ast = parsed("let x = 1;");
    let mut scope = Scope::<VarInfo>::new();
    ScopePass::new().process_node(&mut ast[0], &mut scope).unwrap();
    assert_eq!(type_of(&ast[0]), some("int"));
    assert_eq!(scope.get("x").unwrap().ty, "int");
    match ast[0].borrow() {
        ASTNode::VarDecl { initializer, .. } => {
            assert_eq!(type_of(initializer.as_ref().unwrap()), some("int"));
        }
        other => panic!("{:?}", other),
    }
}

#[test]
fn a_type_is_taken_from_a_variable() {
    let ast = resolved("let x: int = 1; let y = x;");
    assert_eq!(type_of(&ast[1]), some("int"));
    let ast = resolved("let a = \"s\"; let b = a; let c = (b); c");
    assert_eq!(
        ast.iter().map(type_of).collect::<Vec<_>>(),
        vec![some("string"), some("string"), some("string"), some("string")]
    );
}

#[test]
fn use_before_declaration_fails() {
    let mut ast = parsed("x");
    match ScopePass::new().process(&mut ast) {
        Err(ScopePassError::UndeclaredVariable { token }) => {
            assert_eq!(token.token_type, TokenType::IDENTIFIER);
            assert_eq!(token.lexeme, "x");
            assert_eq!((token.line, token.start), (0, 0));
        }
        other => panic!("{:?}", other),
    }
    assert_eq!(type_of(&ast[0]), None);
    let mut ast = parsed("x; let x = 1;");
    assert!(matches!(
        ScopePass::new().process(&mut ast),
        Err(ScopePassError::UndeclaredVariable { .. })
    ));
    let mut ast = parsed("let y = x; let x = 1;");
    match ScopePass::new().process(&mut ast) {
        Err(ScopePassError::UndeclaredVariable { token }) => assert_eq!(token.lexeme, "x"),
        other => panic!("{:?}", other),
    }
}

#[test]
fn the_types_of_the_literals() {
    assert_eq!(
        types("1 1.5 \"s\" true false nil"),
        vec![some("int"), some("float"), some("string"), some("bool"), some("bool"), some("nil")]
    );
    assert_eq!(literal_type_name(TokenType::INTEGER), some("int"));
    assert_eq!(literal_type_name(TokenType::FLOATING), some("float"));
    assert_eq!(literal_type_name(TokenType::STRING), some("string"));
    assert_eq!(literal_type_name(TokenType::TRUE), some("bool"));
    assert_eq!(literal_type_name(TokenType::FALSE), some("bool"));
    assert_eq!(literal_type_name(TokenType::NIL), some("nil"));
    assert_eq!(literal_type_name(TokenType::IDENTIFIER), None);
    assert_eq!(literal_type_name(TokenType::EOF), None);
}

#[test]
fn a_literal_of_no_literal_kind_gets_no_type() {
    let mut ast = vec![
        ASTNode::Literal { value: Token::new(TokenType::PLUS, "+".to_string(), 0, 0) }.boxed(),
    ];
    ScopePass::new().process(&mut ast).unwrap();
    assert_eq!(type_of(&ast[0]), None);
}

#[test]
fn a_grouping_has_the_type_of_what_it_holds() {
    let ast = resolved("(1.5); ((true)); (1 + 2)");
    assert_eq!(type_of(&ast[0]), some("float"));
    assert_eq!(type_of(&ast[1]), some("bool"));
    assert_eq!(type_of(&ast[2]), None);
    match ast[1].borrow() {
        ASTNode::Grouping { expr } => {
            assert_eq!(type_of(expr), some("bool"));
            match expr.borrow() {
                ASTNode::Grouping { expr } => assert_eq!(type_of(expr), some("bool")),
                other => panic!("{:?}", other),
            }
        }
        other => panic!("{:?}", other),
    }
}

#[test]
fn operators_get_no_type_and_their_operands_are_not_visited() {
    let ast = resolved("1 + 2; 1 && 2; -1; 1 + undeclared");
    for node in &ast {
        assert_eq!(type_of(node), None);
    }
    match ast[0].borrow() {
        ASTNode::Binary { left, right, .. } => {
            assert_eq!(type_of(left), None);
            assert_eq!(type_of(right), None);
        }
        other => panic!("{:?}", other),
    }
}

#[test]
fn a_declaration_that_no_type_can_be_found_for_is_malformed() {
    let mut ast = parsed("let x = 1 + 2;");
    match ScopePass::new().process(&mut ast) {
        Err(ScopePassError::MalformedDeclaration { token }) => assert_eq!(token.lexeme, "x"),
        other => panic!("{:?}", other),
    }
    assert_eq!(type_of(&ast[0]), None);
    let mut ast = vec![ASTNode::VarDecl {
        name: Token::new(TokenType::IDENTIFIER, "v".to_string(), 1, 4),
        ty: None,
        initializer: None,
    }
    .boxed()];
    match ScopePass::new().process(&mut ast) {
        Err(ScopePassError::MalformedDeclaration { token }) => {
            assert_eq!(token.lexeme, "v");
            assert_eq!((token.line, token.start), (1, 4));
        }
        other => panic!("{:?}", other),
    }
}

#[test]
fn a_declaration_with_a_type_needs_no_initializer() {
    let mut ast = vec![ASTNode::VarDecl {
        name: Token::new(TokenType::IDENTIFIER, "v".to_string(), 0, 4),
        ty: Some(Token::new(TokenType::IDENTIFIER, "int".to_string(), 0, 7)),
        initializer: None,
    }
    .boxed()];
    ScopePass::new().process(&mut ast).unwrap();
    assert_eq!(type_of(&ast[0]), some("int"));
}

#[test]
fn what_was_attached_before_a_failure_stays() {
    let mut ast = parsed("let x: int = 1; x; y; x; let z = 2;");
    match ScopePass::new().process(&mut ast) {
        Err(ScopePassError::UndeclaredVariable { token }) => assert_eq!(token.lexeme, "y"),
        other => panic!("{:?}", other),
    }
    assert_eq!(
        ast.iter().map(type_of).collect::<Vec<_>>(),
        vec![some("int"), some("int"), None, None, None]
    );
}

#[test]
fn a_later_declaration_overrides_an_earlier_one() {
    assert_eq!(
        types("let x: int = 1; x; let x = \"s\"; x"),
        vec![some("int"), some("int"), some("string"), some("string")]
    );
}

#[test]
fn each_run_of_the_pass_starts_with_an_empty_scope() {
    let mut pass = ScopePass::new();
    let mut first = parsed("let x: int = 1;");
    pass.process(&mut first).unwrap();
    let mut second = parsed("x");
    assert!(pass.process(&mut second).is_err());
}

#[test]
fn an_empty_program_resolves() {
    let mut ast: Vec<BoxedASTNode> = Vec::new();
    assert!(ScopePass::new().process(&mut ast).is_ok());
}

#[test]
fn the_token_of_a_pass_error() {
    let error = ScopePassError::UndeclaredVariable {
        token: Token::new(TokenType::IDENTIFIER, "q".to_string(), 5, 6),
    };
    assert_eq!(error.token().lexeme, "q");
    assert_eq!(error.token().line, 5);
}
