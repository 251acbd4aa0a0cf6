use hasty::parser::ast::{ASTNodeVecExt, BoxedASTNode};
use hasty::parser::Parser;
use hasty::passes::scope_pass::{ScopePass, TypeInfo};
use hasty::passes::Pass;
use hasty::scanner::Scanner;
use hasty::util::metacontainer::MetaContainer;

fn parse(input: &str) -> String {
    let tokens = Scanner::new(input).scan();
    let ast = Parser::new(tokens.unwrap()).parse();
    ast.unwrap().display(0)
}

fn resolve(input: &str) -> Vec<BoxedASTNode> {
    let tokens = Scanner::new(input).scan();
    let ast = Parser::new(tokens.unwrap()).parse();
    let mut ast = ast.unwrap();
    ScopePass::new().process(&mut ast).unwrap();
    ast
}

#[test]
fn test_pemdas() {
    assert_eq!(
        parse("1 + 2 * 3 / 4 / 5 - 6 == 7 && 1 == 2 || 3 != 4"),
        "{\n    (|| (&& (== (- (+ 1 (/ (/ (* 2 3) 4) 5)) 6) 7) (== 1 2)) (!= 3 4))\n}\n"
    );
}

#[test]
fn test_let_var_decl() {
    assert_eq!(parse("let x: int = 1;"), "{\n    (letvardecl x: int = 1)\n}\n");
}

#[test]
fn test_var_get() {
    assert_eq!(parse("1 + x"), "{\n    (+ 1 (var x))\n}\n");
}

#[test]
fn test_var_decl_type_explicit() {
    let ast = resolve("let x: int = 1;");
    assert_eq!(
        ast[0].meta.get::<TypeInfo>().unwrap(),
        &TypeInfo { ty: "int".to_string() }
    );
}

#[test]
fn test_var_get_type_explicit_def() {
    let ast = resolve("let x: int = 1; x");
    assert_eq!(
        ast[1].meta.get::<TypeInfo>().unwrap(),
        &TypeInfo { ty: "int".to_string() }
    );
}

#[test]
fn test_var_undefined() {
    let tokens = Scanner::new("x").scan();
    let ast = Parser::new(tokens.unwrap()).parse();
    let mut ast = ast.unwrap();
    assert!(ScopePass::new().process(&mut ast).is_err());
}

#[test]
fn test_var_type_inference() {
    let ast = resolve("let x: int = 1; let y = x;");
    assert_eq!(
        ast[1].meta.get::<TypeInfo>().unwrap(),
        &TypeInfo { ty: "int".to_string() }
    );
}

#[test]
fn test_var_literal_inference() {
    let ast = resolve("let x = 1;");
    assert_eq!(
        ast[0].meta.get::<TypeInfo>().unwrap(),
        &TypeInfo { ty: "int".to_string() }
    );
}

#[test]
fn test_metacontainer() {
    let mut meta = MetaContainer::new();
    meta.insert(1);
    assert_eq!(*meta.get::<i32>().unwrap(), 1);
}
