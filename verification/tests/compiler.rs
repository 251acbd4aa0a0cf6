use hasty::compiler::{Compiler, Statement};
use hasty::parser::ast::BoxedASTNode;
use hasty::parser::Parser;
use hasty::scanner::Scanner;

fn parsed(input: &str) -> Vec<BoxedASTNode> {
    Parser::new(Scanner::new(input).scan().unwrap()).parse().unwrap()
}

fn shown(statement: &Statement) -> String {
    match statement {
        Statement::Binary { left, operator, right } => {
            format!("({} {} {})", shown(left), operator, shown(right))
        }
        Statement::Logical { left, operator, right } => {
            format!("{{{} {} {}}}", shown(left), operator, shown(right))
        }
        Statement::Literal { value } => value.clone(),
    }
}

#[test]
fn operators_over_literals_are_compiled() {
    let ast = parsed("1 + 2 * 2");
    assert!(Compiler::supports(&ast[0]));
    let statement = Compiler::compile_node(&ast[0]).unwrap();
    assert_eq!(shown(&statement), "(1 + (2 * 2))");
    match statement {
        Statement::Binary { left, operator, right } => {
            assert_eq!(operator, "+");
            assert!(matches!(*left, Statement::Literal { .. }));
            assert!(matches!(*right, Statement::Binary { .. }));
        }
        other => panic!("{:?}", other),
    }
}

#[test]
fn logical_operators_get_a_statement_of_their_own() {
    let ast = parsed("1 == 2 || true");
    let statement = Compiler::compile_node(&ast[0]).unwrap();
    assert!(matches!(statement, Statement::Logical { .. }));
    assert_eq!(shown(&statement), "{(1 == 2) || true}");
}

#[test]
fn literals_are_taken_as_they_stand() {
    let ast = parsed("\"text\" 1.50 nil");
    let found: Vec<String> =
        ast.iter().map(|node| shown(&Compiler::compile_node(node).unwrap())).collect();
    assert_eq!(found, vec!["\"text\"", "1.50", "nil"]);
}

#[test]
fn declarations_and_variables_give_no_statement() {
    let ast = parsed("let x: int = 1; x; x + 1; 1 + x");
    for node in &ast {
        assert!(Compiler::supports(node));
        assert!(Compiler::compile_node(node).is_none());
    }
}

#[test]
fn prefix_operators_and_groupings_are_not_supported() {
    let ast = parsed("-1; (1); 1 + -2; (1) + 2; 1 && (2)");
    for node in &ast {
        assert!(!Compiler::supports(node));
    }
}

#[test]
fn what_lies_behind_an_operand_without_statement_is_not_looked_at() {
    let ast = parsed("x + -1; x || (2)");
    for node in &ast {
        assert!(Compiler::supports(node));
        assert!(Compiler::compile_node(node).is_none());
    }
}

#[test]
fn a_program_gives_the_statements_of_its_trees() {
    let ast = parsed("1 + 2; let x = 1; 3; x; 4 < 5 && 6");
    let statements = Compiler::new().compile_ast(&ast);
    let found: Vec<String> = statements.iter().map(shown).collect();
    assert_eq!(found, vec!["(1 + 2)", "3", "{(4 < 5) && 6}"]);
    assert!(Compiler::new().compile_ast(&Vec::new()).is_empty());
}

#[test]
fn a_statement_in_a_box() {
    let statement = Statement::Literal { value: "1".to_string() };
    let boxed = statement.boxed();
    assert_eq!(shown(&boxed), "1");
}
