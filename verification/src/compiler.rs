//! The compiler: from a tree to the statements of the target program.
//!
//! Operators over literals are compiled. Declarations and variables give
//! no statement yet; prefix operators and groupings cannot be handed to the
//! compiler at all.

use vstd::prelude::*;
use crate::parser::ast::{ASTNode, BoxedASTNode, Syntax, Tree};
use crate::parser::trees;

verus! {

/// Mathematical model of a [`Statement`].
pub enum Code {
    Binary { left: Box<Code>, operator: Seq<char>, right: Box<Code> },
    Logical { left: Box<Code>, operator: Seq<char>, right: Box<Code> },
    Literal { value: Seq<char> },
}

/// A statement of the target program.
#[derive(Debug)]
pub enum Statement {
    /// An operator between two statements.
    Binary { left: Box<Statement>, operator: String, right: Box<Statement> },
    /// A logical operator between two statements, in a block of its own.
    Logical { left: Box<Statement>, operator: String, right: Box<Statement> },
    /// A literal, as it stands in the source.
    Literal { value: String },
}

impl Statement {
    /// The model of this statement and of all below it.
    pub open spec fn model(&self) -> Code
        decreases self,
    {
        match self {
            Statement::Binary { left, operator, right } => Code::Binary {
                left: Box::new((**left).model()),
                operator: operator@,
                right: Box::new((**right).model()),
            },
            Statement::Logical { left, operator, right } => Code::Logical {
                left: Box::new((**left).model()),
                operator: operator@,
                right: Box::new((**right).model()),
            },
            Statement::Literal { value } => Code::Literal { value: value@ },
        }
    }

    /// This statement in a box.
    pub fn boxed(self) -> (boxed: Box<Statement>)
        ensures
            *boxed == self,
    {
        Box::new(self)
    }
}

impl View for Statement {
    type V = Code;

    open spec fn view(&self) -> Code {
        self.model()
    }
}

/// The statement of `tree`, or `None` where it has none. The left operand
/// is compiled first; where it gives no statement the right one is not
/// looked at.
pub open spec fn compiled(tree: Tree) -> Option<Code>
    decreases tree,
{
    match tree.syntax {
        Syntax::Binary { left, operator, right } => match compiled(*left) {
            Some(first) => match compiled(*right) {
                Some(second) => Some(
                    Code::Binary {
                        left: Box::new(first),
                        operator: operator.lexeme,
                        right: Box::new(second),
                    },
                ),
                None => None,
            },
            None => None,
        },
        Syntax::Logical { left, operator, right } => match compiled(*left) {
            Some(first) => match compiled(*right) {
                Some(second) => Some(
                    Code::Logical {
                        left: Box::new(first),
                        operator: operator.lexeme,
                        right: Box::new(second),
                    },
                ),
                None => None,
            },
            None => None,
        },
        Syntax::Literal { value } => Some(Code::Literal { value: value.lexeme }),
        _ => None,
    }
}

/// Whether the compiler can be given `tree`: compiling it comes upon no
/// prefix operator and no grouping.
pub open spec fn supported(tree: Tree) -> bool
    decreases tree,
{
    match tree.syntax {
        Syntax::Binary { left, operator, right } => supported(*left) && (compiled(*left) is Some
            ==> supported(*right)),
        Syntax::Logical { left, operator, right } => supported(*left) && (compiled(*left) is Some
            ==> supported(*right)),
        Syntax::Unary { .. } => false,
        Syntax::Grouping { .. } => false,
        _ => true,
    }
}

/// The statements of `trees`, in order, without the trees that have
/// none.
pub open spec fn compiled_all(trees: Seq<Tree>) -> Seq<Code>
    decreases trees.len(),
{
    if trees.len() == 0 {
        Seq::empty()
    } else {
        let before = compiled_all(trees.drop_last());
        match compiled(trees.last()) {
            Some(code) => before.push(code),
            None => before,
        }
    }
}

/// The models of `statements`, in order.
pub open spec fn codes(statements: Seq<Statement>) -> Seq<Code> {
    statements.map_values(|statement: Statement| statement@)
}

/// Compiles a program to the statements of the target language.
#[derive(Debug)]
pub struct Compiler {}

impl Compiler {
    /// A compiler.
    pub fn new() -> Self {
        Self {  }
    }

    /// The statements of the trees of `ast`, in order, without the trees
    /// that have none.
    pub fn compile_ast(&mut self, ast: &Vec<BoxedASTNode>) -> (statements: Vec<Statement>)
        requires
            forall|i: int| 0 <= i < ast@.len() ==> supported(#[trigger] ast@[i]@),
        ensures
            codes(statements@) == compiled_all(trees(ast@)),
    {
        let mut statements: Vec<Statement> = Vec::new();
        let mut i: usize = 0;
        assert(trees(ast@).take(0) =~= Seq::empty());
        assert(codes(statements@) =~= Seq::empty());
        while i < ast.len()
            invariant
                i <= ast.len(),
                forall|i: int| 0 <= i < ast@.len() ==> supported(#[trigger] ast@[i]@),
                codes(statements@) == compiled_all(trees(ast@).take(i as int)),
            decreases ast.len() - i,
        {
            let ghost before = codes(statements@);
            assert(trees(ast@).take(i + 1).drop_last() =~= trees(ast@).take(i as int));
            if let Some(statement) = Self::compile_node(&ast[i]) {
                statements.push(statement);
                assert(codes(statements@) =~= before.push(statement@));
            }
            i += 1;
        }
        assert(trees(ast@).take(i as int) =~= trees(ast@));
        statements
    }

    /// Whether `node` can be given to [`Compiler::compile_node`].
    pub fn supports(node: &BoxedASTNode) -> (yes: bool)
        ensures
            yes == supported(node@),
        decreases node,
    {
        match node.borrow() {
            ASTNode::Binary { left, operator, right } => Self::supports(left) && (
            Self::compile_node(left).is_none() || Self::supports(right)),
            ASTNode::Logical { left, operator, right } => Self::supports(left) && (
            Self::compile_node(left).is_none() || Self::supports(right)),
            ASTNode::Unary { operator, right } => false,
            ASTNode::Grouping { expr } => false,
            _ => true,
        }
    }

    /// The statement of `node`, or `None` where it has none.
    pub fn compile_node(node: &BoxedASTNode) -> (statement: Option<Statement>)
        requires
            supported(node@),
        ensures
            match statement {
                Some(statement) => compiled(node@) == Some(statement@),
                None => compiled(node@) is None,
            },
        decreases node,
    {
        match node.borrow() {
            ASTNode::Binary { left, operator, right } => {
                let left = match Self::compile_node(left) {
                    Some(statement) => statement,
                    None => {
                        return None;
                    },
                };
                let right = match Self::compile_node(right) {
                    Some(statement) => statement,
                    None => {
                        return None;
                    },
                };
                Some(
                    Statement::Binary {
                        left: left.boxed(),
                        operator: operator.lexeme.clone(),
                        right: right.boxed(),
                    },
                )
            },
            ASTNode::Logical { left, operator, right } => {
                let left = match Self::compile_node(left) {
                    Some(statement) => statement,
                    None => {
                        return None;
                    },
                };
                let right = match Self::compile_node(right) {
                    Some(statement) => statement,
                    None => {
                        return None;
                    },
                };
                Some(
                    Statement::Logical {
                        left: left.boxed(),
                        operator: operator.lexeme.clone(),
                        right: right.boxed(),
                    },
                )
            },
            ASTNode::Literal { value } => Some(Statement::Literal { value: value.lexeme.clone() }),
            _ => None,
        }
    }
}

} // verus!
