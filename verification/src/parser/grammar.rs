//! The grammar, stated over the models of the tokens.
//!
//! ```text
//! program     := statement* EOF
//! statement   := declaration | expression ";"?
//! declaration := "let" IDENTIFIER (":" IDENTIFIER)? "=" expression ";"
//! expression  := logic_or
//! logic_or    := logic_and  ( "||" logic_and )*
//! logic_and   := equality   ( "&&" equality )*
//! equality    := comparison ( ("!=" | "==") comparison )*
//! comparison  := term       ( (">" | ">=" | "<" | "<=") term )*
//! term        := factor     ( ("+" | "-") factor )*
//! factor      := unary      ( ("*" | "/") unary )*
//! unary       := ("!" | "-") unary | primary
//! primary     := TRUE | FALSE | NIL | INTEGER | FLOATING | STRING
//!              | "(" expression ")" | IDENTIFIER
//! ```
//!
//! Everything here is specification: the executable parser is proved to
//! compute [`program`].

use vstd::prelude::*;
use super::ast::{bare, Syntax, Tree};
use super::{ParseFailure, ParserErrorTy};
use crate::scanner::rules::left;
use crate::scanner::{TokenType, TokenView};

verus! {

/// Number of the levels of infix operators; level 0 binds loosest.
pub const LEVELS: u8 = 6;

/// Whether a token of kind `ty` is an infix operator of level `level`.
pub open spec fn operator_at(level: nat, ty: TokenType) -> bool {
    if level == 0 {
        ty == TokenType::OR
    } else if level == 1 {
        ty == TokenType::AND
    } else if level == 2 {
        ty == TokenType::BANG_EQUAL || ty == TokenType::EQUAL_EQUAL
    } else if level == 3 {
        ty == TokenType::GREATER || ty == TokenType::GREATER_EQUAL || ty == TokenType::LESS || ty
            == TokenType::LESS_EQUAL
    } else if level == 4 {
        ty == TokenType::MINUS || ty == TokenType::PLUS
    } else if level == 5 {
        ty == TokenType::SLASH || ty == TokenType::STAR
    } else {
        false
    }
}

/// Whether a token of kind `ty` is a prefix operator.
pub open spec fn prefix_operator(ty: TokenType) -> bool {
    ty == TokenType::BANG || ty == TokenType::MINUS
}

/// Whether a token of kind `ty` is a literal.
pub open spec fn literal(ty: TokenType) -> bool {
    ||| ty == TokenType::TRUE
    ||| ty == TokenType::FALSE
    ||| ty == TokenType::NIL
    ||| ty == TokenType::INTEGER
    ||| ty == TokenType::FLOATING
    ||| ty == TokenType::STRING
}

/// The node of `operator`, an operator of level `level`, over two operands:
/// logical on the two loosest levels, binary on the others.
pub open spec fn join(level: nat, left: Tree, operator: TokenView, right: Tree) -> Tree {
    if level < 2 {
        bare(Syntax::Logical { left: Box::new(left), operator, right: Box::new(right) })
    } else {
        bare(Syntax::Binary { left: Box::new(left), operator, right: Box::new(right) })
    }
}

/// Whether the parser is done at `pos`: at the end token, or past the last
/// token.
pub open spec fn at_end(tokens: Seq<TokenView>, pos: nat) -> bool {
    pos >= tokens.len() || tokens[pos as int].token_type == TokenType::EOF
}

/// Whether the token at `pos` is of kind `ty`. The end token is of no kind.
pub open spec fn check(tokens: Seq<TokenView>, pos: nat, ty: TokenType) -> bool {
    !at_end(tokens, pos) && tokens[pos as int].token_type == ty
}

/// Whether an end token stands at `pos` or after it.
pub open spec fn ends(tokens: Seq<TokenView>, pos: nat) -> bool
    decreases left(tokens.len(), pos),
{
    pos < tokens.len() && (tokens[pos as int].token_type == TokenType::EOF || ends(tokens, pos + 1))
}

/// Tokens with an end token at `at` hold one from every position up to
/// `at`.
pub proof fn lemma_ends_before(tokens: Seq<TokenView>, pos: nat, at: nat)
    requires
        pos <= at < tokens.len(),
        tokens[at as int].token_type == TokenType::EOF,
    ensures
        ends(tokens, pos),
    decreases at - pos,
{
    if pos < at {
        lemma_ends_before(tokens, pos + 1, at);
    }
}

/// What parsing one construct comes to.
pub enum Parsed {
    /// The tree of the construct, and the number of tokens it took.
    Node { tree: Tree, used: nat },
    /// The failure that ends the parse.
    Failed { failure: ParseFailure },
}

/// The failure of kind `ty` at `pos`: it holds the token found there.
pub open spec fn fail(tokens: Seq<TokenView>, pos: nat, ty: ParserErrorTy) -> Parsed {
    Parsed::Failed { failure: ParseFailure { ty, token: tokens[pos as int] } }
}

/// Order of the rules that can follow one another without a token read
/// between them.
pub open spec fn rank(level: nat) -> nat {
    if level < LEVELS {
        (4 + 2 * (LEVELS - level)) as nat
    } else {
        4
    }
}

/// An expression of level `level` at `pos`: an operand of the next level,
/// then operators of this level with their operands, folded to the left.
/// Past the last level stands a unary expression.
pub open spec fn infix(tokens: Seq<TokenView>, pos: nat, level: nat) -> Parsed
    decreases left(tokens.len(), pos), rank(level),
{
    if level >= LEVELS {
        unary(tokens, pos)
    } else {
        match infix(tokens, pos, level + 1) {
            Parsed::Node { tree, used } => infix_rest(tokens, pos + used, level, tree, used),
            Parsed::Failed { failure } => Parsed::Failed { failure },
        }
    }
}

/// What an expression of level `level` comes to, its operands so far being
/// folded into `left`: they took `used` tokens and end before `pos`.
pub open spec fn infix_rest(
    tokens: Seq<TokenView>,
    pos: nat,
    level: nat,
    left: Tree,
    used: nat,
) -> Parsed
    decreases crate::scanner::rules::left(tokens.len(), pos), (rank(level) - 1) as nat,
{
    if level < LEVELS && !at_end(tokens, pos) && operator_at(level, tokens[pos as int].token_type) {
        match infix(tokens, pos + 1, level + 1) {
            Parsed::Node { tree, used: more } => infix_rest(
                tokens,
                pos + 1 + more,
                level,
                join(level, left, tokens[pos as int], tree),
                used + 1 + more,
            ),
            Parsed::Failed { failure } => Parsed::Failed { failure },
        }
    } else {
        Parsed::Node { tree: left, used }
    }
}

/// A unary expression at `pos`: prefix operators, then a primary.
pub open spec fn unary(tokens: Seq<TokenView>, pos: nat) -> Parsed
    decreases left(tokens.len(), pos), 2nat,
{
    if !at_end(tokens, pos) && prefix_operator(tokens[pos as int].token_type) {
        match unary(tokens, pos + 1) {
            Parsed::Node { tree, used } => Parsed::Node {
                tree: bare(Syntax::Unary { operator: tokens[pos as int], right: Box::new(tree) }),
                used: used + 1,
            },
            Parsed::Failed { failure } => Parsed::Failed { failure },
        }
    } else {
        primary(tokens, pos)
    }
}

/// A primary at `pos`: a literal, an expression in round brackets, or a
/// variable. A closing bracket that is missing is expected where it should
/// stand; any other token is unexpected.
pub open spec fn primary(tokens: Seq<TokenView>, pos: nat) -> Parsed
    decreases left(tokens.len(), pos), 1nat,
{
    if at_end(tokens, pos) {
        fail(tokens, pos, ParserErrorTy::UnexpectedToken)
    } else if literal(tokens[pos as int].token_type) {
        Parsed::Node { tree: bare(Syntax::Literal { value: tokens[pos as int] }), used: 1 }
    } else if tokens[pos as int].token_type == TokenType::LEFT_PAREN {
        match infix(tokens, pos + 1, 0) {
            Parsed::Node { tree, used } => {
                if check(tokens, pos + 1 + used, TokenType::RIGHT_PAREN) {
                    Parsed::Node {
                        tree: bare(Syntax::Grouping { expr: Box::new(tree) }),
                        used: used + 2,
                    }
                } else {
                    fail(
                        tokens,
                        pos + 1 + used,
                        ParserErrorTy::ExpectedToken { token: TokenType::RIGHT_PAREN },
                    )
                }
            },
            Parsed::Failed { failure } => Parsed::Failed { failure },
        }
    } else if tokens[pos as int].token_type == TokenType::IDENTIFIER {
        Parsed::Node { tree: bare(Syntax::Variable { name: tokens[pos as int] }), used: 1 }
    } else {
        fail(tokens, pos, ParserErrorTy::UnexpectedToken)
    }
}

/// Folding on never gives tokens back: the whole takes at least the tokens
/// of the operands folded so far.
pub proof fn lemma_rest_keeps(tokens: Seq<TokenView>, pos: nat, level: nat, left: Tree, used: nat)
    ensures
        infix_rest(tokens, pos, level, left, used) matches Parsed::Node { used: all, .. } ==> all
            >= used,
    decreases crate::scanner::rules::left(tokens.len(), pos),
{
    if level < LEVELS && !at_end(tokens, pos) && operator_at(level, tokens[pos as int].token_type) {
        if let Parsed::Node { tree, used: more } = infix(tokens, pos + 1, level + 1) {
            lemma_rest_keeps(
                tokens,
                pos + 1 + more,
                level,
                join(level, left, tokens[pos as int], tree),
                used + 1 + more,
            );
        }
    }
}

/// A unary expression takes at least one token.
pub proof fn lemma_unary_progress(tokens: Seq<TokenView>, pos: nat)
    ensures
        unary(tokens, pos) matches Parsed::Node { used, .. } ==> used >= 1,
{
    if !(!at_end(tokens, pos) && prefix_operator(tokens[pos as int].token_type)) {
        assert(unary(tokens, pos) == primary(tokens, pos));
    }
}

/// An expression takes at least one token.
pub proof fn lemma_infix_progress(tokens: Seq<TokenView>, pos: nat, level: nat)
    ensures
        infix(tokens, pos, level) matches Parsed::Node { used, .. } ==> used >= 1,
    decreases rank(level),
{
    if level < LEVELS {
        lemma_infix_progress(tokens, pos, level + 1);
        if let Parsed::Node { tree, used } = infix(tokens, pos, level + 1) {
            lemma_rest_keeps(tokens, pos + used, level, tree, used);
        }
    } else {
        lemma_unary_progress(tokens, pos);
    }
}

/// A statement takes at least one token.
pub proof fn lemma_statement_progress(tokens: Seq<TokenView>, pos: nat)
    ensures
        statement(tokens, pos) matches Parsed::Node { used, .. } ==> used >= 1,
{
    lemma_infix_progress(tokens, pos, 0);
}

/// An expression at `pos`.
pub open spec fn expression(tokens: Seq<TokenView>, pos: nat) -> Parsed {
    infix(tokens, pos, 0)
}

/// A token of kind `ty` is due at `pos`: `rest` if it is there, else the
/// failure that expected it.
pub open spec fn expect(tokens: Seq<TokenView>, pos: nat, ty: TokenType, rest: Parsed) -> Parsed {
    if check(tokens, pos, ty) {
        rest
    } else {
        fail(tokens, pos, ParserErrorTy::ExpectedToken { token: ty })
    }
}

/// What follows the name of a declaration and its type, if it has one:
/// the equals sign at `pos`, the initializer and the semicolon. `used`
/// tokens precede `pos`.
pub open spec fn initializer(
    tokens: Seq<TokenView>,
    pos: nat,
    name: TokenView,
    ty: Option<TokenView>,
    used: nat,
) -> Parsed {
    expect(
        tokens,
        pos,
        TokenType::EQUAL,
        match expression(tokens, pos + 1) {
            Parsed::Node { tree, used: more } => expect(
                tokens,
                pos + 1 + more,
                TokenType::SEMICOLON,
                Parsed::Node {
                    tree: bare(
                        Syntax::VarDecl { name, ty, initializer: Some(Box::new(tree)) },
                    ),
                    used: used + more + 2,
                },
            ),
            Parsed::Failed { failure } => Parsed::Failed { failure },
        },
    )
}

/// A declaration whose `let` stands at `pos`.
pub open spec fn declaration(tokens: Seq<TokenView>, pos: nat) -> Parsed {
    expect(
        tokens,
        pos + 1,
        TokenType::IDENTIFIER,
        if check(tokens, pos + 2, TokenType::COLON) {
            expect(
                tokens,
                pos + 3,
                TokenType::IDENTIFIER,
                initializer(
                    tokens,
                    pos + 4,
                    tokens[pos as int + 1],
                    Some(tokens[pos as int + 3]),
                    4,
                ),
            )
        } else {
            initializer(tokens, pos + 2, tokens[pos as int + 1], None, 2)
        },
    )
}

/// A statement at `pos`: a declaration where a `let` stands there, else an
/// expression, with the semicolon after it if there is one.
pub open spec fn statement(tokens: Seq<TokenView>, pos: nat) -> Parsed {
    if check(tokens, pos, TokenType::LET) {
        declaration(tokens, pos)
    } else {
        match expression(tokens, pos) {
            Parsed::Node { tree, used } => Parsed::Node {
                tree,
                used: if check(tokens, pos + used, TokenType::SEMICOLON) {
                    used + 1
                } else {
                    used
                },
            },
            Parsed::Failed { failure } => Parsed::Failed { failure },
        }
    }
}

/// The statements from `pos` up to the end token, or the first failure.
pub open spec fn program(tokens: Seq<TokenView>, pos: nat) -> Result<Seq<Tree>, ParseFailure>
    decreases left(tokens.len(), pos),
{
    if at_end(tokens, pos) {
        Ok(Seq::empty())
    } else {
        match statement(tokens, pos) {
            Parsed::Node { tree, used } => {
                proof {
                    lemma_statement_progress(tokens, pos);
                }
                match program(tokens, pos + used) {
                    Ok(rest) => Ok(seq![tree] + rest),
                    Err(failure) => Err(failure),
                }
            },
            Parsed::Failed { failure } => Err(failure),
        }
    }
}

} // verus!
