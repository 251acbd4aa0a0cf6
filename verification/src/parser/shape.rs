//! The shape of the trees that the grammar gives: how precedence and
//! associativity show in them.

use vstd::prelude::*;
use super::ast::{Syntax, Tree};
use super::grammar::{
    at_end, check, declaration, expression, infix, infix_rest, initializer, join, literal,
    lemma_statement_progress, operator_at, prefix_operator, primary, program, rank, statement,
    unary, Parsed, LEVELS,
};
use crate::scanner::rules::left;
use crate::scanner::{TokenType, TokenView};
use crate::util::metacontainer::{MetaKind, MetaValue};

verus! {

/// The level of the infix operator of kind `ty`, if it is one.
pub open spec fn level_of(ty: TokenType) -> Option<nat> {
    match ty {
        TokenType::OR => Some(0),
        TokenType::AND => Some(1),
        TokenType::BANG_EQUAL | TokenType::EQUAL_EQUAL => Some(2),
        TokenType::GREATER | TokenType::GREATER_EQUAL | TokenType::LESS | TokenType::LESS_EQUAL => Some(
            3,
        ),
        TokenType::MINUS | TokenType::PLUS => Some(4),
        TokenType::SLASH | TokenType::STAR => Some(5),
        _ => None,
    }
}

/// Every infix operator is of one level.
pub proof fn lemma_level_of(level: nat, ty: TokenType)
    ensures
        operator_at(level, ty) <==> level_of(ty) == Some(level),
{
}

/// Whether `tree`, with nothing attached to it, can stand as an operand of
/// an operator of a level below `level`, without round brackets:
///
/// - an operator node is of level `level` or tighter, logical on the two
///   loosest levels and binary on the others; its left operand may be of
///   its own level, its right operand is of a tighter one;
/// - a prefix operator has a prefix operator or a primary under it;
/// - a grouping holds an expression of any level;
/// - a declaration never stands in an expression.
pub open spec fn shaped(tree: Tree, level: nat) -> bool
    decreases tree,
{
    &&& tree.meta == Map::<MetaKind, MetaValue>::empty()
    &&& match tree.syntax {
        Syntax::Logical { left, operator, right } => {
            &&& level_of(operator.token_type) matches Some(own)
            &&& level <= own < 2
            &&& shaped(*left, own)
            &&& shaped(*right, own + 1)
        },
        Syntax::Binary { left, operator, right } => {
            &&& level_of(operator.token_type) matches Some(own)
            &&& level <= own
            &&& 2 <= own
            &&& shaped(*left, own)
            &&& shaped(*right, own + 1)
        },
        Syntax::Unary { operator, right } => prefix_operator(operator.token_type) && shaped(
            *right,
            LEVELS as nat,
        ),
        Syntax::Literal { value } => literal(value.token_type),
        Syntax::Grouping { expr } => shaped(*expr, 0),
        Syntax::Variable { name } => name.token_type == TokenType::IDENTIFIER,
        Syntax::VarDecl { .. } => false,
    }
}

/// A tree that can stand under a tight operator can stand under a loose
/// one.
pub proof fn lemma_shaped_looser(tree: Tree, level: nat, looser: nat)
    requires
        shaped(tree, level),
        looser <= level,
    ensures
        shaped(tree, looser),
{
}

/// What a primary gives is a literal, a grouping or a variable, and can
/// stand under any operator.
pub proof fn lemma_primary_shaped(tokens: Seq<TokenView>, pos: nat)
    ensures
        primary(tokens, pos) matches Parsed::Node { tree, .. } ==> shaped(tree, LEVELS as nat),
    decreases left(tokens.len(), pos), 1nat,
{
    if !at_end(tokens, pos) && !literal(tokens[pos as int].token_type) && tokens[pos as int].token_type
        == TokenType::LEFT_PAREN {
        lemma_infix_shaped(tokens, pos + 1, 0);
    }
}

/// What a unary expression gives can stand under any operator.
pub proof fn lemma_unary_shaped(tokens: Seq<TokenView>, pos: nat)
    ensures
        unary(tokens, pos) matches Parsed::Node { tree, .. } ==> shaped(tree, LEVELS as nat),
    decreases left(tokens.len(), pos), 2nat,
{
    if !at_end(tokens, pos) && prefix_operator(tokens[pos as int].token_type) {
        lemma_unary_shaped(tokens, pos + 1);
    } else {
        lemma_primary_shaped(tokens, pos);
    }
}

/// Folding operators of level `level` onto a tree of that level gives a
/// tree of that level.
pub proof fn lemma_rest_shaped(tokens: Seq<TokenView>, pos: nat, level: nat, first: Tree, used: nat)
    requires
        level < LEVELS,
        shaped(first, level),
    ensures
        infix_rest(tokens, pos, level, first, used) matches Parsed::Node { tree, .. } ==> shaped(
            tree,
            level,
        ),
    decreases left(tokens.len(), pos), 3nat,
{
    if !at_end(tokens, pos) && operator_at(level, tokens[pos as int].token_type) {
        lemma_infix_shaped(tokens, pos + 1, level + 1);
        if let Parsed::Node { tree, used: more } = infix(tokens, pos + 1, level + 1) {
            let joined = join(level, first, tokens[pos as int], tree);
            lemma_rest_shaped(tokens, pos + 1 + more, level, joined, used + 1 + more);
        }
    }
}

/// The tree of an expression of level `level` shows precedence and
/// associativity: every operator in it has operands that bind at least as
/// tightly as it does on its left and more tightly on its right.
pub proof fn lemma_infix_shaped(tokens: Seq<TokenView>, pos: nat, level: nat)
    ensures
        infix(tokens, pos, level) matches Parsed::Node { tree, .. } ==> shaped(tree, level),
    decreases left(tokens.len(), pos), rank(level),
{
    if level >= LEVELS {
        lemma_unary_shaped(tokens, pos);
    } else {
        lemma_infix_shaped(tokens, pos, level + 1);
        if let Parsed::Node { tree, used } = infix(tokens, pos, level + 1) {
            lemma_rest_shaped(tokens, pos + used, level, tree, used);
        }
    }
}

/// The tree of an expression shows precedence and associativity.
pub proof fn lemma_expression_shaped(tokens: Seq<TokenView>, pos: nat)
    ensures
        expression(tokens, pos) matches Parsed::Node { tree, .. } ==> shaped(tree, 0),
{
    lemma_infix_shaped(tokens, pos, 0);
}

/// Number of the tokens that an expression is written with.
pub open spec fn width(tree: Tree) -> nat
    decreases tree,
{
    match tree.syntax {
        Syntax::Binary { left, operator, right } => width(*left) + 1 + width(*right),
        Syntax::Logical { left, operator, right } => width(*left) + 1 + width(*right),
        Syntax::Unary { operator, right } => 1 + width(*right),
        Syntax::Literal { value } => 1,
        Syntax::Grouping { expr } => width(*expr) + 2,
        Syntax::Variable { name } => 1,
        Syntax::VarDecl { name, ty, initializer } => 0,
    }
}

/// Whether the expression `tree` is written in `tokens` from `pos` on:
/// each token that the tree holds is the token at its place, an operator
/// between its operands and before what it is prefixed to, and round
/// brackets stand around what a grouping holds.
pub open spec fn written(tree: Tree, tokens: Seq<TokenView>, pos: nat) -> bool
    decreases tree,
{
    &&& pos + width(tree) <= tokens.len()
    &&& match tree.syntax {
        Syntax::Binary { left, operator, right } => {
            &&& written(*left, tokens, pos)
            &&& tokens[pos as int + width(*left)] == operator
            &&& written(*right, tokens, pos + width(*left) + 1)
        },
        Syntax::Logical { left, operator, right } => {
            &&& written(*left, tokens, pos)
            &&& tokens[pos as int + width(*left)] == operator
            &&& written(*right, tokens, pos + width(*left) + 1)
        },
        Syntax::Unary { operator, right } => {
            &&& tokens[pos as int] == operator
            &&& written(*right, tokens, pos + 1)
        },
        Syntax::Literal { value } => tokens[pos as int] == value,
        Syntax::Grouping { expr } => {
            &&& tokens[pos as int].token_type == TokenType::LEFT_PAREN
            &&& written(*expr, tokens, pos + 1)
            &&& tokens[pos as int + 1 + width(*expr)].token_type == TokenType::RIGHT_PAREN
        },
        Syntax::Variable { name } => tokens[pos as int] == name,
        Syntax::VarDecl { .. } => false,
    }
}

/// What a primary gives is written in the tokens it took.
pub proof fn lemma_primary_written(tokens: Seq<TokenView>, pos: nat)
    ensures
        primary(tokens, pos) matches Parsed::Node { tree, used } ==> used == width(tree) && written(
            tree,
            tokens,
            pos,
        ),
    decreases left(tokens.len(), pos), 1nat,
{
    if !at_end(tokens, pos) && !literal(tokens[pos as int].token_type) && tokens[pos as int].token_type
        == TokenType::LEFT_PAREN {
        lemma_infix_written(tokens, pos + 1, 0);
    }
}

/// What a unary expression gives is written in the tokens it took.
pub proof fn lemma_unary_written(tokens: Seq<TokenView>, pos: nat)
    ensures
        unary(tokens, pos) matches Parsed::Node { tree, used } ==> used == width(tree) && written(
            tree,
            tokens,
            pos,
        ),
    decreases left(tokens.len(), pos), 2nat,
{
    if !at_end(tokens, pos) && prefix_operator(tokens[pos as int].token_type) {
        lemma_unary_written(tokens, pos + 1);
    } else {
        lemma_primary_written(tokens, pos);
    }
}

/// Folding on keeps the tree written in the tokens taken.
pub proof fn lemma_rest_written(tokens: Seq<TokenView>, pos: nat, level: nat, first: Tree, used: nat)
    requires
        level < LEVELS,
        used <= pos,
        used == width(first),
        written(first, tokens, (pos - used) as nat),
    ensures
        infix_rest(tokens, pos, level, first, used) matches Parsed::Node { tree, used: all } ==> all
            == width(tree) && written(tree, tokens, (pos - used) as nat),
    decreases left(tokens.len(), pos), 3nat,
{
    if !at_end(tokens, pos) && operator_at(level, tokens[pos as int].token_type) {
        lemma_infix_written(tokens, pos + 1, level + 1);
        if let Parsed::Node { tree, used: more } = infix(tokens, pos + 1, level + 1) {
            let joined = join(level, first, tokens[pos as int], tree);
            lemma_rest_written(tokens, pos + 1 + more, level, joined, used + 1 + more);
        }
    }
}

/// The tree of an expression is written in the tokens it took, one for
/// one: parsing drops no token and reorders none.
pub proof fn lemma_infix_written(tokens: Seq<TokenView>, pos: nat, level: nat)
    ensures
        infix(tokens, pos, level) matches Parsed::Node { tree, used } ==> used == width(tree)
            && written(tree, tokens, pos),
    decreases left(tokens.len(), pos), rank(level),
{
    if level >= LEVELS {
        lemma_unary_written(tokens, pos);
    } else {
        lemma_infix_written(tokens, pos, level + 1);
        if let Parsed::Node { tree, used } = infix(tokens, pos, level + 1) {
            lemma_rest_written(tokens, pos + used, level, tree, used);
        }
    }
}

/// Whether an expression of level `level` can end before `pos`: no infix
/// operator of that level or of a tighter one stands there.
pub open spec fn closes(tokens: Seq<TokenView>, pos: nat, level: nat) -> bool {
    at_end(tokens, pos) || match level_of(tokens[pos as int].token_type) {
        Some(own) => own < level,
        None => true,
    }
}

/// Levels from `level` up to the tightest.
pub open spec fn above(level: nat) -> nat {
    if level < LEVELS {
        (LEVELS - level) as nat
    } else {
        0
    }
}

/// A prefix operator over its operand, or a primary, is found where it is
/// written.
pub proof fn lemma_unary_found(tree: Tree, tokens: Seq<TokenView>, pos: nat)
    requires
        shaped(tree, LEVELS as nat),
        written(tree, tokens, pos),
    ensures
        unary(tokens, pos) == (Parsed::Node { tree, used: width(tree) }),
    decreases tree, 0nat, 0nat,
{
    match tree.syntax {
        Syntax::Unary { operator, right } => {
            lemma_unary_found(*right, tokens, pos + 1);
        },
        Syntax::Grouping { expr } => {
            lemma_infix_found(*expr, tokens, pos + 1, 0);
            assert(unary(tokens, pos) == primary(tokens, pos));
        },
        _ => {
            assert(unary(tokens, pos) == primary(tokens, pos));
        },
    }
}

/// Where a tree of level `level` is written, the parser of that level
/// comes to stand behind it with the tree folded, whatever follows.
pub proof fn lemma_fold_found(tree: Tree, tokens: Seq<TokenView>, pos: nat, level: nat)
    requires
        level < LEVELS,
        shaped(tree, level),
        written(tree, tokens, pos),
        closes(tokens, pos + width(tree), level + 1),
    ensures
        infix(tokens, pos, level) == infix_rest(
            tokens,
            pos + width(tree),
            level,
            tree,
            width(tree),
        ),
    decreases tree, above(level), 1nat,
{
    let folds = match tree.syntax {
        Syntax::Logical { left, operator, right } => level_of(operator.token_type) == Some(level),
        Syntax::Binary { left, operator, right } => level_of(operator.token_type) == Some(level),
        _ => false,
    };
    if folds {
        let (first, operator, second) = match tree.syntax {
            Syntax::Logical { left, operator, right } => (*left, operator, *right),
            Syntax::Binary { left, operator, right } => (*left, operator, *right),
            _ => arbitrary(),
        };
        let at = pos + width(first);
        lemma_fold_found(first, tokens, pos, level);
        lemma_infix_found(second, tokens, at + 1, level + 1);
        assert(tokens[at as int] == operator);
        assert(operator_at(level, operator.token_type));
        assert(join(level, first, operator, second) == tree);
    } else {
        lemma_infix_found(tree, tokens, pos, level + 1);
    }
}

/// The parser is complete: an expression of level `level` that is written
/// in the tokens, with nothing behind it that would carry it on, is what
/// the parser of that level returns. With [`lemma_infix_shaped`] and
/// [`lemma_infix_written`] this says which tree the parser returns: the one
/// tree of the right shape that is written there.
pub proof fn lemma_infix_found(tree: Tree, tokens: Seq<TokenView>, pos: nat, level: nat)
    requires
        shaped(tree, level),
        written(tree, tokens, pos),
        closes(tokens, pos + width(tree), level),
    ensures
        infix(tokens, pos, level) == (Parsed::Node { tree, used: width(tree) }),
    decreases tree, above(level), 2nat,
{
    if level >= LEVELS {
        lemma_unary_found(tree, tokens, pos);
    } else {
        lemma_fold_found(tree, tokens, pos, level);
    }
}

/// Whether `tree` has the shape of a statement: an expression, or a
/// declaration of an identifier with an expression to start from and, if
/// it names a type, an identifier for it.
pub open spec fn statement_shaped(tree: Tree) -> bool {
    match tree.syntax {
        Syntax::VarDecl { name, ty, initializer } => {
            &&& tree.meta == Map::<MetaKind, MetaValue>::empty()
            &&& name.token_type == TokenType::IDENTIFIER
            &&& ty matches Some(ty) ==> ty.token_type == TokenType::IDENTIFIER
            &&& initializer matches Some(initializer) && shaped(*initializer, 0)
        },
        _ => shaped(tree, 0),
    }
}

/// The tree of a statement has the shape of one.
pub proof fn lemma_statement_shaped(tokens: Seq<TokenView>, pos: nat)
    ensures
        statement(tokens, pos) matches Parsed::Node { tree, .. } ==> statement_shaped(tree),
{
    if check(tokens, pos, TokenType::LET) {
        if check(tokens, pos + 2, TokenType::COLON) {
            lemma_infix_shaped(tokens, pos + 5, 0);
        } else {
            lemma_infix_shaped(tokens, pos + 3, 0);
        }
    } else {
        lemma_infix_shaped(tokens, pos, 0);
    }
}

/// Every tree of a program has the shape of a statement: whatever was
/// parsed shows precedence and associativity throughout.
pub proof fn lemma_program_shaped(tokens: Seq<TokenView>, pos: nat)
    ensures
        program(tokens, pos) matches Ok(trees) ==> forall|i: int|
            0 <= i < trees.len() ==> statement_shaped(#[trigger] trees[i]),
    decreases left(tokens.len(), pos),
{
    if !at_end(tokens, pos) {
        lemma_statement_shaped(tokens, pos);
        lemma_statement_progress(tokens, pos);
        if let Parsed::Node { tree, used } = statement(tokens, pos) {
            lemma_program_shaped(tokens, pos + used);
        }
    }
}

} // verus!
