//! The parser: from tokens to the trees of the top-level statements.

use vstd::prelude::*;
use vstd::string::StringExecFns;
use self::ast::{ASTNode, BoxedASTNode, Tree};
use self::grammar::{
    at_end, ends, literal, operator_at, prefix_operator, Parsed, LEVELS,
};
use crate::scanner::rules::left;
use crate::scanner::{kind_name, lemma_kind_name_plain, token_views, Token, TokenType, TokenView};
use crate::util::{unified_error, ErrorFacts, HastyError};

pub mod ast;
pub mod grammar;
pub mod shape;

verus! {

/// The kinds of failure of a parse.
#[derive(Debug, Clone, Copy, PartialEq, Eq, Structural)]
pub enum ParserErrorTy {
    /// A token of kind `token` had to stand here.
    ExpectedToken { token: TokenType },
    /// No expression starts with the token found here.
    UnexpectedToken,
}

/// Mathematical model of a [`ParserError`].
pub struct ParseFailure {
    pub ty: ParserErrorTy,
    pub token: TokenView,
}

/// Why a parse was given up, and the token at which it was.
#[derive(Debug)]
pub struct ParserError {
    pub ty: ParserErrorTy,
    pub token: Token,
}

impl View for ParserError {
    type V = ParseFailure;

    open spec fn view(&self) -> ParseFailure {
        ParseFailure { ty: self.ty, token: self.token@ }
    }
}

impl ParserError {
    /// The error of kind `ty` at `token`.
    pub fn new(ty: ParserErrorTy, token: Token) -> (error: Self)
        ensures
            error.ty == ty,
            error.token == token,
    {
        Self { ty, token }
    }
}

/// What went wrong in a parse that failed in the way `ty`.
pub open spec fn parse_description(ty: ParserErrorTy) -> Seq<char> {
    match ty {
        ParserErrorTy::ExpectedToken { token } => "Expected "@ + kind_name(token) + "."@,
        ParserErrorTy::UnexpectedToken => "Unexpected token."@,
    }
}

impl HastyError for ParserError {
    open spec fn facts(&self) -> ErrorFacts {
        ErrorFacts {
            stage: "PARSER"@,
            description: parse_description(self.ty),
            line: self.token@.line,
            column: self.token@.start,
            lexeme: self.token@.lexeme,
        }
    }

    fn stage(&self) -> (stage: &'static str) {
        "PARSER"
    }

    fn line(&self) -> (line: usize) {
        self.token.line
    }

    fn column(&self) -> (column: usize) {
        self.token.start
    }

    fn lexeme(&self) -> (lexeme: &str) {
        self.token.lexeme.as_str()
    }

    fn as_hasty_error_string(&self) -> (report: String) {
        proof {
            reveal_strlit("");
            reveal_strlit("PARSER");
            reveal_strlit("Expected ");
            reveal_strlit(".");
            reveal_strlit("Unexpected token.");
            if let ParserErrorTy::ExpectedToken { token } = self.ty {
                lemma_kind_name_plain(token);
            }
        }
        unified_error(
            self.stage(),
            self.get_error_description().as_str(),
            self.line(),
            self.column(),
            self.lexeme(),
            "",
        )
    }

    fn get_error_description(&self) -> (description: String) {
        match self.ty {
            ParserErrorTy::ExpectedToken { token } => {
                let mut description = "Expected ".to_owned();
                description.append(token.name());
                description.append(".");
                description
            },
            ParserErrorTy::UnexpectedToken => "Unexpected token.".to_owned(),
        }
    }
}

/// Mathematical model of a [`Parser`]: its tokens and where it stands.
pub struct ParserView {
    pub tokens: Seq<TokenView>,
    pub current: nat,
}

/// The models of the trees of `nodes`, in order.
pub open spec fn trees(nodes: Seq<BoxedASTNode>) -> Seq<Tree> {
    nodes.map_values(|node: BoxedASTNode| node@)
}

/// The model of what a parse returned.
pub open spec fn parsed(result: Result<Vec<BoxedASTNode>, ParserError>) -> Result<
    Seq<Tree>,
    ParseFailure,
> {
    match result {
        Ok(nodes) => Ok(trees(nodes@)),
        Err(error) => Err(error@),
    }
}

/// The infix operators of level `level`.
fn operators(level: u8) -> (types: Vec<TokenType>)
    ensures
        forall|ty: TokenType| types@.contains(ty) <==> operator_at(level as nat, ty),
{
    let types = if level == 0 {
        vec![TokenType::OR]
    } else if level == 1 {
        vec![TokenType::AND]
    } else if level == 2 {
        vec![TokenType::BANG_EQUAL, TokenType::EQUAL_EQUAL]
    } else if level == 3 {
        vec![
            TokenType::GREATER,
            TokenType::GREATER_EQUAL,
            TokenType::LESS,
            TokenType::LESS_EQUAL,
        ]
    } else if level == 4 {
        vec![TokenType::MINUS, TokenType::PLUS]
    } else if level == 5 {
        vec![TokenType::SLASH, TokenType::STAR]
    } else {
        Vec::new()
    };
    assert forall|ty: TokenType| operator_at(level as nat, ty) implies types@.contains(ty) by {
        if types@.len() > 0 && types@[0] == ty {
        } else if types@.len() > 1 && types@[1] == ty {
        } else if types@.len() > 2 && types@[2] == ty {
        } else if types@.len() > 3 && types@[3] == ty {
        }
    }
    types
}

/// Parses tokens into the trees of the top-level statements.
#[derive(Debug)]
pub struct Parser {
    tokens: Vec<Token>,
    current: usize,
}

impl View for Parser {
    type V = ParserView;

    closed spec fn view(&self) -> ParserView {
        ParserView { tokens: token_views(self.tokens@), current: self.current as nat }
    }
}

impl Parser {
    #[verifier::type_invariant]
    spec fn closed(&self) -> bool {
        ends(token_views(self.tokens@), self.current as nat)
    }

    /// The models of the tokens.
    spec fn stream(&self) -> Seq<TokenView> {
        token_views(self.tokens@)
    }

    /// Tokens left from the current one on.
    spec fn ahead(&self) -> nat {
        left(self.tokens@.len(), self.current as nat)
    }

    /// Whether this parser is `before` after parsing a construct that the
    /// grammar gives as `expected`, `result` being what it returned.
    spec fn parsed_as(
        &self,
        before: &Self,
        result: Result<BoxedASTNode, ParserError>,
        expected: Parsed,
    ) -> bool {
        &&& self.tokens == before.tokens
        &&& match expected {
            Parsed::Node { tree, used } => {
                &&& result matches Ok(node)
                &&& node@ == tree
                &&& self.current == before.current + used
            },
            Parsed::Failed { failure } => result matches Err(error) && error@ == failure,
        }
    }

    /// Whether `tokens` hold an end token, as a parser needs them to.
    pub fn accepts(tokens: &Vec<Token>) -> (yes: bool)
        ensures
            yes == ends(token_views(tokens@), 0),
    {
        let ghost stream = token_views(tokens@);
        let mut i: usize = 0;
        while i < tokens.len()
            invariant
                i <= tokens.len(),
                stream == token_views(tokens@),
                ends(stream, 0) == ends(stream, i as nat),
            decreases tokens.len() - i,
        {
            if tokens[i].token_type == TokenType::EOF {
                return true;
            }
            i += 1;
        }
        false
    }

    /// A parser at the first of `tokens`, which must hold an end token.
    pub fn new(tokens: Vec<Token>) -> (parser: Self)
        requires
            ends(token_views(tokens@), 0),
        ensures
            parser@ == (ParserView { tokens: token_views(tokens@), current: 0 }),
    {
        Self { tokens, current: 0 }
    }

    /// Whether the current token is the end token.
    fn is_at_end(&self) -> (done: bool)
        ensures
            done == at_end(self.stream(), self.current as nat),
            self.current < self.tokens@.len(),
    {
        self.peek().token_type == TokenType::EOF
    }

    /// The current token.
    fn peek(&self) -> (token: &Token)
        ensures
            self.current < self.tokens@.len(),
            *token == self.tokens@[self.current as int],
    {
        proof {
            use_type_invariant(self);
        }
        &self.tokens[self.current]
    }

    /// The token before the current one.
    fn previous(&self) -> (token: &Token)
        requires
            self.current > 0,
        ensures
            *token == self.tokens@[self.current - 1],
    {
        proof {
            use_type_invariant(self);
        }
        &self.tokens[self.current - 1]
    }

    /// Moves on to the next token, unless the current one is the end token.
    fn advance(&mut self)
        ensures
            final(self).tokens == old(self).tokens,
            final(self).current == if at_end(old(self).stream(), old(self).current as nat) {
                old(self).current as int
            } else {
                old(self).current + 1
            },
    {
        if !self.is_at_end() {
            proof {
                use_type_invariant(&*self);
                assert(self.current < self.tokens.len());
                assert(ends(self.stream(), (self.current + 1) as nat));
            }
            self.current += 1;
        }
    }

    /// Whether the current token is of kind `ty`.
    fn check(&self, ty: TokenType) -> (found: bool)
        ensures
            found == grammar::check(self.stream(), self.current as nat, ty),
    {
        if self.is_at_end() {
            return false;
        }
        self.peek().token_type == ty
    }

    /// Moves past the current token if it is of kind `ty`, and says whether
    /// it did.
    fn try_match(&mut self, ty: TokenType) -> (matched: bool)
        ensures
            final(self).tokens == old(self).tokens,
            matched == grammar::check(old(self).stream(), old(self).current as nat, ty),
            final(self).current == if matched {
                old(self).current + 1
            } else {
                old(self).current as int
            },
    {
        if self.check(ty) {
            self.advance();
            return true;
        }
        false
    }

    /// Moves past the current token if its kind is among `types`, and says
    /// whether it did.
    fn match_any(&mut self, types: &Vec<TokenType>) -> (matched: bool)
        ensures
            final(self).tokens == old(self).tokens,
            matched == (!at_end(old(self).stream(), old(self).current as nat) && types@.contains(
                old(self).stream()[old(self).current as int].token_type,
            )),
            final(self).current == if matched {
                old(self).current + 1
            } else {
                old(self).current as int
            },
    {
        let mut i: usize = 0;
        while i < types.len()
            invariant
                i <= types.len(),
                *self == *old(self),
                forall|j: int| 0 <= j < i ==> !grammar::check(self.stream(), self.current as nat, types@[j]),
            decreases types.len() - i,
        {
            if self.check(types[i]) {
                self.advance();
                return true;
            }
            i += 1;
        }
        false
    }

    /// The error of kind `et` at the current token.
    fn parser_error(&self, et: ParserErrorTy) -> (result: Result<(), ParserError>)
        ensures
            result matches Err(error) && grammar::fail(self.stream(), self.current as nat, et)
                == (Parsed::Failed { failure: error@ }),
    {
        Err(ParserError::new(et, self.peek().clone()))
    }

    /// Moves past the current token if it is of kind `ty`; fails if it is
    /// not.
    fn expect(&mut self, ty: TokenType) -> (result: Result<(), ParserError>)
        ensures
            final(self).tokens == old(self).tokens,
            grammar::check(old(self).stream(), old(self).current as nat, ty) ==> result is Ok
                && final(self).current == old(self).current + 1,
            !grammar::check(old(self).stream(), old(self).current as nat, ty) ==> (result matches Err(
                error,
            ) && grammar::fail(
                old(self).stream(),
                old(self).current as nat,
                ParserErrorTy::ExpectedToken { token: ty },
            ) == (Parsed::Failed { failure: error@ })),
    {
        if self.try_match(ty) {
            Ok(())
        } else {
            self.parser_error(ParserErrorTy::ExpectedToken { token: ty })
        }
    }

    /// Parses the statements up to the end token. Returns their trees in
    /// order, each node with an empty metadata container, or the first
    /// error.
    pub fn parse(self) -> (result: Result<Vec<BoxedASTNode>, ParserError>)
        ensures
            parsed(result) == grammar::program(self@.tokens, self@.current),
    {
        let mut parser = self;
        let mut nodes: Vec<BoxedASTNode> = Vec::new();
        let ghost whole = grammar::program(self.stream(), self.current as nat);
        assert(trees(nodes@) =~= Seq::empty());
        while !parser.is_at_end()
            invariant
                parser.tokens == self.tokens,
                whole == grammar::program(self.stream(), self.current as nat),
                whole == match grammar::program(parser.stream(), parser.current as nat) {
                    Ok(rest) => Ok(trees(nodes@) + rest),
                    Err(failure) => Err(failure),
                },
            decreases parser.ahead(),
        {
            let ghost before = parser;
            let ghost found = trees(nodes@);
            proof {
                grammar::lemma_statement_progress(parser.stream(), parser.current as nat);
            }
            match parser.statement() {
                Ok(node) => {
                    nodes.push(node);
                },
                Err(error) => {
                    assert(grammar::program(before.stream(), before.current as nat) == Err::<
                        Seq<Tree>,
                        ParseFailure,
                    >(error@));
                    return Err(error);
                },
            }
            proof {
                assert(trees(nodes@) =~= found.push(nodes@.last()@));
                if let Ok(rest) = grammar::program(parser.stream(), parser.current as nat) {
                    assert(found + (seq![nodes@.last()@] + rest) =~= trees(nodes@) + rest);
                }
            }
        }
        assert(trees(nodes@) + Seq::<Tree>::empty() =~= trees(nodes@));
        Ok(nodes)
    }

    /// statement -> declaration | expression ";"?
    fn statement(&mut self) -> (result: Result<BoxedASTNode, ParserError>)
        ensures
            final(self).parsed_as(
                old(self),
                result,
                grammar::statement(old(self).stream(), old(self).current as nat),
            ),
    {
        if self.check(TokenType::LET) {
            return self.declaration();
        }
        let node = match self.expression() {
            Ok(node) => node,
            Err(error) => {
                return Err(error);
            },
        };
        self.try_match(TokenType::SEMICOLON);
        Ok(node)
    }

    /// declaration -> "let" IDENTIFIER ( ":" IDENTIFIER )? "=" expression ";"
    fn declaration(&mut self) -> (result: Result<BoxedASTNode, ParserError>)
        requires
            grammar::check(old(self).stream(), old(self).current as nat, TokenType::LET),
        ensures
            final(self).parsed_as(
                old(self),
                result,
                grammar::declaration(old(self).stream(), old(self).current as nat),
            ),
    {
        self.advance();
        match self.expect(TokenType::IDENTIFIER) {
            Ok(()) => {},
            Err(error) => {
                return Err(error);
            },
        }
        let name = self.previous().clone();
        let mut ty: Option<Token> = None;
        if self.try_match(TokenType::COLON) {
            match self.expect(TokenType::IDENTIFIER) {
                Ok(()) => {},
                Err(error) => {
                    return Err(error);
                },
            }
            ty = Some(self.previous().clone());
        }
        match self.expect(TokenType::EQUAL) {
            Ok(()) => {},
            Err(error) => {
                return Err(error);
            },
        }
        let initializer = match self.expression() {
            Ok(node) => node,
            Err(error) => {
                return Err(error);
            },
        };
        match self.expect(TokenType::SEMICOLON) {
            Ok(()) => {},
            Err(error) => {
                return Err(error);
            },
        }
        Ok(ASTNode::VarDecl { name, ty, initializer: Some(initializer) }.boxed())
    }

    /// expression -> logic_or
    fn expression(&mut self) -> (result: Result<BoxedASTNode, ParserError>)
        ensures
            final(self).parsed_as(
                old(self),
                result,
                grammar::expression(old(self).stream(), old(self).current as nat),
            ),
        decreases old(self).ahead(), 23nat,
    {
        self.logic_or()
    }

    /// logic_or -> logic_and ( "||" logic_and )*
    fn logic_or(&mut self) -> (result: Result<BoxedASTNode, ParserError>)
        ensures
            final(self).parsed_as(
                old(self),
                result,
                grammar::infix(old(self).stream(), old(self).current as nat, 0),
            ),
        decreases old(self).ahead(), 22nat,
    {
        self.infix(0)
    }

    /// logic_and -> equality ( "&&" equality )*
    fn logic_and(&mut self) -> (result: Result<BoxedASTNode, ParserError>)
        ensures
            final(self).parsed_as(
                old(self),
                result,
                grammar::infix(old(self).stream(), old(self).current as nat, 1),
            ),
        decreases old(self).ahead(), 19nat,
    {
        self.infix(1)
    }

    /// equality -> comparison ( ( "!=" | "==" ) comparison )*
    fn equality(&mut self) -> (result: Result<BoxedASTNode, ParserError>)
        ensures
            final(self).parsed_as(
                old(self),
                result,
                grammar::infix(old(self).stream(), old(self).current as nat, 2),
            ),
        decreases old(self).ahead(), 16nat,
    {
        self.infix(2)
    }

    /// comparison -> term ( ( ">" | ">=" | "<" | "<=" ) term )*
    fn comparison(&mut self) -> (result: Result<BoxedASTNode, ParserError>)
        ensures
            final(self).parsed_as(
                old(self),
                result,
                grammar::infix(old(self).stream(), old(self).current as nat, 3),
            ),
        decreases old(self).ahead(), 13nat,
    {
        self.infix(3)
    }

    /// term -> factor ( ( "-" | "+" ) factor )*
    fn term(&mut self) -> (result: Result<BoxedASTNode, ParserError>)
        ensures
            final(self).parsed_as(
                old(self),
                result,
                grammar::infix(old(self).stream(), old(self).current as nat, 4),
            ),
        decreases old(self).ahead(), 10nat,
    {
        self.infix(4)
    }

    /// factor -> unary ( ( "/" | "*" ) unary )*
    fn factor(&mut self) -> (result: Result<BoxedASTNode, ParserError>)
        ensures
            final(self).parsed_as(
                old(self),
                result,
                grammar::infix(old(self).stream(), old(self).current as nat, 5),
            ),
        decreases old(self).ahead(), 7nat,
    {
        self.infix(5)
    }

    /// An operand of an operator of level `level`: an expression of the
    /// next level.
    fn operand(&mut self, level: u8) -> (result: Result<BoxedASTNode, ParserError>)
        requires
            level < LEVELS,
        ensures
            final(self).parsed_as(
                old(self),
                result,
                grammar::infix(old(self).stream(), old(self).current as nat, level as nat + 1),
            ),
        decreases old(self).ahead(), 3 * (7 - level) - 1,
    {
        if level == 0 {
            self.logic_and()
        } else if level == 1 {
            self.equality()
        } else if level == 2 {
            self.comparison()
        } else if level == 3 {
            self.term()
        } else if level == 4 {
            self.factor()
        } else {
            self.unary()
        }
    }

    /// The rule that the levels of infix operators share: an operand, then
    /// operators of level `level` with their operands, folded to the left.
    fn infix(&mut self, level: u8) -> (result: Result<BoxedASTNode, ParserError>)
        requires
            level < LEVELS,
        ensures
            final(self).parsed_as(
                old(self),
                result,
                grammar::infix(old(self).stream(), old(self).current as nat, level as nat),
            ),
        decreases old(self).ahead(), 3 * (7 - level),
    {
        let mut expr = match self.operand(level) {
            Ok(node) => node,
            Err(error) => {
                return Err(error);
            },
        };
        let types = operators(level);
        let ghost start = old(self).current as nat;
        let ghost whole = grammar::infix(old(self).stream(), start, level as nat);
        loop
            invariant
                level < LEVELS,
                self.tokens == old(self).tokens,
                start == old(self).current <= self.current,
                forall|ty: TokenType| types@.contains(ty) <==> operator_at(level as nat, ty),
                whole == grammar::infix(old(self).stream(), start, level as nat),
                whole == grammar::infix_rest(
                    self.stream(),
                    self.current as nat,
                    level as nat,
                    expr@,
                    (self.current - start) as nat,
                ),
            ensures
                self.parsed_as(old(self), Ok(expr), whole),
            decreases self.ahead(),
        {
            if !self.match_any(&types) {
                break ;
            }
            let operator = self.previous().clone();
            proof {
                use_type_invariant(&*self);
            }
            let right = match self.operand(level) {
                Ok(node) => node,
                Err(error) => {
                    return Err(error);
                },
            };
            expr = if level < 2 {
                ASTNode::Logical { left: expr, operator, right }.boxed()
            } else {
                ASTNode::Binary { left: expr, operator, right }.boxed()
            };
            proof {
                use_type_invariant(&*self);
            }
        }
        Ok(expr)
    }

    /// unary -> ( "!" | "-" ) unary | primary
    fn unary(&mut self) -> (result: Result<BoxedASTNode, ParserError>)
        ensures
            final(self).parsed_as(
                old(self),
                result,
                grammar::unary(old(self).stream(), old(self).current as nat),
            ),
        decreases old(self).ahead(), 4nat,
    {
        let types = vec![TokenType::BANG, TokenType::MINUS];
        proof {
            let ty = old(self).stream()[old(self).current as int].token_type;
            if prefix_operator(ty) {
                assert(types@[0] == ty || types@[1] == ty);
            }
        }
        if self.match_any(&types) {
            let operator = self.previous().clone();
            proof {
                use_type_invariant(&*self);
            }
            let right = match self.unary() {
                Ok(node) => node,
                Err(error) => {
                    return Err(error);
                },
            };
            return Ok(ASTNode::Unary { operator, right }.boxed());
        }
        self.primary()
    }

    /// primary -> literal | "(" expression ")" | IDENTIFIER
    fn primary(&mut self) -> (result: Result<BoxedASTNode, ParserError>)
        ensures
            final(self).parsed_as(
                old(self),
                result,
                grammar::primary(old(self).stream(), old(self).current as nat),
            ),
        decreases old(self).ahead(), 3nat,
    {
        let keywords = vec![TokenType::TRUE, TokenType::FALSE, TokenType::NIL];
        let values = vec![TokenType::INTEGER, TokenType::FLOATING, TokenType::STRING];
        proof {
            let ty = old(self).stream()[old(self).current as int].token_type;
            if literal(ty) {
                assert(keywords@[0] == ty || keywords@[1] == ty || keywords@[2] == ty || values@[0]
                    == ty || values@[1] == ty || values@[2] == ty);
            }
        }
        if self.match_any(&keywords) {
            return Ok(ASTNode::Literal { value: self.previous().clone() }.boxed());
        }
        if self.match_any(&values) {
            return Ok(ASTNode::Literal { value: self.previous().clone() }.boxed());
        }
        if self.try_match(TokenType::LEFT_PAREN) {
            proof {
                use_type_invariant(&*self);
            }
            let expr = match self.expression() {
                Ok(node) => node,
                Err(error) => {
                    return Err(error);
                },
            };
            match self.expect(TokenType::RIGHT_PAREN) {
                Ok(()) => {},
                Err(error) => {
                    return Err(error);
                },
            }
            return Ok(ASTNode::Grouping { expr }.boxed());
        }
        if self.try_match(TokenType::IDENTIFIER) {
            return Ok(ASTNode::Variable { name: self.previous().clone() }.boxed());
        }
        Err(ParserError::new(ParserErrorTy::UnexpectedToken, self.peek().clone()))
    }
}

} // verus!
