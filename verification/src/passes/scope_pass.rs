//! The pass that binds names and attaches types.
//!
//! It walks the top-level nodes in order with one scope. A declaration
//! binds its name to its type; a use of a variable takes the type that its
//! name is bound to; a literal has the type of its kind; a grouping has the
//! type of what it holds. Operators get no type from this pass, and their
//! operands are not visited.

use vstd::prelude::*;
use super::Pass;
use crate::parser::ast::{ASTNode, BoxedASTNode, Syntax, Tree};
use crate::parser::trees;
use crate::scanner::{Token, TokenType, TokenView};
use crate::util::metacontainer::{MetaContainer, MetaKind, MetaValue};
use crate::util::scope::{declare, lookup, Frame, Scope};
use crate::util::{unified_error, ErrorFacts, HastyError};

verus! {

/// The type of a node, as metadata.
#[derive(Debug, PartialEq, Eq)]
pub struct TypeInfo {
    /// Name of the type.
    pub ty: String,
}

impl Clone for TypeInfo {
    fn clone(&self) -> (copy: Self)
        ensures
            copy == *self,
    {
        TypeInfo { ty: self.ty.clone() }
    }
}

/// What a scope records of a variable.
#[derive(Debug, PartialEq, Eq)]
pub struct VarInfo {
    /// Name of the variable's type.
    pub ty: String,
}

/// Frames of bindings from the name of a variable to the name of its
/// type, outermost first.
pub type Types = Seq<Frame<Seq<char>>>;

/// The bindings of `frames`, each variable with the name of its type.
pub open spec fn types_of(frames: Seq<Frame<VarInfo>>) -> Types {
    frames.map_values(|frame: Frame<VarInfo>| frame.map_values(|info: VarInfo| info.ty@))
}

/// Mathematical model of a [`ScopePassError`].
pub enum ResolveFailure {
    UndeclaredVariable { token: TokenView },
    MalformedDeclaration { token: TokenView },
}

/// Why the pass was given up.
#[derive(Debug)]
pub enum ScopePassError {
    /// The variable `token` is used and no declaration precedes the use.
    UndeclaredVariable { token: Token },
    /// The declaration of `token` names no type and has no initializer
    /// that a type could be taken from.
    MalformedDeclaration { token: Token },
}

impl View for ScopePassError {
    type V = ResolveFailure;

    open spec fn view(&self) -> ResolveFailure {
        match self {
            ScopePassError::UndeclaredVariable { token } => ResolveFailure::UndeclaredVariable {
                token: token@,
            },
            ScopePassError::MalformedDeclaration { token } => ResolveFailure::MalformedDeclaration {
                token: token@,
            },
        }
    }
}

/// What went wrong in a pass that failed as `failure`.
pub open spec fn resolve_description(failure: ResolveFailure) -> Seq<char> {
    match failure {
        ResolveFailure::UndeclaredVariable { .. } => "Undeclared variable."@,
        ResolveFailure::MalformedDeclaration { .. } => "Malformed declaration."@,
    }
}

/// The token that `failure` was found at.
pub open spec fn failed_at(failure: ResolveFailure) -> TokenView {
    match failure {
        ResolveFailure::UndeclaredVariable { token } => token,
        ResolveFailure::MalformedDeclaration { token } => token,
    }
}

impl ScopePassError {
    /// The token that the error was found at.
    pub fn token(&self) -> (token: &Token)
        ensures
            token@ == failed_at(self@),
    {
        match self {
            ScopePassError::UndeclaredVariable { token } => token,
            ScopePassError::MalformedDeclaration { token } => token,
        }
    }
}

impl HastyError for ScopePassError {
    open spec fn facts(&self) -> ErrorFacts {
        ErrorFacts {
            stage: "RESOLVER"@,
            description: resolve_description(self@),
            line: failed_at(self@).line,
            column: failed_at(self@).start,
            lexeme: failed_at(self@).lexeme,
        }
    }

    fn stage(&self) -> (stage: &'static str) {
        "RESOLVER"
    }

    fn line(&self) -> (line: usize) {
        self.token().line
    }

    fn column(&self) -> (column: usize) {
        self.token().start
    }

    fn lexeme(&self) -> (lexeme: &str) {
        self.token().lexeme.as_str()
    }

    fn as_hasty_error_string(&self) -> (report: String) {
        proof {
            reveal_strlit("");
            reveal_strlit("RESOLVER");
            reveal_strlit("Undeclared variable.");
            reveal_strlit("Malformed declaration.");
        }
        unified_error(
            self.stage(),
            self.get_error_description().as_str(),
            self.line(),
            self.column(),
            self.lexeme(),
            "",
        )
    }

    fn get_error_description(&self) -> (description: String) {
        match self {
            ScopePassError::UndeclaredVariable { .. } => "Undeclared variable.".to_owned(),
            ScopePassError::MalformedDeclaration { .. } => "Malformed declaration.".to_owned(),
        }
    }
}

/// The type of a literal of kind `kind`: `nil` has a type of its own; a
/// token that is no literal has none.
pub open spec fn literal_type(kind: TokenType) -> Option<Seq<char>> {
    match kind {
        TokenType::INTEGER => Some("int"@),
        TokenType::FLOATING => Some("float"@),
        TokenType::STRING => Some("string"@),
        TokenType::TRUE | TokenType::FALSE => Some("bool"@),
        TokenType::NIL => Some("nil"@),
        _ => None,
    }
}

/// The type attached to the root of `tree`, if one is.
pub open spec fn type_of(tree: Tree) -> Option<Seq<char>> {
    if tree.meta.contains_key(MetaKind::TypeInfo) {
        match tree.meta[MetaKind::TypeInfo] {
            MetaValue::TypeInfo(ty) => Some(ty),
            _ => None,
        }
    } else {
        None
    }
}

/// `tree` with the type `ty` attached to its root.
pub open spec fn typed(tree: Tree, ty: Seq<char>) -> Tree {
    Tree { syntax: tree.syntax, meta: tree.meta.insert(MetaKind::TypeInfo, MetaValue::TypeInfo(ty)) }
}

/// `tree` with `ty` attached to its root, if `ty` is a type.
pub open spec fn typed_if(tree: Tree, ty: Option<Seq<char>>) -> Tree {
    match ty {
        Some(ty) => typed(tree, ty),
        None => tree,
    }
}

/// What resolving a tree comes to: the tree and the scope as the pass
/// leaves them, and the failure that ended it, if one did. After a failure
/// the tree and the scope hold what was done before it.
pub struct Resolution {
    pub tree: Tree,
    pub scope: Types,
    pub failure: Option<ResolveFailure>,
}

/// Resolves `tree` in `scope`.
pub open spec fn resolve(tree: Tree, scope: Types) -> Resolution
    decreases tree,
{
    match tree.syntax {
        Syntax::VarDecl { name, ty: Some(ty), initializer } => Resolution {
            tree: typed(tree, ty.lexeme),
            scope: declare(scope, name.lexeme, ty.lexeme),
            failure: None,
        },
        Syntax::VarDecl { name, ty: None, initializer: Some(initializer) } => {
            let inner = resolve(*initializer, scope);
            let held = Tree {
                syntax: Syntax::VarDecl { name, ty: None, initializer: Some(Box::new(inner.tree)) },
                meta: tree.meta,
            };
            if inner.failure is Some {
                Resolution { tree: held, scope: inner.scope, failure: inner.failure }
            } else {
                match type_of(inner.tree) {
                    Some(ty) => Resolution {
                        tree: typed(held, ty),
                        scope: declare(inner.scope, name.lexeme, ty),
                        failure: None,
                    },
                    None => Resolution {
                        tree: held,
                        scope: inner.scope,
                        failure: Some(ResolveFailure::MalformedDeclaration { token: name }),
                    },
                }
            }
        },
        Syntax::VarDecl { name, ty: None, initializer: None } => Resolution {
            tree,
            scope,
            failure: Some(ResolveFailure::MalformedDeclaration { token: name }),
        },
        Syntax::Variable { name } => match lookup(scope, name.lexeme) {
            Some(ty) => Resolution { tree: typed(tree, ty), scope, failure: None },
            None => Resolution {
                tree,
                scope,
                failure: Some(ResolveFailure::UndeclaredVariable { token: name }),
            },
        },
        Syntax::Literal { value } => Resolution {
            tree: typed_if(tree, literal_type(value.token_type)),
            scope,
            failure: None,
        },
        Syntax::Grouping { expr } => {
            let inner = resolve(*expr, scope);
            let held = Tree { syntax: Syntax::Grouping { expr: Box::new(inner.tree) }, meta: tree.meta };
            if inner.failure is Some {
                Resolution { tree: held, scope: inner.scope, failure: inner.failure }
            } else {
                Resolution { tree: typed_if(held, type_of(inner.tree)), scope: inner.scope, failure: None }
            }
        },
        _ => Resolution { tree, scope, failure: None },
    }
}

/// What resolving a sequence of trees comes to.
pub struct Resolutions {
    pub trees: Seq<Tree>,
    pub scope: Types,
    pub failure: Option<ResolveFailure>,
}

/// Resolves the trees from index `from` on, in order, each in the scope
/// that the one before it left. The first failure ends the pass: the
/// trees after it stay as they are.
pub open spec fn resolve_from(trees: Seq<Tree>, from: nat, scope: Types) -> Resolutions
    decreases trees.len() - from,
{
    if from >= trees.len() {
        Resolutions { trees, scope, failure: None }
    } else {
        let first = resolve(trees[from as int], scope);
        let done = trees.update(from as int, first.tree);
        if first.failure is Some {
            Resolutions { trees: done, scope: first.scope, failure: first.failure }
        } else {
            resolve_from(done, from + 1, first.scope)
        }
    }
}

/// Resolves `trees` in order, starting with a scope of one empty frame.
pub open spec fn resolve_all(trees: Seq<Tree>) -> Resolutions {
    resolve_from(trees, 0, seq![Map::empty()])
}

/// `tree` with nothing attached to any of its nodes.
pub open spec fn stripped(tree: Tree) -> Tree
    decreases tree,
{
    Tree {
        syntax: match tree.syntax {
            Syntax::Binary { left, operator, right } => Syntax::Binary {
                left: Box::new(stripped(*left)),
                operator,
                right: Box::new(stripped(*right)),
            },
            Syntax::Logical { left, operator, right } => Syntax::Logical {
                left: Box::new(stripped(*left)),
                operator,
                right: Box::new(stripped(*right)),
            },
            Syntax::Unary { operator, right } => Syntax::Unary {
                operator,
                right: Box::new(stripped(*right)),
            },
            Syntax::Literal { value } => Syntax::Literal { value },
            Syntax::Grouping { expr } => Syntax::Grouping { expr: Box::new(stripped(*expr)) },
            Syntax::VarDecl { name, ty, initializer } => Syntax::VarDecl {
                name,
                ty,
                initializer: match initializer {
                    Some(initializer) => Some(Box::new(stripped(*initializer))),
                    None => None,
                },
            },
            Syntax::Variable { name } => Syntax::Variable { name },
        },
        meta: Map::empty(),
    }
}

/// The pass changes what is attached to the nodes and nothing else: with
/// that taken away the tree is as it was, whether the pass failed or not.
pub proof fn lemma_resolve_keeps_syntax(tree: Tree, scope: Types)
    ensures
        stripped(resolve(tree, scope).tree) == stripped(tree),
    decreases tree,
{
    match tree.syntax {
        Syntax::VarDecl { name, ty: None, initializer: Some(initializer) } => {
            lemma_resolve_keeps_syntax(*initializer, scope);
        },
        Syntax::Grouping { expr } => {
            lemma_resolve_keeps_syntax(*expr, scope);
        },
        _ => {},
    }
}

/// The pass never adds or drops a frame.
pub proof fn lemma_resolve_keeps_frames(tree: Tree, scope: Types)
    requires
        scope.len() > 0,
    ensures
        resolve(tree, scope).scope.len() == scope.len(),
    decreases tree,
{
    match tree.syntax {
        Syntax::VarDecl { name, ty: None, initializer: Some(initializer) } => {
            lemma_resolve_keeps_frames(*initializer, scope);
        },
        Syntax::Grouping { expr } => {
            lemma_resolve_keeps_frames(*expr, scope);
        },
        _ => {},
    }
}

/// The index of the tree at which a pass from `from` on fails, or the
/// number of the trees where it does not fail.
pub open spec fn stop(trees: Seq<Tree>, from: nat, scope: Types) -> nat
    decreases trees.len() - from,
{
    if from >= trees.len() {
        trees.len()
    } else {
        let first = resolve(trees[from as int], scope);
        if first.failure is Some {
            from
        } else {
            stop(trees.update(from as int, first.tree), from + 1, first.scope)
        }
    }
}

/// A pass over a sequence keeps its length and fails at most once. It
/// leaves alone the trees before the one it starts at, and those behind the
/// one it fails at.
pub proof fn lemma_resolve_from_touches(trees: Seq<Tree>, from: nat, scope: Types)
    requires
        from <= trees.len(),
    ensures
        resolve_from(trees, from, scope).trees.len() == trees.len(),
        from <= stop(trees, from, scope) <= trees.len(),
        resolve_from(trees, from, scope).failure is Some <==> stop(trees, from, scope)
            < trees.len(),
        forall|i: int|
            0 <= i < from || stop(trees, from, scope) < i < trees.len() ==> (#[trigger] resolve_from(
                trees,
                from,
                scope,
            ).trees[i]) == trees[i],
    decreases trees.len() - from,
{
    if from < trees.len() {
        let first = resolve(trees[from as int], scope);
        if first.failure is None {
            lemma_resolve_from_touches(trees.update(from as int, first.tree), from + 1, first.scope);
        }
    }
}

/// The model of what the pass returned.
pub open spec fn failure_of(result: Result<(), ScopePassError>) -> Option<ResolveFailure> {
    match result {
        Ok(()) => None,
        Err(error) => Some(error@),
    }
}

/// The type of a literal of kind `kind`, if it has one.
pub fn literal_type_name(kind: TokenType) -> (name: Option<String>)
    ensures
        name is Some <==> literal_type(kind) is Some,
        name matches Some(name) ==> Some(name@) == literal_type(kind),
{
    match kind {
        TokenType::INTEGER => Some("int".to_owned()),
        TokenType::FLOATING => Some("float".to_owned()),
        TokenType::STRING => Some("string".to_owned()),
        TokenType::TRUE | TokenType::FALSE => Some("bool".to_owned()),
        TokenType::NIL => Some("nil".to_owned()),
        _ => None,
    }
}

/// Looking a name up among the types is looking it up among the bindings.
pub proof fn lemma_lookup_types(frames: Seq<Frame<VarInfo>>, name: Seq<char>)
    ensures
        lookup(types_of(frames), name) == match lookup(frames, name) {
            Some(info) => Some(info.ty@),
            None => None,
        },
    decreases frames.len(),
{
    if frames.len() > 0 {
        assert(types_of(frames).drop_last() =~= types_of(frames.drop_last()));
        lemma_lookup_types(frames.drop_last(), name);
    }
}

/// Declaring a variable declares its type.
pub proof fn lemma_declare_types(frames: Seq<Frame<VarInfo>>, name: Seq<char>, info: VarInfo)
    requires
        frames.len() > 0,
    ensures
        types_of(declare(frames, name, info)) == declare(types_of(frames), name, info.ty@),
{
    let after = types_of(declare(frames, name, info));
    let expected = declare(types_of(frames), name, info.ty@);
    assert(after.len() == expected.len());
    assert forall|i: int| 0 <= i < after.len() implies after[i] == expected[i] by {
        if i == frames.len() - 1 {
            assert(after[i] =~= expected[i]);
        }
    }
    assert(after =~= expected);
}

/// The pass that resolves the scope of each variable and its type.
#[derive(Debug)]
pub struct ScopePass;

impl ScopePass {
    /// The pass.
    pub fn new() -> Self {
        Self {  }
    }

    /// Attaches `ty` to `meta` as the type of its node.
    fn attach(meta: &mut MetaContainer, ty: String)
        ensures
            final(meta)@ == old(meta)@.insert(MetaKind::TypeInfo, MetaValue::TypeInfo(ty@)),
    {
        meta.insert(TypeInfo { ty });
    }

    /// The type attached to `node`, if one is.
    fn attached(node: &BoxedASTNode) -> (ty: Option<String>)
        ensures
            ty is Some <==> type_of(node@) is Some,
            ty matches Some(ty) ==> Some(ty@) == type_of(node@),
    {
        match node.meta.get::<TypeInfo>() {
            Some(info) => Some(info.ty.clone()),
            None => None,
        }
    }

    /// Resolves `node` and all below it in `scope`. On a failure the node
    /// and the scope keep what was done before it.
    pub fn process_node(&mut self, node: &mut BoxedASTNode, scope: &mut Scope<VarInfo>) -> (result:
        Result<(), ScopePassError>)
        ensures
            final(node)@ == resolve(old(node)@, types_of(old(scope)@)).tree,
            types_of(final(scope)@) == resolve(old(node)@, types_of(old(scope)@)).scope,
            failure_of(result) == resolve(old(node)@, types_of(old(scope)@)).failure,
        decreases *old(node),
    {
        proof {
            scope.lemma_has_frame();
        }
        match &mut *node.node {
            ASTNode::VarDecl { name, ty, initializer } => {
                match ty {
                    Some(ty) => {
                        let info = VarInfo { ty: ty.lexeme.clone() };
                        proof {
                            lemma_declare_types(scope@, name.lexeme@, info);
                        }
                        scope.insert(name.lexeme.as_str(), info);
                        Self::attach(&mut node.meta, ty.lexeme.clone());
                        Ok(())
                    },
                    None => {
                        match initializer {
                            Some(initializer) => {
                                match self.process_node(initializer, scope) {
                                    Ok(()) => {},
                                    Err(error) => {
                                        return Err(error);
                                    },
                                }
                                match Self::attached(initializer) {
                                    Some(ty) => {
                                        let info = VarInfo { ty: ty.clone() };
                                        proof {
                                            scope.lemma_has_frame();
                                            lemma_declare_types(scope@, name.lexeme@, info);
                                        }
                                        Self::attach(&mut node.meta, ty);
                                        scope.insert(name.lexeme.as_str(), info);
                                        Ok(())
                                    },
                                    None => Err(
                                        ScopePassError::MalformedDeclaration { token: name.clone() },
                                    ),
                                }
                            },
                            None => Err(ScopePassError::MalformedDeclaration { token: name.clone() }),
                        }
                    },
                }
            },
            ASTNode::Variable { name } => {
                proof {
                    lemma_lookup_types(scope@, name.lexeme@);
                }
                match scope.get(name.lexeme.as_str()) {
                    Some(info) => {
                        Self::attach(&mut node.meta, info.ty.clone());
                        Ok(())
                    },
                    None => Err(ScopePassError::UndeclaredVariable { token: name.clone() }),
                }
            },
            ASTNode::Literal { value } => {
                match literal_type_name(value.token_type) {
                    Some(ty) => {
                        Self::attach(&mut node.meta, ty);
                    },
                    None => {},
                }
                Ok(())
            },
            ASTNode::Grouping { expr } => {
                match self.process_node(expr, scope) {
                    Ok(()) => {},
                    Err(error) => {
                        return Err(error);
                    },
                }
                match Self::attached(expr) {
                    Some(ty) => {
                        Self::attach(&mut node.meta, ty);
                    },
                    None => {},
                }
                Ok(())
            },
            ASTNode::Binary { left, operator, right } => Ok(()),
            ASTNode::Logical { left, operator, right } => Ok(()),
            ASTNode::Unary { operator, right } => Ok(()),
        }
    }
}

impl Pass for ScopePass {
    type Error = ScopePassError;

    type AdditionalData = ();

    /// Resolves the top-level nodes in order with one scope, which starts
    /// empty. The first failure ends the pass: the nodes before it keep
    /// what was attached to them, those after it are not touched.
    fn process(&mut self, ast: &mut Vec<BoxedASTNode>) -> (result: Result<(), ScopePassError>)
        ensures
            trees(final(ast)@) == resolve_all(trees(old(ast)@)).trees,
            failure_of(result) == resolve_all(trees(old(ast)@)).failure,
    {
        let mut scope = Scope::<VarInfo>::new();
        let ghost whole = resolve_all(trees(old(ast)@));
        assert(types_of(scope@) =~= seq![Map::<Seq<char>, Seq<char>>::empty()]) by {
            assert(types_of(scope@)[0] =~= Map::<Seq<char>, Seq<char>>::empty());
        }
        let mut i: usize = 0;
        while i < ast.len()
            invariant
                i <= ast.len(),
                whole == resolve_all(trees(old(ast)@)),
                whole == resolve_from(trees(ast@), i as nat, types_of(scope@)),
            decreases ast.len() - i,
        {
            let ghost before = trees(ast@);
            let outcome = self.process_node(&mut ast[i], &mut scope);
            assert(trees(ast@) =~= before.update(i as int, ast@[i as int]@));
            match outcome {
                Ok(()) => {},
                Err(error) => {
                    return Err(error);
                },
            }
            i += 1;
        }
        Ok(())
    }
}

} // verus!
