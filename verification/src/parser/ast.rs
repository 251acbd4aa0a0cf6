//! The syntax tree.

use vstd::prelude::*;
use vstd::std_specs::convert::FromSpecImpl;
use vstd::string::StringExecFns;
use crate::scanner::{Token, TokenView};
use crate::util::metacontainer::{MetaContainer, MetaKind, MetaValue};

verus! {

/// A node of the tree with its metadata.
#[derive(Debug)]
pub struct BoxedASTNode {
    pub node: Box<ASTNode>,
    pub meta: MetaContainer,
}

/// Every kind of node.
#[derive(Debug)]
pub enum ASTNode {
    /// Expression with two operands (infix).
    Binary { left: BoxedASTNode, operator: Token, right: BoxedASTNode },
    /// Logical expression with two operands (infix).
    Logical { left: BoxedASTNode, operator: Token, right: BoxedASTNode },
    /// Expression with one operand (prefix).
    Unary { operator: Token, right: BoxedASTNode },
    /// Literal expression.
    Literal { value: Token },
    /// Grouping expression.
    Grouping { expr: BoxedASTNode },
    /// Variable declaration.
    VarDecl { name: Token, ty: Option<Token>, initializer: Option<BoxedASTNode> },
    /// Use of a variable.
    Variable { name: Token },
}

/// Mathematical model of a [`BoxedASTNode`]: the node and what is attached
/// to it.
pub struct Tree {
    pub syntax: Syntax,
    pub meta: Map<MetaKind, MetaValue>,
}

/// Mathematical model of an [`ASTNode`].
pub enum Syntax {
    Binary { left: Box<Tree>, operator: TokenView, right: Box<Tree> },
    Logical { left: Box<Tree>, operator: TokenView, right: Box<Tree> },
    Unary { operator: TokenView, right: Box<Tree> },
    Literal { value: TokenView },
    Grouping { expr: Box<Tree> },
    VarDecl { name: TokenView, ty: Option<TokenView>, initializer: Option<Box<Tree>> },
    Variable { name: TokenView },
}

/// A tree that carries no metadata yet.
pub open spec fn bare(syntax: Syntax) -> Tree {
    Tree { syntax, meta: Map::empty() }
}

impl BoxedASTNode {
    /// The model of this node and of all below it.
    pub open spec fn model(&self) -> Tree
        decreases self,
    {
        Tree { syntax: (*self.node).model(), meta: self.meta@ }
    }

    /// The node itself.
    pub fn borrow(&self) -> (node: &ASTNode)
        ensures
            *node == *self.node,
    {
        &*self.node
    }

    /// The node itself, to be changed in place.
    pub fn borrow_mut(&mut self) -> (node: &mut ASTNode)
        ensures
            *node == *old(self).node,
            *final(self).node == *final(node),
            final(self).meta == old(self).meta,
    {
        &mut *self.node
    }

    /// The node in prefix notation.
    pub fn to_string(&self) -> (text: String)
        ensures
            text@ == render(self@),
        decreases self, 1nat,
    {
        self.node.to_string()
    }
}

impl ASTNode {
    /// The model of this node and of all below it.
    pub open spec fn model(&self) -> Syntax
        decreases self,
    {
        match self {
            ASTNode::Binary { left, operator, right } => Syntax::Binary {
                left: Box::new(left.model()),
                operator: operator@,
                right: Box::new(right.model()),
            },
            ASTNode::Logical { left, operator, right } => Syntax::Logical {
                left: Box::new(left.model()),
                operator: operator@,
                right: Box::new(right.model()),
            },
            ASTNode::Unary { operator, right } => Syntax::Unary {
                operator: operator@,
                right: Box::new(right.model()),
            },
            ASTNode::Literal { value } => Syntax::Literal { value: value@ },
            ASTNode::Grouping { expr } => Syntax::Grouping { expr: Box::new(expr.model()) },
            ASTNode::VarDecl { name, ty, initializer } => Syntax::VarDecl {
                name: name@,
                ty: match ty {
                    Some(ty) => Some(ty@),
                    None => None,
                },
                initializer: match initializer {
                    Some(initializer) => Some(Box::new(initializer.model())),
                    None => None,
                },
            },
            ASTNode::Variable { name } => Syntax::Variable { name: name@ },
        }
    }

    /// This node with an empty metadata container.
    pub fn boxed(self) -> (boxed: BoxedASTNode)
        ensures
            *boxed.node == self,
            boxed.meta == MetaContainer::empty(),
            boxed@ == bare(self@),
    {
        proof {
            MetaContainer::lemma_empty();
        }
        BoxedASTNode::from(self)
    }

    /// The node in prefix notation.
    pub fn to_string(&self) -> (text: String)
        ensures
            text@ == render_syntax(self@),
        decreases self, 0nat,
    {
        let mut text = String::new();
        match self {
            ASTNode::Binary { left, operator, right } => {
                text.append("(");
                text.append(operator.lexeme.as_str());
                text.append(" ");
                text.append(left.to_string().as_str());
                text.append(" ");
                text.append(right.to_string().as_str());
                text.append(")");
            },
            ASTNode::Logical { left, operator, right } => {
                text.append("(");
                text.append(operator.lexeme.as_str());
                text.append(" ");
                text.append(left.to_string().as_str());
                text.append(" ");
                text.append(right.to_string().as_str());
                text.append(")");
            },
            ASTNode::Unary { operator, right } => {
                text.append("(");
                text.append(operator.lexeme.as_str());
                text.append(" ");
                text.append(right.to_string().as_str());
                text.append(")");
            },
            ASTNode::Literal { value } => {
                text.append(value.lexeme.as_str());
            },
            ASTNode::Grouping { expr } => {
                text.append("(");
                text.append(expr.to_string().as_str());
                text.append(")");
            },
            ASTNode::VarDecl { name, ty, initializer } => {
                text.append("(letvardecl ");
                text.append(name.lexeme.as_str());
                if let Some(ty) = ty {
                    text.append(": ");
                    text.append(ty.lexeme.as_str());
                }
                if let Some(initializer) = initializer {
                    text.append(" = ");
                    text.append(initializer.to_string().as_str());
                }
                text.append(")");
            },
            ASTNode::Variable { name } => {
                text.append("(var ");
                text.append(name.lexeme.as_str());
                text.append(")");
            },
        }
        text
    }
}

impl From<ASTNode> for BoxedASTNode {
    /// The node with an empty metadata container.
    fn from(node: ASTNode) -> (boxed: Self) {
        Self { node: Box::new(node), meta: MetaContainer::new() }
    }
}

impl FromSpecImpl<ASTNode> for BoxedASTNode {
    open spec fn obeys_from_spec() -> bool {
        true
    }

    open spec fn from_spec(node: ASTNode) -> Self {
        Self { node: Box::new(node), meta: MetaContainer::empty() }
    }
}

impl View for BoxedASTNode {
    type V = Tree;

    open spec fn view(&self) -> Tree {
        self.model()
    }
}

impl View for ASTNode {
    type V = Syntax;

    open spec fn view(&self) -> Syntax {
        self.model()
    }
}

/// A tree in prefix notation.
pub open spec fn render(tree: Tree) -> Seq<char>
    decreases tree, 1nat,
{
    render_syntax(tree.syntax)
}

/// A node in prefix notation: an operator comes before its operands, in
/// round brackets; a literal is its lexeme.
pub open spec fn render_syntax(syntax: Syntax) -> Seq<char>
    decreases syntax, 0nat,
{
    match syntax {
        Syntax::Binary { left, operator, right } => "("@ + operator.lexeme + " "@ + render(*left)
            + " "@ + render(*right) + ")"@,
        Syntax::Logical { left, operator, right } => "("@ + operator.lexeme + " "@ + render(*left)
            + " "@ + render(*right) + ")"@,
        Syntax::Unary { operator, right } => "("@ + operator.lexeme + " "@ + render(*right) + ")"@,
        Syntax::Literal { value } => value.lexeme,
        Syntax::Grouping { expr } => "("@ + render(*expr) + ")"@,
        Syntax::VarDecl { name, ty, initializer } => "(letvardecl "@ + name.lexeme + (match ty {
            Some(ty) => ": "@ + ty.lexeme,
            None => Seq::empty(),
        }) + (match initializer {
            Some(initializer) => " = "@ + render(*initializer),
            None => Seq::empty(),
        }) + ")"@,
        Syntax::Variable { name } => "(var "@ + name.lexeme + ")"@,
    }
}

/// `count` levels of indentation, four spaces each.
pub open spec fn padding(count: nat) -> Seq<char>
    decreases count,
{
    if count == 0 {
        Seq::empty()
    } else {
        padding((count - 1) as nat) + "    "@
    }
}

/// The texts `rendered`, each on a line of its own behind `indent` levels
/// of indentation.
pub open spec fn lines(rendered: Seq<Seq<char>>, indent: nat) -> Seq<char>
    decreases rendered.len(),
{
    if rendered.len() == 0 {
        Seq::empty()
    } else {
        lines(rendered.drop_last(), indent) + padding(indent) + rendered.last() + "\n"@
    }
}

/// The texts `rendered` as a block: an opening brace, the texts one level
/// deeper, one on a line, and the closing brace.
pub open spec fn block(rendered: Seq<Seq<char>>, indent: nat) -> Seq<char> {
    padding(indent) + "{\n"@ + lines(rendered, indent + 1) + padding(indent) + "}\n"@
}

/// Adds `count` levels of indentation to `text`.
fn pad(text: &mut String, count: usize)
    ensures
        final(text)@ == old(text)@ + padding(count as nat),
{
    let mut done: usize = 0;
    while done < count
        invariant
            done <= count,
            text@ == old(text)@ + padding(done as nat),
        decreases count - done,
    {
        text.append("    ");
        done += 1;
        assert(text@ =~= old(text)@ + padding(done as nat));
    }
}

/// A sequence of nodes that can be shown as a block.
pub trait ASTNodeVecExt {
    /// The nodes in prefix notation, in order.
    spec fn rendered(&self) -> Seq<Seq<char>>;

    /// The nodes as a block at `indent` levels of indentation.
    fn display(&self, indent: usize) -> (text: String)
        requires
            indent < usize::MAX,
        ensures
            text@ == block(self.rendered(), indent as nat),
    ;
}

impl ASTNodeVecExt for Vec<ASTNode> {
    open spec fn rendered(&self) -> Seq<Seq<char>> {
        self@.map_values(|node: ASTNode| render_syntax(node@))
    }

    fn display(&self, indent: usize) -> (text: String) {
        let mut text = String::new();
        pad(&mut text, indent);
        text.append("{\n");
        let ghost head = text@;
        let mut i: usize = 0;
        while i < self.len()
            invariant
                i <= self.len(),
                indent < usize::MAX,
                head == padding(indent as nat) + "{\n"@,
                text@ == head + lines(self.rendered().take(i as int), (indent + 1) as nat),
            decreases self.len() - i,
        {
            pad(&mut text, indent + 1);
            text.append(self[i].to_string().as_str());
            text.append("\n");
            proof {
                let next = self.rendered().take(i + 1);
                assert(next.drop_last() =~= self.rendered().take(i as int));
                assert(text@ =~= head + lines(next, (indent + 1) as nat));
            }
            i += 1;
        }
        assert(self.rendered().take(i as int) =~= self.rendered());
        pad(&mut text, indent);
        text.append("}\n");
        text
    }
}

impl ASTNodeVecExt for Vec<BoxedASTNode> {
    open spec fn rendered(&self) -> Seq<Seq<char>> {
        self@.map_values(|node: BoxedASTNode| render(node@))
    }

    fn display(&self, indent: usize) -> (text: String) {
        let mut text = String::new();
        pad(&mut text, indent);
        text.append("{\n");
        let ghost head = text@;
        let mut i: usize = 0;
        while i < self.len()
            invariant
                i <= self.len(),
                indent < usize::MAX,
                head == padding(indent as nat) + "{\n"@,
                text@ == head + lines(self.rendered().take(i as int), (indent + 1) as nat),
            decreases self.len() - i,
        {
            pad(&mut text, indent + 1);
            text.append(self[i].to_string().as_str());
            text.append("\n");
            proof {
                let next = self.rendered().take(i + 1);
                assert(next.drop_last() =~= self.rendered().take(i as int));
                assert(text@ =~= head + lines(next, (indent + 1) as nat));
            }
            i += 1;
        }
        assert(self.rendered().take(i as int) =~= self.rendered());
        pad(&mut text, indent);
        text.append("}\n");
        text
    }
}

} // verus!
