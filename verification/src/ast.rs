use vstd::prelude::*;

use std::rc::Rc;

use crate::tokens::{Operations, Token};
use crate::variable::Variable;

verus! {

#[derive(PartialEq, Eq, Structural, Clone, Copy, Debug)]
pub enum JumpType {
    Break,
    Continue,
}

/// A `break` or `continue` out of the loop with the given number.
#[derive(Debug)]
pub struct Jump {
    pub jump_type: JumpType,
    pub loop_number: usize,
    pub token: Token,
}

/// `def NAME: TYPE` with an optional `= EXPRESSION`
#[derive(Debug)]
pub struct DeclarationStatement {
    pub left: Variable,
    pub right: Option<Box<ASTNode>>,
}

/// `fun NAME(PARAMETERS) { BLOCK }`
#[derive(Debug)]
pub struct FunctionDefinition {
    pub function_name: String,
    pub parameters: Vec<Variable>,
    pub block: Box<ASTNode>,
}

/// A sequence of statements.
#[derive(Debug)]
pub struct Program {
    pub statements: Vec<ASTNode>,
}

/// A node of the syntax tree. A function definition is shared with the parser's
/// table of functions.
#[derive(Debug)]
pub enum ASTNode {
    Program(Program),
    DeclarationStatement(DeclarationStatement),
    FunctionDefinition(Rc<FunctionDefinition>),
    Jump(Jump),
    /// A literal or a variable reference.
    Factor(Token),
    BinaryOp(Box<ASTNode>, Operations, Box<ASTNode>),
}

/// The mathematical form of a syntax tree: lists become sequences.
pub enum Node {
    Program(Seq<Node>),
    Declaration(Variable, Option<Box<Node>>),
    Function(FunctionView),
    Jump(Jump),
    Factor(Token),
    BinaryOp(Box<Node>, Operations, Box<Node>),
}

/// The mathematical form of a function definition.
pub struct FunctionView {
    pub function_name: String,
    pub parameters: Seq<Variable>,
    pub block: Box<Node>,
}

impl ASTNode {
    pub open spec fn node(&self) -> Node
        decreases self,
    {
        match self {
            ASTNode::Program(p) => Node::Program(
                Seq::new(
                    p.statements.len() as nat,
                    |i: int|
                        if 0 <= i < p.statements.len() {
                            p.statements@[i].node()
                        } else {
                            Node::Program(Seq::empty())
                        },
                ),
            ),
            ASTNode::DeclarationStatement(d) => Node::Declaration(
                d.left,
                match &d.right {
                    Some(r) => Some(Box::new(r.node())),
                    None => None,
                },
            ),
            ASTNode::FunctionDefinition(f) => Node::Function(
                FunctionView {
                    function_name: f.function_name,
                    parameters: f.parameters@,
                    block: Box::new(f.block.node()),
                },
            ),
            ASTNode::Jump(j) => Node::Jump(*j),
            ASTNode::Factor(t) => Node::Factor(*t),
            ASTNode::BinaryOp(l, op, r) => Node::BinaryOp(Box::new(l.node()), *op, Box::new(r.node())),
        }
    }
}

impl View for ASTNode {
    type V = Node;

    open spec fn view(&self) -> Node {
        self.node()
    }
}

impl View for FunctionDefinition {
    type V = FunctionView;

    open spec fn view(&self) -> FunctionView {
        FunctionView {
            function_name: self.function_name,
            parameters: self.parameters@,
            block: Box::new(self.block.node()),
        }
    }
}

/// The mathematical form of a list of nodes.
pub open spec fn nodes_view(v: Seq<ASTNode>) -> Seq<Node> {
    Seq::new(v.len(), |i: int| v[i]@)
}

} // verus!
