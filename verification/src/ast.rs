//! The syntax tree: expressions, statements and declarations. Every node
//! owns its children.

use vstd::prelude::*;

verus! {

/// A node of the syntax tree.
///
/// Literals keep the text they were written with. An expression statement is
/// the expression itself, and a parenthesised expression is the expression
/// inside: the tree does not record redundant parentheses.
#[derive(Debug, PartialEq)]
#[allow(inconsistent_fields)]
pub enum AstNode {
    NumberLiteral(String),
    StringLiteral(String),
    BooleanLiteral(bool),
    NullLiteral,
    ThisExpression,
    Identifier(String),
    UnaryExpression { operator: String, operand: Box<AstNode> },
    CallExpression { callee: Box<AstNode>, arguments: Vec<AstNode> },
    BinaryExpression { operator: String, left: Box<AstNode>, right: Box<AstNode> },
    LogicalExpression { operator: String, left: Box<AstNode>, right: Box<AstNode> },
    AssignmentExpression { operator: String, left: Box<AstNode>, right: Box<AstNode> },
    TernaryExpression {
        condition: Box<AstNode>,
        then_branch: Box<AstNode>,
        else_branch: Box<AstNode>,
    },
    VariableDeclaration { id: Box<AstNode>, init: Option<Box<AstNode>> },
    FunctionDeclaration { id: Box<AstNode>, params: Vec<AstNode>, body: Box<AstNode> },
    BlockStatement { body: Vec<AstNode> },
    IfStatement {
        condition: Box<AstNode>,
        then_branch: Box<AstNode>,
        else_branch: Option<Box<AstNode>>,
    },
    WhileStatement { condition: Box<AstNode>, body: Box<AstNode> },
    ReturnStatement { value: Option<Box<AstNode>> },
    Program { body: Vec<AstNode> },
}

/// The mathematical value of an [`AstNode`]: the same tree over sequences.
#[allow(inconsistent_fields)]
pub enum AstView {
    NumberLiteral(Seq<char>),
    StringLiteral(Seq<char>),
    BooleanLiteral(bool),
    NullLiteral,
    ThisExpression,
    Identifier(Seq<char>),
    UnaryExpression { operator: Seq<char>, operand: Box<AstView> },
    CallExpression { callee: Box<AstView>, arguments: Seq<AstView> },
    BinaryExpression { operator: Seq<char>, left: Box<AstView>, right: Box<AstView> },
    LogicalExpression { operator: Seq<char>, left: Box<AstView>, right: Box<AstView> },
    AssignmentExpression { operator: Seq<char>, left: Box<AstView>, right: Box<AstView> },
    TernaryExpression {
        condition: Box<AstView>,
        then_branch: Box<AstView>,
        else_branch: Box<AstView>,
    },
    VariableDeclaration { id: Box<AstView>, init: Option<Box<AstView>> },
    FunctionDeclaration { id: Box<AstView>, params: Seq<AstView>, body: Box<AstView> },
    BlockStatement { body: Seq<AstView> },
    IfStatement {
        condition: Box<AstView>,
        then_branch: Box<AstView>,
        else_branch: Option<Box<AstView>>,
    },
    WhileStatement { condition: Box<AstView>, body: Box<AstView> },
    ReturnStatement { value: Option<Box<AstView>> },
    Program { body: Seq<AstView> },
}

impl AstNode {
    /// The value of a node, by recursion on the tree.
    pub open spec fn model(&self) -> AstView
        decreases self,
    {
        match self {
            AstNode::NumberLiteral(text) => AstView::NumberLiteral(text@),
            AstNode::StringLiteral(text) => AstView::StringLiteral(text@),
            AstNode::BooleanLiteral(value) => AstView::BooleanLiteral(*value),
            AstNode::NullLiteral => AstView::NullLiteral,
            AstNode::ThisExpression => AstView::ThisExpression,
            AstNode::Identifier(name) => AstView::Identifier(name@),
            AstNode::UnaryExpression { operator, operand } => AstView::UnaryExpression {
                operator: operator@,
                operand: Box::new(operand.model()),
            },
            AstNode::CallExpression { callee, arguments } => AstView::CallExpression {
                callee: Box::new(callee.model()),
                arguments: Seq::new(
                    arguments@.len(),
                    |i: int|
                        if 0 <= i < arguments@.len() {
                            arguments@[i].model()
                        } else {
                            AstView::NullLiteral
                        },
                ),
            },
            AstNode::BinaryExpression { operator, left, right } => AstView::BinaryExpression {
                operator: operator@,
                left: Box::new(left.model()),
                right: Box::new(right.model()),
            },
            AstNode::LogicalExpression { operator, left, right } => AstView::LogicalExpression {
                operator: operator@,
                left: Box::new(left.model()),
                right: Box::new(right.model()),
            },
            AstNode::AssignmentExpression { operator, left, right } => {
                AstView::AssignmentExpression {
                    operator: operator@,
                    left: Box::new(left.model()),
                    right: Box::new(right.model()),
                }
            },
            AstNode::TernaryExpression { condition, then_branch, else_branch } => {
                AstView::TernaryExpression {
                    condition: Box::new(condition.model()),
                    then_branch: Box::new(then_branch.model()),
                    else_branch: Box::new(else_branch.model()),
                }
            },
            AstNode::VariableDeclaration { id, init } => AstView::VariableDeclaration {
                id: Box::new(id.model()),
                init: match init {
                    Some(node) => Some(Box::new(node.model())),
                    None => None,
                },
            },
            AstNode::FunctionDeclaration { id, params, body } => AstView::FunctionDeclaration {
                id: Box::new(id.model()),
                params: Seq::new(
                    params@.len(),
                    |i: int|
                        if 0 <= i < params@.len() {
                            params@[i].model()
                        } else {
                            AstView::NullLiteral
                        },
                ),
                body: Box::new(body.model()),
            },
            AstNode::BlockStatement { body } => AstView::BlockStatement {
                body: Seq::new(
                    body@.len(),
                    |i: int|
                        if 0 <= i < body@.len() {
                            body@[i].model()
                        } else {
                            AstView::NullLiteral
                        },
                ),
            },
            AstNode::IfStatement { condition, then_branch, else_branch } => AstView::IfStatement {
                condition: Box::new(condition.model()),
                then_branch: Box::new(then_branch.model()),
                else_branch: match else_branch {
                    Some(node) => Some(Box::new(node.model())),
                    None => None,
                },
            },
            AstNode::WhileStatement { condition, body } => AstView::WhileStatement {
                condition: Box::new(condition.model()),
                body: Box::new(body.model()),
            },
            AstNode::ReturnStatement { value } => AstView::ReturnStatement {
                value: match value {
                    Some(node) => Some(Box::new(node.model())),
                    None => None,
                },
            },
            AstNode::Program { body } => AstView::Program {
                body: Seq::new(
                    body@.len(),
                    |i: int|
                        if 0 <= i < body@.len() {
                            body@[i].model()
                        } else {
                            AstView::NullLiteral
                        },
                ),
            },
        }
    }
}

impl View for AstNode {
    type V = AstView;

    open spec fn view(&self) -> AstView {
        self.model()
    }
}

/// The values of a sequence of nodes, in order.
pub open spec fn node_views(nodes: Seq<AstNode>) -> Seq<AstView> {
    Seq::new(nodes.len(), |i: int| nodes[i]@)
}

/// The value of a list of children is the list of the children's values.
pub proof fn lemma_children(node: AstNode)
    ensures
        node matches AstNode::CallExpression { arguments, .. } ==> node@->arguments == node_views(
            arguments@,
        ),
        node matches AstNode::FunctionDeclaration { params, .. } ==> node@->params == node_views(
            params@,
        ),
        node matches AstNode::BlockStatement { body } ==> node@->BlockStatement_body == node_views(
            body@,
        ),
        node matches AstNode::Program { body } ==> node@->Program_body == node_views(body@),
{
    match node {
        AstNode::CallExpression { arguments, .. } => {
            assert(node@->arguments =~= node_views(arguments@));
        },
        AstNode::FunctionDeclaration { params, .. } => {
            assert(node@->params =~= node_views(params@));
        },
        AstNode::BlockStatement { body } => {
            assert(node@->BlockStatement_body =~= node_views(body@));
        },
        AstNode::Program { body } => {
            assert(node@->Program_body =~= node_views(body@));
        },
        _ => {},
    }
}

} // verus!
