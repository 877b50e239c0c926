//! The abstract syntax tree: a closed sum of node kinds. Each node reports
//! its target-code text, its print-format descriptor, whether it denotes a
//! number, its scalar type tag, its target type name, and whether it is a
//! pure value. All six capabilities are defined by spec functions over the
//! tree's mathematical view and the executable methods are proved equal to
//! them.

use vstd::prelude::*;
use crate::token::{Token, TokenType, TokenV};

verus! {

/// What the symbol table records of a variable: its scalar type and whether
/// it is materialized as heap-allocated, pointer-accessed storage.
#[derive(Clone, Copy, Debug, PartialEq, Eq, Structural)]
pub struct VarInfo {
    pub tok_type: TokenType,
    pub is_pointer: bool,
}

impl VarInfo {
    pub fn new(tok_type: TokenType, is_pointer: bool) -> (r: Self)
        ensures
            r == (VarInfo { tok_type, is_pointer }),
    {
        Self { tok_type, is_pointer }
    }
}

/// A literal number node.
pub struct NumberNode {
    pub token: Token,
}

/// A literal string node.
pub struct StringNode {
    pub token: Token,
}

/// A binary operation node.
pub struct BinOpNode {
    pub left: Node,
    pub bin_op: Token,
    pub right: Node,
}

/// A unary operation node.
pub struct UnaryOpNode {
    pub op_tok: Token,
    pub node: Node,
}

/// A variable declaration node.
pub struct VarDeclNode {
    pub name: Token,
    pub node: Node,
    pub declared_type: Option<TokenType>,
}

/// A variable assignment node.
pub struct VarAssignNode {
    pub name: Token,
    pub node: Node,
}

/// A variable access node.
pub struct VarAccessNode {
    pub name: Token,
    pub var_type: TokenType,
    pub is_pointer: bool,
}

/// A print statement node.
pub struct PrintNode {
    pub nodes: Vec<Node>,
}

/// The program entry-point wrapper node.
pub struct MainFuncNode {
    pub nodes: Vec<Node>,
}

/// A counting loop node.
pub struct ForLoopNode {
    pub start: Node,
    pub end: Node,
    pub var: Token,
    pub nodes: Vec<Node>,
    pub step: Option<Node>,
}

/// A conditional chain node: a first condition and body, any number of
/// else-if pairs, and an optional final unconditional body.
pub struct IfNode {
    pub node: Node,
    pub body: Vec<Node>,
    pub else_body: Option<Vec<Node>>,
    pub elf_body: Option<Vec<Vec<Node>>>,
    pub elf_node: Option<Vec<Node>>,
}

/// A while loop node.
pub struct WhileNode {
    pub node: Node,
    pub body: Vec<Node>,
}

/// An AST node: the closed sum of all node kinds.
pub enum Node {
    Number(NumberNode),
    Str(StringNode),
    BinOp(Box<BinOpNode>),
    UnaryOp(Box<UnaryOpNode>),
    VarDecl(Box<VarDeclNode>),
    VarAssign(Box<VarAssignNode>),
    VarAccess(VarAccessNode),
    Print(PrintNode),
    MainFunc(MainFuncNode),
    ForLoop(Box<ForLoopNode>),
    If(Box<IfNode>),
    While(Box<WhileNode>),
}

/// The mathematical view of a node. The two else-if lists of a conditional
/// chain are flattened from options to sequences: an absent list and an empty
/// list render identically.
pub enum NodeV {
    NumberV { token: TokenV },
    StrV { token: TokenV },
    BinOpV { left: Box<NodeV>, bin_op: TokenV, right: Box<NodeV> },
    UnaryOpV { op_tok: TokenV, node: Box<NodeV> },
    VarDeclV { name: TokenV, node: Box<NodeV>, declared_type: Option<TokenType> },
    VarAssignV { name: TokenV, node: Box<NodeV> },
    VarAccessV { name: TokenV, var_type: TokenType, is_pointer: bool },
    PrintV { nodes: Seq<NodeV> },
    MainFuncV { nodes: Seq<NodeV> },
    ForLoopV { start: Box<NodeV>, end: Box<NodeV>, var: TokenV, nodes: Seq<NodeV>, step: Option<Box<NodeV>> },
    IfV {
        node: Box<NodeV>,
        body: Seq<NodeV>,
        else_body: Option<Seq<NodeV>>,
        elf_body: Seq<Seq<NodeV>>,
        elf_node: Seq<NodeV>,
    },
    WhileV { node: Box<NodeV>, body: Seq<NodeV> },
}

impl View for Node {
    type V = NodeV;

    open spec fn view(&self) -> NodeV
        decreases self,
    {
        match self {
            Node::Number(n) => NodeV::NumberV { token: n.token@ },
            Node::Str(n) => NodeV::StrV { token: n.token@ },
            Node::BinOp(n) => NodeV::BinOpV {
                left: Box::new(n.left@),
                bin_op: n.bin_op@,
                right: Box::new(n.right@),
            },
            Node::UnaryOp(n) => NodeV::UnaryOpV {
                op_tok: n.op_tok@,
                node: Box::new(n.node@),
            },
            Node::VarDecl(n) => NodeV::VarDeclV {
                name: n.name@,
                node: Box::new(n.node@),
                declared_type: n.declared_type,
            },
            Node::VarAssign(n) => NodeV::VarAssignV { name: n.name@, node: Box::new(n.node@) },
            Node::VarAccess(n) => NodeV::VarAccessV {
                name: n.name@,
                var_type: n.var_type,
                is_pointer: n.is_pointer,
            },
            Node::Print(n) => NodeV::PrintV { nodes: view_nodes(n.nodes@) },
            Node::MainFunc(n) => NodeV::MainFuncV { nodes: view_nodes(n.nodes@) },
            Node::ForLoop(n) => NodeV::ForLoopV {
                start: Box::new(n.start@),
                end: Box::new(n.end@),
                var: n.var@,
                nodes: view_nodes(n.nodes@),
                step: match n.step {
                    Some(s) => Some(Box::new(s@)),
                    None => None,
                },
            },
            Node::If(n) => NodeV::IfV {
                node: Box::new(n.node@),
                body: view_nodes(n.body@),
                else_body: match n.else_body {
                    Some(b) => Some(view_nodes(b@)),
                    None => None,
                },
                elf_body: match n.elf_body {
                    Some(b) => view_bodies(b@),
                    None => Seq::empty(),
                },
                elf_node: match n.elf_node {
                    Some(b) => view_nodes(b@),
                    None => Seq::empty(),
                },
            },
            Node::While(n) => NodeV::WhileV { node: Box::new(n.node@), body: view_nodes(n.body@) },
        }
    }
}

/// The views of a sequence of nodes.
pub open spec fn view_nodes(s: Seq<Node>) -> Seq<NodeV>
    decreases s,
{
    if s.len() == 0 {
        Seq::empty()
    } else {
        view_nodes(s.drop_last()).push(s.last()@)
    }
}

/// The views of a sequence of statement lists.
pub open spec fn view_bodies(s: Seq<Vec<Node>>) -> Seq<Seq<NodeV>>
    decreases s,
{
    if s.len() == 0 {
        Seq::empty()
    } else {
        view_bodies(s.drop_last()).push(view_nodes(s.last()@))
    }
}

/// `view_nodes` maps the view over the sequence, element by element.
pub broadcast proof fn lemma_view_nodes(s: Seq<Node>)
    ensures
        (#[trigger] view_nodes(s)).len() == s.len(),
        forall|i: int| 0 <= i < s.len() ==> view_nodes(s)[i] == s[i]@,
    decreases s.len(),
{
    if s.len() == 0 {
        assert(view_nodes(s) =~= Seq::empty());
    } else {
        lemma_view_nodes(s.drop_last());
        assert(view_nodes(s) == view_nodes(s.drop_last()).push(s.last()@));
        assert forall|i: int| 0 <= i < s.len() implies view_nodes(s)[i] == s[i]@ by {
            if i < s.len() - 1 {
                assert(view_nodes(s)[i] == view_nodes(s.drop_last())[i]);
                assert(s.drop_last()[i] == s[i]);
            } else {
                assert(view_nodes(s)[i] == s.last()@);
            }
        }
    }
}

/// `view_bodies` maps `view_nodes` over the sequence, element by element.
pub broadcast proof fn lemma_view_bodies(s: Seq<Vec<Node>>)
    ensures
        (#[trigger] view_bodies(s)).len() == s.len(),
        forall|i: int| 0 <= i < s.len() ==> view_bodies(s)[i] == view_nodes(s[i]@),
    decreases s.len(),
{
    if s.len() == 0 {
        assert(view_bodies(s) =~= Seq::empty());
    } else {
        lemma_view_bodies(s.drop_last());
        assert(view_bodies(s) == view_bodies(s.drop_last()).push(view_nodes(s.last()@)));
        assert forall|i: int| 0 <= i < s.len() implies view_bodies(s)[i] == view_nodes(s[i]@) by {
            if i < s.len() - 1 {
                assert(view_bodies(s)[i] == view_bodies(s.drop_last())[i]);
                assert(s.drop_last()[i] == s[i]);
            } else {
                assert(view_bodies(s)[i] == view_nodes(s.last()@));
            }
        }
    }
}

/// Whether a node denotes a numeric value.
pub open spec fn spec_is_number(n: NodeV) -> bool
    decreases n,
{
    match n {
        NodeV::NumberV { .. } => true,
        NodeV::StrV { .. } => false,
        NodeV::BinOpV { left, right, .. } => spec_is_number(*left) && spec_is_number(*right),
        NodeV::UnaryOpV { .. } => true,
        NodeV::VarDeclV { node, .. } => spec_is_number(*node),
        NodeV::VarAssignV { node, .. } => spec_is_number(*node),
        NodeV::VarAccessV { .. } => true,
        NodeV::PrintV { .. } => false,
        NodeV::MainFuncV { .. } => true,
        NodeV::ForLoopV { .. } => false,
        NodeV::IfV { .. } => false,
        NodeV::WhileV { .. } => false,
    }
}

/// The scalar type tag a node reports: `INT`, `FLOAT`, `STRING`, or `NONE`
/// for non-value constructs. A binary operation is `FLOAT` when either side
/// is, else `INT`.
pub open spec fn spec_get_type(n: NodeV) -> TokenType
    decreases n,
{
    match n {
        NodeV::NumberV { token } => token.tok_type,
        NodeV::StrV { .. } => TokenType::STRING,
        NodeV::BinOpV { left, right, .. } => if spec_get_type(*left) == TokenType::FLOAT
            || spec_get_type(*right) == TokenType::FLOAT {
            TokenType::FLOAT
        } else {
            TokenType::INT
        },
        NodeV::UnaryOpV { node, .. } => spec_get_type(*node),
        NodeV::VarDeclV { node, .. } => spec_get_type(*node),
        NodeV::VarAssignV { node, .. } => spec_get_type(*node),
        NodeV::VarAccessV { var_type, .. } => var_type,
        NodeV::PrintV { .. } => TokenType::STRING,
        NodeV::MainFuncV { .. } => TokenType::INT,
        NodeV::ForLoopV { .. } => TokenType::NONE,
        NodeV::IfV { .. } => TokenType::STRING,
        NodeV::WhileV { .. } => TokenType::STRING,
    }
}

/// The print-format descriptor a node contributes for a placeholder. For a
/// computation the numeric promotion rule goes by the operand types: the
/// floating-point descriptor when either side is float-typed, the string
/// one when both sides are strings, the integer one otherwise.
pub open spec fn spec_c_format(n: NodeV) -> Seq<char>
    decreases n,
{
    match n {
        NodeV::NumberV { token } => if token.tok_type == TokenType::FLOAT {
            "%f"@
        } else {
            "%d"@
        },
        NodeV::StrV { .. } => "%s"@,
        NodeV::BinOpV { left, right, .. } => {
            if spec_get_type(*left) == TokenType::FLOAT || spec_get_type(*right)
                == TokenType::FLOAT {
                "%f"@
            } else if spec_get_type(*left) == TokenType::STRING && spec_get_type(*right)
                == TokenType::STRING {
                "%s"@
            } else {
                "%d"@
            }
        },
        NodeV::UnaryOpV { node, .. } => spec_c_format(*node),
        NodeV::VarDeclV { node, .. } => spec_c_format(*node),
        NodeV::VarAssignV { node, .. } => spec_c_format(*node),
        NodeV::VarAccessV { .. } => spec_tag_format(spec_get_type(n)),
        NodeV::PrintV { .. } => "%s"@,
        NodeV::MainFuncV { .. } => spec_tag_format(spec_get_type(n)),
        NodeV::ForLoopV { .. } => spec_tag_format(spec_get_type(n)),
        NodeV::IfV { .. } => "%s"@,
        NodeV::WhileV { .. } => "%s"@,
    }
}

/// The descriptor for a scalar type tag, as variable accesses and control
/// nodes report it.
pub open spec fn spec_tag_format(t: TokenType) -> Seq<char> {
    if t == TokenType::INT {
        "%i"@
    } else if t == TokenType::FLOAT {
        "%f"@
    } else if t == TokenType::STRING {
        "%s"@
    } else {
        "int"@
    }
}

/// The target-language type name for a scalar type tag.
pub open spec fn spec_tag_ctype(t: TokenType) -> Seq<char> {
    if t == TokenType::INT {
        "int"@
    } else if t == TokenType::FLOAT {
        "float"@
    } else if t == TokenType::STRING {
        "char*"@
    } else {
        "int"@
    }
}

/// The target-language type name a node reports.
pub open spec fn spec_c_type(n: NodeV) -> Seq<char> {
    spec_tag_ctype(spec_get_type(n))
}

/// Whether a node is a pure value: an expression producing a value with no
/// side effect. Conditional chains and while loops report true here, as the
/// node kinds define it.
pub open spec fn spec_is_pure_value(n: NodeV) -> bool {
    match n {
        NodeV::NumberV { .. } => true,
        NodeV::StrV { .. } => true,
        NodeV::BinOpV { .. } => true,
        NodeV::UnaryOpV { .. } => true,
        NodeV::VarDeclV { .. } => false,
        NodeV::VarAssignV { .. } => false,
        NodeV::VarAccessV { .. } => true,
        NodeV::PrintV { .. } => false,
        NodeV::MainFuncV { .. } => false,
        NodeV::ForLoopV { .. } => false,
        NodeV::IfV { .. } => true,
        NodeV::WhileV { .. } => true,
    }
}

impl Node {
    /// Whether this node denotes a numeric value.
    pub fn is_number(&self) -> (r: bool)
        ensures
            r == spec_is_number(self@),
        decreases *self,
    {
        match self {
            Node::Number(_) => true,
            Node::Str(_) => false,
            Node::BinOp(n) => n.left.is_number() && n.right.is_number(),
            Node::UnaryOp(_) => true,
            Node::VarDecl(n) => n.node.is_number(),
            Node::VarAssign(n) => n.node.is_number(),
            Node::VarAccess(_) => true,
            Node::Print(_) => false,
            Node::MainFunc(_) => true,
            Node::ForLoop(_) => false,
            Node::If(_) => false,
            Node::While(_) => false,
        }
    }

    /// The scalar type tag this node reports.
    pub fn get_type(&self) -> (r: TokenType)
        ensures
            r == spec_get_type(self@),
        decreases *self,
    {
        match self {
            Node::Number(n) => n.token.tok_type,
            Node::Str(_) => TokenType::STRING,
            Node::BinOp(n) => {
                if n.left.get_type() == TokenType::FLOAT || n.right.get_type()
                    == TokenType::FLOAT {
                    TokenType::FLOAT
                } else {
                    TokenType::INT
                }
            },
            Node::UnaryOp(n) => n.node.get_type(),
            Node::VarDecl(n) => n.node.get_type(),
            Node::VarAssign(n) => n.node.get_type(),
            Node::VarAccess(n) => n.var_type,
            Node::Print(_) => TokenType::STRING,
            Node::MainFunc(_) => TokenType::INT,
            Node::ForLoop(_) => TokenType::NONE,
            Node::If(_) => TokenType::STRING,
            Node::While(_) => TokenType::STRING,
        }
    }

    /// The print-format descriptor this node contributes for a placeholder.
    pub fn c_format(&self) -> (r: String)
        ensures
            r@ == spec_c_format(self@),
        decreases *self,
    {
        match self {
            Node::Number(n) => {
                if n.token.tok_type == TokenType::FLOAT {
                    String::from_str("%f")
                } else {
                    String::from_str("%d")
                }
            },
            Node::Str(_) => String::from_str("%s"),
            Node::BinOp(n) => {
                let lt = n.left.get_type();
                let rt = n.right.get_type();
                if lt == TokenType::FLOAT || rt == TokenType::FLOAT {
                    String::from_str("%f")
                } else if lt == TokenType::STRING && rt == TokenType::STRING {
                    String::from_str("%s")
                } else {
                    String::from_str("%d")
                }
            },
            Node::UnaryOp(n) => n.node.c_format(),
            Node::VarDecl(n) => n.node.c_format(),
            Node::VarAssign(n) => n.node.c_format(),
            Node::VarAccess(_) => tag_format(self.get_type()),
            Node::Print(_) => String::from_str("%s"),
            Node::MainFunc(_) => tag_format(self.get_type()),
            Node::ForLoop(_) => tag_format(self.get_type()),
            Node::If(_) => String::from_str("%s"),
            Node::While(_) => String::from_str("%s"),
        }
    }

    /// The target-language type name this node reports.
    pub fn c_type(&self) -> (r: String)
        ensures
            r@ == spec_c_type(self@),
    {
        let t = self.get_type();
        if t == TokenType::INT {
            String::from_str("int")
        } else if t == TokenType::FLOAT {
            String::from_str("float")
        } else if t == TokenType::STRING {
            String::from_str("char*")
        } else {
            String::from_str("int")
        }
    }

    /// Whether this node is a pure value.
    pub fn is_pure_value(&self) -> (r: bool)
        ensures
            r == spec_is_pure_value(self@),
    {
        match self {
            Node::Number(_) => true,
            Node::Str(_) => true,
            Node::BinOp(_) => true,
            Node::UnaryOp(_) => true,
            Node::VarDecl(_) => false,
            Node::VarAssign(_) => false,
            Node::VarAccess(_) => true,
            Node::Print(_) => false,
            Node::MainFunc(_) => false,
            Node::ForLoop(_) => false,
            Node::If(_) => true,
            Node::While(_) => true,
        }
    }
}

/// The descriptor for a scalar type tag.
fn tag_format(t: TokenType) -> (r: String)
    ensures
        r@ == spec_tag_format(t),
{
    if t == TokenType::INT {
        String::from_str("%i")
    } else if t == TokenType::FLOAT {
        String::from_str("%f")
    } else if t == TokenType::STRING {
        String::from_str("%s")
    } else {
        String::from_str("int")
    }
}

impl NumberNode {
    pub fn new(token: Token) -> (r: Self)
        ensures
            r == (NumberNode { token }),
    {
        NumberNode { token }
    }
}

impl StringNode {
    pub fn new(token: Token) -> (r: Self)
        ensures
            r == (StringNode { token }),
    {
        StringNode { token }
    }
}

impl BinOpNode {
    /// Both operands must be numeric or both non-numeric, and a string
    /// left operand admits only the equality and inequality operators; the
    /// parser rejects an expression that breaks either rule before building
    /// the node.
    pub fn new(left: Node, bin_op: Token, right: Node) -> (r: Self)
        requires
            spec_is_number(left@) == spec_is_number(right@),
            spec_get_type(left@) == TokenType::STRING ==> bin_op.tok_type
                == TokenType::EqualsEquals || bin_op.tok_type == TokenType::NotEquals,
        ensures
            r == (BinOpNode { left, bin_op, right }),
    {
        BinOpNode { left, bin_op, right }
    }
}

impl UnaryOpNode {
    pub fn new(op_tok: Token, node: Node) -> (r: Self)
        ensures
            r == (UnaryOpNode { op_tok, node }),
    {
        UnaryOpNode { op_tok, node }
    }
}

impl VarDeclNode {
    pub fn new(name: Token, node: Node, declared_type: Option<TokenType>) -> (r: Self)
        ensures
            r == (VarDeclNode { name, node, declared_type }),
    {
        VarDeclNode { name, node, declared_type }
    }
}

impl VarAssignNode {
    pub fn new(name: Token, node: Node) -> (r: Self)
        ensures
            r == (VarAssignNode { name, node }),
    {
        VarAssignNode { name, node }
    }
}

impl VarAccessNode {
    pub fn new(name: Token, var_type: TokenType, is_pointer: bool) -> (r: Self)
        ensures
            r == (VarAccessNode { name, var_type, is_pointer }),
    {
        VarAccessNode { name, var_type, is_pointer }
    }
}

impl PrintNode {
    pub fn new(nodes: Vec<Node>) -> (r: Self)
        ensures
            r == (PrintNode { nodes }),
    {
        PrintNode { nodes }
    }
}

impl MainFuncNode {
    pub fn new(nodes: Vec<Node>) -> (r: Self)
        ensures
            r == (MainFuncNode { nodes }),
    {
        MainFuncNode { nodes }
    }
}

impl ForLoopNode {
    /// The loop header must be integer-typed: the parser rejects a loop
    /// whose start, end, or step is not, before building the node.
    pub fn new(start: Node, end: Node, var: Token, nodes: Vec<Node>, step: Option<Node>) -> (r:
        Self)
        requires
            spec_get_type(start@) == TokenType::INT,
            spec_get_type(end@) == TokenType::INT,
            step matches Some(s) ==> spec_get_type(s@) == TokenType::INT,
        ensures
            r == (ForLoopNode { start, end, var, nodes, step }),
    {
        ForLoopNode { start, end, var, nodes, step }
    }
}

impl IfNode {
    pub fn new(
        node: Node,
        body: Vec<Node>,
        else_body: Option<Vec<Node>>,
        elf_body: Option<Vec<Vec<Node>>>,
        elf_node: Option<Vec<Node>>,
    ) -> (r: Self)
        ensures
            r == (IfNode { node, body, else_body, elf_body, elf_node }),
    {
        IfNode { node, body, else_body, elf_body, elf_node }
    }
}

impl WhileNode {
    pub fn new(node: Node, body: Vec<Node>) -> (r: Self)
        ensures
            r == (WhileNode { node, body }),
    {
        WhileNode { node, body }
    }
}

/// Numeric promotion of the print-format descriptor: when either side of a
/// computation is float-typed, the computation's descriptor is the
/// floating-point one.
pub proof fn lemma_float_descriptor_promotes(left: NodeV, op: TokenV, right: NodeV)
    requires
        spec_get_type(left) == TokenType::FLOAT || spec_get_type(right) == TokenType::FLOAT,
    ensures
        spec_c_format(
            NodeV::BinOpV { left: Box::new(left), bin_op: op, right: Box::new(right) },
        ) == "%f"@,
{
}

/// With no float side, a computation's descriptor is the string one when
/// both sides are string-typed, and the integer one otherwise.
pub proof fn lemma_plain_descriptors(left: NodeV, op: TokenV, right: NodeV)
    requires
        spec_get_type(left) != TokenType::FLOAT,
        spec_get_type(right) != TokenType::FLOAT,
    ensures
        spec_get_type(left) == TokenType::STRING && spec_get_type(right) == TokenType::STRING
            ==> spec_c_format(
            NodeV::BinOpV { left: Box::new(left), bin_op: op, right: Box::new(right) },
        ) == "%s"@,
        !(spec_get_type(left) == TokenType::STRING && spec_get_type(right) == TokenType::STRING)
            ==> spec_c_format(
            NodeV::BinOpV { left: Box::new(left), bin_op: op, right: Box::new(right) },
        ) == "%d"@,
{
}

} // verus!
