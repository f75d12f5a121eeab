use vstd::prelude::*;
use vstd::string::*;

verus! {

/// Represents the mathematical operations used in nodes suffixed with 'Op'.
#[derive(Clone, Copy, Debug, PartialEq, Eq, Structural)]
pub enum Op {
    Add,
    Sub,
    Mult,
    Div,
}

/// Integer constants, e.g. `3` or `100`.  The literal's original text is
/// kept; turning it into a number is deferred to evaluation time.
#[derive(Debug, PartialEq, Eq)]
pub struct IntLiteral {
    pub value: String,
}

/// Decimal constants, e.g. `3.14` or `1.234`.  The literal's original
/// text, decimal point included, is kept.
#[derive(Debug, PartialEq, Eq)]
pub struct FloatLiteral {
    pub value: String,
}

/// A node of the abstract syntax tree: a closed family of four variants.
/// Each node exclusively owns its children; the tree is built bottom-up
/// during parsing and never mutated afterwards.
#[derive(Debug, PartialEq, Eq)]
pub enum Node {
    /// A mathematical operation with both a left and a right side,
    /// for example `1 + 1`.
    BinOp { left: Box<Node>, right: Box<Node>, op: Op },
    /// A mathematical operation with just a right side.  The only
    /// meaningful operation is `-x`, though `+x` is still valid syntax,
    /// despite it not doing anything.
    UnaryOp { right: Box<Node>, op: Op },
    IntLiteral(IntLiteral),
    FloatLiteral(FloatLiteral),
}

/// Mathematical model of a syntax tree: literal text as character
/// sequences, the same four variants.
pub ghost enum GNode {
    BinOp { left: Box<GNode>, right: Box<GNode>, op: Op },
    UnaryOp { right: Box<GNode>, op: Op },
    IntLiteral { value: Seq<char> },
    FloatLiteral { value: Seq<char> },
}

/// The mathematical model of a tree: the same shape, with each literal's
/// text taken as a sequence of characters.
pub open spec fn node_view(n: Node) -> GNode
    decreases n,
{
    match n {
        Node::BinOp { left, right, op } => GNode::BinOp {
            left: Box::new(node_view(*left)),
            right: Box::new(node_view(*right)),
            op,
        },
        Node::UnaryOp { right, op } => GNode::UnaryOp { right: Box::new(node_view(*right)), op },
        Node::IntLiteral(lit) => GNode::IntLiteral { value: lit.value@ },
        Node::FloatLiteral(lit) => GNode::FloatLiteral { value: lit.value@ },
    }
}

impl View for Node {
    type V = GNode;

    open spec fn view(&self) -> GNode {
        node_view(*self)
    }
}

/// Height of a tree: 1 for a leaf, one more than the tallest child
/// otherwise.  It bounds the indentation depth `display` can reach.
pub open spec fn height(n: GNode) -> nat
    decreases n,
{
    match n {
        GNode::BinOp { left, right, .. } => 1 + if height(*left) >= height(*right) {
            height(*left)
        } else {
            height(*right)
        },
        GNode::UnaryOp { right, .. } => 1 + height(*right),
        GNode::IntLiteral { .. } => 1,
        GNode::FloatLiteral { .. } => 1,
    }
}

/// The operator's name as it appears in a tree dump.
pub open spec fn op_text(op: Op) -> Seq<char> {
    match op {
        Op::Add => "Add"@,
        Op::Sub => "Sub"@,
        Op::Mult => "Mult"@,
        Op::Div => "Div"@,
    }
}

/// The indentation that precedes the attributes of a node shown at
/// `depth`: four spaces per level.
pub open spec fn indent_text(depth: nat) -> Seq<char>
    decreases depth,
{
    if depth == 0 {
        Seq::empty()
    } else {
        indent_text((depth - 1) as nat) + "    "@
    }
}

/// The structural dump of a tree shown at `depth`: the variant's name and
/// an opening brace, one indented line per attribute with children shown
/// one level deeper, and a closing brace at the node's own indentation.
/// The opening line carries no indentation of its own, as it is inlined
/// with the parent's attribute line.
pub open spec fn spec_display(n: GNode, depth: nat) -> Seq<char>
    decreases n,
{
    match n {
        GNode::BinOp { left, right, op } => "BinOp {\n"@ + indent_text(depth + 1) + "left: "@
            + spec_display(*left, depth + 1) + "\n"@ + indent_text(depth + 1) + "right: "@
            + spec_display(*right, depth + 1) + "\n"@ + indent_text(depth + 1) + "op: "@
            + op_text(op) + "\n"@ + indent_text(depth) + "}"@,
        GNode::UnaryOp { right, op } => "UnaryOp {\n"@ + indent_text(depth + 1) + "right: "@
            + spec_display(*right, depth + 1) + "\n"@ + indent_text(depth + 1) + "op: "@
            + op_text(op) + "\n"@ + indent_text(depth) + "}"@,
        GNode::IntLiteral { value } => "IntLiteral {\n"@ + indent_text(depth + 1) + "value: "@
            + value + "\n"@ + indent_text(depth) + "}"@,
        GNode::FloatLiteral { value } => "FloatLiteral {\n"@ + indent_text(depth + 1)
            + "value: "@ + value + "\n"@ + indent_text(depth) + "}"@,
    }
}

/// Appends four spaces per indentation level to `out`.
fn push_indent(out: &mut String, depth: usize)
    ensures
        final(out)@ == old(out)@ + indent_text(depth as nat),
{
    let mut i: usize = 0;
    while i < depth
        invariant
            i <= depth,
            out@ == old(out)@ + indent_text(i as nat),
        decreases depth - i,
    {
        out.append("    ");
        i = i + 1;
    }
}

impl Node {
    /// Produces the node's structural dump, a human-readable inspection
    /// aid, not a machine-readable format.  `depth` is the indentation
    /// level the dump starts at.
    pub fn display(&self, depth: usize) -> (r: String)
        requires
            depth + height(self@) <= usize::MAX,
        ensures
            r@ == spec_display(self@, depth as nat),
        decreases *self,
    {
        match self {
            Node::BinOp { left, right, op } => {
                let mut out = String::new();
                out.append("BinOp {\n");
                push_indent(&mut out, depth + 1);
                out.append("left: ");
                let left_text = left.display(depth + 1);
                out.append(left_text.as_str());
                out.append("\n");
                push_indent(&mut out, depth + 1);
                out.append("right: ");
                let right_text = right.display(depth + 1);
                out.append(right_text.as_str());
                out.append("\n");
                push_indent(&mut out, depth + 1);
                out.append("op: ");
                out.append(op_name(*op));
                out.append("\n");
                push_indent(&mut out, depth);
                out.append("}");
                proof {
                    assert(out@ =~= spec_display(self@, depth as nat));
                }
                out
            },
            Node::UnaryOp { right, op } => {
                let mut out = String::new();
                out.append("UnaryOp {\n");
                push_indent(&mut out, depth + 1);
                out.append("right: ");
                let right_text = right.display(depth + 1);
                out.append(right_text.as_str());
                out.append("\n");
                push_indent(&mut out, depth + 1);
                out.append("op: ");
                out.append(op_name(*op));
                out.append("\n");
                push_indent(&mut out, depth);
                out.append("}");
                proof {
                    assert(out@ =~= spec_display(self@, depth as nat));
                }
                out
            },
            Node::IntLiteral(lit) => {
                let mut out = String::new();
                out.append("IntLiteral {\n");
                push_indent(&mut out, depth + 1);
                out.append("value: ");
                out.append(lit.value.as_str());
                out.append("\n");
                push_indent(&mut out, depth);
                out.append("}");
                proof {
                    assert(out@ =~= spec_display(self@, depth as nat));
                }
                out
            },
            Node::FloatLiteral(lit) => {
                let mut out = String::new();
                out.append("FloatLiteral {\n");
                push_indent(&mut out, depth + 1);
                out.append("value: ");
                out.append(lit.value.as_str());
                out.append("\n");
                push_indent(&mut out, depth);
                out.append("}");
                proof {
                    assert(out@ =~= spec_display(self@, depth as nat));
                }
                out
            },
        }
    }
}

/// The operator's name, matching `op_text`.
fn op_name(op: Op) -> (r: &'static str)
    ensures
        r@ == op_text(op),
{
    match op {
        Op::Add => "Add",
        Op::Sub => "Sub",
        Op::Mult => "Mult",
        Op::Div => "Div",
    }
}

} // verus!
