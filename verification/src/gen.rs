//! Code emission: every node kind renders a self-contained textual fragment
//! of the target language. `spec_generate` defines the emitted text exactly;
//! `Node::generate` is proved to produce it. No arithmetic is evaluated at
//! emission time: constant expressions are emitted as expressions, never
//! folded.

use vstd::prelude::*;
use vstd::string::{StringExecFns, StrSliceExecFns};
use crate::ast::{Node, NodeV, spec_c_format, spec_c_type, spec_get_type, view_nodes, lemma_view_nodes, lemma_view_bodies};
use crate::token::{TokenType, TokenV, spec_extract_num, spec_extract_str, spec_ops_str};

verus! {

broadcast use vstd::std_specs::vec::axiom_vec_index_decreases;

/// A payload text, or the empty text where there is none.
pub open spec fn opt_text(o: Option<Seq<char>>) -> Seq<char> {
    match o {
        Some(s) => s,
        None => Seq::empty(),
    }
}

/// The name a token carries, as emitted.
pub open spec fn name_text(t: TokenV) -> Seq<char> {
    opt_text(spec_extract_str(t))
}

/// The declaration template for a string variable: allocate storage sized
/// for the value and copy the bytes in.
pub open spec fn spec_str_decl(n: Seq<char>, v: Seq<char>) -> Seq<char> {
    "char* "@ + n + " = (char*) GC_MALLOC(strlen("@ + v + ") + 1);\nstrcpy("@ + n + ", "@ + v
        + ");\n"@
}

/// The declaration template for a scalar variable: allocate one boxed slot
/// and store the value through it.
pub open spec fn spec_scalar_decl(t: Seq<char>, n: Seq<char>, v: Seq<char>) -> Seq<char> {
    t + "* "@ + n + " =  ("@ + t + "*) GC_MALLOC(sizeof("@ + t + "));\n*"@ + n + " = "@ + v
        + ";\n"@
}

/// The number of `{}` placeholders in a format template from `i` on.
pub open spec fn spec_count_placeholders(fmt: Seq<char>, i: int) -> int
    decreases fmt.len() - i,
{
    if i < 0 || i >= fmt.len() {
        0
    } else if fmt[i] == '{' && i + 1 < fmt.len() && fmt[i + 1] == '}' {
        1 + spec_count_placeholders(fmt, i + 2)
    } else {
        spec_count_placeholders(fmt, i + 1)
    }
}

/// The emitted text of a node.
pub open spec fn spec_generate(n: NodeV) -> Seq<char>
    decreases n, 1int, 0int,
{
    match n {
        NodeV::NumberV { token } => opt_text(spec_extract_num(token)),
        NodeV::StrV { token } => "\""@ + name_text(token) + "\""@,
        NodeV::BinOpV { left, bin_op, right } => spec_generate(*left) + spec_ops_str(
            bin_op.tok_type,
        ) + spec_generate(*right),
        NodeV::UnaryOpV { op_tok, node } => spec_ops_str(op_tok.tok_type) + spec_generate(*node),
        NodeV::VarDeclV { name, node, declared_type } => {
            let nm = name_text(name);
            let v = spec_generate(*node);
            match declared_type {
                None => if spec_get_type(*node) == TokenType::STRING {
                    spec_str_decl(nm, v)
                } else {
                    spec_scalar_decl(spec_c_type(*node), nm, v)
                },
                Some(dt) => if dt != spec_get_type(*node) {
                    Seq::empty()  // rejected when parsed; nothing is emitted
                } else if dt == TokenType::STRING {
                    spec_str_decl(nm, v)
                } else if dt == TokenType::FLOAT {
                    spec_scalar_decl("float"@, nm, v)
                } else if dt == TokenType::INT {
                    spec_scalar_decl("int"@, nm, v)
                } else {
                    Seq::empty()  // no other annotation can be parsed
                },
            }
        },
        NodeV::VarAssignV { name, node } => {
            let nm = name_text(name);
            let v = spec_generate(*node);
            if spec_get_type(*node) == TokenType::STRING {
                nm + " = (char*) GC_MALLOC(strlen("@ + v + ") + 1);\nstrcpy("@ + nm + ", "@ + v
                    + ");\n"@
            } else {
                "*"@ + nm + " = "@ + v + ";\n"@
            }
        },
        NodeV::VarAccessV { name, var_type, is_pointer } => {
            if is_pointer {
                if var_type == TokenType::STRING {
                    name_text(name)
                } else {
                    "(*"@ + name_text(name) + ")"@
                }
            } else {
                name_text(name)
            }
        },
        NodeV::PrintV { nodes } => {
            if nodes.len() == 0 {
                "printf(\"\\n\");\n"@
            } else {
                let fmt = match nodes[0] {
                    NodeV::StrV { token } => name_text(token),
                    _ => Seq::empty(),  // rejected when parsed
                };
                let expanded = spec_print_expand(fmt, nodes, 0, 1);
                if spec_count_placeholders(fmt, 0) == 0 {
                    "printf(\""@ + expanded + "\");\n"@
                } else {
                    "printf(\""@ + expanded + "\", "@ + spec_print_args(nodes, 1) + ");\n"@
                }
            }
        },
        NodeV::MainFuncV { nodes } => "int main() {\nGC_INIT();\n"@ + spec_gen_list(nodes, 0)
            + "return 0;\n}\n"@,
        NodeV::ForLoopV { start, end, var, nodes, step } => {
            let vn = name_text(var);
            let init = "int "@ + vn + " = "@ + spec_generate(*start);
            let cond = vn + " < "@ + spec_generate(*end);
            let incr = match step {
                Some(s) => vn + " += "@ + spec_generate(*s),
                None => vn + "++"@,
            };
            "for ("@ + init + "; "@ + cond + "; "@ + incr + ") {\n"@ + spec_gen_list(nodes, 0)
                + "}\n"@
        },
        NodeV::IfV { node, body, else_body, elf_body, elf_node } => {
            let head = "if ("@ + spec_generate(*node) + ") {\n"@ + spec_gen_list(body, 0) + "\n}"@;
            let tail = match else_body {
                Some(eb) => " else {\n"@ + spec_gen_list(eb, 0) + "\n}"@,
                None => Seq::empty(),
            };
            head + spec_gen_elf(n, 0) + tail
        },
        NodeV::WhileV { node, body } => "while ("@ + spec_generate(*node) + ")\n {"@
            + spec_gen_list(body, 0) + "}"@,
    }
}

/// The concatenated texts of the statements of a list, from `k` on.
pub open spec fn spec_gen_list(s: Seq<NodeV>, k: int) -> Seq<char>
    decreases s, 1int, s.len() - k,
{
    if k < 0 || k >= s.len() {
        Seq::empty()
    } else {
        spec_generate(s[k]) + spec_gen_list(s, k + 1)
    }
}

/// The format template with each placeholder replaced by the format
/// descriptor of the corresponding argument; `k` is the next argument. A
/// placeholder beyond the arguments is copied verbatim (such a print is
/// rejected when parsed).
pub open spec fn spec_print_expand(fmt: Seq<char>, nodes: Seq<NodeV>, i: int, k: int) -> Seq<char>
    decreases nodes, 1int, fmt.len() - i,
{
    if i < 0 || i >= fmt.len() {
        Seq::empty()
    } else if fmt[i] == '{' && i + 1 < fmt.len() && fmt[i + 1] == '}' && 0 <= k < nodes.len() {
        spec_c_format(nodes[k]) + spec_print_expand(fmt, nodes, i + 2, k + 1)
    } else {
        seq![fmt[i]] + spec_print_expand(fmt, nodes, i + 1, k)
    }
}

/// The print arguments' emitted texts from `k` on, joined by commas.
pub open spec fn spec_print_args(nodes: Seq<NodeV>, k: int) -> Seq<char>
    decreases nodes, 1int, nodes.len() - k,
{
    if k < 0 || k >= nodes.len() {
        Seq::empty()
    } else if k == nodes.len() - 1 {
        spec_generate(nodes[k])
    } else {
        spec_generate(nodes[k]) + ", "@ + spec_print_args(nodes, k + 1)
    }
}

/// The number of else-if pairs a conditional chain renders: the paired
/// prefix of its two lists.
pub open spec fn spec_elf_count(n: NodeV) -> int {
    match n {
        NodeV::IfV { elf_body, elf_node, .. } => if elf_node.len() <= elf_body.len() {
            elf_node.len() as int
        } else {
            elf_body.len() as int
        },
        _ => 0,
    }
}

/// The emitted else-if arms of a conditional chain, from pair `k` on.
pub open spec fn spec_gen_elf(n: NodeV, k: int) -> Seq<char>
    decreases n, 0int, spec_elf_count(n) - k,
{
    match n {
        NodeV::IfV { elf_body, elf_node, .. } => {
            if k < 0 || k >= spec_elf_count(n) {
                Seq::empty()
            } else {
                " else if ("@ + spec_generate(elf_node[k]) + ") {\n"@ + spec_gen_list(
                    elf_body[k],
                    0,
                ) + "\n}"@ + spec_gen_elf(n, k + 1)
            }
        },
        _ => Seq::empty(),
    }
}

/// Emits the statements of a list, in order.
pub(crate) fn gen_list_exec(nodes: &Vec<Node>) -> (r: String)
    ensures
        r@ == spec_gen_list(view_nodes(nodes@), 0),
    decreases *nodes,
{
    let ghost vs = view_nodes(nodes@);
    proof {
        lemma_view_nodes(nodes@);
    }
    let mut out = String::new();
    let mut i: usize = 0;
    while i < nodes.len()
        invariant
            i <= nodes@.len(),
            vs == view_nodes(nodes@),
            vs.len() == nodes@.len(),
            forall|j: int| 0 <= j < nodes@.len() ==> vs[j] == nodes@[j]@,
            spec_gen_list(vs, 0) == out@ + spec_gen_list(vs, i as int),
        decreases nodes@.len() - i,
    {
        let piece = nodes[i].generate();
        let ghost prev = out@;
        out.append(piece.as_str());
        proof {
            assert(prev + spec_gen_list(vs, i as int) =~= out@ + spec_gen_list(vs, i + 1));
        }
        i = i + 1;
    }
    proof {
        assert(spec_gen_list(vs, 0) =~= out@);
    }
    out
}

/// Counts the `{}` placeholders of a format template.
pub(crate) fn count_placeholders(fmt: &String) -> (r: usize)
    ensures
        r as int == spec_count_placeholders(fmt@, 0),
{
    let n = fmt.as_str().unicode_len();
    let mut k: usize = 0;
    let mut i: usize = 0;
    while i < n
        invariant
            i <= n,
            k <= i,
            n == fmt@.len(),
            spec_count_placeholders(fmt@, 0) == k + spec_count_placeholders(fmt@, i as int),
        decreases n - i,
    {
        let c = fmt.as_str().get_char(i);
        if c == '{' && i + 1 < n && fmt.as_str().get_char(i + 1) == '}' {
            k = k + 1;
            i = i + 2;
        } else {
            i = i + 1;
        }
    }
    k
}

/// Replaces each placeholder of the template by the format descriptor of the
/// corresponding argument.
fn expand_fmt(fmt: &String, nodes: &Vec<Node>) -> (r: String)
    ensures
        r@ == spec_print_expand(fmt@, view_nodes(nodes@), 0, 1),
{
    let ghost vs = view_nodes(nodes@);
    proof {
        lemma_view_nodes(nodes@);
    }
    let n = fmt.as_str().unicode_len();
    let mut out = String::new();
    let mut i: usize = 0;
    let mut k: usize = 1;
    while i < n
        invariant
            i <= n,
            1 <= k,
            n == fmt@.len(),
            vs == view_nodes(nodes@),
            vs.len() == nodes@.len(),
            forall|j: int| 0 <= j < nodes@.len() ==> vs[j] == nodes@[j]@,
            spec_print_expand(fmt@, vs, 0, 1) == out@ + spec_print_expand(
                fmt@,
                vs,
                i as int,
                k as int,
            ),
        decreases n - i,
    {
        let c = fmt.as_str().get_char(i);
        let ghost prev = out@;
        if c == '{' && i + 1 < n && fmt.as_str().get_char(i + 1) == '}' && k < nodes.len() {
            let piece = nodes[k].c_format();
            out.append(piece.as_str());
            proof {
                assert(prev + spec_print_expand(fmt@, vs, i as int, k as int) =~= out@
                    + spec_print_expand(fmt@, vs, i + 2, k + 1));
            }
            i = i + 2;
            k = k + 1;
        } else {
            out.push(c);
            proof {
                assert(prev + spec_print_expand(fmt@, vs, i as int, k as int) =~= out@
                    + spec_print_expand(fmt@, vs, i + 1, k as int));
            }
            i = i + 1;
        }
    }
    proof {
        assert(spec_print_expand(fmt@, vs, 0, 1) =~= out@);
    }
    out
}

/// Emits the print arguments, joined by commas.
fn join_args(nodes: &Vec<Node>) -> (r: String)
    ensures
        r@ == spec_print_args(view_nodes(nodes@), 1),
    decreases *nodes,
{
    let ghost vs = view_nodes(nodes@);
    proof {
        lemma_view_nodes(nodes@);
    }
    let mut out = String::new();
    let mut k: usize = 1;
    while k < nodes.len()
        invariant
            1 <= k,
            k <= nodes@.len() || k == 1,
            vs == view_nodes(nodes@),
            vs.len() == nodes@.len(),
            forall|j: int| 0 <= j < nodes@.len() ==> vs[j] == nodes@[j]@,
            spec_print_args(vs, 1) == out@ + spec_print_args(vs, k as int),
        decreases nodes@.len() - k,
    {
        let piece = nodes[k].generate();
        let ghost prev = out@;
        out.append(piece.as_str());
        if k + 1 < nodes.len() {
            out.append(", ");
        }
        proof {
            assert(prev + spec_print_args(vs, k as int) =~= out@ + spec_print_args(vs, k + 1));
        }
        k = k + 1;
    }
    proof {
        assert(spec_print_args(vs, 1) =~= out@);
    }
    out
}

impl Node {
    /// Emits this node's target-language text.
    pub fn generate(&self) -> (r: String)
        ensures
            r@ == spec_generate(self@),
        decreases *self,
    {
        match self {
            Node::Number(nd) => {
                match nd.token.extract_num() {
                    Some(s) => s,
                    None => String::new(),
                }
            },
            Node::Str(nd) => {
                let mut out = String::from_str("\"");
                match nd.token.extract_str() {
                    Some(s) => out.append(s.as_str()),
                    None => (),
                }
                out.append("\"");
                proof {
                    assert(out@ =~= spec_generate(self@));
                }
                out
            },
            Node::BinOp(nd) => {
                let mut out = nd.left.generate();
                let op = nd.bin_op.ops_str();
                out.append(op.as_str());
                let rhs = nd.right.generate();
                out.append(rhs.as_str());
                proof {
                    assert(out@ =~= spec_generate(self@));
                }
                out
            },
            Node::UnaryOp(nd) => {
                let mut out = nd.op_tok.ops_str();
                let v = nd.node.generate();
                out.append(v.as_str());
                proof {
                    assert(out@ =~= spec_generate(self@));
                }
                out
            },
            Node::VarDecl(nd) => {
                let nm = match nd.name.extract_str() {
                    Some(s) => s,
                    None => String::new(),
                };
                let v = nd.node.generate();
                let out = match nd.declared_type {
                    None => {
                        if nd.node.get_type() == TokenType::STRING {
                            str_decl(&nm, &v)
                        } else {
                            let t = nd.node.c_type();
                            scalar_decl(&t, &nm, &v)
                        }
                    },
                    Some(dt) => {
                        if dt != nd.node.get_type() {
                            String::new()
                        } else if dt == TokenType::STRING {
                            str_decl(&nm, &v)
                        } else if dt == TokenType::FLOAT {
                            let t = String::from_str("float");
                            scalar_decl(&t, &nm, &v)
                        } else if dt == TokenType::INT {
                            let t = String::from_str("int");
                            scalar_decl(&t, &nm, &v)
                        } else {
                            String::new()
                        }
                    },
                };
                proof {
                    assert(out@ =~= spec_generate(self@));
                }
                out
            },
            Node::VarAssign(nd) => {
                let nm = match nd.name.extract_str() {
                    Some(s) => s,
                    None => String::new(),
                };
                let v = nd.node.generate();
                let mut out = String::new();
                if nd.node.get_type() == TokenType::STRING {
                    out.append(nm.as_str());
                    out.append(" = (char*) GC_MALLOC(strlen(");
                    out.append(v.as_str());
                    out.append(") + 1);\nstrcpy(");
                    out.append(nm.as_str());
                    out.append(", ");
                    out.append(v.as_str());
                    out.append(");\n");
                } else {
                    out.append("*");
                    out.append(nm.as_str());
                    out.append(" = ");
                    out.append(v.as_str());
                    out.append(";\n");
                }
                proof {
                    assert(out@ =~= spec_generate(self@));
                }
                out
            },
            Node::VarAccess(nd) => {
                let nm = match nd.name.extract_str() {
                    Some(s) => s,
                    None => String::new(),
                };
                let out = if nd.is_pointer {
                    if nd.var_type == TokenType::STRING {
                        nm
                    } else {
                        let mut o = String::from_str("(*");
                        o.append(nm.as_str());
                        o.append(")");
                        o
                    }
                } else {
                    nm
                };
                proof {
                    assert(out@ =~= spec_generate(self@));
                }
                out
            },
            Node::Print(nd) => {
                if nd.nodes.len() == 0 {
                    let out = String::from_str("printf(\"\\n\");\n");
                    proof {
                        lemma_view_nodes(nd.nodes@);
                        assert(out@ =~= spec_generate(self@));
                    }
                    return out;
                }
                let fmt = match &nd.nodes[0] {
                    Node::Str(sn) => match sn.token.extract_str() {
                        Some(s) => s,
                        None => String::new(),
                    },
                    _ => String::new(),
                };
                let count = count_placeholders(&fmt);
                let expanded = expand_fmt(&fmt, &nd.nodes);
                let mut out = String::from_str("printf(\"");
                out.append(expanded.as_str());
                if count == 0 {
                    out.append("\");\n");
                } else {
                    out.append("\", ");
                    let joined = join_args(&nd.nodes);
                    out.append(joined.as_str());
                    out.append(");\n");
                }
                proof {
                    lemma_view_nodes(nd.nodes@);
                    assert(out@ =~= spec_generate(self@));
                }
                out
            },
            Node::MainFunc(nd) => {
                let mut out = String::from_str("int main() {\nGC_INIT();\n");
                let body = gen_list_exec(&nd.nodes);
                out.append(body.as_str());
                out.append("return 0;\n}\n");
                proof {
                    assert(out@ =~= spec_generate(self@));
                }
                out
            },
            Node::ForLoop(nd) => {
                let vn = match nd.var.extract_str() {
                    Some(s) => s,
                    None => String::new(),
                };
                let mut out = String::from_str("for (");
                out.append("int ");
                out.append(vn.as_str());
                out.append(" = ");
                let st = nd.start.generate();
                out.append(st.as_str());
                out.append("; ");
                out.append(vn.as_str());
                out.append(" < ");
                let en = nd.end.generate();
                out.append(en.as_str());
                out.append("; ");
                out.append(vn.as_str());
                match &nd.step {
                    Some(stp) => {
                        out.append(" += ");
                        let sv = stp.generate();
                        out.append(sv.as_str());
                    },
                    None => {
                        out.append("++");
                    },
                }
                out.append(") {\n");
                let body = gen_list_exec(&nd.nodes);
                out.append(body.as_str());
                out.append("}\n");
                proof {
                    assert(out@ =~= spec_generate(self@));
                }
                out
            },
            Node::If(nd) => {
                let mut out = String::from_str("if (");
                let c = nd.node.generate();
                out.append(c.as_str());
                out.append(") {\n");
                let body = gen_list_exec(&nd.body);
                out.append(body.as_str());
                out.append("\n}");
                let elf = self.generate_elf_arms();
                out.append(elf.as_str());
                match &nd.else_body {
                    Some(eb) => {
                        out.append(" else {\n");
                        let ec = gen_list_exec(eb);
                        out.append(ec.as_str());
                        out.append("\n}");
                    },
                    None => (),
                }
                proof {
                    assert(out@ =~= spec_generate(self@));
                }
                out
            },
            Node::While(nd) => {
                let mut out = String::from_str("while (");
                let c = nd.node.generate();
                out.append(c.as_str());
                out.append(")\n {");
                let body = gen_list_exec(&nd.body);
                out.append(body.as_str());
                out.append("}");
                proof {
                    assert(out@ =~= spec_generate(self@));
                }
                out
            },
        }
    }

    /// Emits the else-if arms of a conditional chain; empty for every other
    /// node kind.
    fn generate_elf_arms(&self) -> (r: String)
        ensures
            r@ == spec_gen_elf(self@, 0),
        decreases *self, 0int,
    {
        match self {
            Node::If(nd) => {
                match (&nd.elf_node, &nd.elf_body) {
                    (Some(conds), Some(bodies)) => {
                        proof {
                            lemma_view_nodes(conds@);
                            lemma_view_bodies(bodies@);
                        }
                        let m = if conds.len() <= bodies.len() {
                            conds.len()
                        } else {
                            bodies.len()
                        };
                        proof {
                            assert(m as int == spec_elf_count(self@));
                        }
                        let mut out = String::new();
                        let mut k: usize = 0;
                        while k < m
                            invariant
                                k <= m,
                                m as int == spec_elf_count(self@),
                                self is If,
                                self->If_0.elf_node == Some::<Vec<Node>>(*conds),
                                self->If_0.elf_body == Some::<Vec<Vec<Node>>>(*bodies),
                                m <= conds@.len(),
                                m <= bodies@.len(),
                                spec_gen_elf(self@, 0) == out@ + spec_gen_elf(self@, k as int),
                            decreases m - k,
                        {
                            let ghost prev = out@;
                            out.append(" else if (");
                            let cg = conds[k].generate();
                            out.append(cg.as_str());
                            out.append(") {\n");
                            let bg = gen_list_exec(&bodies[k]);
                            out.append(bg.as_str());
                            out.append("\n}");
                            proof {
                                lemma_view_nodes(conds@);
                                lemma_view_bodies(bodies@);
                                assert(prev + spec_gen_elf(self@, k as int) =~= out@
                                    + spec_gen_elf(self@, k + 1));
                            }
                            k = k + 1;
                        }
                        proof {
                            assert(spec_gen_elf(self@, 0) =~= out@);
                        }
                        out
                    },
                    _ => {
                        let out = String::new();
                        proof {
                            assert(spec_gen_elf(self@, 0) =~= out@);
                        }
                        out
                    },
                }
            },
            _ => {
                let out = String::new();
                proof {
                    assert(spec_gen_elf(self@, 0) =~= out@);
                }
                out
            },
        }
    }
}

/// Emits a string variable declaration.
fn str_decl(n: &String, v: &String) -> (r: String)
    ensures
        r@ == spec_str_decl(n@, v@),
{
    let mut out = String::from_str("char* ");
    out.append(n.as_str());
    out.append(" = (char*) GC_MALLOC(strlen(");
    out.append(v.as_str());
    out.append(") + 1);\nstrcpy(");
    out.append(n.as_str());
    out.append(", ");
    out.append(v.as_str());
    out.append(");\n");
    proof {
        assert(out@ =~= spec_str_decl(n@, v@));
    }
    out
}

/// Emits a scalar variable declaration.
fn scalar_decl(t: &String, n: &String, v: &String) -> (r: String)
    ensures
        r@ == spec_scalar_decl(t@, n@, v@),
{
    let mut out = String::new();
    out.append(t.as_str());
    out.append("* ");
    out.append(n.as_str());
    out.append(" =  (");
    out.append(t.as_str());
    out.append("*) GC_MALLOC(sizeof(");
    out.append(t.as_str());
    out.append("));\n*");
    out.append(n.as_str());
    out.append(" = ");
    out.append(v.as_str());
    out.append(";\n");
    proof {
        assert(out@ =~= spec_scalar_decl(t@, n@, v@));
    }
    out
}

/// Emission never folds constants: the text of a binary operation is the
/// left operand's text, the operator's textual form, and the right
/// operand's text, concatenated — whatever the operands are.
pub proof fn lemma_no_constant_folding(left: NodeV, op: TokenV, right: NodeV)
    ensures
        spec_generate(
            NodeV::BinOpV { left: Box::new(left), bin_op: op, right: Box::new(right) },
        ) == spec_generate(left) + spec_ops_str(op.tok_type) + spec_generate(right),
{
}

} // verus!
