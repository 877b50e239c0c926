//! Recursive-descent parsing with inline symbol-table-driven type checking.
//!
//! The `spec_*` functions define the parse mathematically: each consumes the
//! token sequence from a position, with the symbol table as a map from names
//! to variable records, and yields the built node, the position after it,
//! and (for statements) the table that results. The executable `Parser` is
//! proved to return exactly their results. Every grammar-level and
//! type-level violation is a recoverable error value; the first one stops
//! the parse.

use vstd::prelude::*;
use vstd::hash_map::StringHashMap;
use crate::ast::{
    Node, NodeV, VarInfo, NumberNode, StringNode, BinOpNode, UnaryOpNode, VarDeclNode,
    VarAssignNode, VarAccessNode, PrintNode, MainFuncNode, ForLoopNode, IfNode, WhileNode,
    spec_is_number, spec_get_type, spec_is_pure_value, view_nodes, lemma_view_nodes,
    lemma_view_bodies, view_bodies,
};
use crate::gen::{spec_generate, spec_count_placeholders, name_text, opt_text};
use crate::token::{Token, TokenType, TokenValue, TokenV, TokenValueV, wf_token, spec_extract_str};

verus! {

/// A grammar-level or type-level violation; the parse of the file stops at
/// the first one.
#[derive(Debug, Clone, PartialEq, Eq)]
pub enum ParseError {
    /// A specific token was required and another was found.
    Expected { expected: TokenType, found: TokenType },
    /// A type keyword was required after the annotation mark.
    ExpectedTypeKeyword { found: TokenType },
    /// A parenthesized expression was not closed.
    ExpectedClosingParen,
    /// No expression can start with the token found.
    UnexpectedFactorToken { found: TokenType },
    /// An identifier in an expression does not resolve in the symbol table.
    UndefinedVariable { name: String },
    /// An assignment to a variable that was never declared.
    UsedBeforeDeclaration { name: String },
    /// The assigned expression's type differs from the declared one.
    AssignTypeMismatch { name: String, expected: TokenType, found: TokenType },
    /// The declared type annotation differs from the initializer's type.
    DeclTypeMismatch { declared: TokenType, inferred: TokenType },
    /// A binary operation mixes a numeric and a non-numeric operand.
    MixedOperandTypes,
    /// An arithmetic operator applied to a string operand.
    StringOperator { op: TokenType },
    /// A loop header whose start, end, or step is not integer-typed.
    LoopHeaderNotInt,
    /// The first print argument is not a string literal.
    PrintFormatNotString,
    /// The placeholder count differs from the print argument count.
    PlaceholderMismatch { placeholders: usize, args: usize },
    /// A pure value used where a statement is required.
    StandaloneValue { text: String },
}

/// Mathematical model of a `ParseError`.
pub enum ParseErrorV {
    ExpectedV { expected: TokenType, found: TokenType },
    ExpectedTypeKeywordV { found: TokenType },
    ExpectedClosingParenV,
    UnexpectedFactorTokenV { found: TokenType },
    UndefinedVariableV { name: Seq<char> },
    UsedBeforeDeclarationV { name: Seq<char> },
    AssignTypeMismatchV { name: Seq<char>, expected: TokenType, found: TokenType },
    DeclTypeMismatchV { declared: TokenType, inferred: TokenType },
    MixedOperandTypesV,
    StringOperatorV { op: TokenType },
    LoopHeaderNotIntV,
    PrintFormatNotStringV,
    PlaceholderMismatchV { placeholders: int, args: int },
    StandaloneValueV { text: Seq<char> },
}

impl View for ParseError {
    type V = ParseErrorV;

    open spec fn view(&self) -> ParseErrorV {
        match self {
            ParseError::Expected { expected, found } => ParseErrorV::ExpectedV {
                expected: *expected,
                found: *found,
            },
            ParseError::ExpectedTypeKeyword { found } => ParseErrorV::ExpectedTypeKeywordV {
                found: *found,
            },
            ParseError::ExpectedClosingParen => ParseErrorV::ExpectedClosingParenV,
            ParseError::UnexpectedFactorToken { found } => ParseErrorV::UnexpectedFactorTokenV {
                found: *found,
            },
            ParseError::UndefinedVariable { name } => ParseErrorV::UndefinedVariableV {
                name: name@,
            },
            ParseError::UsedBeforeDeclaration { name } => ParseErrorV::UsedBeforeDeclarationV {
                name: name@,
            },
            ParseError::AssignTypeMismatch { name, expected, found } => {
                ParseErrorV::AssignTypeMismatchV {
                    name: name@,
                    expected: *expected,
                    found: *found,
                }
            },
            ParseError::DeclTypeMismatch { declared, inferred } => {
                ParseErrorV::DeclTypeMismatchV { declared: *declared, inferred: *inferred }
            },
            ParseError::MixedOperandTypes => ParseErrorV::MixedOperandTypesV,
            ParseError::StringOperator { op } => ParseErrorV::StringOperatorV { op: *op },
            ParseError::LoopHeaderNotInt => ParseErrorV::LoopHeaderNotIntV,
            ParseError::PrintFormatNotString => ParseErrorV::PrintFormatNotStringV,
            ParseError::PlaceholderMismatch { placeholders, args } => {
                ParseErrorV::PlaceholderMismatchV {
                    placeholders: *placeholders as int,
                    args: *args as int,
                }
            },
            ParseError::StandaloneValue { text } => ParseErrorV::StandaloneValueV { text: text@ },
        }
    }
}

/// The views of a sequence of tokens.
pub open spec fn view_toks(s: Seq<Token>) -> Seq<TokenV>
    decreases s,
{
    if s.len() == 0 {
        Seq::empty()
    } else {
        view_toks(s.drop_last()).push(s.last()@)
    }
}

/// `view_toks` maps the view over the sequence, element by element.
pub broadcast proof fn lemma_view_toks(s: Seq<Token>)
    ensures
        (#[trigger] view_toks(s)).len() == s.len(),
        forall|i: int| 0 <= i < s.len() ==> view_toks(s)[i] == s[i]@,
    decreases s.len(),
{
    if s.len() > 0 {
        lemma_view_toks(s.drop_last());
        assert forall|i: int| 0 <= i < s.len() implies view_toks(s)[i] == s[i]@ by {
            if i < s.len() - 1 {
                assert(view_toks(s)[i] == view_toks(s.drop_last())[i]);
                assert(s.drop_last()[i] == s[i]);
            } else {
                assert(view_toks(s)[i] == s.last()@);
            }
        }
    }
}

/// The current token: the one at the cursor, or a blank token past the end.
pub open spec fn spec_cur(toks: Seq<TokenV>, pos: int) -> TokenV {
    if 0 <= pos < toks.len() {
        toks[pos]
    } else {
        TokenV { tok_type: TokenType::NONE, tok_value: TokenValueV::NoneV }
    }
}

/// One token of the required kind, consumed; else the error naming both.
pub open spec fn spec_expect(toks: Seq<TokenV>, pos: int, expected: TokenType) -> Result<
    (TokenV, int),
    ParseErrorV,
> {
    let cur = spec_cur(toks, pos);
    if cur.tok_type == expected {
        Ok((cur, pos + 1))
    } else {
        Err(ParseErrorV::ExpectedV { expected, found: cur.tok_type })
    }
}

/// The error for an arm that cannot be reached: every sub-parse consumes at
/// least one token, so the position tests guarding the recursive calls hold.
pub open spec fn no_progress_err() -> ParseErrorV {
    ParseErrorV::ExpectedV { expected: TokenType::NONE, found: TokenType::NONE }
}

/// A statement-level parse failure, together with the symbol table as the
/// parse left it: entries inserted by statements parsed before the failure
/// remain; nothing is rolled back.
pub struct ParseFailV {
    pub err: ParseErrorV,
    pub tbl: Map<Seq<char>, VarInfo>,
}

/// Pairs a violation with the symbol table standing at the failure.
pub open spec fn fail(e: ParseErrorV, tbl: Map<Seq<char>, VarInfo>) -> ParseFailV {
    ParseFailV { err: e, tbl }
}

/// Wraps a parsed operand in a negation for an odd count of leading minus
/// signs.
pub open spec fn wrap_neg(neg: bool, n: NodeV) -> NodeV {
    if neg {
        NodeV::UnaryOpV {
            op_tok: TokenV { tok_type: TokenType::MIN, tok_value: TokenValueV::NoneV },
            node: Box::new(n),
        }
    } else {
        n
    }
}

/// Consumes the run of leading `+`/`-` signs; yields whether the count of
/// minus signs is odd, and the position after the run.
pub open spec fn spec_skip_signs(toks: Seq<TokenV>, pos: int) -> (bool, int)
    decreases toks.len() - pos,
{
    let cur = spec_cur(toks, pos);
    if cur.tok_type == TokenType::PLUS || cur.tok_type == TokenType::MIN {
        let (neg, p) = spec_skip_signs(toks, pos + 1);
        (if cur.tok_type == TokenType::MIN {
            !neg
        } else {
            neg
        }, p)
    } else {
        (false, pos)
    }
}

/// The parse of a factor: an optional run of signs wrapping a parenthesized
/// expression, a numeric literal, a declared identifier, or a string
/// literal (which takes no sign).
pub open spec fn spec_factor(toks: Seq<TokenV>, pos: int, tbl: Map<Seq<char>, VarInfo>) -> Result<
    (NodeV, int),
    ParseErrorV,
>
    decreases toks.len() - pos, 0int,
{
    let (neg, p) = spec_skip_signs(toks, pos);
    if !(pos <= p && p <= toks.len()) {
        Err(no_progress_err())  // never taken: signs only advance the cursor
    } else {
        let cur = spec_cur(toks, p);
        if cur.tok_type == TokenType::LParen {
            match spec_expr(toks, p + 1, tbl) {
                Err(e) => Err(e),
                Ok((node, p2)) => {
                    if spec_cur(toks, p2).tok_type != TokenType::RParen {
                        Err(ParseErrorV::ExpectedClosingParenV)
                    } else {
                        Ok((wrap_neg(neg, node), p2 + 1))
                    }
                },
            }
        } else if cur.tok_type == TokenType::INT || cur.tok_type == TokenType::FLOAT {
            Ok((wrap_neg(neg, NodeV::NumberV { token: cur }), p + 1))
        } else if cur.tok_type == TokenType::IDENTIFIER {
            let name = opt_text(spec_extract_str(cur));
            if !tbl.contains_key(name) {
                Err(ParseErrorV::UndefinedVariableV { name })
            } else {
                let info = tbl[name];
                Ok(
                    (
                        wrap_neg(
                            neg,
                            NodeV::VarAccessV {
                                name: cur,
                                var_type: info.tok_type,
                                is_pointer: info.is_pointer,
                            },
                        ),
                        p + 1,
                    ),
                )
            }
        } else if cur.tok_type == TokenType::STRING {
            Ok((NodeV::StrV { token: cur }, p + 1))
        } else {
            Err(ParseErrorV::UnexpectedFactorTokenV { found: cur.tok_type })
        }
    }
}

/// The checks made before a binary operation node is built: both operands
/// numeric or both not, and no arithmetic on a string left operand.
pub open spec fn spec_binop_check(left: NodeV, op: TokenType, right: NodeV) -> Option<
    ParseErrorV,
> {
    if spec_is_number(left) != spec_is_number(right) {
        Some(ParseErrorV::MixedOperandTypesV)
    } else if spec_get_type(left) == TokenType::STRING && op != TokenType::EqualsEquals && op
        != TokenType::NotEquals {
        Some(ParseErrorV::StringOperatorV { op })
    } else {
        None
    }
}

/// The left-associative run of `*`, `/`, `%` operators after a factor.
pub open spec fn spec_term_rest(
    toks: Seq<TokenV>,
    pos: int,
    tbl: Map<Seq<char>, VarInfo>,
    left: NodeV,
) -> Result<(NodeV, int), ParseErrorV>
    decreases toks.len() - pos, 0int,
{
    let cur = spec_cur(toks, pos);
    if cur.tok_type == TokenType::MULT || cur.tok_type == TokenType::DIV || cur.tok_type
        == TokenType::MOD {
        match spec_factor(toks, pos + 1, tbl) {
            Err(e) => Err(e),
            Ok((right, p2)) => match spec_binop_check(left, cur.tok_type, right) {
                Some(e) => Err(e),
                None => {
                    let node = NodeV::BinOpV {
                        left: Box::new(left),
                        bin_op: cur,
                        right: Box::new(right),
                    };
                    if pos < p2 && p2 <= toks.len() {
                        spec_term_rest(toks, p2, tbl, node)
                    } else {
                        Err(no_progress_err())
                    }
                },
            },
        }
    } else {
        Ok((left, pos))
    }
}

/// The parse of a term: factors combined by `*`, `/`, `%`.
pub open spec fn spec_term(toks: Seq<TokenV>, pos: int, tbl: Map<Seq<char>, VarInfo>) -> Result<
    (NodeV, int),
    ParseErrorV,
>
    decreases toks.len() - pos, 1int,
{
    match spec_factor(toks, pos, tbl) {
        Err(e) => Err(e),
        Ok((left, p1)) => if pos < p1 && p1 <= toks.len() {
            spec_term_rest(toks, p1, tbl, left)
        } else {
            Err(no_progress_err())
        },
    }
}

/// The left-associative run of `+`, `-`, `==`, `!=` operators after a term.
pub open spec fn spec_expr_rest(
    toks: Seq<TokenV>,
    pos: int,
    tbl: Map<Seq<char>, VarInfo>,
    left: NodeV,
) -> Result<(NodeV, int), ParseErrorV>
    decreases toks.len() - pos, 0int,
{
    let cur = spec_cur(toks, pos);
    if cur.tok_type == TokenType::PLUS || cur.tok_type == TokenType::MIN || cur.tok_type
        == TokenType::EqualsEquals || cur.tok_type == TokenType::NotEquals {
        match spec_term(toks, pos + 1, tbl) {
            Err(e) => Err(e),
            Ok((right, p2)) => match spec_binop_check(left, cur.tok_type, right) {
                Some(e) => Err(e),
                None => {
                    let node = NodeV::BinOpV {
                        left: Box::new(left),
                        bin_op: cur,
                        right: Box::new(right),
                    };
                    if pos < p2 && p2 <= toks.len() {
                        spec_expr_rest(toks, p2, tbl, node)
                    } else {
                        Err(no_progress_err())
                    }
                },
            },
        }
    } else {
        Ok((left, pos))
    }
}

/// The parse of an expression: terms combined by `+`, `-`, `==`, `!=`.
pub open spec fn spec_expr(toks: Seq<TokenV>, pos: int, tbl: Map<Seq<char>, VarInfo>) -> Result<
    (NodeV, int),
    ParseErrorV,
>
    decreases toks.len() - pos, 2int,
{
    match spec_term(toks, pos, tbl) {
        Err(e) => Err(e),
        Ok((left, p1)) => if pos < p1 && p1 <= toks.len() {
            spec_expr_rest(toks, p1, tbl, left)
        } else {
            Err(no_progress_err())
        },
    }
}

/// The parse of the print arguments: expressions separated by commas.
pub open spec fn spec_print_args(
    toks: Seq<TokenV>,
    pos: int,
    tbl: Map<Seq<char>, VarInfo>,
) -> Result<(Seq<NodeV>, int), ParseErrorV>
    decreases toks.len() - pos, 3int,
{
    match spec_expr(toks, pos, tbl) {
        Err(e) => Err(e),
        Ok((n, p1)) => {
            if spec_cur(toks, p1).tok_type == TokenType::COMMA {
                if pos <= p1 {
                    match spec_print_args(toks, p1 + 1, tbl) {
                        Err(e) => Err(e),
                        Ok((rest, p2)) => Ok((seq![n] + rest, p2)),
                    }
                } else {
                    Err(no_progress_err())
                }
            } else {
                Ok((seq![n], p1))
            }
        },
    }
}

/// The parse of the run of else-if arms of a conditional chain: each is a
/// condition and a braced body.
pub open spec fn spec_elf_chain(toks: Seq<TokenV>, pos: int, tbl: Map<Seq<char>, VarInfo>) -> Result<
    (Seq<NodeV>, Seq<Seq<NodeV>>, int, Map<Seq<char>, VarInfo>),
    ParseFailV,
>
    decreases toks.len() - pos, 0int,
{
    if spec_cur(toks, pos).tok_type == TokenType::ELF {
        match spec_expr(toks, pos + 1, tbl) {
            Err(e) => Err(fail(e, tbl)),
            Ok((c, p1)) => match spec_expect(toks, p1, TokenType::LCurly) {
                Err(e) => Err(fail(e, tbl)),
                Ok((_, p2)) => {
                    if pos < p2 && p2 <= toks.len() {
                        match spec_parse(toks, p2, tbl) {
                            Err(f) => Err(f),
                            Ok((body, p3, t2)) => match spec_expect(toks, p3, TokenType::RCurly) {
                                Err(e) => Err(fail(e, t2)),
                                Ok((_, p4)) => {
                                    if pos < p4 && p4 <= toks.len() {
                                        match spec_elf_chain(toks, p4, t2) {
                                            Err(f) => Err(f),
                                            Ok((cs, bs, p5, t3)) => Ok(
                                                (seq![c] + cs, seq![body] + bs, p5, t3),
                                            ),
                                        }
                                    } else {
                                        Err(fail(no_progress_err(), t2))
                                    }
                                },
                            },
                        }
                    } else {
                        Err(fail(no_progress_err(), tbl))
                    }
                },
            },
        }
    } else {
        Ok((Seq::empty(), Seq::empty(), pos, tbl))
    }
}

/// The parse of one statement other than the entry-point construct. Yields
/// the node, the position after it, and the symbol table as the statement
/// leaves it: declarations persist, and only a counting loop pops its own
/// induction variable.
pub open spec fn spec_parse_stmt(toks: Seq<TokenV>, pos: int, tbl: Map<Seq<char>, VarInfo>) -> Result<
    (NodeV, int, Map<Seq<char>, VarInfo>),
    ParseFailV,
>
    decreases toks.len() - pos, 3int,
{
    let cur = spec_cur(toks, pos);
    if cur.tok_type == TokenType::PRINT {
        match spec_expect(toks, pos + 1, TokenType::LParen) {
            Err(e) => Err(fail(e, tbl)),
            Ok((_, p1)) => match spec_print_args(toks, p1, tbl) {
                Err(e) => Err(fail(e, tbl)),
                Ok((args, p2)) => match spec_expect(toks, p2, TokenType::RParen) {
                    Err(e) => Err(fail(e, tbl)),
                    Ok((_, p3)) => match spec_expect(toks, p3, TokenType::SEM) {
                        Err(e) => Err(fail(e, tbl)),
                        Ok((_, p4)) => {
                            if args.len() >= 1 && args[0] is StrV {
                                let fmt = name_text(args[0]->StrV_token);
                                let ph = spec_count_placeholders(fmt, 0);
                                if ph != args.len() - 1 {
                                    Err(
                                        fail(
                                            ParseErrorV::PlaceholderMismatchV {
                                                placeholders: ph,
                                                args: args.len() - 1,
                                            },
                                            tbl,
                                        ),
                                    )
                                } else {
                                    Ok((NodeV::PrintV { nodes: args }, p4, tbl))
                                }
                            } else {
                                Err(fail(ParseErrorV::PrintFormatNotStringV, tbl))
                            }
                        },
                    },
                },
            },
        }
    } else if cur.tok_type == TokenType::LET {
        match spec_expect(toks, pos + 1, TokenType::IDENTIFIER) {
            Err(e) => Err(fail(e, tbl)),
            Ok((name, p1)) => {
                let ann = spec_cur(toks, p1).tok_type == TokenType::Annotation;
                let tk = spec_cur(toks, p1 + 1);
                if ann && !(tk.tok_type == TokenType::IntKey || tk.tok_type == TokenType::StringKey
                    || tk.tok_type == TokenType::FloatKey) {
                    Err(fail(ParseErrorV::ExpectedTypeKeywordV { found: tk.tok_type }, tbl))
                } else {
                    let declared = if ann {
                        if tk.tok_type == TokenType::StringKey {
                            Some(TokenType::STRING)
                        } else if tk.tok_type == TokenType::IntKey {
                            Some(TokenType::INT)
                        } else {
                            Some(TokenType::FLOAT)
                        }
                    } else {
                        None
                    };
                    let p2 = if ann {
                        p1 + 2
                    } else {
                        p1
                    };
                    match spec_expect(toks, p2, TokenType::EQUALS) {
                        Err(e) => Err(fail(e, tbl)),
                        Ok((_, p3)) => match spec_expr(toks, p3, tbl) {
                            Err(e) => Err(fail(e, tbl)),
                            Ok((value, p4)) => match spec_expect(toks, p4, TokenType::SEM) {
                                Err(e) => Err(fail(e, tbl)),
                                Ok((_, p5)) => {
                                    if declared matches Some(dt) && dt != spec_get_type(value) {
                                        Err(
                                            fail(
                                                ParseErrorV::DeclTypeMismatchV {
                                                    declared: declared->0,
                                                    inferred: spec_get_type(value),
                                                },
                                                tbl,
                                            ),
                                        )
                                    } else {
                                        Ok(
                                            (
                                                NodeV::VarDeclV {
                                                    name,
                                                    node: Box::new(value),
                                                    declared_type: declared,
                                                },
                                                p5,
                                                tbl.insert(
                                                    name_text(name),
                                                    VarInfo {
                                                        tok_type: spec_get_type(value),
                                                        is_pointer: true,
                                                    },
                                                ),
                                            ),
                                        )
                                    }
                                },
                            },
                        },
                    }
                }
            },
        }
    } else if cur.tok_type == TokenType::FOR {
        match spec_expr(toks, pos + 1, tbl) {
            Err(e) => Err(fail(e, tbl)),
            Ok((start, p1)) => match spec_expect(toks, p1, TokenType::Annotation) {
                Err(e) => Err(fail(e, tbl)),
                Ok((_, p2)) => {
                    if !(pos < p2 && p2 <= toks.len()) {
                        Err(fail(no_progress_err(), tbl))
                    } else {
                        match spec_expr(toks, p2, tbl) {
                            Err(e) => Err(fail(e, tbl)),
                            Ok((end, p3)) => {
                                let has_step = spec_cur(toks, p3).tok_type == TokenType::EQUALS;
                                if has_step && !(pos < p3 + 1 && p3 + 1 <= toks.len()) {
                                    Err(fail(no_progress_err(), tbl))
                                } else {
                                    let step_res: Result<(Option<NodeV>, int), ParseErrorV> = if
                                        has_step {
                                        match spec_expr(toks, p3 + 1, tbl) {
                                            Err(e) => Err::<(Option<NodeV>, int), ParseErrorV>(e),
                                            Ok((sp, p4)) => Ok((Some(sp), p4)),
                                        }
                                    } else {
                                        Ok((None, p3))
                                    };
                                    match step_res {
                                        Err(e) => Err(fail(e, tbl)),
                                        Ok((step, p5)) => match spec_expect(
                                            toks,
                                            p5,
                                            TokenType::IDENTIFIER,
                                        ) {
                                            Err(e) => Err(fail(e, tbl)),
                                            Ok((var, p6)) => {
                                                let t2 = tbl.insert(
                                                    name_text(var),
                                                    VarInfo {
                                                        tok_type: spec_get_type(start),
                                                        is_pointer: false,
                                                    },
                                                );
                                                match spec_expect(toks, p6, TokenType::LCurly) {
                                                    Err(e) => Err(fail(e, t2)),
                                                    Ok((_, p7)) => {
                                                        if !(pos < p7 && p7 <= toks.len()) {
                                                            Err(fail(no_progress_err(), t2))
                                                        } else {
                                                            match spec_parse(toks, p7, t2) {
                                                                Err(f) => Err(f),
                                                                Ok((body, p8, t3)) => match
                                                                    spec_expect(
                                                                    toks,
                                                                    p8,
                                                                    TokenType::RCurly,
                                                                ) {
                                                                    Err(e) => Err(fail(e, t3)),
                                                                    Ok((_, p9)) => {
                                                                        let t4 = t3.remove(
                                                                            name_text(var),
                                                                        );
                                                                        if spec_get_type(start)
                                                                            != TokenType::INT
                                                                            || spec_get_type(end)
                                                                            != TokenType::INT || (
                                                                        step matches Some(sp)
                                                                            && spec_get_type(sp)
                                                                            != TokenType::INT) {
                                                                            Err(
                                                                                fail(
                                                                                    ParseErrorV::LoopHeaderNotIntV,
                                                                                    t4,
                                                                                ),
                                                                            )
                                                                        } else {
                                                                            Ok(
                                                                                (
                                                                                    NodeV::ForLoopV {
                                                                                        start: Box::new(
                                                                                            start,
                                                                                        ),
                                                                                        end: Box::new(
                                                                                            end,
                                                                                        ),
                                                                                        var,
                                                                                        nodes: body,
                                                                                        step: match
                                                                                            step {
                                                                                            Some(sp) => Some(
                                                                                                Box::new(sp),
                                                                                            ),
                                                                                            None => None,
                                                                                        },
                                                                                    },
                                                                                    p9,
                                                                                    t4,
                                                                                ),
                                                                            )
                                                                        }
                                                                    },
                                                                },
                                                            }
                                                        }
                                                    },
                                                }
                                            },
                                        },
                                    }
                                }
                            },
                        }
                    }
                },
            },
        }
    } else if cur.tok_type == TokenType::IF {
        match spec_expr(toks, pos + 1, tbl) {
            Err(e) => Err(fail(e, tbl)),
            Ok((c, p1)) => match spec_expect(toks, p1, TokenType::LCurly) {
                Err(e) => Err(fail(e, tbl)),
                Ok((_, p2)) => {
                    if !(pos < p2 && p2 <= toks.len()) {
                        Err(fail(no_progress_err(), tbl))
                    } else {
                        match spec_parse(toks, p2, tbl) {
                            Err(f) => Err(f),
                            Ok((body, p3, t2)) => match spec_expect(toks, p3, TokenType::RCurly) {
                                Err(e) => Err(fail(e, t2)),
                                Ok((_, p4)) => {
                                    if !(pos < p4 && p4 <= toks.len()) {
                                        Err(fail(no_progress_err(), t2))
                                    } else {
                                        match spec_elf_chain(toks, p4, t2) {
                                            Err(f) => Err(f),
                                            Ok((cs, bs, p5, t3)) => {
                                                if spec_cur(toks, p5).tok_type
                                                    == TokenType::ELSE {
                                                    match spec_expect(
                                                        toks,
                                                        p5 + 1,
                                                        TokenType::LCurly,
                                                    ) {
                                                        Err(e) => Err(fail(e, t3)),
                                                        Ok((_, p6)) => {
                                                            if !(pos < p6 && p6 <= toks.len()) {
                                                                Err(fail(no_progress_err(), t3))
                                                            } else {
                                                                match spec_parse(toks, p6, t3) {
                                                                    Err(f) => Err(f),
                                                                    Ok((eb, p7, t4)) => match
                                                                        spec_expect(
                                                                        toks,
                                                                        p7,
                                                                        TokenType::RCurly,
                                                                    ) {
                                                                        Err(e) => Err(fail(e, t4)),
                                                                        Ok((_, p8)) => Ok(
                                                                            (
                                                                                NodeV::IfV {
                                                                                    node: Box::new(c),
                                                                                    body,
                                                                                    else_body: Some(
                                                                                        eb,
                                                                                    ),
                                                                                    elf_body: bs,
                                                                                    elf_node: cs,
                                                                                },
                                                                                p8,
                                                                                t4,
                                                                            ),
                                                                        ),
                                                                    },
                                                                }
                                                            }
                                                        },
                                                    }
                                                } else {
                                                    Ok(
                                                        (
                                                            NodeV::IfV {
                                                                node: Box::new(c),
                                                                body,
                                                                else_body: None,
                                                                elf_body: bs,
                                                                elf_node: cs,
                                                            },
                                                            p5,
                                                            t3,
                                                        ),
                                                    )
                                                }
                                            },
                                        }
                                    }
                                },
                            },
                        }
                    }
                },
            },
        }
    } else if cur.tok_type == TokenType::WHILE {
        match spec_expr(toks, pos + 1, tbl) {
            Err(e) => Err(fail(e, tbl)),
            Ok((c, p1)) => match spec_expect(toks, p1, TokenType::LCurly) {
                Err(e) => Err(fail(e, tbl)),
                Ok((_, p2)) => {
                    if !(pos < p2 && p2 <= toks.len()) {
                        Err(fail(no_progress_err(), tbl))
                    } else {
                        match spec_parse(toks, p2, tbl) {
                            Err(f) => Err(f),
                            Ok((body, p3, t2)) => match spec_expect(toks, p3, TokenType::RCurly) {
                                Err(e) => Err(fail(e, t2)),
                                Ok((_, p4)) => Ok(
                                    (NodeV::WhileV { node: Box::new(c), body }, p4, t2),
                                ),
                            },
                        }
                    }
                },
            },
        }
    } else if cur.tok_type == TokenType::IDENTIFIER {
        let nm = opt_text(spec_extract_str(cur));
        if !tbl.contains_key(nm) {
            Err(fail(ParseErrorV::UsedBeforeDeclarationV { name: nm }, tbl))
        } else {
            match spec_expect(toks, pos + 1, TokenType::EQUALS) {
                Err(e) => Err(fail(e, tbl)),
                Ok((_, p1)) => match spec_expr(toks, p1, tbl) {
                    Err(e) => Err(fail(e, tbl)),
                    Ok((value, p2)) => match spec_expect(toks, p2, TokenType::SEM) {
                        Err(e) => Err(fail(e, tbl)),
                        Ok((_, p3)) => {
                            let expected = tbl[nm];
                            if expected.tok_type != spec_get_type(value) {
                                Err(
                                    fail(
                                        ParseErrorV::AssignTypeMismatchV {
                                            name: nm,
                                            expected: expected.tok_type,
                                            found: spec_get_type(value),
                                        },
                                        tbl,
                                    ),
                                )
                            } else {
                                Ok(
                                    (
                                        NodeV::VarAssignV { name: cur, node: Box::new(value) },
                                        p3,
                                        tbl,
                                    ),
                                )
                            }
                        },
                    },
                },
            }
        }
    } else {
        match spec_expr(toks, pos, tbl) {
            Err(e) => Err(fail(e, tbl)),
            Ok((e, p1)) => {
                if spec_is_pure_value(e) {
                    Err(fail(ParseErrorV::StandaloneValueV { text: spec_generate(e) }, tbl))
                } else {
                    Ok((e, p1, tbl))
                }
            },
        }
    }
}

/// The parse of the entry-point construct after its `fun` keyword: `main`,
/// an empty parameter list, and a braced program body.
pub open spec fn spec_main_func(toks: Seq<TokenV>, pos: int, tbl: Map<Seq<char>, VarInfo>) -> Result<
    (NodeV, int, Map<Seq<char>, VarInfo>),
    ParseFailV,
>
    decreases toks.len() - pos, 0int,
{
    match spec_expect(toks, pos, TokenType::MAIN) {
        Err(e) => Err(fail(e, tbl)),
        Ok((_, p1)) => match spec_expect(toks, p1, TokenType::LParen) {
            Err(e) => Err(fail(e, tbl)),
            Ok((_, p2)) => match spec_expect(toks, p2, TokenType::RParen) {
                Err(e) => Err(fail(e, tbl)),
                Ok((_, p3)) => match spec_expect(toks, p3, TokenType::LCurly) {
                    Err(e) => Err(fail(e, tbl)),
                    Ok((_, p4)) => {
                        if !(pos < p4 && p4 <= toks.len()) {
                            Err(fail(no_progress_err(), tbl))
                        } else {
                            match spec_parse(toks, p4, tbl) {
                                Err(f) => Err(f),
                                Ok((body, p5, t2)) => match spec_expect(
                                    toks,
                                    p5,
                                    TokenType::RCurly,
                                ) {
                                    Err(e) => Err(fail(e, t2)),
                                    Ok((_, p6)) => Ok(
                                        (NodeV::MainFuncV { nodes: body }, p6, t2),
                                    ),
                                },
                            }
                        }
                    },
                },
            },
        },
    }
}

/// Whether a parsed statement list is the lone entry-point construct: the
/// result of meeting the `fun` keyword, which replaces everything parsed at
/// its level.
pub open spec fn is_main_only(nodes: Seq<NodeV>) -> bool {
    nodes.len() == 1 && nodes[0] is MainFuncV
}

/// The parse of a statement list, up to the end marker or a closing brace.
/// An entry-point construct replaces the list at once: whenever it is met,
/// only it is returned — statements parsed before it at the same level are
/// discarded, and statements after it are never parsed.
pub open spec fn spec_parse(toks: Seq<TokenV>, pos: int, tbl: Map<Seq<char>, VarInfo>) -> Result<
    (Seq<NodeV>, int, Map<Seq<char>, VarInfo>),
    ParseFailV,
>
    decreases toks.len() - pos, 4int,
{
    let cur = spec_cur(toks, pos);
    if cur.tok_type == TokenType::EOF || cur.tok_type == TokenType::RCurly {
        Ok((Seq::empty(), pos, tbl))
    } else if cur.tok_type == TokenType::FUN {
        match spec_main_func(toks, pos + 1, tbl) {
            Err(f) => Err(f),
            Ok((m, p1, t1)) => Ok((seq![m], p1, t1)),
        }
    } else {
        match spec_parse_stmt(toks, pos, tbl) {
            Err(f) => Err(f),
            Ok((st, p1, t1)) => {
                if pos < p1 && p1 <= toks.len() {
                    match spec_parse(toks, p1, t1) {
                        Err(f) => Err(f),
                        Ok((rest, p2, t2)) => Ok(
                            (
                                if is_main_only(rest) {
                                    rest
                                } else {
                                    seq![st] + rest
                                },
                                p2,
                                t2,
                            ),
                        ),
                    }
                } else {
                    Err(fail(no_progress_err(), t1))
                }
            },
        }
    }
}

/// The recursive-descent parser: the token sequence, a cursor, and the
/// symbol table.
pub struct Parser {
    pub toks: Vec<Token>,
    pub pos: usize,
    pub symbol_table: StringHashMap<VarInfo>,
}

impl Parser {
    /// The views of this parser's tokens.
    pub open spec fn tv(&self) -> Seq<TokenV> {
        view_toks(self.toks@)
    }

    /// A parser state fit to parse from: every token is well formed and an
    /// end marker stands at or after the cursor (the lexer guarantees both).
    pub open spec fn wf(&self) -> bool {
        &&& self.pos <= self.toks@.len()
        &&& exists|i: int|
            self.pos <= i < self.toks@.len() && (#[trigger] view_toks(self.toks@)[i]).tok_type
                == TokenType::EOF
        &&& forall|i: int| 0 <= i < self.toks@.len() ==> wf_token(#[trigger] view_toks(self.toks@)[i])
    }

    pub fn new(toks: Vec<Token>) -> (r: Self)
        ensures
            r.toks == toks,
            r.pos == 0,
            r.symbol_table@ == Map::<Seq<char>, VarInfo>::empty(),
    {
        Self { toks, pos: 0, symbol_table: StringHashMap::new() }
    }

    /// The kind of the current token.
    fn cur_type(&self) -> (t: TokenType)
        requires
            self.wf(),
        ensures
            t == spec_cur(self.tv(), self.pos as int).tok_type,
    {
        proof {
            lemma_view_toks(self.toks@);
        }
        self.toks[self.pos].tok_type
    }

    /// A copy of the current token.
    fn cur_token(&self) -> (t: Token)
        requires
            self.wf(),
        ensures
            t@ == spec_cur(self.tv(), self.pos as int),
    {
        proof {
            lemma_view_toks(self.toks@);
        }
        self.toks[self.pos].duplicate()
    }

    /// Moves the cursor past the current token. Consuming anything but the
    /// end marker keeps the parser fit to go on; the end marker itself is
    /// never consumed.
    fn advance(&mut self)
        requires
            old(self).wf(),
        ensures
            spec_cur(old(self).tv(), old(self).pos as int).tok_type != TokenType::EOF
                ==> final(self).wf(),
            final(self).toks == old(self).toks,
            final(self).symbol_table == old(self).symbol_table,
            final(self).pos == old(self).pos + 1,
    {
        let n = self.toks.len();
        proof {
            lemma_view_toks(self.toks@);
            let i = choose|i: int|
                self.pos <= i < self.toks@.len() && (#[trigger] view_toks(self.toks@)[i]).tok_type
                    == TokenType::EOF;
            assert(self.pos < n);
            if spec_cur(self.tv(), self.pos as int).tok_type != TokenType::EOF {
                assert(i != self.pos as int);
                assert(self.pos + 1 <= i < n);
            }
        }
        self.pos = self.pos + 1;
    }

    /// Consumes one token of the required kind, or reports what was found.
    /// The grammar never asks for the end marker, and consuming it would
    /// leave the parser without the end marker its well-formedness rests on,
    /// so only that case leaves the parser unfit to go on.
    pub fn expect(&mut self, expected: TokenType) -> (r: Result<Token, ParseError>)
        requires
            old(self).wf(),
        ensures
            expected != TokenType::EOF || r is Err ==> final(self).wf(),
            final(self).toks == old(self).toks,
            final(self).symbol_table == old(self).symbol_table,
            match r {
                Ok(t) => spec_expect(old(self).tv(), old(self).pos as int, expected) == Ok::<
                    (TokenV, int),
                    ParseErrorV,
                >((t@, final(self).pos as int)) && final(self).pos == old(self).pos + 1,
                Err(e) => spec_expect(old(self).tv(), old(self).pos as int, expected) == Err::<
                    (TokenV, int),
                    ParseErrorV,
                >(e@) && final(self).pos == old(self).pos,
            },
    {
        let t = self.cur_type();
        if t == expected {
            let tok = self.cur_token();
            self.advance();
            Ok(tok)
        } else {
            Err(ParseError::Expected { expected, found: t })
        }
    }

    /// Consumes the run of leading sign tokens; reports whether the count of
    /// minus signs is odd.
    fn skip_signs(&mut self) -> (neg: bool)
        requires
            old(self).wf(),
        ensures
            final(self).wf(),
            final(self).toks == old(self).toks,
            final(self).symbol_table == old(self).symbol_table,
            old(self).pos <= final(self).pos,
            spec_skip_signs(old(self).tv(), old(self).pos as int) == (neg, final(self).pos as int),
        decreases old(self).toks@.len() - old(self).pos,
    {
        proof {
            lemma_view_toks(self.toks@);
        }
        let t = self.cur_type();
        if t == TokenType::PLUS || t == TokenType::MIN {
            self.advance();
            let rest = self.skip_signs();
            if t == TokenType::MIN {
                !rest
            } else {
                rest
            }
        } else {
            false
        }
    }

    /// Parses a factor.
    fn factor(&mut self) -> (r: Result<Node, ParseError>)
        requires
            old(self).wf(),
        ensures
            final(self).wf(),
            final(self).toks == old(self).toks,
            final(self).symbol_table == old(self).symbol_table,
            match r {
                Ok(node) => spec_factor(
                    old(self).tv(),
                    old(self).pos as int,
                    old(self).symbol_table@,
                ) == Ok::<(NodeV, int), ParseErrorV>((node@, final(self).pos as int)) && old(
                    self,
                ).pos < final(self).pos,
                Err(e) => spec_factor(
                    old(self).tv(),
                    old(self).pos as int,
                    old(self).symbol_table@,
                ) == Err::<(NodeV, int), ParseErrorV>(e@),
            },
        decreases old(self).toks@.len() - old(self).pos, 0int,
    {
        proof {
            lemma_view_toks(self.toks@);
        }
        let ghost t0 = self.tv();
        let ghost p0 = self.pos as int;
        let ghost tbl0 = self.symbol_table@;
        let neg = self.skip_signs();
        let ghost p = self.pos as int;
        let t = self.cur_type();
        if t == TokenType::LParen {
            self.advance();
            let e = match self.expr() {
                Ok(v) => v,
                Err(er) => {
                    return Err(er);
                },
            };
            let t2 = self.cur_type();
            if t2 != TokenType::RParen {
                return Err(ParseError::ExpectedClosingParen);
            }
            self.advance();
            let node = if neg {
                Node::UnaryOp(
                    Box::new(UnaryOpNode::new(Token::new(TokenType::MIN, TokenValue::NONE), e)),
                )
            } else {
                e
            };
            proof {
                assert(node@ == wrap_neg(neg, e@));
            }
            Ok(node)
        } else if t == TokenType::INT || t == TokenType::FLOAT {
            let tok = self.cur_token();
            self.advance();
            let ghost tokv = tok@;
            let inner = Node::Number(NumberNode::new(tok));
            proof {
                assert(inner@ == NodeV::NumberV { token: tokv });
            }
            let ghost innerv = inner@;
            let node = if neg {
                Node::UnaryOp(
                    Box::new(UnaryOpNode::new(Token::new(TokenType::MIN, TokenValue::NONE), inner)),
                )
            } else {
                inner
            };
            proof {
                assert(node@ == wrap_neg(neg, innerv));
            }
            Ok(node)
        } else if t == TokenType::IDENTIFIER {
            let tok = self.cur_token();
            self.advance();
            let var_name = match tok.extract_str() {
                Some(s) => s,
                None => String::new(),
            };
            let info = match self.symbol_table.get(var_name.as_str()) {
                Some(i) => *i,
                None => {
                    return Err(ParseError::UndefinedVariable { name: var_name });
                },
            };
            let ghost tokv = tok@;
            let ghost infov = info;
            let inner = Node::VarAccess(VarAccessNode::new(tok, info.tok_type, info.is_pointer));
            proof {
                assert(inner@ == NodeV::VarAccessV {
                    name: tokv,
                    var_type: infov.tok_type,
                    is_pointer: infov.is_pointer,
                });
            }
            let ghost innerv = inner@;
            let node = if neg {
                Node::UnaryOp(
                    Box::new(UnaryOpNode::new(Token::new(TokenType::MIN, TokenValue::NONE), inner)),
                )
            } else {
                inner
            };
            proof {
                assert(node@ == wrap_neg(neg, innerv));
            }
            Ok(node)
        } else if t == TokenType::STRING {
            let tok = self.cur_token();
            self.advance();
            Ok(Node::Str(StringNode::new(tok)))
        } else {
            Err(ParseError::UnexpectedFactorToken { found: t })
        }
    }

    /// Parses the run of `*`, `/`, `%` operators after a factor, left
    /// associated.
    fn term_rest(&mut self, left: Node) -> (r: Result<Node, ParseError>)
        requires
            old(self).wf(),
        ensures
            final(self).wf(),
            final(self).toks == old(self).toks,
            final(self).symbol_table == old(self).symbol_table,
            match r {
                Ok(node) => spec_term_rest(
                    old(self).tv(),
                    old(self).pos as int,
                    old(self).symbol_table@,
                    left@,
                ) == Ok::<(NodeV, int), ParseErrorV>((node@, final(self).pos as int)) && old(
                    self,
                ).pos <= final(self).pos,
                Err(e) => spec_term_rest(
                    old(self).tv(),
                    old(self).pos as int,
                    old(self).symbol_table@,
                    left@,
                ) == Err::<(NodeV, int), ParseErrorV>(e@),
            },
        decreases old(self).toks@.len() - old(self).pos, 0int,
    {
        proof {
            lemma_view_toks(self.toks@);
        }
        let t = self.cur_type();
        if t == TokenType::MULT || t == TokenType::DIV || t == TokenType::MOD {
            let op = self.cur_token();
            self.advance();
            let right = match self.factor() {
                Ok(v) => v,
                Err(er) => {
                    return Err(er);
                },
            };
            if left.is_number() != right.is_number() {
                return Err(ParseError::MixedOperandTypes);
            }
            if left.get_type() == TokenType::STRING && op.tok_type != TokenType::EqualsEquals
                && op.tok_type != TokenType::NotEquals {
                return Err(ParseError::StringOperator { op: op.tok_type });
            }
            let node = Node::BinOp(Box::new(BinOpNode::new(left, op, right)));
            self.term_rest(node)
        } else {
            Ok(left)
        }
    }

    /// Parses a term.
    fn term(&mut self) -> (r: Result<Node, ParseError>)
        requires
            old(self).wf(),
        ensures
            final(self).wf(),
            final(self).toks == old(self).toks,
            final(self).symbol_table == old(self).symbol_table,
            match r {
                Ok(node) => spec_term(
                    old(self).tv(),
                    old(self).pos as int,
                    old(self).symbol_table@,
                ) == Ok::<(NodeV, int), ParseErrorV>((node@, final(self).pos as int)) && old(
                    self,
                ).pos < final(self).pos,
                Err(e) => spec_term(
                    old(self).tv(),
                    old(self).pos as int,
                    old(self).symbol_table@,
                ) == Err::<(NodeV, int), ParseErrorV>(e@),
            },
        decreases old(self).toks@.len() - old(self).pos, 1int,
    {
        proof {
            lemma_view_toks(self.toks@);
        }
        let left = match self.factor() {
            Ok(v) => v,
            Err(er) => {
                return Err(er);
            },
        };
        self.term_rest(left)
    }

    /// Parses the run of `+`, `-`, `==`, `!=` operators after a term, left
    /// associated.
    fn expr_rest(&mut self, left: Node) -> (r: Result<Node, ParseError>)
        requires
            old(self).wf(),
        ensures
            final(self).wf(),
            final(self).toks == old(self).toks,
            final(self).symbol_table == old(self).symbol_table,
            match r {
                Ok(node) => spec_expr_rest(
                    old(self).tv(),
                    old(self).pos as int,
                    old(self).symbol_table@,
                    left@,
                ) == Ok::<(NodeV, int), ParseErrorV>((node@, final(self).pos as int)) && old(
                    self,
                ).pos <= final(self).pos,
                Err(e) => spec_expr_rest(
                    old(self).tv(),
                    old(self).pos as int,
                    old(self).symbol_table@,
                    left@,
                ) == Err::<(NodeV, int), ParseErrorV>(e@),
            },
        decreases old(self).toks@.len() - old(self).pos, 0int,
    {
        proof {
            lemma_view_toks(self.toks@);
        }
        let t = self.cur_type();
        if t == TokenType::PLUS || t == TokenType::MIN || t == TokenType::EqualsEquals || t
            == TokenType::NotEquals {
            let op = self.cur_token();
            self.advance();
            let right = match self.term() {
                Ok(v) => v,
                Err(er) => {
                    return Err(er);
                },
            };
            if left.is_number() != right.is_number() {
                return Err(ParseError::MixedOperandTypes);
            }
            if left.get_type() == TokenType::STRING && op.tok_type != TokenType::EqualsEquals
                && op.tok_type != TokenType::NotEquals {
                return Err(ParseError::StringOperator { op: op.tok_type });
            }
            let node = Node::BinOp(Box::new(BinOpNode::new(left, op, right)));
            self.expr_rest(node)
        } else {
            Ok(left)
        }
    }

    /// Parses an expression.
    fn expr(&mut self) -> (r: Result<Node, ParseError>)
        requires
            old(self).wf(),
        ensures
            final(self).wf(),
            final(self).toks == old(self).toks,
            final(self).symbol_table == old(self).symbol_table,
            match r {
                Ok(node) => spec_expr(
                    old(self).tv(),
                    old(self).pos as int,
                    old(self).symbol_table@,
                ) == Ok::<(NodeV, int), ParseErrorV>((node@, final(self).pos as int)) && old(
                    self,
                ).pos < final(self).pos,
                Err(e) => spec_expr(
                    old(self).tv(),
                    old(self).pos as int,
                    old(self).symbol_table@,
                ) == Err::<(NodeV, int), ParseErrorV>(e@),
            },
        decreases old(self).toks@.len() - old(self).pos, 2int,
    {
        proof {
            lemma_view_toks(self.toks@);
        }
        let left = match self.term() {
            Ok(v) => v,
            Err(er) => {
                return Err(er);
            },
        };
        self.expr_rest(left)
    }

    /// Parses the print arguments: expressions separated by commas.
    pub fn parse_print_ags(&mut self) -> (r: Result<Vec<Node>, ParseError>)
        requires
            old(self).wf(),
        ensures
            final(self).wf(),
            final(self).toks == old(self).toks,
            final(self).symbol_table == old(self).symbol_table,
            match r {
                Ok(args) => spec_print_args(
                    old(self).tv(),
                    old(self).pos as int,
                    old(self).symbol_table@,
                ) == Ok::<(Seq<NodeV>, int), ParseErrorV>(
                    (view_nodes(args@), final(self).pos as int),
                ) && old(self).pos < final(self).pos,
                Err(e) => spec_print_args(
                    old(self).tv(),
                    old(self).pos as int,
                    old(self).symbol_table@,
                ) == Err::<(Seq<NodeV>, int), ParseErrorV>(e@),
            },
        decreases old(self).toks@.len() - old(self).pos, 3int,
    {
        proof {
            lemma_view_toks(self.toks@);
        }
        let first = match self.expr() {
            Ok(v) => v,
            Err(er) => {
                return Err(er);
            },
        };
        let ghost firstv = first@;
        if self.cur_type() == TokenType::COMMA {
            self.advance();
            let mut rest = match self.parse_print_ags() {
                Ok(v) => v,
                Err(er) => {
                    return Err(er);
                },
            };
            let ghost restv = view_nodes(rest@);
            proof {
                lemma_view_nodes(rest@);
            }
            rest.insert(0, first);
            proof {
                lemma_view_nodes(rest@);
                assert(view_nodes(rest@) =~= seq![firstv] + restv);
            }
            Ok(rest)
        } else {
            let mut v: Vec<Node> = Vec::new();
            v.push(first);
            proof {
                lemma_view_nodes(v@);
                assert(view_nodes(v@) =~= seq![firstv]);
            }
            Ok(v)
        }
    }

    /// Parses the run of else-if arms: each a condition and a braced body.
    fn elf_chain(&mut self) -> (r: Result<(Vec<Node>, Vec<Vec<Node>>), ParseError>)
        requires
            old(self).wf(),
        ensures
            final(self).wf(),
            final(self).toks == old(self).toks,
            match r {
                Ok(cb) => spec_elf_chain(
                    old(self).tv(),
                    old(self).pos as int,
                    old(self).symbol_table@,
                ) == Ok::<(Seq<NodeV>, Seq<Seq<NodeV>>, int, Map<Seq<char>, VarInfo>), ParseFailV>(
                    (
                        view_nodes(cb.0@),
                        view_bodies(cb.1@),
                        final(self).pos as int,
                        final(self).symbol_table@,
                    ),
                ) && old(self).pos <= final(self).pos,
                Err(e) => spec_elf_chain(
                    old(self).tv(),
                    old(self).pos as int,
                    old(self).symbol_table@,
                ) == Err::<(Seq<NodeV>, Seq<Seq<NodeV>>, int, Map<Seq<char>, VarInfo>), ParseFailV>(
                    fail(e@, final(self).symbol_table@),
                ),
            },
        decreases old(self).toks@.len() - old(self).pos, 0int,
    {
        proof {
            lemma_view_toks(self.toks@);
        }
        if self.cur_type() == TokenType::ELF {
            self.advance();
            let c = match self.expr() {
                Ok(v) => v,
                Err(er) => {
                    return Err(er);
                },
            };
            let ghost cv = c@;
            match self.expect(TokenType::LCurly) {
                Ok(_) => (),
                Err(er) => {
                    return Err(er);
                },
            }
            let b = match self.parse() {
                Ok(v) => v,
                Err(er) => {
                    return Err(er);
                },
            };
            let ghost bv = view_nodes(b@);
            match self.expect(TokenType::RCurly) {
                Ok(_) => (),
                Err(er) => {
                    return Err(er);
                },
            }
            let (mut cs, mut bs) = match self.elf_chain() {
                Ok(v) => v,
                Err(er) => {
                    return Err(er);
                },
            };
            let ghost csv = view_nodes(cs@);
            let ghost bsv = view_bodies(bs@);
            proof {
                lemma_view_nodes(cs@);
                lemma_view_bodies(bs@);
            }
            cs.insert(0, c);
            bs.insert(0, b);
            proof {
                lemma_view_nodes(cs@);
                lemma_view_bodies(bs@);
                assert(view_nodes(cs@) =~= seq![cv] + csv);
                assert(view_bodies(bs@) =~= seq![bv] + bsv);
            }
            Ok((cs, bs))
        } else {
            let cs: Vec<Node> = Vec::new();
            let bs: Vec<Vec<Node>> = Vec::new();
            proof {
                lemma_view_nodes(cs@);
                lemma_view_bodies(bs@);
                assert(view_nodes(cs@) =~= Seq::<NodeV>::empty());
                assert(view_bodies(bs@) =~= Seq::<Seq<NodeV>>::empty());
            }
            Ok((cs, bs))
        }
    }

    /// Parses the entry-point construct after its `fun` keyword.
    fn parse_main_func(&mut self) -> (r: Result<Node, ParseError>)
        requires
            old(self).wf(),
        ensures
            final(self).wf(),
            final(self).toks == old(self).toks,
            match r {
                Ok(m) => spec_main_func(
                    old(self).tv(),
                    old(self).pos as int,
                    old(self).symbol_table@,
                ) == Ok::<(NodeV, int, Map<Seq<char>, VarInfo>), ParseFailV>(
                    (m@, final(self).pos as int, final(self).symbol_table@),
                ) && old(self).pos < final(self).pos,
                Err(e) => spec_main_func(
                    old(self).tv(),
                    old(self).pos as int,
                    old(self).symbol_table@,
                ) == Err::<(NodeV, int, Map<Seq<char>, VarInfo>), ParseFailV>(
                    fail(e@, final(self).symbol_table@),
                ),
            },
        decreases old(self).toks@.len() - old(self).pos, 0int,
    {
        proof {
            lemma_view_toks(self.toks@);
        }
        match self.expect(TokenType::MAIN) {
            Ok(_) => (),
            Err(er) => {
                return Err(er);
            },
        }
        match self.expect(TokenType::LParen) {
            Ok(_) => (),
            Err(er) => {
                return Err(er);
            },
        }
        match self.expect(TokenType::RParen) {
            Ok(_) => (),
            Err(er) => {
                return Err(er);
            },
        }
        match self.expect(TokenType::LCurly) {
            Ok(_) => (),
            Err(er) => {
                return Err(er);
            },
        }
        let body = match self.parse() {
            Ok(v) => v,
            Err(er) => {
                return Err(er);
            },
        };
        let ghost bodyv = view_nodes(body@);
        match self.expect(TokenType::RCurly) {
            Ok(_) => (),
            Err(er) => {
                return Err(er);
            },
        }
        let node = Node::MainFunc(MainFuncNode::new(body));
        proof {
            assert(node@ == NodeV::MainFuncV { nodes: bodyv });
        }
        Ok(node)
    }

    /// Parses a statement list, up to the end marker or a closing brace. An
    /// entry-point construct replaces the list at once: whenever it is met,
    /// only it is returned — statements parsed before it at the same level
    /// are discarded, and statements after it are never parsed.
    ///
    /// The first violation stops the parse; there is no resynchronization.
    /// On an error the contract also fixes the symbol table: entries
    /// inserted by statements parsed before the failure remain, rolling
    /// nothing back.
    #[verifier::rlimit(60)]
    pub fn parse(&mut self) -> (r: Result<Vec<Node>, ParseError>)
        requires
            old(self).wf(),
        ensures
            final(self).wf(),
            final(self).toks == old(self).toks,
            match r {
                Ok(nodes) => spec_parse(
                    old(self).tv(),
                    old(self).pos as int,
                    old(self).symbol_table@,
                ) == Ok::<(Seq<NodeV>, int, Map<Seq<char>, VarInfo>), ParseFailV>(
                    (view_nodes(nodes@), final(self).pos as int, final(self).symbol_table@),
                ) && old(self).pos <= final(self).pos,
                Err(e) => spec_parse(
                    old(self).tv(),
                    old(self).pos as int,
                    old(self).symbol_table@,
                ) == Err::<(Seq<NodeV>, int, Map<Seq<char>, VarInfo>), ParseFailV>(
                    fail(e@, final(self).symbol_table@),
                ),
            },
        decreases old(self).toks@.len() - old(self).pos, 4int,
    {
        proof {
            lemma_view_toks(self.toks@);
        }
        let t = self.cur_type();
        if t == TokenType::EOF || t == TokenType::RCurly {
            let v: Vec<Node> = Vec::new();
            proof {
                lemma_view_nodes(v@);
                assert(view_nodes(v@) =~= Seq::<NodeV>::empty());
            }
            Ok(v)
        } else if t == TokenType::FUN {
            self.advance();
            let m = match self.parse_main_func() {
                Ok(v) => v,
                Err(er) => {
                    return Err(er);
                },
            };
            let ghost mv = m@;
            let mut v: Vec<Node> = Vec::new();
            v.push(m);
            proof {
                lemma_view_nodes(v@);
                assert(view_nodes(v@) =~= seq![mv]);
            }
            Ok(v)
        } else {
            let st = match self.parse_stmt() {
                Ok(v) => v,
                Err(er) => {
                    return Err(er);
                },
            };
            let ghost stv = st@;
            let mut rest = match self.parse() {
                Ok(v) => v,
                Err(er) => {
                    return Err(er);
                },
            };
            let ghost restv = view_nodes(rest@);
            proof {
                lemma_view_nodes(rest@);
            }
            let rest_is_main = rest.len() == 1 && (match &rest[0] {
                Node::MainFunc(_) => true,
                _ => false,
            });
            if rest_is_main {
                proof {
                    assert(is_main_only(restv));
                }
                Ok(rest)
            } else {
                proof {
                    assert(!is_main_only(restv));
                }
                rest.insert(0, st);
                proof {
                    lemma_view_nodes(rest@);
                    assert(view_nodes(rest@) =~= seq![stv] + restv);
                }
                Ok(rest)
            }
        }
    }

    /// Parses one statement other than the entry-point construct, enforcing
    /// the type rules as it goes.
    fn parse_stmt(&mut self) -> (r: Result<Node, ParseError>)
        requires
            old(self).wf(),
        ensures
            final(self).wf(),
            final(self).toks == old(self).toks,
            match r {
                Ok(node) => spec_parse_stmt(
                    old(self).tv(),
                    old(self).pos as int,
                    old(self).symbol_table@,
                ) == Ok::<(NodeV, int, Map<Seq<char>, VarInfo>), ParseFailV>(
                    (node@, final(self).pos as int, final(self).symbol_table@),
                ) && old(self).pos < final(self).pos,
                Err(e) => spec_parse_stmt(
                    old(self).tv(),
                    old(self).pos as int,
                    old(self).symbol_table@,
                ) == Err::<(NodeV, int, Map<Seq<char>, VarInfo>), ParseFailV>(
                    fail(e@, final(self).symbol_table@),
                ),
            },
        decreases old(self).toks@.len() - old(self).pos, 3int,
    {
        proof {
            lemma_view_toks(self.toks@);
        }
        let t = self.cur_type();
        if t == TokenType::PRINT {
            self.print_stmt()
        } else if t == TokenType::LET {
            self.let_stmt()
        } else if t == TokenType::FOR {
            self.for_stmt()
        } else if t == TokenType::IF {
            self.if_stmt()
        } else if t == TokenType::WHILE {
            self.while_stmt()
        } else if t == TokenType::IDENTIFIER {
            self.assign_stmt()
        } else {
            let e = match self.expr() {
                Ok(v) => v,
                Err(er) => {
                    return Err(er);
                },
            };
            if e.is_pure_value() {
                let txt = e.generate();
                return Err(ParseError::StandaloneValue { text: txt });
            }
            Ok(e)
        }
    }

    /// Parses a print statement, checking its format and arity.
    #[verifier::rlimit(100)]
    #[verifier::spinoff_prover]
    fn print_stmt(&mut self) -> (r: Result<Node, ParseError>)
        requires
            old(self).wf(),
            spec_cur(old(self).tv(), old(self).pos as int).tok_type == TokenType::PRINT,
        ensures
            final(self).wf(),
            final(self).toks == old(self).toks,
            match r {
                Ok(node) => spec_parse_stmt(
                    old(self).tv(),
                    old(self).pos as int,
                    old(self).symbol_table@,
                ) == Ok::<(NodeV, int, Map<Seq<char>, VarInfo>), ParseFailV>(
                    (node@, final(self).pos as int, final(self).symbol_table@),
                ) && old(self).pos < final(self).pos,
                Err(e) => spec_parse_stmt(
                    old(self).tv(),
                    old(self).pos as int,
                    old(self).symbol_table@,
                ) == Err::<(NodeV, int, Map<Seq<char>, VarInfo>), ParseFailV>(
                    fail(e@, final(self).symbol_table@),
                ),
            },
        decreases old(self).toks@.len() - old(self).pos, 2int,
    {
        proof {
            lemma_view_toks(self.toks@);
        }
            self.advance();
            match self.expect(TokenType::LParen) {
                Ok(_) => (),
                Err(er) => {
                    return Err(er);
                },
            }
            let args = match self.parse_print_ags() {
                Ok(v) => v,
                Err(er) => {
                    return Err(er);
                },
            };
            match self.expect(TokenType::RParen) {
                Ok(_) => (),
                Err(er) => {
                    return Err(er);
                },
            }
            match self.expect(TokenType::SEM) {
                Ok(_) => (),
                Err(er) => {
                    return Err(er);
                },
            }
            let ghost argsv = view_nodes(args@);
            proof {
                lemma_view_nodes(args@);
            }
            if args.len() == 0 {
                return Err(ParseError::PrintFormatNotString);
            }
            let fmt_s = match &args[0] {
                Node::Str(sn) => match sn.token.extract_str() {
                    Some(s) => s,
                    None => String::new(),
                },
                _ => {
                    return Err(ParseError::PrintFormatNotString);
                },
            };
            let count = crate::gen::count_placeholders(&fmt_s);
            if count != args.len() - 1 {
                return Err(
                    ParseError::PlaceholderMismatch { placeholders: count, args: args.len() - 1 },
                );
            }
            let node = Node::Print(PrintNode::new(args));
            proof {
                assert(node@ == NodeV::PrintV { nodes: argsv });
            }
            Ok(node)
            }

    /// Parses a declaration, checking its annotation against the initializer.
    #[verifier::rlimit(100)]
    #[verifier::spinoff_prover]
    fn let_stmt(&mut self) -> (r: Result<Node, ParseError>)
        requires
            old(self).wf(),
            spec_cur(old(self).tv(), old(self).pos as int).tok_type == TokenType::LET,
        ensures
            final(self).wf(),
            final(self).toks == old(self).toks,
            match r {
                Ok(node) => spec_parse_stmt(
                    old(self).tv(),
                    old(self).pos as int,
                    old(self).symbol_table@,
                ) == Ok::<(NodeV, int, Map<Seq<char>, VarInfo>), ParseFailV>(
                    (node@, final(self).pos as int, final(self).symbol_table@),
                ) && old(self).pos < final(self).pos,
                Err(e) => spec_parse_stmt(
                    old(self).tv(),
                    old(self).pos as int,
                    old(self).symbol_table@,
                ) == Err::<(NodeV, int, Map<Seq<char>, VarInfo>), ParseFailV>(
                    fail(e@, final(self).symbol_table@),
                ),
            },
        decreases old(self).toks@.len() - old(self).pos, 2int,
    {
        proof {
            lemma_view_toks(self.toks@);
        }
            self.advance();
            let name = match self.expect(TokenType::IDENTIFIER) {
                Ok(v) => v,
                Err(er) => {
                    return Err(er);
                },
            };
            let ghost namev = name@;
            let mut declared: Option<TokenType> = None;
            if self.cur_type() == TokenType::Annotation {
                self.advance();
                let tk = self.cur_type();
                if tk == TokenType::IntKey {
                    declared = Some(TokenType::INT);
                    self.advance();
                } else if tk == TokenType::StringKey {
                    declared = Some(TokenType::STRING);
                    self.advance();
                } else if tk == TokenType::FloatKey {
                    declared = Some(TokenType::FLOAT);
                    self.advance();
                } else {
                    return Err(ParseError::ExpectedTypeKeyword { found: tk });
                }
            }
            match self.expect(TokenType::EQUALS) {
                Ok(_) => (),
                Err(er) => {
                    return Err(er);
                },
            }
            let value = match self.expr() {
                Ok(v) => v,
                Err(er) => {
                    return Err(er);
                },
            };
            match self.expect(TokenType::SEM) {
                Ok(_) => (),
                Err(er) => {
                    return Err(er);
                },
            }
            let vt = value.get_type();
            match declared {
                Some(dt) => {
                    if dt != vt {
                        return Err(ParseError::DeclTypeMismatch { declared: dt, inferred: vt });
                    }
                },
                None => (),
            }
            let name_s = match name.extract_str() {
                Some(s) => s,
                None => String::new(),
            };
            self.symbol_table.insert(name_s, VarInfo::new(vt, true));
            let ghost valuev = value@;
            let node = Node::VarDecl(Box::new(VarDeclNode::new(name, value, declared)));
            proof {
                assert(node@ == NodeV::VarDeclV {
                    name: namev,
                    node: Box::new(valuev),
                    declared_type: declared,
                });
            }
            Ok(node)
            }

    /// Parses a counting loop, scoping its induction variable to its body.
    #[verifier::rlimit(100)]
    #[verifier::spinoff_prover]
    fn for_stmt(&mut self) -> (r: Result<Node, ParseError>)
        requires
            old(self).wf(),
            spec_cur(old(self).tv(), old(self).pos as int).tok_type == TokenType::FOR,
        ensures
            final(self).wf(),
            final(self).toks == old(self).toks,
            match r {
                Ok(node) => spec_parse_stmt(
                    old(self).tv(),
                    old(self).pos as int,
                    old(self).symbol_table@,
                ) == Ok::<(NodeV, int, Map<Seq<char>, VarInfo>), ParseFailV>(
                    (node@, final(self).pos as int, final(self).symbol_table@),
                ) && old(self).pos < final(self).pos,
                Err(e) => spec_parse_stmt(
                    old(self).tv(),
                    old(self).pos as int,
                    old(self).symbol_table@,
                ) == Err::<(NodeV, int, Map<Seq<char>, VarInfo>), ParseFailV>(
                    fail(e@, final(self).symbol_table@),
                ),
            },
        decreases old(self).toks@.len() - old(self).pos, 2int,
    {
        proof {
            lemma_view_toks(self.toks@);
        }
            self.advance();
            let start = match self.expr() {
                Ok(v) => v,
                Err(er) => {
                    return Err(er);
                },
            };
            match self.expect(TokenType::Annotation) {
                Ok(_) => (),
                Err(er) => {
                    return Err(er);
                },
            }
            let end = match self.expr() {
                Ok(v) => v,
                Err(er) => {
                    return Err(er);
                },
            };
            let mut step: Option<Node> = None;
            if self.cur_type() == TokenType::EQUALS {
                self.advance();
                let sp = match self.expr() {
                    Ok(v) => v,
                    Err(er) => {
                        return Err(er);
                    },
                };
                step = Some(sp);
            }
            let var = match self.expect(TokenType::IDENTIFIER) {
                Ok(v) => v,
                Err(er) => {
                    return Err(er);
                },
            };
            let ghost varv = var@;
            let start_t = start.get_type();
            let var_s = match var.extract_str() {
                Some(s) => s,
                None => String::new(),
            };
            let var_key = var_s.clone();
            self.symbol_table.insert(var_key, VarInfo::new(start_t, false));
            match self.expect(TokenType::LCurly) {
                Ok(_) => (),
                Err(er) => {
                    return Err(er);
                },
            }
            let body = match self.parse() {
                Ok(v) => v,
                Err(er) => {
                    return Err(er);
                },
            };
            let ghost bodyv = view_nodes(body@);
            match self.expect(TokenType::RCurly) {
                Ok(_) => (),
                Err(er) => {
                    return Err(er);
                },
            }
            self.symbol_table.remove(var_s.as_str());
            let end_t = end.get_type();
            let step_bad = match &step {
                Some(sp) => sp.get_type() != TokenType::INT,
                None => false,
            };
            if start_t != TokenType::INT || end_t != TokenType::INT || step_bad {
                return Err(ParseError::LoopHeaderNotInt);
            }
            let ghost startv = start@;
            let ghost endv = end@;
            let ghost stepv = match &step {
                Some(sp) => Some(sp@),
                None => None::<NodeV>,
            };
            let node = Node::ForLoop(Box::new(ForLoopNode::new(start, end, var, body, step)));
            proof {
                assert(node@ == NodeV::ForLoopV {
                    start: Box::new(startv),
                    end: Box::new(endv),
                    var: varv,
                    nodes: bodyv,
                    step: match stepv {
                        Some(sv) => Some(Box::new(sv)),
                        None => None,
                    },
                });
            }
            Ok(node)
            }

    /// Parses a conditional chain.
    #[verifier::rlimit(100)]
    #[verifier::spinoff_prover]
    fn if_stmt(&mut self) -> (r: Result<Node, ParseError>)
        requires
            old(self).wf(),
            spec_cur(old(self).tv(), old(self).pos as int).tok_type == TokenType::IF,
        ensures
            final(self).wf(),
            final(self).toks == old(self).toks,
            match r {
                Ok(node) => spec_parse_stmt(
                    old(self).tv(),
                    old(self).pos as int,
                    old(self).symbol_table@,
                ) == Ok::<(NodeV, int, Map<Seq<char>, VarInfo>), ParseFailV>(
                    (node@, final(self).pos as int, final(self).symbol_table@),
                ) && old(self).pos < final(self).pos,
                Err(e) => spec_parse_stmt(
                    old(self).tv(),
                    old(self).pos as int,
                    old(self).symbol_table@,
                ) == Err::<(NodeV, int, Map<Seq<char>, VarInfo>), ParseFailV>(
                    fail(e@, final(self).symbol_table@),
                ),
            },
        decreases old(self).toks@.len() - old(self).pos, 2int,
    {
        proof {
            lemma_view_toks(self.toks@);
        }
            self.advance();
            let c = match self.expr() {
                Ok(v) => v,
                Err(er) => {
                    return Err(er);
                },
            };
            let ghost cv = c@;
            match self.expect(TokenType::LCurly) {
                Ok(_) => (),
                Err(er) => {
                    return Err(er);
                },
            }
            let body = match self.parse() {
                Ok(v) => v,
                Err(er) => {
                    return Err(er);
                },
            };
            let ghost bodyv = view_nodes(body@);
            match self.expect(TokenType::RCurly) {
                Ok(_) => (),
                Err(er) => {
                    return Err(er);
                },
            }
            let (elf_nodes, elf_bodies) = match self.elf_chain() {
                Ok(v) => v,
                Err(er) => {
                    return Err(er);
                },
            };
            let ghost csv = view_nodes(elf_nodes@);
            let ghost bsv = view_bodies(elf_bodies@);
            let mut else_body: Option<Vec<Node>> = None;
            let ghost mut ebv: Option<Seq<NodeV>> = None;
            if self.cur_type() == TokenType::ELSE {
                self.advance();
                match self.expect(TokenType::LCurly) {
                    Ok(_) => (),
                    Err(er) => {
                        return Err(er);
                    },
                }
                let eb = match self.parse() {
                    Ok(v) => v,
                    Err(er) => {
                        return Err(er);
                    },
                };
                proof {
                    ebv = Some(view_nodes(eb@));
                }
                match self.expect(TokenType::RCurly) {
                    Ok(_) => (),
                    Err(er) => {
                        return Err(er);
                    },
                }
                else_body = Some(eb);
            }
            let node = Node::If(
                Box::new(IfNode::new(c, body, else_body, Some(elf_bodies), Some(elf_nodes))),
            );
            proof {
                assert(node@ == NodeV::IfV {
                    node: Box::new(cv),
                    body: bodyv,
                    else_body: ebv,
                    elf_body: bsv,
                    elf_node: csv,
                });
            }
            Ok(node)
            }

    /// Parses a while loop.
    #[verifier::rlimit(100)]
    #[verifier::spinoff_prover]
    fn while_stmt(&mut self) -> (r: Result<Node, ParseError>)
        requires
            old(self).wf(),
            spec_cur(old(self).tv(), old(self).pos as int).tok_type == TokenType::WHILE,
        ensures
            final(self).wf(),
            final(self).toks == old(self).toks,
            match r {
                Ok(node) => spec_parse_stmt(
                    old(self).tv(),
                    old(self).pos as int,
                    old(self).symbol_table@,
                ) == Ok::<(NodeV, int, Map<Seq<char>, VarInfo>), ParseFailV>(
                    (node@, final(self).pos as int, final(self).symbol_table@),
                ) && old(self).pos < final(self).pos,
                Err(e) => spec_parse_stmt(
                    old(self).tv(),
                    old(self).pos as int,
                    old(self).symbol_table@,
                ) == Err::<(NodeV, int, Map<Seq<char>, VarInfo>), ParseFailV>(
                    fail(e@, final(self).symbol_table@),
                ),
            },
        decreases old(self).toks@.len() - old(self).pos, 2int,
    {
        proof {
            lemma_view_toks(self.toks@);
        }
            self.advance();
            let c = match self.expr() {
                Ok(v) => v,
                Err(er) => {
                    return Err(er);
                },
            };
            let ghost cv = c@;
            match self.expect(TokenType::LCurly) {
                Ok(_) => (),
                Err(er) => {
                    return Err(er);
                },
            }
            let body = match self.parse() {
                Ok(v) => v,
                Err(er) => {
                    return Err(er);
                },
            };
            let ghost bodyv = view_nodes(body@);
            match self.expect(TokenType::RCurly) {
                Ok(_) => (),
                Err(er) => {
                    return Err(er);
                },
            }
            let node = Node::While(Box::new(WhileNode::new(c, body)));
            proof {
                assert(node@ == NodeV::WhileV { node: Box::new(cv), body: bodyv });
            }
            Ok(node)
            }

    /// Parses an assignment, checking the declared type.
    #[verifier::rlimit(100)]
    #[verifier::spinoff_prover]
    fn assign_stmt(&mut self) -> (r: Result<Node, ParseError>)
        requires
            old(self).wf(),
            spec_cur(old(self).tv(), old(self).pos as int).tok_type == TokenType::IDENTIFIER,
        ensures
            final(self).wf(),
            final(self).toks == old(self).toks,
            match r {
                Ok(node) => spec_parse_stmt(
                    old(self).tv(),
                    old(self).pos as int,
                    old(self).symbol_table@,
                ) == Ok::<(NodeV, int, Map<Seq<char>, VarInfo>), ParseFailV>(
                    (node@, final(self).pos as int, final(self).symbol_table@),
                ) && old(self).pos < final(self).pos,
                Err(e) => spec_parse_stmt(
                    old(self).tv(),
                    old(self).pos as int,
                    old(self).symbol_table@,
                ) == Err::<(NodeV, int, Map<Seq<char>, VarInfo>), ParseFailV>(
                    fail(e@, final(self).symbol_table@),
                ),
            },
        decreases old(self).toks@.len() - old(self).pos, 2int,
    {
        proof {
            lemma_view_toks(self.toks@);
        }
            let name = self.cur_token();
            let ghost namev = name@;
            let name_s = match name.extract_str() {
                Some(s) => s,
                None => String::new(),
            };
            if !self.symbol_table.contains_key(name_s.as_str()) {
                return Err(ParseError::UsedBeforeDeclaration { name: name_s });
            }
            self.advance();
            match self.expect(TokenType::EQUALS) {
                Ok(_) => (),
                Err(er) => {
                    return Err(er);
                },
            }
            let value = match self.expr() {
                Ok(v) => v,
                Err(er) => {
                    return Err(er);
                },
            };
            match self.expect(TokenType::SEM) {
                Ok(_) => (),
                Err(er) => {
                    return Err(er);
                },
            }
            let expected = match self.symbol_table.get(name_s.as_str()) {
                Some(i) => *i,
                None => {
                    return Err(ParseError::UsedBeforeDeclaration { name: name_s });
                },
            };
            let vt = value.get_type();
            if expected.tok_type != vt {
                return Err(
                    ParseError::AssignTypeMismatch {
                        name: name_s,
                        expected: expected.tok_type,
                        found: vt,
                    },
                );
            }
            let ghost valuev = value@;
            let node = Node::VarAssign(Box::new(VarAssignNode::new(name, value)));
            proof {
                assert(node@ == NodeV::VarAssignV { name: namev, node: Box::new(valuev) });
            }
            Ok(node)
            }
}

/// A counting loop pops its own scope entry: after a `for` statement
/// parses, its induction variable no longer resolves in the symbol table,
/// whatever the table held before.
pub proof fn lemma_for_scopes_induction_var(
    toks: Seq<TokenV>,
    pos: int,
    tbl: Map<Seq<char>, VarInfo>,
)
    requires
        spec_cur(toks, pos).tok_type == TokenType::FOR,
        spec_parse_stmt(toks, pos, tbl) is Ok,
    ensures
        spec_parse_stmt(toks, pos, tbl)->Ok_0.0 is ForLoopV,
        !spec_parse_stmt(toks, pos, tbl)->Ok_0.2.contains_key(
            name_text(spec_parse_stmt(toks, pos, tbl)->Ok_0.0->ForLoopV_var),
        ),
{
}

/// A counting loop registers its induction variable as an unboxed integer
/// for its own body: the body statements are those of a parse made under the
/// table extended with exactly that record.
pub proof fn lemma_for_registers_unboxed_int(
    toks: Seq<TokenV>,
    pos: int,
    tbl: Map<Seq<char>, VarInfo>,
)
    requires
        spec_cur(toks, pos).tok_type == TokenType::FOR,
        spec_parse_stmt(toks, pos, tbl) is Ok,
    ensures
        ({
            let node = spec_parse_stmt(toks, pos, tbl)->Ok_0.0;
            let t_in = tbl.insert(
                name_text(node->ForLoopV_var),
                VarInfo { tok_type: TokenType::INT, is_pointer: false },
            );
            exists|bodypos: int|
                (#[trigger] spec_parse(toks, bodypos, t_in)) is Ok && spec_parse(
                    toks,
                    bodypos,
                    t_in,
                )->Ok_0.0 == node->ForLoopV_nodes
        }),
{
    let (start, p1) = spec_expr(toks, pos + 1, tbl)->Ok_0;
    let p2 = spec_expect(toks, p1, TokenType::Annotation)->Ok_0.1;
    let (end, p3) = spec_expr(toks, p2, tbl)->Ok_0;
    let has_step = spec_cur(toks, p3).tok_type == TokenType::EQUALS;
    let p5 = if has_step {
        spec_expr(toks, p3 + 1, tbl)->Ok_0.1
    } else {
        p3
    };
    let (var, p6) = spec_expect(toks, p5, TokenType::IDENTIFIER)->Ok_0;
    let t2 = tbl.insert(
        name_text(var),
        VarInfo { tok_type: spec_get_type(start), is_pointer: false },
    );
    let p7 = spec_expect(toks, p6, TokenType::LCurly)->Ok_0.1;
    assert(spec_get_type(start) == TokenType::INT);
    assert(spec_parse(toks, p7, t2) is Ok);
    assert(spec_parse(toks, p7, t2)->Ok_0.0 == spec_parse_stmt(
        toks,
        pos,
        tbl,
    )->Ok_0.0->ForLoopV_nodes);
}

/// No expression parse yields the entry-point construct.
proof fn lemma_factor_no_main(toks: Seq<TokenV>, pos: int, tbl: Map<Seq<char>, VarInfo>)
    requires
        spec_factor(toks, pos, tbl) is Ok,
    ensures
        !(spec_factor(toks, pos, tbl)->Ok_0.0 is MainFuncV),
    decreases toks.len() - pos, 0int,
{
    let (neg, p) = spec_skip_signs(toks, pos);
    if pos <= p && p <= toks.len() {
        let cur = spec_cur(toks, p);
        if cur.tok_type == TokenType::LParen {
            if spec_expr(toks, p + 1, tbl) is Ok {
                lemma_expr_no_main(toks, p + 1, tbl);
            }
        }
    }
}

/// No run of multiplicative operators yields the entry-point construct,
/// given its left operand is not one.
proof fn lemma_term_rest_no_main(
    toks: Seq<TokenV>,
    pos: int,
    tbl: Map<Seq<char>, VarInfo>,
    left: NodeV,
)
    requires
        spec_term_rest(toks, pos, tbl, left) is Ok,
        !(left is MainFuncV),
    ensures
        !(spec_term_rest(toks, pos, tbl, left)->Ok_0.0 is MainFuncV),
    decreases toks.len() - pos, 0int,
{
    let cur = spec_cur(toks, pos);
    if cur.tok_type == TokenType::MULT || cur.tok_type == TokenType::DIV || cur.tok_type
        == TokenType::MOD {
        if spec_factor(toks, pos + 1, tbl) is Ok {
            let (right, p2) = spec_factor(toks, pos + 1, tbl)->Ok_0;
            if spec_binop_check(left, cur.tok_type, right) is None {
                let node = NodeV::BinOpV {
                    left: Box::new(left),
                    bin_op: cur,
                    right: Box::new(right),
                };
                if pos < p2 && p2 <= toks.len() {
                    lemma_term_rest_no_main(toks, p2, tbl, node);
                }
            }
        }
    }
}

/// No term parse yields the entry-point construct.
proof fn lemma_term_no_main(toks: Seq<TokenV>, pos: int, tbl: Map<Seq<char>, VarInfo>)
    requires
        spec_term(toks, pos, tbl) is Ok,
    ensures
        !(spec_term(toks, pos, tbl)->Ok_0.0 is MainFuncV),
    decreases toks.len() - pos, 1int,
{
    if spec_factor(toks, pos, tbl) is Ok {
        let (left, p1) = spec_factor(toks, pos, tbl)->Ok_0;
        lemma_factor_no_main(toks, pos, tbl);
        if pos < p1 && p1 <= toks.len() {
            lemma_term_rest_no_main(toks, p1, tbl, left);
        }
    }
}

/// No run of additive or comparison operators yields the entry-point
/// construct, given its left operand is not one.
proof fn lemma_expr_rest_no_main(
    toks: Seq<TokenV>,
    pos: int,
    tbl: Map<Seq<char>, VarInfo>,
    left: NodeV,
)
    requires
        spec_expr_rest(toks, pos, tbl, left) is Ok,
        !(left is MainFuncV),
    ensures
        !(spec_expr_rest(toks, pos, tbl, left)->Ok_0.0 is MainFuncV),
    decreases toks.len() - pos, 0int,
{
    let cur = spec_cur(toks, pos);
    if cur.tok_type == TokenType::PLUS || cur.tok_type == TokenType::MIN || cur.tok_type
        == TokenType::EqualsEquals || cur.tok_type == TokenType::NotEquals {
        if spec_term(toks, pos + 1, tbl) is Ok {
            let (right, p2) = spec_term(toks, pos + 1, tbl)->Ok_0;
            if spec_binop_check(left, cur.tok_type, right) is None {
                let node = NodeV::BinOpV {
                    left: Box::new(left),
                    bin_op: cur,
                    right: Box::new(right),
                };
                if pos < p2 && p2 <= toks.len() {
                    lemma_expr_rest_no_main(toks, p2, tbl, node);
                }
            }
        }
    }
}

/// No expression parse yields the entry-point construct.
proof fn lemma_expr_no_main(toks: Seq<TokenV>, pos: int, tbl: Map<Seq<char>, VarInfo>)
    requires
        spec_expr(toks, pos, tbl) is Ok,
    ensures
        !(spec_expr(toks, pos, tbl)->Ok_0.0 is MainFuncV),
    decreases toks.len() - pos, 2int,
{
    if spec_term(toks, pos, tbl) is Ok {
        let (left, p1) = spec_term(toks, pos, tbl)->Ok_0;
        lemma_term_no_main(toks, pos, tbl);
        if pos < p1 && p1 <= toks.len() {
            lemma_expr_rest_no_main(toks, p1, tbl, left);
        }
    }
}

/// No single statement is the entry-point construct: only the statement
/// list's own `fun` branch builds one.
#[verifier::spinoff_prover]
proof fn lemma_parse_stmt_no_main(toks: Seq<TokenV>, pos: int, tbl: Map<Seq<char>, VarInfo>)
    requires
        spec_parse_stmt(toks, pos, tbl) is Ok,
    ensures
        !(spec_parse_stmt(toks, pos, tbl)->Ok_0.0 is MainFuncV),
    decreases toks.len() - pos, 3int,
{
    let cur = spec_cur(toks, pos);
    if cur.tok_type == TokenType::PRINT || cur.tok_type == TokenType::LET || cur.tok_type
        == TokenType::FOR || cur.tok_type == TokenType::IF || cur.tok_type == TokenType::WHILE
        || cur.tok_type == TokenType::IDENTIFIER {
    } else {
        if spec_expr(toks, pos, tbl) is Ok {
            lemma_expr_no_main(toks, pos, tbl);
        }
    }
}

/// The entry-point construct replaces its whole statement list: whenever a
/// successful parse yields an entry-point node at all, it is the only node
/// returned — statements parsed before the construct are discarded, and
/// statements after it are never parsed.
pub proof fn lemma_main_stands_alone(toks: Seq<TokenV>, pos: int, tbl: Map<Seq<char>, VarInfo>)
    requires
        spec_parse(toks, pos, tbl) is Ok,
    ensures
        ({
            let nodes = spec_parse(toks, pos, tbl)->Ok_0.0;
            is_main_only(nodes) || (forall|i: int|
                0 <= i < nodes.len() ==> !(#[trigger] nodes[i] is MainFuncV))
        }),
    decreases toks.len() - pos, 4int,
{
    let nodes = spec_parse(toks, pos, tbl)->Ok_0.0;
    let cur = spec_cur(toks, pos);
    if cur.tok_type == TokenType::EOF || cur.tok_type == TokenType::RCurly {
        assert(forall|i: int| 0 <= i < nodes.len() ==> !(#[trigger] nodes[i] is MainFuncV));
    } else if cur.tok_type == TokenType::FUN {
        let m = spec_main_func(toks, pos + 1, tbl);
        assert(m->Ok_0.0 is MainFuncV);
        assert(is_main_only(nodes));
    } else {
        let (st, p1, t1) = spec_parse_stmt(toks, pos, tbl)->Ok_0;
        lemma_parse_stmt_no_main(toks, pos, tbl);
        if pos < p1 && p1 <= toks.len() {
            lemma_main_stands_alone(toks, p1, t1);
            let rest = spec_parse(toks, p1, t1)->Ok_0.0;
            if is_main_only(rest) {
                assert(is_main_only(nodes));
            } else {
                assert(nodes == seq![st] + rest);
                assert forall|i: int| 0 <= i < nodes.len() implies !(#[trigger] nodes[i]
                    is MainFuncV) by {
                    if i == 0 {
                        assert(nodes[0] == st);
                    } else {
                        assert(nodes[i] == rest[i - 1]);
                    }
                }
            }
        }
    }
}

/// An entry-point construct ends its statement list at once: when the
/// parser meets the `fun` keyword, a successful parse yields exactly the
/// one wrapped entry-point node, and sibling statements after it are never
/// parsed.
pub proof fn lemma_fun_ends_statement_list(
    toks: Seq<TokenV>,
    pos: int,
    tbl: Map<Seq<char>, VarInfo>,
)
    requires
        spec_cur(toks, pos).tok_type == TokenType::FUN,
        spec_parse(toks, pos, tbl) is Ok,
    ensures
        spec_parse(toks, pos, tbl)->Ok_0.0.len() == 1,
        spec_parse(toks, pos, tbl)->Ok_0.0[0] is MainFuncV,
{
    let m = spec_main_func(toks, pos + 1, tbl);
    assert(m is Ok);
    assert(m->Ok_0.0 is MainFuncV);
}

} // verus!
