//! Tokens of the source language: a kind tag plus an optional literal payload.

use vstd::prelude::*;
use crate::numeral::int_text;

verus! {

/// The kind of a token.
///
/// `ELF` (the "else-if" chaining keyword) and `WHILE` are consumed by the
/// parser but are absent from the lexer's keyword table, so the lexer never
/// produces them; those parser branches are reachable only from token
/// sequences built directly.
#[derive(Clone, Copy, Debug, PartialEq, Eq, Hash, Structural)]
#[allow(non_camel_case_types)]
pub enum TokenType {
    PRINT,
    MULT,
    MIN,
    DIV,
    PLUS,
    MOD,
    LParen,
    RParen,
    LCurly,
    RCurly,
    STRING,
    INT,
    FLOAT,
    LET,
    IDENTIFIER,
    EQUALS,
    SEM,
    COMMA,
    Annotation,
    StringKey,
    IntKey,
    FloatKey,
    MAIN,
    FUN,
    FOR,
    EqualsEquals,
    NotEquals,
    IF,
    ELSE,
    ELF,
    WHILE,
    NONE,
    EOF,
}

/// The literal payload of a token. A float literal keeps its source text;
/// its printable form is computed only when code is emitted.
#[derive(Clone, Debug, PartialEq, Eq, Hash)]
pub enum TokenValue {
    INT(i32),
    FLOAT(String),
    STRING(String),
    IDENTIFIER(String),
    NONE,
}

/// Mathematical model of a `TokenValue`: text as a sequence of characters,
/// the integer as an unbounded integer.
pub enum TokenValueV {
    IntV(int),
    FloatV(Seq<char>),
    StrV(Seq<char>),
    IdentV(Seq<char>),
    NoneV,
}

impl View for TokenValue {
    type V = TokenValueV;

    open spec fn view(&self) -> TokenValueV {
        match self {
            TokenValue::INT(i) => TokenValueV::IntV(*i as int),
            TokenValue::FLOAT(s) => TokenValueV::FloatV(s@),
            TokenValue::STRING(s) => TokenValueV::StrV(s@),
            TokenValue::IDENTIFIER(s) => TokenValueV::IdentV(s@),
            TokenValue::NONE => TokenValueV::NoneV,
        }
    }
}

#[derive(Clone, Debug, PartialEq, Eq, Hash)]
pub struct Token {
    pub tok_type: TokenType,
    pub tok_value: TokenValue,
}

/// Mathematical model of a `Token`.
pub struct TokenV {
    pub tok_type: TokenType,
    pub tok_value: TokenValueV,
}

impl View for Token {
    type V = TokenV;

    open spec fn view(&self) -> TokenV {
        TokenV { tok_type: self.tok_type, tok_value: self.tok_value@ }
    }
}

impl DeepView for Token {
    type V = TokenV;

    open spec fn deep_view(&self) -> TokenV {
        self@
    }
}

/// A token is well formed when its payload fits its kind: numeric kinds carry
/// their number, text kinds carry their text, and every other kind carries
/// nothing. The lexer only produces well-formed tokens, and the parser
/// requires them.
pub open spec fn wf_token(t: TokenV) -> bool {
    match t.tok_type {
        TokenType::INT => t.tok_value is IntV,
        TokenType::FLOAT => t.tok_value is FloatV,
        TokenType::STRING => t.tok_value is StrV,
        TokenType::IDENTIFIER => t.tok_value is IdentV,
        _ => t.tok_value is NoneV,
    }
}

/// The printable numeral carried by a token, if any: the decimal text of an
/// integer payload, or the scanned text of a float payload, kept verbatim.
pub open spec fn spec_extract_num(t: TokenV) -> Option<Seq<char>> {
    match t.tok_value {
        TokenValueV::IntV(i) => Some(int_text(i)),
        TokenValueV::FloatV(s) => Some(s),
        _ => None,
    }
}

/// The text carried by a string or identifier token, if any.
pub open spec fn spec_extract_str(t: TokenV) -> Option<Seq<char>> {
    match t.tok_value {
        TokenValueV::StrV(s) => Some(s),
        TokenValueV::IdentV(s) => Some(s),
        _ => None,
    }
}

/// The textual form of an operator token kind; empty for non-operators.
pub open spec fn spec_ops_str(t: TokenType) -> Seq<char> {
    if t == TokenType::MIN {
        "-"@
    } else if t == TokenType::PLUS {
        "+"@
    } else if t == TokenType::DIV {
        "/"@
    } else if t == TokenType::MULT {
        "*"@
    } else if t == TokenType::MOD {
        "%"@
    } else if t == TokenType::EqualsEquals {
        "=="@
    } else if t == TokenType::NotEquals {
        "!="@
    } else {
        Seq::<char>::empty()
    }
}

impl Token {
    pub fn new(tok_type: TokenType, tok_value: TokenValue) -> (r: Self)
        ensures
            r.tok_type == tok_type,
            r.tok_value == tok_value,
    {
        Self { tok_type, tok_value }
    }

    /// The printable numeral carried by this token, if any.
    pub fn extract_num(&self) -> (r: Option<String>)
        ensures
            match r {
                Some(s) => spec_extract_num(self@) == Some(s@),
                None => spec_extract_num(self@) is None,
            },
    {
        match &self.tok_value {
            TokenValue::INT(i) => Some(crate::numeral::int_to_text(*i)),
            TokenValue::FLOAT(s) => Some(s.clone()),
            _ => None,
        }
    }

    /// The text carried by this token, if it is a string or identifier token.
    pub fn extract_str(&self) -> (r: Option<String>)
        ensures
            match r {
                Some(s) => spec_extract_str(self@) == Some(s@),
                None => spec_extract_str(self@) is None,
            },
    {
        match &self.tok_value {
            TokenValue::STRING(s) => Some(s.clone()),
            TokenValue::IDENTIFIER(s) => Some(s.clone()),
            _ => None,
        }
    }

    /// An equal copy of this token.
    pub fn duplicate(&self) -> (r: Token)
        ensures
            r == *self,
    {
        let tok_value = match &self.tok_value {
            TokenValue::INT(i) => TokenValue::INT(*i),
            TokenValue::FLOAT(s) => TokenValue::FLOAT(s.clone()),
            TokenValue::STRING(s) => TokenValue::STRING(s.clone()),
            TokenValue::IDENTIFIER(s) => TokenValue::IDENTIFIER(s.clone()),
            TokenValue::NONE => TokenValue::NONE,
        };
        Token { tok_type: self.tok_type, tok_value }
    }

    /// The textual form of this token's operator, or the empty string.
    pub fn ops_str(&self) -> (r: String)
        ensures
            r@ == spec_ops_str(self.tok_type),
    {
        if self.tok_type == TokenType::MIN {
            String::from_str("-")
        } else if self.tok_type == TokenType::PLUS {
            String::from_str("+")
        } else if self.tok_type == TokenType::DIV {
            String::from_str("/")
        } else if self.tok_type == TokenType::MULT {
            String::from_str("*")
        } else if self.tok_type == TokenType::MOD {
            String::from_str("%")
        } else if self.tok_type == TokenType::EqualsEquals {
            String::from_str("==")
        } else if self.tok_type == TokenType::NotEquals {
            String::from_str("!=")
        } else {
            String::new()
        }
    }
}

} // verus!
