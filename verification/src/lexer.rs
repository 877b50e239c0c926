//! Lexical analysis: turns the source text into a token sequence terminated
//! by an end-marker token.
//!
//! `spec_tokenize` is the mathematical definition of the scan; `Scanner::tokenize`
//! is proved to produce exactly its result. Scanning stops with a fatal error
//! on an unrecognized character, an unterminated string literal, a numeric
//! literal with a second decimal point, or an integer literal beyond the
//! 32-bit range.

use vstd::prelude::*;
use crate::numeral::{dec_val, spec_is_digit};
use crate::strutil::{is_whitespace_char, is_alphabetic_char, str_eq};
use crate::token::{Token, TokenType, TokenValue, TokenV, TokenValueV, wf_token};

verus! {

/// A lexical malformation; each aborts the whole compilation.
#[derive(Clone, Copy, Debug, PartialEq, Eq, Structural)]
pub enum LexError {
    /// A character outside the surface grammar.
    UnknownChar(char),
    /// End of input (or a NUL character) inside a string literal.
    UnterminatedString,
    /// A numeric literal with more than one decimal point.
    SecondDecimalPoint,
    /// An integer literal that does not fit a 32-bit signed integer.
    IntOutOfRange,
}

/// A token that carries no payload.
pub open spec fn bare(t: TokenType) -> TokenV {
    TokenV { tok_type: t, tok_value: TokenValueV::NoneV }
}

/// A character that may continue an identifier: a letter, a digit, or an
/// underscore.
pub open spec fn spec_ident_char(c: char) -> bool {
    is_alphabetic_char(c) || spec_is_digit(c) || c == '_'
}

/// The token for a scanned word: one of the fixed keywords, or an identifier
/// carrying its text.
pub open spec fn spec_keyword(s: Seq<char>) -> TokenV {
    if s == "print"@ {
        bare(TokenType::PRINT)
    } else if s == "let"@ {
        bare(TokenType::LET)
    } else if s == "main"@ {
        bare(TokenType::MAIN)
    } else if s == "fun"@ {
        bare(TokenType::FUN)
    } else if s == "int"@ {
        bare(TokenType::IntKey)
    } else if s == "float"@ {
        bare(TokenType::FloatKey)
    } else if s == "string"@ {
        bare(TokenType::StringKey)
    } else if s == "for"@ {
        bare(TokenType::FOR)
    } else if s == "if"@ {
        bare(TokenType::IF)
    } else if s == "else"@ {
        bare(TokenType::ELSE)
    } else {
        TokenV { tok_type: TokenType::IDENTIFIER, tok_value: TokenValueV::IdentV(s) }
    }
}

/// The scan of a numeric literal: a run of digits with at most one decimal
/// point. Yields the scanned text, whether a point was seen, and the position
/// after the run.
pub open spec fn spec_scan_num(code: Seq<char>, pos: int, acc: Seq<char>, is_float: bool) -> Result<
    (Seq<char>, bool, int),
    LexError,
>
    decreases code.len() - pos,
{
    if pos < 0 || pos >= code.len() || !(spec_is_digit(code[pos]) || code[pos] == '.') {
        Ok((acc, is_float, pos))
    } else if code[pos] == '.' && is_float {
        Err(LexError::SecondDecimalPoint)
    } else {
        spec_scan_num(code, pos + 1, acc.push(code[pos]), is_float || code[pos] == '.')
    }
}

/// The scan of an identifier or keyword word: a run of letters, digits and
/// underscores. Yields the text and the position after the run.
pub open spec fn spec_scan_ident(code: Seq<char>, pos: int, acc: Seq<char>) -> (Seq<char>, int)
    decreases code.len() - pos,
{
    if pos < 0 || pos >= code.len() || !spec_ident_char(code[pos]) {
        (acc, pos)
    } else {
        spec_scan_ident(code, pos + 1, acc.push(code[pos]))
    }
}

/// The scan of a string literal body, starting after the opening quote:
/// characters are copied verbatim until the closing quote. Reaching the end
/// of input (or a NUL character) first is fatal. Yields the text and the
/// position after the closing quote.
pub open spec fn spec_scan_str(code: Seq<char>, pos: int, acc: Seq<char>) -> Result<
    (Seq<char>, int),
    LexError,
>
    decreases code.len() - pos,
{
    if pos < 0 || pos >= code.len() || code[pos] == '\0' {
        Err(LexError::UnterminatedString)
    } else if code[pos] == '"' {
        Ok((acc, pos + 1))
    } else {
        spec_scan_str(code, pos + 1, acc.push(code[pos]))
    }
}

/// Prepends a token to the result of scanning the rest of the input.
pub open spec fn lex_cons(t: TokenV, rest: Result<Seq<TokenV>, LexError>) -> Result<
    Seq<TokenV>,
    LexError,
> {
    match rest {
        Ok(s) => Ok(seq![t] + s),
        Err(e) => Err(e),
    }
}

/// The token sequence of the source text from `pos` on: the mathematical
/// definition of the scan. The sequence always ends with the end-marker
/// token. The `pos < p2` tests on the recursive calls always hold, because
/// each scan consumes at least one character; the alternative arms are never
/// taken.
pub open spec fn spec_tokenize(code: Seq<char>, pos: int) -> Result<Seq<TokenV>, LexError>
    decreases code.len() - pos,
{
    if pos < 0 || pos >= code.len() {
        Ok(seq![bare(TokenType::EOF)])
    } else {
        let c = code[pos];
        if is_whitespace_char(c) || c == '\n' {
            spec_tokenize(code, pos + 1)
        } else if c == '+' {
            lex_cons(bare(TokenType::PLUS), spec_tokenize(code, pos + 1))
        } else if c == '*' {
            lex_cons(bare(TokenType::MULT), spec_tokenize(code, pos + 1))
        } else if c == '-' {
            lex_cons(bare(TokenType::MIN), spec_tokenize(code, pos + 1))
        } else if c == '=' {
            if pos + 1 < code.len() && code[pos + 1] == '=' {
                lex_cons(bare(TokenType::EqualsEquals), spec_tokenize(code, pos + 2))
            } else if pos + 1 < code.len() && code[pos + 1] == '!' {
                lex_cons(bare(TokenType::NotEquals), spec_tokenize(code, pos + 2))
            } else {
                lex_cons(bare(TokenType::EQUALS), spec_tokenize(code, pos + 1))
            }
        } else if c == '/' {
            lex_cons(bare(TokenType::DIV), spec_tokenize(code, pos + 1))
        } else if c == '(' {
            lex_cons(bare(TokenType::LParen), spec_tokenize(code, pos + 1))
        } else if c == ')' {
            lex_cons(bare(TokenType::RParen), spec_tokenize(code, pos + 1))
        } else if c == '{' {
            lex_cons(bare(TokenType::LCurly), spec_tokenize(code, pos + 1))
        } else if c == '}' {
            lex_cons(bare(TokenType::RCurly), spec_tokenize(code, pos + 1))
        } else if c == ';' {
            lex_cons(bare(TokenType::SEM), spec_tokenize(code, pos + 1))
        } else if c == ':' {
            lex_cons(bare(TokenType::Annotation), spec_tokenize(code, pos + 1))
        } else if c == '%' {
            lex_cons(bare(TokenType::MOD), spec_tokenize(code, pos + 1))
        } else if c == ',' {
            lex_cons(bare(TokenType::COMMA), spec_tokenize(code, pos + 1))
        } else if spec_is_digit(c) {
            match spec_scan_num(code, pos, Seq::empty(), false) {
                Err(e) => Err(e),
                Ok((text, is_float, p2)) => if is_float {
                    lex_cons(
                        TokenV {
                            tok_type: TokenType::FLOAT,
                            tok_value: TokenValueV::FloatV(text),
                        },
                        if pos < p2 && p2 <= code.len() {
                            spec_tokenize(code, p2)
                        } else {
                            Err(LexError::UnknownChar(c))
                        },
                    )
                } else if dec_val(text) > i32::MAX as int {
                    Err(LexError::IntOutOfRange)
                } else {
                    lex_cons(
                        TokenV {
                            tok_type: TokenType::INT,
                            tok_value: TokenValueV::IntV(dec_val(text)),
                        },
                        if pos < p2 && p2 <= code.len() {
                            spec_tokenize(code, p2)
                        } else {
                            Err(LexError::UnknownChar(c))
                        },
                    )
                },
            }
        } else if is_alphabetic_char(c) {
            let (text, p2) = spec_scan_ident(code, pos, Seq::empty());
            lex_cons(
                spec_keyword(text),
                if pos < p2 && p2 <= code.len() {
                    spec_tokenize(code, p2)
                } else {
                    Err(LexError::UnknownChar(c))
                },
            )
        } else if c == '"' {
            match spec_scan_str(code, pos + 1, Seq::empty()) {
                Err(e) => Err(e),
                Ok((text, p2)) => lex_cons(
                    TokenV { tok_type: TokenType::STRING, tok_value: TokenValueV::StrV(text) },
                    if pos < p2 && p2 <= code.len() {
                        spec_tokenize(code, p2)
                    } else {
                        Err(LexError::UnknownChar(c))
                    },
                ),
            }
        } else {
            Err(LexError::UnknownChar(c))
        }
    }
}

/// The loop invariant of `Scanner::tokenize`: the tokens emitted so far,
/// followed by the scan of the rest, make up the scan of the whole input.
pub open spec fn lex_inv(code: Seq<char>, start: int, pos: int, emitted: Seq<TokenV>) -> bool {
    match spec_tokenize(code, pos) {
        Ok(rest) => spec_tokenize(code, start) == Ok::<_, LexError>(emitted + rest),
        Err(e) => spec_tokenize(code, start) == Err::<Seq<TokenV>, _>(e),
    }
}

proof fn lemma_lex_step(code: Seq<char>, start: int, pos: int, emitted: Seq<TokenV>, t: TokenV, pos2: int)
    requires
        lex_inv(code, start, pos, emitted),
        spec_tokenize(code, pos) == lex_cons(t, spec_tokenize(code, pos2)),
    ensures
        lex_inv(code, start, pos2, emitted.push(t)),
{
    match spec_tokenize(code, pos2) {
        Ok(rest) => {
            assert(emitted + (seq![t] + rest) =~= emitted.push(t) + rest);
        },
        Err(e) => {},
    }
}

/// Whether `c` is a decimal digit character.
fn is_digit(c: char) -> (r: bool)
    ensures
        r == spec_is_digit(c),
{
    let u = c as u32;
    48 <= u && u <= 57
}

/// Scans a numeric literal starting at `pos` (which holds a digit).
fn scan_num(code: &Vec<char>, pos: usize) -> (r: Result<(String, bool, usize), LexError>)
    requires
        pos < code@.len(),
        spec_is_digit(code@[pos as int]),
    ensures
        match r {
            Ok(res) => {
                &&& spec_scan_num(code@, pos as int, Seq::empty(), false) == Ok::<_, LexError>(
                    (res.0@, res.1, res.2 as int),
                )
                &&& pos < res.2 <= code@.len()
                &&& res.0@.len() > 0
                &&& (!res.1 ==> forall|i: int|
                    0 <= i < res.0@.len() ==> spec_is_digit(#[trigger] res.0@[i]))
            },
            Err(e) => spec_scan_num(code@, pos as int, Seq::empty(), false) == Err::<
                (Seq<char>, bool, int),
                _,
            >(e),
        },
{
    let mut text = String::new();
    let mut is_float = false;
    let mut p = pos;
    loop
        invariant
            pos < code@.len(),
            spec_is_digit(code@[pos as int]),
            pos <= p <= code@.len(),
            text@.len() == p - pos,
            p == pos ==> spec_is_digit(code@[p as int]),
            !is_float ==> forall|i: int| 0 <= i < text@.len() ==> spec_is_digit(#[trigger] text@[i]),
            spec_scan_num(code@, pos as int, Seq::empty(), false) == spec_scan_num(
                code@,
                p as int,
                text@,
                is_float,
            ),
        decreases code@.len() - p,
    {
        if p >= code.len() {
            return Ok((text, is_float, p));
        }
        let c = code[p];
        if !(is_digit(c) || c == '.') {
            return Ok((text, is_float, p));
        }
        if c == '.' && is_float {
            return Err(LexError::SecondDecimalPoint);
        }
        text.push(c);
        if c == '.' {
            is_float = true;
        }
        p = p + 1;
    }
}

/// Scans an identifier or keyword word starting at `pos` (which holds a
/// letter).
fn scan_ident(code: &Vec<char>, pos: usize) -> (r: (String, usize))
    requires
        pos < code@.len(),
        is_alphabetic_char(code@[pos as int]),
    ensures
        spec_scan_ident(code@, pos as int, Seq::empty()) == (r.0@, r.1 as int),
        pos < r.1 <= code@.len(),
{
    let mut text = String::new();
    let mut p = pos;
    loop
        invariant
            pos < code@.len(),
            is_alphabetic_char(code@[pos as int]),
            pos <= p <= code@.len(),
            text@.len() == p - pos,
            p == pos ==> is_alphabetic_char(code@[p as int]),
            spec_scan_ident(code@, pos as int, Seq::empty()) == spec_scan_ident(
                code@,
                p as int,
                text@,
            ),
        decreases code@.len() - p,
    {
        if p >= code.len() {
            return (text, p);
        }
        let c = code[p];
        if !(c.is_alphabetic() || is_digit(c) || c == '_') {
            return (text, p);
        }
        text.push(c);
        p = p + 1;
    }
}

/// Scans a string literal body starting at `pos`, just after the opening
/// quote.
fn scan_str(code: &Vec<char>, pos: usize) -> (r: Result<(String, usize), LexError>)
    requires
        pos <= code@.len(),
    ensures
        match r {
            Ok(res) => {
                &&& spec_scan_str(code@, pos as int, Seq::empty()) == Ok::<_, LexError>(
                    (res.0@, res.1 as int),
                )
                &&& pos < res.1 <= code@.len()
            },
            Err(e) => spec_scan_str(code@, pos as int, Seq::empty()) == Err::<(Seq<char>, int), _>(
                e,
            ),
        },
{
    let mut text = String::new();
    let mut p = pos;
    loop
        invariant
            pos <= p <= code@.len(),
            spec_scan_str(code@, pos as int, Seq::empty()) == spec_scan_str(
                code@,
                p as int,
                text@,
            ),
        decreases code@.len() - p,
    {
        if p >= code.len() {
            return Err(LexError::UnterminatedString);
        }
        let c = code[p];
        if c == '\0' {
            return Err(LexError::UnterminatedString);
        }
        if c == '"' {
            return Ok((text, p + 1));
        }
        text.push(c);
        p = p + 1;
    }
}

/// The scanner: the source text as characters, a cursor, and the tokens
/// produced so far.
pub struct Scanner {
    pub toks: Vec<Token>,
    pub code: Vec<char>,
    pub pos: usize,
}

/// Converts a string to its characters.
fn to_char_vec(s: &String) -> (r: Vec<char>)
    ensures
        r@ == s@,
{
    let n = s.as_str().unicode_len();
    let mut v: Vec<char> = Vec::new();
    let mut i: usize = 0;
    while i < n
        invariant
            i <= n,
            n == s@.len(),
            v@ == s@.subrange(0, i as int),
        decreases n - i,
    {
        let c = s.as_str().get_char(i);
        v.push(c);
        i = i + 1;
        proof {
            assert(v@ =~= s@.subrange(0, i as int));
        }
    }
    proof {
        assert(v@ =~= s@);
    }
    v
}

impl Scanner {
    pub fn new(input: String) -> (r: Self)
        ensures
            r.toks@.len() == 0,
            r.code@ == input@,
            r.pos == 0,
    {
        Self { toks: Vec::new(), code: to_char_vec(&input), pos: 0 }
    }

    fn push(&mut self, tok_type: TokenType, tok_value: TokenValue)
        ensures
            final(self).toks.deep_view() == old(self).toks.deep_view().push(
                TokenV { tok_type, tok_value: tok_value@ },
            ),
            final(self).code == old(self).code,
            final(self).pos == old(self).pos,
    {
        let ghost v = tok_value@;
        self.toks.push(Token::new(tok_type, tok_value));
        proof {
            assert(self.toks.deep_view() =~= old(self).toks.deep_view().push(
                TokenV { tok_type, tok_value: v },
            ));
        }
    }

    /// Scans the whole source text, appending the tokens of `spec_tokenize`
    /// to `self.toks`, or reports the first fatal lexical error.
    pub fn tokenize(&mut self) -> (r: Result<(), LexError>)
        requires
            old(self).pos <= old(self).code@.len(),
        ensures
            final(self).code == old(self).code,
            match r {
                Ok(_) => {
                    &&& spec_tokenize(final(self).code@, old(self).pos as int) matches Ok(ts)
                        && final(self).toks.deep_view() == old(self).toks.deep_view() + ts
                },
                Err(e) => spec_tokenize(final(self).code@, old(self).pos as int) == Err::<
                    Seq<TokenV>,
                    _,
                >(e),
            },
    {
        let ghost start = self.pos as int;
        let ghost toks0 = self.toks.deep_view();
        let ghost mut emitted: Seq<TokenV> = Seq::empty();
        loop
            invariant
                self.code == old(self).code,
                start == old(self).pos as int,
                toks0 == old(self).toks.deep_view(),
                self.pos <= self.code@.len(),
                self.toks.deep_view() == toks0 + emitted,
                lex_inv(self.code@, start, self.pos as int, emitted),
            decreases self.code@.len() - self.pos,
        {
            if self.pos >= self.code.len() {
                self.push(TokenType::EOF, TokenValue::NONE);
                proof {
                    assert((toks0 + emitted).push(bare(TokenType::EOF)) =~= toks0 + (emitted
                        + seq![bare(TokenType::EOF)]));
                }
                return Ok(());
            }
            let ghost p = self.pos as int;
            let c = self.code[self.pos];
            if c.is_whitespace() || c == '\n' {
                self.pos = self.pos + 1;
            } else if c == '+' {
                self.push(TokenType::PLUS, TokenValue::NONE);
                self.pos = self.pos + 1;
                proof {
                    lemma_lex_step(self.code@, start, p, emitted, bare(TokenType::PLUS), p + 1);
                    emitted = emitted.push(bare(TokenType::PLUS));
                }
            } else if c == '*' {
                self.push(TokenType::MULT, TokenValue::NONE);
                self.pos = self.pos + 1;
                proof {
                    lemma_lex_step(self.code@, start, p, emitted, bare(TokenType::MULT), p + 1);
                    emitted = emitted.push(bare(TokenType::MULT));
                }
            } else if c == '-' {
                self.push(TokenType::MIN, TokenValue::NONE);
                self.pos = self.pos + 1;
                proof {
                    lemma_lex_step(self.code@, start, p, emitted, bare(TokenType::MIN), p + 1);
                    emitted = emitted.push(bare(TokenType::MIN));
                }
            } else if c == '=' {
                if self.pos + 1 < self.code.len() && self.code[self.pos + 1] == '=' {
                    self.push(TokenType::EqualsEquals, TokenValue::NONE);
                    self.pos = self.pos + 2;
                    proof {
                        lemma_lex_step(
                            self.code@,
                            start,
                            p,
                            emitted,
                            bare(TokenType::EqualsEquals),
                            p + 2,
                        );
                        emitted = emitted.push(bare(TokenType::EqualsEquals));
                    }
                } else if self.pos + 1 < self.code.len() && self.code[self.pos + 1] == '!' {
                    self.push(TokenType::NotEquals, TokenValue::NONE);
                    self.pos = self.pos + 2;
                    proof {
                        lemma_lex_step(
                            self.code@,
                            start,
                            p,
                            emitted,
                            bare(TokenType::NotEquals),
                            p + 2,
                        );
                        emitted = emitted.push(bare(TokenType::NotEquals));
                    }
                } else {
                    self.push(TokenType::EQUALS, TokenValue::NONE);
                    self.pos = self.pos + 1;
                    proof {
                        lemma_lex_step(self.code@, start, p, emitted, bare(TokenType::EQUALS), p + 1);
                        emitted = emitted.push(bare(TokenType::EQUALS));
                    }
                }
            } else if c == '/' {
                self.push(TokenType::DIV, TokenValue::NONE);
                self.pos = self.pos + 1;
                proof {
                    lemma_lex_step(self.code@, start, p, emitted, bare(TokenType::DIV), p + 1);
                    emitted = emitted.push(bare(TokenType::DIV));
                }
            } else if c == '(' {
                self.push(TokenType::LParen, TokenValue::NONE);
                self.pos = self.pos + 1;
                proof {
                    lemma_lex_step(self.code@, start, p, emitted, bare(TokenType::LParen), p + 1);
                    emitted = emitted.push(bare(TokenType::LParen));
                }
            } else if c == ')' {
                self.push(TokenType::RParen, TokenValue::NONE);
                self.pos = self.pos + 1;
                proof {
                    lemma_lex_step(self.code@, start, p, emitted, bare(TokenType::RParen), p + 1);
                    emitted = emitted.push(bare(TokenType::RParen));
                }
            } else if c == '{' {
                self.push(TokenType::LCurly, TokenValue::NONE);
                self.pos = self.pos + 1;
                proof {
                    lemma_lex_step(self.code@, start, p, emitted, bare(TokenType::LCurly), p + 1);
                    emitted = emitted.push(bare(TokenType::LCurly));
                }
            } else if c == '}' {
                self.push(TokenType::RCurly, TokenValue::NONE);
                self.pos = self.pos + 1;
                proof {
                    lemma_lex_step(self.code@, start, p, emitted, bare(TokenType::RCurly), p + 1);
                    emitted = emitted.push(bare(TokenType::RCurly));
                }
            } else if c == ';' {
                self.push(TokenType::SEM, TokenValue::NONE);
                self.pos = self.pos + 1;
                proof {
                    lemma_lex_step(self.code@, start, p, emitted, bare(TokenType::SEM), p + 1);
                    emitted = emitted.push(bare(TokenType::SEM));
                }
            } else if c == ':' {
                self.push(TokenType::Annotation, TokenValue::NONE);
                self.pos = self.pos + 1;
                proof {
                    lemma_lex_step(self.code@, start, p, emitted, bare(TokenType::Annotation), p + 1);
                    emitted = emitted.push(bare(TokenType::Annotation));
                }
            } else if c == '%' {
                self.push(TokenType::MOD, TokenValue::NONE);
                self.pos = self.pos + 1;
                proof {
                    lemma_lex_step(self.code@, start, p, emitted, bare(TokenType::MOD), p + 1);
                    emitted = emitted.push(bare(TokenType::MOD));
                }
            } else if c == ',' {
                self.push(TokenType::COMMA, TokenValue::NONE);
                self.pos = self.pos + 1;
                proof {
                    lemma_lex_step(self.code@, start, p, emitted, bare(TokenType::COMMA), p + 1);
                    emitted = emitted.push(bare(TokenType::COMMA));
                }
            } else if is_digit(c) {
                match scan_num(&self.code, self.pos) {
                    Err(e) => {
                        return Err(e);
                    },
                    Ok((text, is_float, p2)) => {
                        if is_float {
                            let ghost tv = TokenV {
                                tok_type: TokenType::FLOAT,
                                tok_value: TokenValueV::FloatV(text@),
                            };
                            self.push(TokenType::FLOAT, TokenValue::FLOAT(text));
                            self.pos = p2;
                            proof {
                                lemma_lex_step(self.code@, start, p, emitted, tv, p2 as int);
                                emitted = emitted.push(tv);
                            }
                        } else {
                            match crate::numeral::parse_i32(&text) {
                                Err(_) => {
                                    return Err(LexError::IntOutOfRange);
                                },
                                Ok(v) => {
                                    let ghost tv = TokenV {
                                        tok_type: TokenType::INT,
                                        tok_value: TokenValueV::IntV(v as int),
                                    };
                                    self.push(TokenType::INT, TokenValue::INT(v));
                                    self.pos = p2;
                                    proof {
                                        lemma_lex_step(self.code@, start, p, emitted, tv, p2 as int);
                                        emitted = emitted.push(tv);
                                    }
                                },
                            }
                        }
                    },
                }
            } else if c.is_alphabetic() {
                let (text, p2) = scan_ident(&self.code, self.pos);
                let ghost tv = spec_keyword(text@);
                if str_eq(text.as_str(), "print") {
                    self.push(TokenType::PRINT, TokenValue::NONE);
                } else if str_eq(text.as_str(), "let") {
                    self.push(TokenType::LET, TokenValue::NONE);
                } else if str_eq(text.as_str(), "main") {
                    self.push(TokenType::MAIN, TokenValue::NONE);
                } else if str_eq(text.as_str(), "fun") {
                    self.push(TokenType::FUN, TokenValue::NONE);
                } else if str_eq(text.as_str(), "int") {
                    self.push(TokenType::IntKey, TokenValue::NONE);
                } else if str_eq(text.as_str(), "float") {
                    self.push(TokenType::FloatKey, TokenValue::NONE);
                } else if str_eq(text.as_str(), "string") {
                    self.push(TokenType::StringKey, TokenValue::NONE);
                } else if str_eq(text.as_str(), "for") {
                    self.push(TokenType::FOR, TokenValue::NONE);
                } else if str_eq(text.as_str(), "if") {
                    self.push(TokenType::IF, TokenValue::NONE);
                } else if str_eq(text.as_str(), "else") {
                    self.push(TokenType::ELSE, TokenValue::NONE);
                } else {
                    self.push(TokenType::IDENTIFIER, TokenValue::IDENTIFIER(text));
                }
                self.pos = p2;
                proof {
                    lemma_lex_step(self.code@, start, p, emitted, tv, p2 as int);
                    emitted = emitted.push(tv);
                }
            } else if c == '"' {
                match scan_str(&self.code, self.pos + 1) {
                    Err(e) => {
                        return Err(e);
                    },
                    Ok((text, p2)) => {
                        let ghost tv = TokenV {
                            tok_type: TokenType::STRING,
                            tok_value: TokenValueV::StrV(text@),
                        };
                        self.push(TokenType::STRING, TokenValue::STRING(text));
                        self.pos = p2;
                        proof {
                            lemma_lex_step(self.code@, start, p, emitted, tv, p2 as int);
                            emitted = emitted.push(tv);
                        }
                    },
                }
            } else {
                return Err(LexError::UnknownChar(c));
            }
        }
    }
}

/// A successful scan yields only well-formed tokens, among them an
/// end-marker.
pub proof fn lemma_tokenize_wf(code: Seq<char>, pos: int)
    requires
        spec_tokenize(code, pos) is Ok,
    ensures
        spec_tokenize(code, pos)->Ok_0.len() >= 1,
        exists|i: int|
            0 <= i < spec_tokenize(code, pos)->Ok_0.len() && (#[trigger] spec_tokenize(
                code,
                pos,
            )->Ok_0[i]).tok_type == TokenType::EOF,
        forall|i: int|
            0 <= i < spec_tokenize(code, pos)->Ok_0.len() ==> wf_token(
                #[trigger] spec_tokenize(code, pos)->Ok_0[i],
            ),
    decreases code.len() - pos,
{
    let ts = spec_tokenize(code, pos)->Ok_0;
    if pos < 0 || pos >= code.len() {
        assert(ts[0].tok_type == TokenType::EOF);
    } else {
        let c = code[pos];
        if is_whitespace_char(c) || c == '\n' {
            lemma_tokenize_wf(code, pos + 1);
        } else if c == '+' || c == '*' || c == '-' || c == '/' || c == '(' || c == ')' || c == '{'
            || c == '}' || c == ';' || c == ':' || c == '%' || c == ',' {
            lemma_tokenize_wf(code, pos + 1);
            let rest = spec_tokenize(code, pos + 1)->Ok_0;
            assert(ts =~= seq![ts[0]] + rest);
            assert(ts[0].tok_value is NoneV);
            lemma_cons_keeps(ts[0], rest);
        } else if c == '=' {
            if pos + 1 < code.len() && code[pos + 1] == '=' {
                lemma_tokenize_wf(code, pos + 2);
                lemma_cons_keeps(bare(TokenType::EqualsEquals), spec_tokenize(code, pos + 2)->Ok_0);
            } else if pos + 1 < code.len() && code[pos + 1] == '!' {
                lemma_tokenize_wf(code, pos + 2);
                lemma_cons_keeps(bare(TokenType::NotEquals), spec_tokenize(code, pos + 2)->Ok_0);
            } else {
                lemma_tokenize_wf(code, pos + 1);
                lemma_cons_keeps(bare(TokenType::EQUALS), spec_tokenize(code, pos + 1)->Ok_0);
            }
        } else if spec_is_digit(c) {
            let scan = spec_scan_num(code, pos, Seq::empty(), false);
            let (text, is_float, p2) = scan->Ok_0;
            let tok = if is_float {
                TokenV { tok_type: TokenType::FLOAT, tok_value: TokenValueV::FloatV(text) }
            } else {
                TokenV { tok_type: TokenType::INT, tok_value: TokenValueV::IntV(dec_val(text)) }
            };
            lemma_tokenize_wf(code, p2);
            lemma_cons_keeps(tok, spec_tokenize(code, p2)->Ok_0);
        } else if is_alphabetic_char(c) {
            let (text, p2) = spec_scan_ident(code, pos, Seq::empty());
            lemma_tokenize_wf(code, p2);
            lemma_cons_keeps(spec_keyword(text), spec_tokenize(code, p2)->Ok_0);
        } else {
            let scan = spec_scan_str(code, pos + 1, Seq::empty());
            let (text, p2) = scan->Ok_0;
            lemma_tokenize_wf(code, p2);
            lemma_cons_keeps(
                TokenV { tok_type: TokenType::STRING, tok_value: TokenValueV::StrV(text) },
                spec_tokenize(code, p2)->Ok_0,
            );
        }
    }
}

/// Prepending a well-formed token keeps a token sequence well formed.
proof fn lemma_cons_keeps(t: TokenV, rest: Seq<TokenV>)
    requires
        wf_token(t),
        rest.len() >= 1,
        exists|i: int|
            0 <= i < rest.len() && (#[trigger] rest[i]).tok_type == TokenType::EOF,
        forall|i: int| 0 <= i < rest.len() ==> wf_token(#[trigger] rest[i]),
    ensures
        (seq![t] + rest).len() >= 1,
        exists|i: int|
            0 <= i < (seq![t] + rest).len() && (#[trigger] (seq![t] + rest)[i]).tok_type
                == TokenType::EOF,
        forall|i: int| 0 <= i < (seq![t] + rest).len() ==> wf_token(#[trigger] (seq![t] + rest)[i]),
{
    let s = seq![t] + rest;
    let j = choose|i: int| 0 <= i < rest.len() && (#[trigger] rest[i]).tok_type == TokenType::EOF;
    assert(s[j + 1] == rest[j]);
    assert forall|i: int| 0 <= i < s.len() implies wf_token(#[trigger] s[i]) by {
        if i == 0 {
            assert(s[0] == t);
        } else {
            assert(s[i] == rest[i - 1]);
        }
    }
}

} // verus!
