use vstd::pervasive::unreached;
use vstd::prelude::*;

use crate::ast::{FloatLiteral, GNode, IntLiteral, Node, Op};
use crate::tokeniser::{
    char_at, is_digit, lemma_digits_end_until, lex_err_of, lex_ok, lemma_token_bounds,
    skip_ws, spec_next_token, tok_end, tok_of, GLexError, GToken, LexError, Lexed, Token,
    TokenKind, Tokeniser,
};

verus! {

/// A failed parse: a lexical error passed through from the tokeniser, a
/// lookahead token of the wrong kind at a grammar decision point, or a
/// token no `entity` production starts with.
pub ghost enum GParseError {
    Lexical { error: GLexError },
    ExpectedKind { expected: TokenKind, actual: TokenKind, pos: int },
    UnexpectedToken { kind: TokenKind, pos: int },
}

/// A syntax or lexical error surfaced by the parser.  Lexical and syntax
/// errors propagate as ordinary failure results with no recovery and no
/// partial tree.
#[derive(Debug, PartialEq, Eq)]
pub enum ParseError {
    Lexical(LexError),
    ExpectedKind { expected: TokenKind, actual: TokenKind, pos: usize },
    UnexpectedToken { kind: TokenKind, pos: usize },
}

impl View for ParseError {
    type V = GParseError;

    open spec fn view(&self) -> GParseError {
        match self {
            ParseError::Lexical(e) => GParseError::Lexical { error: e@ },
            ParseError::ExpectedKind { expected, actual, pos } => GParseError::ExpectedKind {
                expected: *expected,
                actual: *actual,
                pos: *pos as int,
            },
            ParseError::UnexpectedToken { kind, pos } => GParseError::UnexpectedToken {
                kind: *kind,
                pos: *pos as int,
            },
        }
    }
}

/// The outcome of one grammar production started with the lookahead token
/// scanned at offset `p`: the tree it builds together with the scan
/// offset `la` of the new lookahead token, or the error it fails with.
pub ghost enum Parsed {
    Node { node: GNode, la: int },
    Fail { error: GParseError },
}

// The five production functions below recurse on the scan offset of the
// lookahead token.  Each re-entry at a farther offset is guarded by
// `p < ... <= s.len()`, which makes termination evident; a consumed token
// always advances the scan offset (`lemma_token_bounds`), so the guarded
// `arbitrary()` branches are never the value of a reachable parse.
/// The `entity` production:
///
/// `entity := IntLiteral | FloatLiteral | Sub entity | LParen expr RParen`
///
/// An Int or Float lookahead becomes a leaf holding the literal's text.
/// A `Sub` lookahead parses another entity and wraps it in a unary minus,
/// so repeated signs stack.  An `LParen` parses a full nested `expr` and
/// requires a matching `RParen`.  Any other lookahead is an "unexpected
/// token" error.  Consuming a token scans the next one, which is where a
/// lexical error can surface.
pub open spec fn spec_entity(s: Seq<char>, p: int) -> Parsed
    decreases s.len() - p, 0int,
{
    match spec_next_token(s, p) {
        Lexed::Error { error } => Parsed::Fail { error: GParseError::Lexical { error } },
        Lexed::Token { token, end } => match token.kind {
            TokenKind::IntLiteral => match spec_next_token(s, end) {
                Lexed::Error { error } => Parsed::Fail { error: GParseError::Lexical { error } },
                Lexed::Token { .. } => match token.value {
                    Some(v) => Parsed::Node { node: GNode::IntLiteral { value: v }, la: end },
                    None => arbitrary(),
                },
            },
            TokenKind::FloatLiteral => match spec_next_token(s, end) {
                Lexed::Error { error } => Parsed::Fail { error: GParseError::Lexical { error } },
                Lexed::Token { .. } => match token.value {
                    Some(v) => Parsed::Node { node: GNode::FloatLiteral { value: v }, la: end },
                    None => arbitrary(),
                },
            },
            TokenKind::Sub => if p < end && end <= s.len() {
                match spec_entity(s, end) {
                    Parsed::Node { node, la } => Parsed::Node {
                        node: GNode::UnaryOp { right: Box::new(node), op: Op::Sub },
                        la,
                    },
                    fail_result => fail_result,
                }
            } else {
                arbitrary()
            },
            TokenKind::LParen => if p < end && end <= s.len() {
                match spec_expr(s, end) {
                    Parsed::Node { node, la } => match spec_next_token(s, la) {
                        Lexed::Token { token: closing, end: after } => if closing.kind
                            == TokenKind::RParen {
                            match spec_next_token(s, after) {
                                Lexed::Error { error } => Parsed::Fail {
                                    error: GParseError::Lexical { error },
                                },
                                Lexed::Token { .. } => Parsed::Node { node, la: after },
                            }
                        } else {
                            Parsed::Fail {
                                error: GParseError::ExpectedKind {
                                    expected: TokenKind::RParen,
                                    actual: closing.kind,
                                    pos: closing.pos,
                                },
                            }
                        },
                        Lexed::Error { error } => Parsed::Fail {
                            error: GParseError::Lexical { error },
                        },
                    },
                    fail_result => fail_result,
                }
            } else {
                arbitrary()
            },
            _ => Parsed::Fail {
                error: GParseError::UnexpectedToken { kind: token.kind, pos: token.pos },
            },
        },
    }
}

/// The left-fold of `mult_expr`: while the lookahead is `Mult` or `Div`,
/// consume it, parse the next entity, and wrap the accumulated tree and
/// the new entity in a binary node — so chains group strictly to the
/// left.
pub open spec fn spec_mult_tail(s: Seq<char>, acc: GNode, p: int) -> Parsed
    decreases s.len() - p, 3int,
{
    match spec_next_token(s, p) {
        Lexed::Error { error } => Parsed::Fail { error: GParseError::Lexical { error } },
        Lexed::Token { token, end } => if token.kind == TokenKind::Mult || token.kind
            == TokenKind::Div {
            let op = if token.kind == TokenKind::Mult {
                Op::Mult
            } else {
                Op::Div
            };
            if p < end && end <= s.len() {
                match spec_entity(s, end) {
                    Parsed::Node { node, la } => if p < la && la <= s.len() {
                        spec_mult_tail(
                            s,
                            GNode::BinOp { left: Box::new(acc), right: Box::new(node), op },
                            la,
                        )
                    } else {
                        arbitrary()
                    },
                    fail_result => fail_result,
                }
            } else {
                arbitrary()
            }
        } else {
            Parsed::Node { node: acc, la: p }
        },
    }
}

/// The `mult_expr` production:
///
/// `mult_expr := entity ( (Mult|Div) entity )*`
pub open spec fn spec_mult_expr(s: Seq<char>, p: int) -> Parsed
    decreases s.len() - p, 1int,
{
    match spec_entity(s, p) {
        Parsed::Node { node, la } => if p < la && la <= s.len() {
            spec_mult_tail(s, node, la)
        } else {
            arbitrary()
        },
        fail_result => fail_result,
    }
}

/// The left-fold of `expr`, over `Add` and `Sub`, grouping strictly to
/// the left: `a - b - c` becomes `(a - b) - c`.
pub open spec fn spec_expr_tail(s: Seq<char>, acc: GNode, p: int) -> Parsed
    decreases s.len() - p, 4int,
{
    match spec_next_token(s, p) {
        Lexed::Error { error } => Parsed::Fail { error: GParseError::Lexical { error } },
        Lexed::Token { token, end } => if token.kind == TokenKind::Add || token.kind
            == TokenKind::Sub {
            let op = if token.kind == TokenKind::Add {
                Op::Add
            } else {
                Op::Sub
            };
            if p < end && end <= s.len() {
                match spec_mult_expr(s, end) {
                    Parsed::Node { node, la } => if p < la && la <= s.len() {
                        spec_expr_tail(
                            s,
                            GNode::BinOp { left: Box::new(acc), right: Box::new(node), op },
                            la,
                        )
                    } else {
                        arbitrary()
                    },
                    fail_result => fail_result,
                }
            } else {
                arbitrary()
            }
        } else {
            Parsed::Node { node: acc, la: p }
        },
    }
}

/// The `expr` production, the top of the grammar:
///
/// `expr := mult_expr ( (Add|Sub) mult_expr )*`
pub open spec fn spec_expr(s: Seq<char>, p: int) -> Parsed
    decreases s.len() - p, 2int,
{
    match spec_mult_expr(s, p) {
        Parsed::Node { node, la } => if p < la && la <= s.len() {
            spec_expr_tail(s, node, la)
        } else {
            arbitrary()
        },
        fail_result => fail_result,
    }
}

/// What `parse` returns when it starts with the tokeniser's cursor at
/// offset `p`: the tree built by one `expr`, or the first error.  Input
/// left over after the `expr` (beyond the one lookahead token it scans)
/// is not inspected.
pub open spec fn spec_parse_from(s: Seq<char>, p: int) -> Result<GNode, GParseError> {
    match spec_expr(s, p) {
        Parsed::Node { node, .. } => Ok(node),
        Parsed::Fail { error } => Err(error),
    }
}

/// What `parse` returns on a freshly built parser for source `s`.
pub open spec fn spec_parse(s: Seq<char>) -> Result<GNode, GParseError> {
    spec_parse_from(s, 0)
}

/// Generates a walkable & executable abstract syntax tree out of an
/// expression.  Holds exactly one token of lookahead.
pub struct Parser {
    tokeniser: Tokeniser,
    current_token: Token,
    scan: Ghost<int>,
}

impl Parser {
    /// The source text the parser reads.
    pub closed spec fn src(&self) -> Seq<char> {
        self.tokeniser.src()
    }

    /// The tokeniser's cursor.
    pub closed spec fn cursor(&self) -> int {
        self.tokeniser.pos()
    }

    /// The cursor never exceeds the source length.
    pub closed spec fn inv(&self) -> bool {
        0 <= self.cursor() <= self.src().len()
    }

    /// Well-formedness during a parse: the lookahead is exactly the token
    /// scanned at offset `scan`, and the cursor stands just past it.
    spec fn wf(&self) -> bool {
        &&& 0 <= self.scan@ <= self.src().len()
        &&& lex_ok(self.src(), self.scan@)
        &&& self.current_token@ == tok_of(self.src(), self.scan@)
        &&& self.cursor() == tok_end(self.src(), self.scan@)
    }

    pub fn new(source: String) -> (p: Parser)
        ensures
            p.src() == source@,
            p.cursor() == 0,
            p.inv(),
    {
        Parser {
            tokeniser: Tokeniser::new(source),
            // This empty token acts as a placeholder until the
            // tokeniser is actually invoked.
            current_token: Token::empty(),
            scan: Ghost(0),
        }
    }

    /// Setter function to update the source code which needs to be
    /// parsed.  Any leftover state of the previous expression is
    /// discarded.
    pub fn set_source(&mut self, source: String)
        ensures
            final(self).src() == source@,
            final(self).cursor() == 0,
            final(self).inv(),
    {
        // It's easier just to initialise a new tokeniser than to
        // individually reset all of its attributes.
        self.tokeniser = Tokeniser::new(source);
    }

    /// Checks that the lookahead token has the expected kind, then
    /// advances the lookahead by requesting the next token from the
    /// tokeniser.  This is the sole point where lexer errors surface up
    /// through the parser.
    fn eat(&mut self, expected_token_kind: TokenKind) -> (r: Result<(), ParseError>)
        requires
            old(self).wf(),
            expected_token_kind != TokenKind::EOF,
        ensures
            final(self).src() == old(self).src(),
            final(self).inv(),
            match r {
                Ok(_) => {
                    &&& old(self).current_token@.kind == expected_token_kind
                    &&& final(self).wf()
                    &&& final(self).scan@ == tok_end(old(self).src(), old(self).scan@)
                    &&& old(self).scan@ < final(self).scan@ <= old(self).src().len()
                },
                Err(e) => match e@ {
                    GParseError::ExpectedKind { expected, actual, pos } => {
                        &&& old(self).current_token@.kind != expected_token_kind
                        &&& *final(self) == *old(self)
                        &&& expected == expected_token_kind
                        &&& actual == old(self).current_token@.kind
                        &&& pos == old(self).current_token@.pos
                    },
                    GParseError::Lexical { error } => {
                        &&& old(self).current_token@.kind == expected_token_kind
                        &&& !lex_ok(old(self).src(), tok_end(old(self).src(), old(self).scan@))
                        &&& error == lex_err_of(
                            old(self).src(),
                            tok_end(old(self).src(), old(self).scan@),
                        )
                    },
                    _ => false,
                },
            },
    {
        proof {
            lemma_token_bounds(self.src(), self.scan@);
        }
        if self.current_token.kind != expected_token_kind {
            Err(
                ParseError::ExpectedKind {
                    expected: expected_token_kind,
                    actual: self.current_token.kind,
                    pos: self.current_token.pos,
                },
            )
        } else {
            let ghost new_scan = tok_end(self.src(), self.scan@);
            match self.tokeniser.next_token() {
                Ok(t) => {
                    self.current_token = t;
                    self.scan = Ghost(new_scan);
                    Ok(())
                },
                Err(e) => Err(ParseError::Lexical(e)),
            }
        }
    }

    /// Represents any fundamental mathematical entity: a literal, a
    /// unary minus applied to an entity, or a parenthesised
    /// sub-expression.
    fn entity(&mut self) -> (r: Result<Node, ParseError>)
        requires
            old(self).wf(),
        ensures
            final(self).src() == old(self).src(),
            final(self).inv(),
            match r {
                Ok(node) => {
                    &&& final(self).wf()
                    &&& old(self).scan@ < final(self).scan@ <= old(self).src().len()
                    &&& spec_entity(old(self).src(), old(self).scan@) == (Parsed::Node {
                        node: node@,
                        la: final(self).scan@,
                    })
                },
                Err(e) => spec_entity(old(self).src(), old(self).scan@) == (Parsed::Fail {
                    error: e@,
                }),
            },
        decreases old(self).src().len() - old(self).scan@, 0int,
    {
        let ghost s0 = old(self).src();
        let ghost p_in = old(self).scan@;
        let ghost end0 = tok_end(s0, p_in);
        proof {
            lemma_token_bounds(s0, p_in);
        }
        match self.current_token.kind {
            // Literals, things like '10' or '3.14'.
            TokenKind::IntLiteral => {
                let value = match &self.current_token.value {
                    Some(v) => v.clone(),
                    None => unreached(),
                };
                let ret = Node::IntLiteral(IntLiteral { value });
                match self.eat(TokenKind::IntLiteral) {
                    Ok(_) => Ok(ret),
                    Err(e) => Err(e),
                }
            },
            TokenKind::FloatLiteral => {
                let value = match &self.current_token.value {
                    Some(v) => v.clone(),
                    None => unreached(),
                };
                let ret = Node::FloatLiteral(FloatLiteral { value });
                match self.eat(TokenKind::FloatLiteral) {
                    Ok(_) => Ok(ret),
                    Err(e) => Err(e),
                }
            },
            // All unary operations begin with a '-' symbol.
            TokenKind::Sub => {
                match self.eat(TokenKind::Sub) {
                    Ok(_) => (),
                    Err(e) => {
                        proof {
                            assert(spec_entity(s0, end0) == (Parsed::Fail { error: e@ }));
                        }
                        return Err(e);
                    },
                }
                match self.entity() {
                    Ok(node) => Ok(Node::UnaryOp { right: Box::new(node), op: Op::Sub }),
                    Err(e) => Err(e),
                }
            },
            // Brackets aren't an object found on the syntax tree; rather,
            // they change the structure of the tree to represent the
            // order they define.
            TokenKind::LParen => {
                match self.eat(TokenKind::LParen) {
                    Ok(_) => (),
                    Err(e) => {
                        proof {
                            assert(spec_entity(s0, end0) == (Parsed::Fail { error: e@ }));
                            assert(spec_mult_expr(s0, end0) == (Parsed::Fail { error: e@ }));
                            assert(spec_expr(s0, end0) == (Parsed::Fail { error: e@ }));
                        }
                        return Err(e);
                    },
                }
                let inner = match self.expr() {
                    Ok(node) => node,
                    Err(e) => {
                        return Err(e);
                    },
                };
                match self.eat(TokenKind::RParen) {
                    Ok(_) => Ok(inner),
                    Err(e) => Err(e),
                }
            },
            // Any other kind of token is unexpected here.
            _ => {
                Err(
                    ParseError::UnexpectedToken {
                        kind: self.current_token.kind,
                        pos: self.current_token.pos,
                    },
                )
            },
        }
    }

    /// Represents any mathematical expression containing two or more
    /// terms using only the '*' and '/' operators.
    #[verifier::loop_isolation(false)]
    fn mult_expr(&mut self) -> (r: Result<Node, ParseError>)
        requires
            old(self).wf(),
        ensures
            final(self).src() == old(self).src(),
            final(self).inv(),
            match r {
                Ok(node) => {
                    &&& final(self).wf()
                    &&& old(self).scan@ < final(self).scan@ <= old(self).src().len()
                    &&& spec_mult_expr(old(self).src(), old(self).scan@) == (Parsed::Node {
                        node: node@,
                        la: final(self).scan@,
                    })
                },
                Err(e) => spec_mult_expr(old(self).src(), old(self).scan@) == (Parsed::Fail {
                    error: e@,
                }),
            },
        decreases old(self).src().len() - old(self).scan@, 1int,
    {
        let ghost s = old(self).src();
        let ghost p0 = old(self).scan@;
        // Get the left hand side of the expression.
        let mut node = match self.entity() {
            Ok(n) => n,
            Err(e) => {
                return Err(e);
            },
        };
        // While the operator is either a '*' or '/', fold the next entity
        // into a binary operation node; `left` is the tree accumulated so
        // far, which makes the chain left-associative.
        while self.current_token.kind == TokenKind::Mult || self.current_token.kind
            == TokenKind::Div
            invariant
                self.src() == s,
                self.wf(),
                p0 < self.scan@ <= s.len(),
                spec_mult_expr(s, p0) == spec_mult_tail(s, node@, self.scan@),
            decreases s.len() - self.scan@,
        {
            let ghost p_iter = self.scan@;
            proof {
                lemma_token_bounds(s, p_iter);
            }
            let op = if self.current_token.kind == TokenKind::Mult {
                match self.eat(TokenKind::Mult) {
                    Ok(_) => (),
                    Err(e) => {
                        proof {
                            assert(spec_entity(s, tok_end(s, p_iter)) == (Parsed::Fail {
                                error: e@,
                            }));
                            assert(spec_mult_tail(s, node@, p_iter) == (Parsed::Fail {
                                error: e@,
                            }));
                        }
                        return Err(e);
                    },
                }
                Op::Mult
            } else {
                match self.eat(TokenKind::Div) {
                    Ok(_) => (),
                    Err(e) => {
                        proof {
                            assert(spec_entity(s, tok_end(s, p_iter)) == (Parsed::Fail {
                                error: e@,
                            }));
                            assert(spec_mult_tail(s, node@, p_iter) == (Parsed::Fail {
                                error: e@,
                            }));
                        }
                        return Err(e);
                    },
                }
                Op::Div
            };
            let right = match self.entity() {
                Ok(n) => n,
                Err(e) => {
                    proof {
                        assert(spec_mult_tail(s, node@, p_iter) == (Parsed::Fail { error: e@ }));
                    }
                    return Err(e);
                },
            };
            node = Node::BinOp { left: Box::new(node), right: Box::new(right), op };
        }
        proof {
            lemma_token_bounds(s, self.scan@);
        }
        Ok(node)
    }

    /// Represents any mathematical expression containing two or more
    /// terms joined by '+' or '-'.
    #[verifier::loop_isolation(false)]
    fn expr(&mut self) -> (r: Result<Node, ParseError>)
        requires
            old(self).wf(),
        ensures
            final(self).src() == old(self).src(),
            final(self).inv(),
            match r {
                Ok(node) => {
                    &&& final(self).wf()
                    &&& old(self).scan@ < final(self).scan@ <= old(self).src().len()
                    &&& spec_expr(old(self).src(), old(self).scan@) == (Parsed::Node {
                        node: node@,
                        la: final(self).scan@,
                    })
                },
                Err(e) => spec_expr(old(self).src(), old(self).scan@) == (Parsed::Fail {
                    error: e@,
                }),
            },
        decreases old(self).src().len() - old(self).scan@, 2int,
    {
        let ghost s = old(self).src();
        let ghost p0 = old(self).scan@;
        // Get the left hand side of the expression.
        let mut node = match self.mult_expr() {
            Ok(n) => n,
            Err(e) => {
                return Err(e);
            },
        };
        // While the operator is either a '+' or '-', fold the next
        // mult_expr into a binary operation node, left-associatively.
        while self.current_token.kind == TokenKind::Add || self.current_token.kind
            == TokenKind::Sub
            invariant
                self.src() == s,
                self.wf(),
                p0 < self.scan@ <= s.len(),
                spec_expr(s, p0) == spec_expr_tail(s, node@, self.scan@),
            decreases s.len() - self.scan@,
        {
            let ghost p_iter = self.scan@;
            proof {
                lemma_token_bounds(s, p_iter);
            }
            let op = if self.current_token.kind == TokenKind::Add {
                match self.eat(TokenKind::Add) {
                    Ok(_) => (),
                    Err(e) => {
                        proof {
                            assert(spec_entity(s, tok_end(s, p_iter)) == (Parsed::Fail {
                                error: e@,
                            }));
                            assert(spec_mult_expr(s, tok_end(s, p_iter)) == (Parsed::Fail {
                                error: e@,
                            }));
                            assert(spec_expr_tail(s, node@, p_iter) == (Parsed::Fail {
                                error: e@,
                            }));
                        }
                        return Err(e);
                    },
                }
                Op::Add
            } else {
                match self.eat(TokenKind::Sub) {
                    Ok(_) => (),
                    Err(e) => {
                        proof {
                            assert(spec_entity(s, tok_end(s, p_iter)) == (Parsed::Fail {
                                error: e@,
                            }));
                            assert(spec_mult_expr(s, tok_end(s, p_iter)) == (Parsed::Fail {
                                error: e@,
                            }));
                            assert(spec_expr_tail(s, node@, p_iter) == (Parsed::Fail {
                                error: e@,
                            }));
                        }
                        return Err(e);
                    },
                }
                Op::Sub
            };
            let right = match self.mult_expr() {
                Ok(n) => n,
                Err(e) => {
                    proof {
                        assert(spec_expr_tail(s, node@, p_iter) == (Parsed::Fail { error: e@ }));
                    }
                    return Err(e);
                },
            };
            node = Node::BinOp { left: Box::new(node), right: Box::new(right), op };
        }
        proof {
            lemma_token_bounds(s, self.scan@);
        }
        Ok(node)
    }

    /// The parse() function is the entry point for the whole expression
    /// parser.
    ///
    /// Grammar (modified bnf):
    ///
    /// ```text
    /// <expr> ::= <mult_expr> ((Add | Sub) <mult_expr>)*
    ///
    /// <mult_expr> ::= <entity> ((Mult | Div) <entity>)*
    ///
    /// <entity> ::= IntLiteral | FloatLiteral | Sub <entity> | LParen <expr> RParen
    /// ```
    ///
    /// The grammar is in order of scope, the highest covering the entire
    /// syntax, the lowest covering the most fundamental components of an
    /// expression.
    pub fn parse(&mut self) -> (r: Result<Node, ParseError>)
        requires
            old(self).inv(),
        ensures
            final(self).src() == old(self).src(),
            final(self).inv(),
            match r {
                Ok(node) => spec_parse_from(old(self).src(), old(self).cursor())
                    == Result::<GNode, GParseError>::Ok(node@),
                Err(e) => spec_parse_from(old(self).src(), old(self).cursor())
                    == Result::<GNode, GParseError>::Err(e@),
            },
    {
        let ghost s = old(self).src();
        let ghost p0 = old(self).cursor();
        // Explicitly generate the first token.
        match self.tokeniser.next_token() {
            Ok(t) => {
                self.current_token = t;
                self.scan = Ghost(p0);
            },
            Err(e) => {
                proof {
                    assert(spec_entity(s, p0) == (Parsed::Fail {
                        error: GParseError::Lexical { error: e@ },
                    }));
                    assert(spec_mult_expr(s, p0) == (Parsed::Fail {
                        error: GParseError::Lexical { error: e@ },
                    }));
                    assert(spec_expr(s, p0) == (Parsed::Fail {
                        error: GParseError::Lexical { error: e@ },
                    }));
                }
                return Err(ParseError::Lexical(e));
            },
        }
        // `expr` is the highest level production of the grammar; it
        // covers every case the parser is capable of parsing.
        match self.expr() {
            Ok(node) => Ok(node),
            Err(e) => Err(e),
        }
    }
}

/// For all valid digit-only input, `parse` succeeds and produces an Int
/// literal leaf holding exactly the input text.
pub proof fn lemma_digit_run_parses_to_int_leaf(s: Seq<char>)
    requires
        s.len() > 0,
        forall|i: int| 0 <= i < s.len() ==> is_digit(s[i]),
    ensures
        spec_parse(s) == Result::<GNode, GParseError>::Ok(GNode::IntLiteral { value: s }),
{
    let len = s.len() as int;
    assert(is_digit(s[0]));
    assert(skip_ws(s, 0) == 0);
    lemma_digits_end_until(s, 0, len);
    assert(char_at(s, len) == '\0');
    assert(s.subrange(0, len) =~= s);
    let tok = GToken { kind: TokenKind::IntLiteral, value: Some(s), pos: 0 };
    assert(spec_next_token(s, 0) == (Lexed::Token { token: tok, end: len }));
    assert(skip_ws(s, len) == len);
    let eof = GToken { kind: TokenKind::EOF, value: None, pos: len };
    assert(spec_next_token(s, len) == (Lexed::Token { token: eof, end: len }));
    let leaf = GNode::IntLiteral { value: s };
    assert(spec_entity(s, 0) == (Parsed::Node { node: leaf, la: len }));
    assert(spec_mult_tail(s, leaf, len) == (Parsed::Node { node: leaf, la: len }));
    assert(spec_mult_expr(s, 0) == (Parsed::Node { node: leaf, la: len }));
    assert(spec_expr_tail(s, leaf, len) == (Parsed::Node { node: leaf, la: len }));
    assert(spec_expr(s, 0) == (Parsed::Node { node: leaf, la: len }));
}

/// For all inputs of the form `<digits>.<digits>`, `parse` succeeds and
/// produces a Float literal leaf holding exactly the input text, decimal
/// point included.
pub proof fn lemma_decimal_parses_to_float_leaf(a: Seq<char>, b: Seq<char>)
    requires
        a.len() > 0,
        b.len() > 0,
        forall|i: int| 0 <= i < a.len() ==> is_digit(a[i]),
        forall|i: int| 0 <= i < b.len() ==> is_digit(b[i]),
    ensures
        spec_parse(a + seq!['.'] + b) == Result::<GNode, GParseError>::Ok(
            GNode::FloatLiteral { value: a + seq!['.'] + b },
        ),
{
    let s = a + seq!['.'] + b;
    let alen = a.len() as int;
    let len = s.len() as int;
    assert(len == alen + 1 + b.len());
    assert(forall|i: int| 0 <= i < alen ==> s[i] == a[i]);
    assert(s[alen] == '.');
    assert(forall|i: int| alen + 1 <= i < len ==> s[i] == b[i - alen - 1]);
    assert(is_digit(s[0]));
    assert(skip_ws(s, 0) == 0);
    assert(!is_digit('.'));
    lemma_digits_end_until(s, 0, alen);
    assert(char_at(s, alen) == '.');
    lemma_digits_end_until(s, alen + 1, len);
    assert(char_at(s, len) == '\0');
    assert(s.subrange(0, len) =~= s);
    let tok = GToken { kind: TokenKind::FloatLiteral, value: Some(s), pos: 0 };
    assert(spec_next_token(s, 0) == (Lexed::Token { token: tok, end: len }));
    assert(skip_ws(s, len) == len);
    let eof = GToken { kind: TokenKind::EOF, value: None, pos: len };
    assert(spec_next_token(s, len) == (Lexed::Token { token: eof, end: len }));
    let leaf = GNode::FloatLiteral { value: s };
    assert(spec_entity(s, 0) == (Parsed::Node { node: leaf, la: len }));
    assert(spec_mult_tail(s, leaf, len) == (Parsed::Node { node: leaf, la: len }));
    assert(spec_mult_expr(s, 0) == (Parsed::Node { node: leaf, la: len }));
    assert(spec_expr_tail(s, leaf, len) == (Parsed::Node { node: leaf, la: len }));
    assert(spec_expr(s, 0) == (Parsed::Node { node: leaf, la: len }));
}

} // verus!
