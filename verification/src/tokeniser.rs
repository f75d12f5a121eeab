use vstd::prelude::*;
use vstd::string::*;

verus! {

/// Represents the different types of tokens found within an expression.
#[derive(Clone, Copy, Debug, PartialEq, Eq, Structural)]
pub enum TokenKind {
    IntLiteral,
    FloatLiteral,
    Add,
    Sub,
    Mult,
    Div,
    LParen,
    RParen,
    EOF,
    Empty,
}

/// Mathematical model of a token: the literal text as a sequence of
/// characters, the position as an unbounded integer.
pub ghost struct GToken {
    pub kind: TokenKind,
    pub value: Option<Seq<char>>,
    pub pos: int,
}

/// A Token is an individual component of an expression.
///
/// For example, a token could be a number or mathematical symbol.
/// `value` holds the literal's raw text and is present only for
/// numeric literals; `pos` is the character offset where the token starts.
#[derive(Debug, PartialEq, Eq)]
pub struct Token {
    pub kind: TokenKind,
    pub value: Option<String>,
    pub pos: usize,
}

impl View for Token {
    type V = GToken;

    open spec fn view(&self) -> GToken {
        GToken {
            kind: self.kind,
            value: match self.value {
                Some(v) => Some(v@),
                None => None,
            },
            pos: self.pos as int,
        }
    }
}

impl Token {
    /// The placeholder token a parser holds before its tokeniser has run.
    pub fn empty() -> (t: Token)
        ensures
            t@ == (GToken { kind: TokenKind::Empty, value: None, pos: 0 }),
    {
        Token { kind: TokenKind::Empty, value: None, pos: 0 }
    }
}

/// The whitespace characters skipped between tokens.
pub open spec fn is_space(c: char) -> bool {
    c == ' ' || c == '\t' || c == '\n' || c == '\r'
}

/// The decimal digits, the only characters a numeric literal is made of.
pub open spec fn is_digit(c: char) -> bool {
    '0' as u32 <= c as u32 && c as u32 <= '9' as u32
}

/// The character the cursor sees at offset `i`; past-the-end reads yield
/// the sentinel end character.
pub open spec fn char_at(s: Seq<char>, i: int) -> char {
    if 0 <= i < s.len() {
        s[i]
    } else {
        '\0'
    }
}

/// The first offset at or after `i` that does not hold whitespace.
pub open spec fn skip_ws(s: Seq<char>, i: int) -> int
    decreases s.len() - i,
{
    if 0 <= i < s.len() && is_space(s[i]) {
        skip_ws(s, i + 1)
    } else {
        i
    }
}

/// The end of the run of decimal digits that starts at offset `i`.
pub open spec fn digits_end(s: Seq<char>, i: int) -> int
    decreases s.len() - i,
{
    if 0 <= i < s.len() && is_digit(s[i]) {
        digits_end(s, i + 1)
    } else {
        i
    }
}

/// A lexical error: an unrecognised character, or a decimal point with no
/// digits after it.  Each names the offending text and its position.
pub ghost enum GLexError {
    UnrecognisedChar { ch: char, pos: int },
    UnfinishedFloat { literal: Seq<char>, pos: int },
}

/// The outcome of scanning one token: a token together with the cursor
/// offset just past it, or a lexical error.
pub ghost enum Lexed {
    Token { token: GToken, end: int },
    Error { error: GLexError },
}

/// A one-character token at offset `j`.
pub open spec fn single_char_token(kind: TokenKind, j: int) -> Lexed {
    Lexed::Token { token: GToken { kind, value: None, pos: j }, end: j + 1 }
}

/// What one scanning step returns when the cursor stands at offset `p` of
/// source `s`: whitespace is skipped, a digit run (optionally followed by
/// `.` and a second digit run) becomes a literal, the six operator and
/// parenthesis characters become one-character tokens, the end of the
/// input becomes `EOF`, and anything else is a lexical error.
pub open spec fn spec_next_token(s: Seq<char>, p: int) -> Lexed {
    let j = skip_ws(s, p);
    let c = char_at(s, j);
    if c == '\0' {
        Lexed::Token { token: GToken { kind: TokenKind::EOF, value: None, pos: j }, end: j }
    } else if is_digit(c) {
        let k = digits_end(s, j);
        if char_at(s, k) == '.' {
            let m = digits_end(s, k + 1);
            if m == k + 1 {
                Lexed::Error {
                    error: GLexError::UnfinishedFloat {
                        literal: s.subrange(j, k + 1),
                        pos: k + 1,
                    },
                }
            } else {
                Lexed::Token {
                    token: GToken {
                        kind: TokenKind::FloatLiteral,
                        value: Some(s.subrange(j, m)),
                        pos: j,
                    },
                    end: m,
                }
            }
        } else {
            Lexed::Token {
                token: GToken { kind: TokenKind::IntLiteral, value: Some(s.subrange(j, k)), pos: j },
                end: k,
            }
        }
    } else if c == '+' {
        single_char_token(TokenKind::Add, j)
    } else if c == '-' {
        single_char_token(TokenKind::Sub, j)
    } else if c == '/' {
        single_char_token(TokenKind::Div, j)
    } else if c == '*' {
        single_char_token(TokenKind::Mult, j)
    } else if c == '(' {
        single_char_token(TokenKind::LParen, j)
    } else if c == ')' {
        single_char_token(TokenKind::RParen, j)
    } else {
        Lexed::Error { error: GLexError::UnrecognisedChar { ch: c, pos: j } }
    }
}

/// Whether scanning at offset `p` yields a token rather than an error.
pub open spec fn lex_ok(s: Seq<char>, p: int) -> bool {
    match spec_next_token(s, p) {
        Lexed::Token { .. } => true,
        Lexed::Error { .. } => false,
    }
}

/// The token scanned at offset `p`, when there is one.
pub open spec fn tok_of(s: Seq<char>, p: int) -> GToken {
    match spec_next_token(s, p) {
        Lexed::Token { token, .. } => token,
        Lexed::Error { .. } => arbitrary(),
    }
}

/// The cursor offset just past the token scanned at offset `p`.
pub open spec fn tok_end(s: Seq<char>, p: int) -> int {
    match spec_next_token(s, p) {
        Lexed::Token { end, .. } => end,
        Lexed::Error { .. } => arbitrary(),
    }
}

/// The lexical error raised when scanning at offset `p` fails.
pub open spec fn lex_err_of(s: Seq<char>, p: int) -> GLexError {
    match spec_next_token(s, p) {
        Lexed::Token { .. } => arbitrary(),
        Lexed::Error { error } => error,
    }
}

pub proof fn lemma_skip_ws_range(s: Seq<char>, p: int)
    requires
        0 <= p <= s.len(),
    ensures
        p <= skip_ws(s, p) <= s.len(),
    decreases s.len() - p,
{
    if p < s.len() && is_space(s[p]) {
        lemma_skip_ws_range(s, p + 1);
    }
}

pub proof fn lemma_digits_end_range(s: Seq<char>, p: int)
    requires
        0 <= p <= s.len(),
    ensures
        p <= digits_end(s, p) <= s.len(),
    decreases s.len() - p,
{
    if p < s.len() && is_digit(s[p]) {
        lemma_digits_end_range(s, p + 1);
    }
}

/// Where a digit run ends: if everything from `p` up to `e` is a digit
/// and `e` is the end of the input or holds a non-digit, the run ends at
/// `e` exactly.
pub proof fn lemma_digits_end_until(s: Seq<char>, p: int, e: int)
    requires
        0 <= p <= e <= s.len(),
        forall|i: int| p <= i < e ==> is_digit(s[i]),
        e < s.len() ==> !is_digit(s[e]),
    ensures
        digits_end(s, p) == e,
    decreases e - p,
{
    if p < e {
        lemma_digits_end_until(s, p + 1, e);
    }
}

/// Shape of a successfully scanned token: it lies within the source, a
/// non-`EOF` token takes at least one character, and exactly the numeric
/// literals carry a value.
pub proof fn lemma_token_bounds(s: Seq<char>, p: int)
    requires
        0 <= p <= s.len(),
        lex_ok(s, p),
    ensures
        p <= tok_of(s, p).pos,
        tok_of(s, p).pos <= tok_end(s, p) <= s.len(),
        tok_of(s, p).kind != TokenKind::Empty,
        tok_of(s, p).kind == TokenKind::EOF ==> tok_end(s, p) == tok_of(s, p).pos,
        tok_of(s, p).kind != TokenKind::EOF ==> tok_of(s, p).pos < tok_end(s, p),
        (tok_of(s, p).kind == TokenKind::IntLiteral || tok_of(s, p).kind
            == TokenKind::FloatLiteral) <==> tok_of(s, p).value is Some,
{
    lemma_skip_ws_range(s, p);
    let j = skip_ws(s, p);
    let c = char_at(s, j);
    if c == '\0' {
    } else if is_digit(c) {
        lemma_digits_end_range(s, j);
        let k = digits_end(s, j);
        assert(digits_end(s, j) == digits_end(s, j + 1));
        lemma_digits_end_range(s, j + 1);
        if char_at(s, k) == '.' {
            lemma_digits_end_range(s, k + 1);
        }
    }
}

/// Splits up an expression into its fundamental parts, creating a token
/// stream.  The cursor `char_pos` only ever moves forward and never
/// exceeds the source length.
pub struct Tokeniser {
    source: String,
    pub char_pos: usize,
}

impl Tokeniser {
    /// The source text as the sequence of its characters.
    pub closed spec fn src(&self) -> Seq<char> {
        self.source@
    }

    /// The cursor, as an unbounded integer.
    pub closed spec fn pos(&self) -> int {
        self.char_pos as int
    }

    pub fn new(source: String) -> (t: Tokeniser)
        ensures
            t.src() == source@,
            t.pos() == 0,
    {
        Tokeniser { source, char_pos: 0 }
    }

    /// Retrieves the current char without incrementing char_pos.
    fn current_char(&self) -> (c: char)
        ensures
            c == char_at(self.src(), self.char_pos as int),
    {
        let len = self.source.as_str().unicode_len();
        if self.char_pos < len {
            self.source.as_str().get_char(self.char_pos)
        } else {
            '\0'
        }
    }

    /// Increments char_pos and retrieves the char now under the cursor.
    fn next_char(&mut self) -> (c: char)
        requires
            old(self).char_pos < old(self).src().len(),
        ensures
            final(self).src() == old(self).src(),
            final(self).char_pos == old(self).char_pos + 1,
            c == char_at(final(self).src(), final(self).char_pos as int),
    {
        let len = self.source.as_str().unicode_len();
        assert(self.char_pos < len);
        self.char_pos = self.char_pos + 1;
        self.current_char()
    }

    /// Gets the run of consecutive digits under the cursor, leaving the
    /// cursor on the first character past the run.
    fn number_sequence(&mut self) -> (r: String)
        requires
            old(self).char_pos <= old(self).src().len(),
        ensures
            final(self).src() == old(self).src(),
            final(self).char_pos as int == digits_end(old(self).src(), old(self).char_pos as int),
            old(self).char_pos <= final(self).char_pos <= final(self).src().len(),
            r@ == old(self).src().subrange(old(self).char_pos as int, final(self).char_pos as int),
    {
        let start = self.char_pos;
        loop
            invariant
                self.src() == old(self).src(),
                start == old(self).char_pos,
                start <= self.char_pos <= self.src().len(),
                digits_end(self.src(), start as int) == digits_end(
                    self.src(),
                    self.char_pos as int,
                ),
            ensures
                self.src() == old(self).src(),
                start <= self.char_pos <= self.src().len(),
                digits_end(self.src(), start as int) == digits_end(
                    self.src(),
                    self.char_pos as int,
                ),
                !is_digit(char_at(self.src(), self.char_pos as int)),
            decreases self.src().len() - self.char_pos,
        {
            let c = self.current_char();
            if !is_digit_char(c) {
                break ;
            }
            assert(self.char_pos < self.src().len());
            self.next_char();
        }
        assert(digits_end(self.src(), self.char_pos as int) == self.char_pos as int);
        self.source.as_str().substring_char(start, self.char_pos).to_owned()
    }

    /// Generates the next token in the stream.
    ///
    /// Errors if an invalid character sequence is found.  `EOF` is a
    /// normal terminal token, not an error; once the end of the input is
    /// reached, every further call returns `EOF` again.
    pub fn next_token(&mut self) -> (r: Result<Token, LexError>)
        requires
            old(self).pos() <= old(self).src().len(),
        ensures
            final(self).src() == old(self).src(),
            old(self).pos() <= final(self).pos() <= final(self).src().len(),
            match r {
                Ok(t) => spec_next_token(old(self).src(), old(self).pos()) == (Lexed::Token {
                    token: t@,
                    end: final(self).pos(),
                }),
                Err(e) => spec_next_token(old(self).src(), old(self).pos()) == (Lexed::Error {
                    error: e@,
                }),
            },
    {
        // Skip whitespace
        loop
            invariant
                self.src() == old(self).src(),
                old(self).char_pos <= self.char_pos <= self.src().len(),
                skip_ws(self.src(), old(self).char_pos as int) == skip_ws(
                    self.src(),
                    self.char_pos as int,
                ),
            ensures
                self.src() == old(self).src(),
                old(self).char_pos <= self.char_pos <= self.src().len(),
                skip_ws(self.src(), old(self).char_pos as int) == skip_ws(
                    self.src(),
                    self.char_pos as int,
                ),
                !is_space(char_at(self.src(), self.char_pos as int)),
            decreases self.src().len() - self.char_pos,
        {
            let c = self.current_char();
            if !is_space_char(c) {
                break ;
            }
            assert(self.char_pos < self.src().len());
            self.next_char();
        }
        assert(skip_ws(self.src(), self.char_pos as int) == self.char_pos as int);
        let c = self.current_char();
        if c == '\0' {
            // End of input
            Ok(Token { kind: TokenKind::EOF, value: None, pos: self.char_pos })
        } else if is_digit_char(c) {
            let starting_char_pos = self.char_pos;
            let number_sequence = self.number_sequence();
            // If the next character is a decimal point, we are dealing
            // with a FloatLiteral.
            if self.current_char() == '.' {
                assert(self.char_pos < self.src().len());
                self.next_char();
                let decimal_start = self.char_pos;
                let decimal_sequence = self.number_sequence();
                if decimal_sequence.as_str().is_empty() {
                    // A decimal point must be followed by at least one digit.
                    let literal = self.source.as_str().substring_char(
                        starting_char_pos,
                        decimal_start,
                    ).to_owned();
                    Err(LexError::UnfinishedFloat { literal, pos: self.char_pos })
                } else {
                    let value = self.source.as_str().substring_char(
                        starting_char_pos,
                        self.char_pos,
                    ).to_owned();
                    Ok(Token {
                        kind: TokenKind::FloatLiteral,
                        value: Some(value),
                        pos: starting_char_pos,
                    })
                }
            } else {
                // No decimal point: the digit run alone is an IntLiteral.
                Ok(Token {
                    kind: TokenKind::IntLiteral,
                    value: Some(number_sequence),
                    pos: starting_char_pos,
                })
            }
        } else if c == '+' || c == '-' || c == '/' || c == '*' || c == '(' || c == ')' {
            let token_kind = if c == '+' {
                TokenKind::Add
            } else if c == '-' {
                TokenKind::Sub
            } else if c == '/' {
                TokenKind::Div
            } else if c == '*' {
                TokenKind::Mult
            } else if c == '(' {
                TokenKind::LParen
            } else {
                TokenKind::RParen
            };
            let pos = self.char_pos;
            assert(self.char_pos < self.src().len());
            self.next_char();
            Ok(Token { kind: token_kind, value: None, pos })
        } else {
            Err(LexError::UnrecognisedChar { ch: c, pos: self.char_pos })
        }
    }
}

/// A lexical error, carrying the offending text and its position.
#[derive(Debug, PartialEq, Eq)]
pub enum LexError {
    UnrecognisedChar { ch: char, pos: usize },
    UnfinishedFloat { literal: String, pos: usize },
}

impl View for LexError {
    type V = GLexError;

    open spec fn view(&self) -> GLexError {
        match self {
            LexError::UnrecognisedChar { ch, pos } => GLexError::UnrecognisedChar {
                ch: *ch,
                pos: *pos as int,
            },
            LexError::UnfinishedFloat { literal, pos } => GLexError::UnfinishedFloat {
                literal: literal@,
                pos: *pos as int,
            },
        }
    }
}

/// Whether `c` is one of the whitespace characters skipped between tokens.
fn is_space_char(c: char) -> (b: bool)
    ensures
        b == is_space(c),
{
    c == ' ' || c == '\t' || c == '\n' || c == '\r'
}

/// Whether `c` is a decimal digit.
fn is_digit_char(c: char) -> (b: bool)
    ensures
        b == is_digit(c),
{
    (c as u32) >= ('0' as u32) && (c as u32) <= ('9' as u32)
}

} // verus!
