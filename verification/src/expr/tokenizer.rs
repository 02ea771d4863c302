//! Tokenizer for the expression language, used for syntax highlighting, and
//! completion of names.
//!
//! The tokenizer never fails: a character it cannot place becomes an `Error`
//! token, and the tokens of an input cover it exactly, in order.

use vstd::prelude::*;

use crate::expr::xop::{
    XBinaryOp,
    XBuiltInOp,
    XUnaryOp,
    spec_builtin_from_name,
};
use crate::text::{
    chars_of,
    is_alphabetic,
    is_alphanumeric,
    is_ascii_digit,
    is_whitespace,
    push_char,
    spec_is_alphabetic,
    spec_is_digit,
    spec_is_numeric,
    spec_is_whitespace,
    str_eq,
    string_of,
};

verus! {

broadcast use vstd::string::group_string_axioms;

/// Function names of the language.
#[derive(Debug, Clone, Copy, PartialEq, Eq, Structural)]
pub enum FunctionKind {
    Sin,
    Cos,
    Abs,
    Norm,
    All,
    Any,
    Dot,
    Cross,
    Min,
    Max,
    Vec2,
    Vec3,
    Attr,
    Prop,
}

/// What kind of text a token is.
#[derive(Debug, Clone, Copy, PartialEq, Eq, Structural)]
pub enum TokenKind {
    Integer,
    Float,
    String,
    Identifier,
    Attribute,
    Property,
    BuiltIn(XBuiltInOp),
    Function(FunctionKind),
    UnaryOp(XUnaryOp),
    BinaryOp(XBinaryOp),
    LeftParen,
    RightParen,
    Comma,
    Dot,
    Whitespace,
    Error,
}

/// A token: its kind, its text, and the character range `start..end` it covers.
#[derive(Debug, Clone, PartialEq)]
pub struct Token {
    pub kind: TokenKind,
    pub text: String,
    pub start: usize,
    pub end: usize,
}

/// A token as the specification sees it.
pub struct SToken {
    pub kind: TokenKind,
    pub text: Seq<char>,
    pub start: int,
    pub end: int,
}

impl View for Token {
    type V = SToken;

    open spec fn view(&self) -> SToken {
        SToken { kind: self.kind, text: self.text@, start: self.start as int, end: self.end as int }
    }
}

/// The function a name denotes, if any.
pub open spec fn spec_function_kind(s: Seq<char>) -> Option<FunctionKind> {
    if s == "sin"@ {
        Some(FunctionKind::Sin)
    } else if s == "cos"@ {
        Some(FunctionKind::Cos)
    } else if s == "abs"@ {
        Some(FunctionKind::Abs)
    } else if s == "norm"@ {
        Some(FunctionKind::Norm)
    } else if s == "all"@ {
        Some(FunctionKind::All)
    } else if s == "any"@ {
        Some(FunctionKind::Any)
    } else if s == "dot"@ {
        Some(FunctionKind::Dot)
    } else if s == "cross"@ {
        Some(FunctionKind::Cross)
    } else if s == "min"@ {
        Some(FunctionKind::Min)
    } else if s == "max"@ {
        Some(FunctionKind::Max)
    } else if s == "vec2"@ {
        Some(FunctionKind::Vec2)
    } else if s == "vec3"@ {
        Some(FunctionKind::Vec3)
    } else if s == "attr"@ {
        Some(FunctionKind::Attr)
    } else if s == "prop"@ {
        Some(FunctionKind::Prop)
    } else {
        None
    }
}

/// How many arguments a function takes.
pub open spec fn spec_arity(f: FunctionKind) -> nat {
    match f {
        FunctionKind::Sin | FunctionKind::Cos | FunctionKind::Abs | FunctionKind::Norm
        | FunctionKind::All | FunctionKind::Any => 1,
        FunctionKind::Dot | FunctionKind::Cross | FunctionKind::Min | FunctionKind::Max
        | FunctionKind::Vec2 => 2,
        FunctionKind::Vec3 => 3,
        FunctionKind::Attr | FunctionKind::Prop => 1,
    }
}

impl FunctionKind {
    /// The function named `s`, if any.
    pub fn from_str(s: &str) -> (r: Option<FunctionKind>)
        ensures
            r == spec_function_kind(s@),
    {
        if str_eq(s, "sin") {
            Some(FunctionKind::Sin)
        } else if str_eq(s, "cos") {
            Some(FunctionKind::Cos)
        } else if str_eq(s, "abs") {
            Some(FunctionKind::Abs)
        } else if str_eq(s, "norm") {
            Some(FunctionKind::Norm)
        } else if str_eq(s, "all") {
            Some(FunctionKind::All)
        } else if str_eq(s, "any") {
            Some(FunctionKind::Any)
        } else if str_eq(s, "dot") {
            Some(FunctionKind::Dot)
        } else if str_eq(s, "cross") {
            Some(FunctionKind::Cross)
        } else if str_eq(s, "min") {
            Some(FunctionKind::Min)
        } else if str_eq(s, "max") {
            Some(FunctionKind::Max)
        } else if str_eq(s, "vec2") {
            Some(FunctionKind::Vec2)
        } else if str_eq(s, "vec3") {
            Some(FunctionKind::Vec3)
        } else if str_eq(s, "attr") {
            Some(FunctionKind::Attr)
        } else if str_eq(s, "prop") {
            Some(FunctionKind::Prop)
        } else {
            None
        }
    }

    /// How many arguments this function takes.
    pub fn arity(&self) -> (n: usize)
        ensures
            n == spec_arity(*self),
    {
        match self {
            FunctionKind::Sin | FunctionKind::Cos | FunctionKind::Abs | FunctionKind::Norm
            | FunctionKind::All | FunctionKind::Any => 1,
            FunctionKind::Dot | FunctionKind::Cross | FunctionKind::Min | FunctionKind::Max
            | FunctionKind::Vec2 => 2,
            FunctionKind::Vec3 => 3,
            FunctionKind::Attr | FunctionKind::Prop => 1,
        }
    }
}

// ====================
// The token grammar.
// ====================

/// The end of the run of whitespace starting at `p`.
pub open spec fn whitespace_end(s: Seq<char>, p: int) -> int
    decreases s.len() - p,
{
    if 0 <= p < s.len() && spec_is_whitespace(s[p]) {
        whitespace_end(s, p + 1)
    } else {
        p
    }
}

/// A character that may continue a name.
pub open spec fn is_name_char(c: char) -> bool {
    spec_is_alphabetic(c) || spec_is_numeric(c) || c == '_'
}

/// The end of the run of name characters starting at `p`.
pub open spec fn name_end(s: Seq<char>, p: int) -> int
    decreases s.len() - p,
{
    if 0 <= p < s.len() && is_name_char(s[p]) {
        name_end(s, p + 1)
    } else {
        p
    }
}

/// The position of the first `"` at or after `p`, or the end of the input.
pub open spec fn quote_pos(s: Seq<char>, p: int) -> int
    decreases s.len() - p,
{
    if 0 <= p < s.len() && s[p] != '"' {
        quote_pos(s, p + 1)
    } else {
        p
    }
}

/// The end of a number whose scan is at `p` (`has_dot`: a `.` has been taken):
/// digits, and at most one `.` that is followed by a digit.
pub open spec fn number_end(s: Seq<char>, p: int, has_dot: bool) -> (int, bool)
    decreases s.len() - p,
{
    if 0 <= p < s.len() {
        if spec_is_digit(s[p]) {
            number_end(s, p + 1, has_dot)
        } else if s[p] == '.' && !has_dot && p + 1 < s.len() && spec_is_digit(s[p + 1]) {
            number_end(s, p + 1, true)
        } else {
            (p, has_dot)
        }
    } else {
        (p, has_dot)
    }
}

/// The kind of a number token starting at `p`, and where it ends.
pub open spec fn number_token(s: Seq<char>, p: int) -> (TokenKind, int) {
    let (e, has_dot) = number_end(s, p, false);
    (if has_dot { TokenKind::Float } else { TokenKind::Integer }, e)
}

/// The kind of a name: a function, a built-in, or a plain identifier.
pub open spec fn name_kind(name: Seq<char>) -> TokenKind {
    match spec_function_kind(name) {
        Some(f) => TokenKind::Function(f),
        None => match spec_builtin_from_name(name) {
            Some(b) => TokenKind::BuiltIn(b),
            None => TokenKind::Identifier,
        },
    }
}

/// Whether `s[p]` exists and is `c`.
pub open spec fn char_at_is(s: Seq<char>, p: int, c: char) -> bool {
    0 <= p < s.len() && s[p] == c
}

/// The kind and the end of the token that starts at `p < s.len()`.
pub open spec fn scan_at(s: Seq<char>, p: int) -> (TokenKind, int) {
    let c = s[p];
    if c == '(' {
        (TokenKind::LeftParen, p + 1)
    } else if c == ')' {
        (TokenKind::RightParen, p + 1)
    } else if c == ',' {
        (TokenKind::Comma, p + 1)
    } else if c == '.' {
        if p + 1 < s.len() && spec_is_digit(s[p + 1]) {
            number_token(s, p)
        } else {
            (TokenKind::Dot, p + 1)
        }
    } else if c == '+' {
        (TokenKind::BinaryOp(XBinaryOp::Add), p + 1)
    } else if c == '-' {
        (TokenKind::BinaryOp(XBinaryOp::Sub), p + 1)
    } else if c == '*' {
        (TokenKind::BinaryOp(XBinaryOp::Mul), p + 1)
    } else if c == '/' {
        (TokenKind::BinaryOp(XBinaryOp::Div), p + 1)
    } else if c == '<' {
        if char_at_is(s, p + 1, '=') {
            (TokenKind::BinaryOp(XBinaryOp::Lte), p + 2)
        } else {
            (TokenKind::BinaryOp(XBinaryOp::Lt), p + 1)
        }
    } else if c == '>' {
        if char_at_is(s, p + 1, '=') {
            (TokenKind::BinaryOp(XBinaryOp::Gte), p + 2)
        } else {
            (TokenKind::BinaryOp(XBinaryOp::Ge), p + 1)
        }
    } else if c == '=' {
        if char_at_is(s, p + 1, '=') {
            (TokenKind::BinaryOp(XBinaryOp::Eq), p + 2)
        } else {
            (TokenKind::Error, p + 1)
        }
    } else if c == '!' {
        if char_at_is(s, p + 1, '=') {
            (TokenKind::BinaryOp(XBinaryOp::Neq), p + 2)
        } else {
            (TokenKind::Error, p + 1)
        }
    } else if c == '"' {
        let q = quote_pos(s, p + 1);
        if q >= s.len() {
            (TokenKind::Error, q)
        } else {
            (TokenKind::String, q + 1)
        }
    } else if spec_is_whitespace(c) {
        (TokenKind::Whitespace, whitespace_end(s, p + 1))
    } else if spec_is_digit(c) {
        number_token(s, p)
    } else if spec_is_alphabetic(c) || c == '_' {
        let e = name_end(s, p);
        (name_kind(s.subrange(p, e)), e)
    } else {
        (TokenKind::Error, p + 1)
    }
}

/// The tokens of `s` from position `p` on.
pub open spec fn tokens_from(s: Seq<char>, p: int) -> Seq<SToken>
    decreases s.len() - p,
{
    if 0 <= p < s.len() {
        let (k, e) = scan_at(s, p);
        if p < e <= s.len() {
            seq![SToken { kind: k, text: s.subrange(p, e), start: p, end: e }] + tokens_from(
                s,
                e,
            )
        } else {
            Seq::empty()
        }
    } else {
        Seq::empty()
    }
}

/// The tokens of `s`.
pub open spec fn spec_tokenize(s: Seq<char>) -> Seq<SToken> {
    tokens_from(s, 0)
}

// ====================
// Facts about the grammar.
// ====================

/// A run of whitespace ends inside the input, no earlier than it starts.
pub(crate) proof fn lemma_whitespace_end(s: Seq<char>, p: int)
    requires
        0 <= p <= s.len(),
    ensures
        p <= whitespace_end(s, p) <= s.len(),
    decreases s.len() - p,
{
    if p < s.len() && spec_is_whitespace(s[p]) {
        lemma_whitespace_end(s, p + 1);
    }
}

pub(crate) proof fn lemma_name_end(s: Seq<char>, p: int)
    requires
        0 <= p <= s.len(),
    ensures
        p <= name_end(s, p) <= s.len(),
    decreases s.len() - p,
{
    if p < s.len() && is_name_char(s[p]) {
        lemma_name_end(s, p + 1);
    }
}

pub(crate) proof fn lemma_quote_pos(s: Seq<char>, p: int)
    requires
        0 <= p <= s.len(),
    ensures
        p <= quote_pos(s, p) <= s.len(),
        quote_pos(s, p) < s.len() ==> s[quote_pos(s, p)] == '"',
    decreases s.len() - p,
{
    if p < s.len() && s[p] != '"' {
        lemma_quote_pos(s, p + 1);
    }
}

proof fn lemma_number_end(s: Seq<char>, p: int, has_dot: bool)
    requires
        0 <= p <= s.len(),
    ensures
        p <= number_end(s, p, has_dot).0 <= s.len(),
        has_dot ==> number_end(s, p, has_dot).1,
    decreases s.len() - p,
{
    if p < s.len() {
        if spec_is_digit(s[p]) {
            lemma_number_end(s, p + 1, has_dot);
        } else if s[p] == '.' && !has_dot && p + 1 < s.len() && spec_is_digit(s[p + 1]) {
            lemma_number_end(s, p + 1, true);
        }
    }
}

/// Every scan makes progress and stays inside the input.
pub proof fn lemma_scan_progress(s: Seq<char>, p: int)
    requires
        0 <= p < s.len(),
    ensures
        p < scan_at(s, p).1 <= s.len(),
{
    let c = s[p];
    lemma_whitespace_end(s, p + 1);
    lemma_quote_pos(s, p + 1);
    lemma_name_end(s, p);
    if spec_is_digit(c) {
        lemma_number_end(s, p + 1, false);
    }
    if c == '.' && p + 1 < s.len() && spec_is_digit(s[p + 1]) {
        lemma_number_end(s, p + 1, true);
    }
    if !(c == '(' || c == ')' || c == ',' || c == '.' || c == '+' || c == '-' || c == '*' || c
        == '/' || c == '<' || c == '>' || c == '=' || c == '!' || c == '"' || spec_is_whitespace(c)
        || spec_is_digit(c)) && (spec_is_alphabetic(c) || c == '_') {
        assert(is_name_char(s[p]));
        lemma_name_end(s, p + 1);
    }
}

// ====================
// The tokenizer.
// ====================

/// The views of a sequence of tokens.
pub open spec fn token_views(ts: Seq<Token>) -> Seq<SToken> {
    ts.map_values(|t: Token| t@)
}

/// Splits an input into tokens.
pub struct Tokenizer {
    input: Vec<char>,
    pos: usize,
    tokens: Vec<Token>,
}

impl Tokenizer {
    /// The characters being tokenized.
    pub closed spec fn source(&self) -> Seq<char> {
        self.input@
    }

    /// Where scanning stands.
    pub closed spec fn position(&self) -> int {
        self.pos as int
    }

    /// The tokens produced so far.
    pub closed spec fn produced(&self) -> Seq<SToken> {
        token_views(self.tokens@)
    }

    /// A tokenizer at the start of `input`.
    pub fn new(input: &str) -> (t: Tokenizer)
        ensures
            t.source() == input@,
            t.position() == 0,
            t.produced() == Seq::<SToken>::empty(),
    {
        let t = Tokenizer { input: chars_of(input), pos: 0, tokens: Vec::new() };
        assert(token_views(t.tokens@) =~= Seq::<SToken>::empty());
        t
    }

    /// All tokens: those produced so far, then those of the rest of the input.
    /// For a new tokenizer these are the tokens of the whole input.
    pub fn tokenize(self) -> (r: Vec<Token>)
        ensures
            token_views(r@) == self.produced() + tokens_from(self.source(), self.position()),
    {
        let mut this = self;
        this.run()
    }

    /// Scans to the end of the input and hands the tokens out.
    fn run(&mut self) -> (r: Vec<Token>)
        ensures
            token_views(r@) == token_views(old(self).tokens@) + tokens_from(
                old(self).input@,
                old(self).pos as int,
            ),
    {
        let ghost s = self.input@;
        let ghost first = token_views(self.tokens@);
        let ghost p0 = self.pos as int;
        assert(tokens_from(s, p0) == tokens_from(s, self.pos as int));
        assert(first + tokens_from(s, p0) =~= token_views(self.tokens@) + tokens_from(
            s,
            self.pos as int,
        ));
        while self.pos < self.input.len()
            invariant
                self.input@ == s,
                first + tokens_from(s, p0) == token_views(self.tokens@) + tokens_from(
                    s,
                    self.pos as int,
                ),
            decreases self.input.len() - self.pos,
        {
            let ghost before = token_views(self.tokens@);
            let ghost p = self.pos as int;
            self.scan_token();
            proof {
                lemma_scan_progress(s, p);
                let (k, e) = scan_at(s, p);
                assert(tokens_from(s, p) == seq![
                    SToken { kind: k, text: s.subrange(p, e), start: p, end: e },
                ] + tokens_from(s, e));
                assert(token_views(self.tokens@) =~= before.push(
                    SToken { kind: k, text: s.subrange(p, e), start: p, end: e },
                ));
                assert(before + tokens_from(s, p) =~= token_views(self.tokens@) + tokens_from(
                    s,
                    e,
                ));
            }
        }
        proof {
            assert(tokens_from(s, self.pos as int) =~= Seq::<SToken>::empty());
            assert(token_views(self.tokens@) + tokens_from(s, self.pos as int) =~= token_views(
                self.tokens@,
            ));
        }
        let mut out: Vec<Token> = Vec::new();
        std::mem::swap(&mut out, &mut self.tokens);
        out
    }

    /// Scans the token at the current position and appends it.
    fn scan_token(&mut self)
        requires
            old(self).pos < old(self).input.len(),
        ensures
            final(self).input@ == old(self).input@,
            final(self).pos as int == scan_at(old(self).input@, old(self).pos as int).1,
            token_views(final(self).tokens@) == token_views(old(self).tokens@).push(
                SToken {
                    kind: scan_at(old(self).input@, old(self).pos as int).0,
                    text: old(self).input@.subrange(
                        old(self).pos as int,
                        scan_at(old(self).input@, old(self).pos as int).1,
                    ),
                    start: old(self).pos as int,
                    end: scan_at(old(self).input@, old(self).pos as int).1,
                },
            ),
    {
        let ghost s = self.input@;
        let start = self.pos;
        let ch = self.advance();
        proof {
            reveal_strlit("=");
            reveal_strlit("!");
        }
        if ch == '(' {
            self.add_token(TokenKind::LeftParen, start);
        } else if ch == ')' {
            self.add_token(TokenKind::RightParen, start);
        } else if ch == ',' {
            self.add_token(TokenKind::Comma, start);
        } else if ch == '.' {
            let next_is_digit = match self.peek() {
                Some(c) => is_ascii_digit(c),
                None => false,
            };
            if next_is_digit {
                self.pos = start;
                self.scan_number();
            } else {
                self.add_token(TokenKind::Dot, start);
            }
        } else if ch == '+' {
            self.add_token(TokenKind::BinaryOp(XBinaryOp::Add), start);
        } else if ch == '-' {
            self.add_token(TokenKind::BinaryOp(XBinaryOp::Sub), start);
        } else if ch == '*' {
            self.add_token(TokenKind::BinaryOp(XBinaryOp::Mul), start);
        } else if ch == '/' {
            self.add_token(TokenKind::BinaryOp(XBinaryOp::Div), start);
        } else if ch == '<' {
            if self.match_char('=') {
                self.add_token(TokenKind::BinaryOp(XBinaryOp::Lte), start);
            } else {
                self.add_token(TokenKind::BinaryOp(XBinaryOp::Lt), start);
            }
        } else if ch == '>' {
            if self.match_char('=') {
                self.add_token(TokenKind::BinaryOp(XBinaryOp::Gte), start);
            } else {
                self.add_token(TokenKind::BinaryOp(XBinaryOp::Ge), start);
            }
        } else if ch == '=' {
            if self.match_char('=') {
                self.add_token(TokenKind::BinaryOp(XBinaryOp::Eq), start);
            } else {
                assert("="@ =~= s.subrange(start as int, self.pos as int));
                self.add_token_with_text(TokenKind::Error, "=", start);
            }
        } else if ch == '!' {
            if self.match_char('=') {
                self.add_token(TokenKind::BinaryOp(XBinaryOp::Neq), start);
            } else {
                assert("!"@ =~= s.subrange(start as int, self.pos as int));
                self.add_token_with_text(TokenKind::Error, "!", start);
            }
        } else if ch == '"' {
            self.scan_string(start);
        } else if is_whitespace(ch) {
            self.scan_whitespace(start);
        } else if is_ascii_digit(ch) {
            self.pos = start;
            self.scan_number();
        } else if is_alphabetic(ch) || ch == '_' {
            self.pos = start;
            self.scan_identifier();
        } else {
            let mut text = String::new();
            push_char(&mut text, ch);
            assert(text@ =~= s.subrange(start as int, self.pos as int));
            self.add_token_with_text(TokenKind::Error, text.as_str(), start);
        }
    }

    /// Scans the rest of a whitespace run that began at `start`.
    fn scan_whitespace(&mut self, start: usize)
        requires
            start < old(self).pos <= old(self).input.len(),
            old(self).pos == start + 1,
        ensures
            final(self).input@ == old(self).input@,
            final(self).pos as int == whitespace_end(old(self).input@, old(self).pos as int),
            token_views(final(self).tokens@) == token_views(old(self).tokens@).push(
                SToken {
                    kind: TokenKind::Whitespace,
                    text: old(self).input@.subrange(start as int, final(self).pos as int),
                    start: start as int,
                    end: final(self).pos as int,
                },
            ),
    {
        let ghost s = self.input@;
        let ghost p0 = self.pos as int;
        loop
            invariant
                self.input@ == s,
                start < self.pos <= s.len(),
                whitespace_end(s, p0) == whitespace_end(s, self.pos as int),
                self.tokens == old(self).tokens,
            ensures
                self.input@ == s,
                start < self.pos <= s.len(),
                whitespace_end(s, p0) == self.pos as int,
                self.tokens == old(self).tokens,
            decreases s.len() - self.pos,
        {
            let more = match self.peek() {
                Some(c) => is_whitespace(c),
                None => false,
            };
            if !more {
                break;
            }
            self.advance();
        }
        self.add_token(TokenKind::Whitespace, start);
    }

    /// Scans a string literal whose opening quote is at `start`.
    fn scan_string(&mut self, start: usize)
        requires
            old(self).pos == start + 1,
            start < old(self).input.len(),
        ensures
            final(self).input@ == old(self).input@,
            ({
                let q = quote_pos(old(self).input@, start + 1);
                let e = if q >= old(self).input@.len() { q } else { q + 1 };
                &&& final(self).pos as int == e
                &&& token_views(final(self).tokens@) == token_views(old(self).tokens@).push(
                    SToken {
                        kind: if q >= old(self).input@.len() {
                            TokenKind::Error
                        } else {
                            TokenKind::String
                        },
                        text: old(self).input@.subrange(start as int, e),
                        start: start as int,
                        end: e,
                    },
                )
            }),
    {
        let ghost s = self.input@;
        loop
            invariant
                self.input@ == s,
                start < self.pos <= s.len(),
                quote_pos(s, start + 1) == quote_pos(s, self.pos as int),
                self.tokens == old(self).tokens,
            ensures
                self.input@ == s,
                start < self.pos <= s.len(),
                quote_pos(s, start + 1) == self.pos as int,
                self.tokens == old(self).tokens,
            decreases s.len() - self.pos,
        {
            let at_quote = match self.peek() {
                Some(c) => c == '"',
                None => true,
            };
            if at_quote {
                break;
            }
            self.advance();
        }
        if self.pos >= self.input.len() {
            self.add_token(TokenKind::Error, start);
        } else {
            self.advance();
            self.add_token(TokenKind::String, start);
        }
    }

    /// Scans a number starting at the current position.
    fn scan_number(&mut self)
        requires
            old(self).pos < old(self).input.len(),
        ensures
            final(self).input@ == old(self).input@,
            ({
                let (k, e) = number_token(old(self).input@, old(self).pos as int);
                &&& final(self).pos as int == e
                &&& token_views(final(self).tokens@) == token_views(old(self).tokens@).push(
                    SToken {
                        kind: k,
                        text: old(self).input@.subrange(old(self).pos as int, e),
                        start: old(self).pos as int,
                        end: e,
                    },
                )
            }),
    {
        let ghost s = self.input@;
        let start = self.pos;
        let mut has_dot = false;
        loop
            invariant
                self.input@ == s,
                start <= self.pos <= s.len(),
                number_end(s, start as int, false) == number_end(s, self.pos as int, has_dot),
                self.tokens == old(self).tokens,
            ensures
                self.input@ == s,
                start <= self.pos <= s.len(),
                number_end(s, start as int, false) == (self.pos as int, has_dot),
                self.tokens == old(self).tokens,
            decreases s.len() - self.pos,
        {
            let c = match self.peek() {
                Some(c) => c,
                None => break,
            };
            if is_ascii_digit(c) {
                self.advance();
            } else if c == '.' && !has_dot {
                let next_is_digit = match self.peek_next() {
                    Some(d) => is_ascii_digit(d),
                    None => false,
                };
                if next_is_digit {
                    has_dot = true;
                    self.advance();
                } else {
                    break;
                }
            } else {
                break;
            }
        }
        let kind = if has_dot {
            TokenKind::Float
        } else {
            TokenKind::Integer
        };
        self.add_token(kind, start);
    }

    /// Scans a name starting at the current position; keywords become function
    /// or built-in tokens.
    fn scan_identifier(&mut self)
        requires
            old(self).pos < old(self).input.len(),
            is_name_char(old(self).input@[old(self).pos as int]),
        ensures
            final(self).input@ == old(self).input@,
            ({
                let p = old(self).pos as int;
                let e = name_end(old(self).input@, p);
                &&& final(self).pos as int == e
                &&& token_views(final(self).tokens@) == token_views(old(self).tokens@).push(
                    SToken {
                        kind: name_kind(old(self).input@.subrange(p, e)),
                        text: old(self).input@.subrange(p, e),
                        start: p,
                        end: e,
                    },
                )
            }),
    {
        let ghost s = self.input@;
        let start = self.pos;
        loop
            invariant
                self.input@ == s,
                start <= self.pos <= s.len(),
                name_end(s, start as int) == name_end(s, self.pos as int),
                self.tokens == old(self).tokens,
            ensures
                self.input@ == s,
                start <= self.pos <= s.len(),
                name_end(s, start as int) == self.pos as int,
                self.tokens == old(self).tokens,
            decreases s.len() - self.pos,
        {
            let more = match self.peek() {
                Some(c) => is_alphanumeric(c) || c == '_',
                None => false,
            };
            if !more {
                break;
            }
            self.advance();
        }
        let text = string_of(&self.input, start, self.pos);
        let kind = match FunctionKind::from_str(text.as_str()) {
            Some(func) => TokenKind::Function(func),
            None => match XBuiltInOp::from_name(text.as_str()) {
                Ok(builtin) => TokenKind::BuiltIn(builtin),
                Err(_) => TokenKind::Identifier,
            },
        };
        self.add_token(kind, start);
    }

    // ====================
    // Character helpers.
    // ====================

    /// Takes the current character and moves past it.
    fn advance(&mut self) -> (c: char)
        requires
            old(self).pos < old(self).input.len(),
        ensures
            c == old(self).input@[old(self).pos as int],
            final(self).pos == old(self).pos + 1,
            final(self).input == old(self).input,
            final(self).tokens == old(self).tokens,
    {
        let ch = self.input[self.pos];
        self.pos = self.pos + 1;
        ch
    }

    /// The current character, if any.
    fn peek(&self) -> (r: Option<char>)
        ensures
            r == (if self.pos < self.input.len() {
                Some(self.input@[self.pos as int])
            } else {
                None::<char>
            }),
    {
        if self.pos < self.input.len() {
            Some(self.input[self.pos])
        } else {
            None
        }
    }

    /// The character after the current one, if any.
    fn peek_next(&self) -> (r: Option<char>)
        ensures
            r == (if self.pos + 1 < self.input.len() {
                Some(self.input@[self.pos + 1])
            } else {
                None::<char>
            }),
    {
        if self.pos < self.input.len() && self.pos + 1 < self.input.len() {
            Some(self.input[self.pos + 1])
        } else {
            None
        }
    }

    /// Moves past the current character when it is `expected`.
    fn match_char(&mut self, expected: char) -> (b: bool)
        ensures
            b == char_at_is(old(self).input@, old(self).pos as int, expected),
            final(self).pos == (if b { old(self).pos + 1 } else { old(self).pos as int }),
            final(self).input == old(self).input,
            final(self).tokens == old(self).tokens,
    {
        if self.peek() == Some(expected) {
            self.advance();
            true
        } else {
            false
        }
    }

    /// Appends a token of `kind` whose text is `input[start..pos]`.
    fn add_token(&mut self, kind: TokenKind, start: usize)
        requires
            start <= old(self).pos <= old(self).input.len(),
        ensures
            final(self).input == old(self).input,
            final(self).pos == old(self).pos,
            token_views(final(self).tokens@) == token_views(old(self).tokens@).push(
                SToken {
                    kind,
                    text: old(self).input@.subrange(start as int, old(self).pos as int),
                    start: start as int,
                    end: old(self).pos as int,
                },
            ),
    {
        let text = string_of(&self.input, start, self.pos);
        self.add_token_with_text(kind, text.as_str(), start);
    }

    /// Appends a token of `kind` with the given text, covering `start..pos`.
    fn add_token_with_text(&mut self, kind: TokenKind, text: &str, start: usize)
        ensures
            final(self).input == old(self).input,
            final(self).pos == old(self).pos,
            token_views(final(self).tokens@) == token_views(old(self).tokens@).push(
                SToken { kind, text: text@, start: start as int, end: old(self).pos as int },
            ),
    {
        let t = Token { kind, text: text.to_owned(), start, end: self.pos };
        self.tokens.push(t);
        assert(token_views(self.tokens@) =~= token_views(old(self).tokens@).push(t@));
    }
}

// ====================
// Tokens cover their input.
// ====================

/// The texts of tokens, one after another.
pub open spec fn joined_text(ts: Seq<SToken>) -> Seq<char>
    decreases ts.len(),
{
    if ts.len() == 0 {
        Seq::empty()
    } else {
        ts[0].text + joined_text(ts.drop_first())
    }
}

/// Tokens that lie side by side from `from` to `to`: each non-empty, each one
/// starting where the one before ended, each holding the text of its range.
pub open spec fn tiles(s: Seq<char>, ts: Seq<SToken>, from: int, to: int) -> bool {
    &&& (ts.len() == 0 ==> from == to)
    &&& (ts.len() > 0 ==> ts[0].start == from && ts.last().end == to)
    &&& forall|i: int|
        0 <= i < ts.len() ==> #[trigger] ts[i].start < ts[i].end && ts[i].text == s.subrange(
            ts[i].start,
            ts[i].end,
        )
    &&& forall|i: int| 0 <= i < ts.len() - 1 ==> #[trigger] ts[i].end == ts[i + 1].start
}

proof fn lemma_tokens_from_tile(s: Seq<char>, p: int)
    requires
        0 <= p <= s.len(),
    ensures
        tiles(s, tokens_from(s, p), p, s.len() as int),
        joined_text(tokens_from(s, p)) == s.subrange(p, s.len() as int),
    decreases s.len() - p,
{
    if p < s.len() {
        lemma_scan_progress(s, p);
        let (k, e) = scan_at(s, p);
        lemma_tokens_from_tile(s, e);
        let head = SToken { kind: k, text: s.subrange(p, e), start: p, end: e };
        let rest = tokens_from(s, e);
        let ts = tokens_from(s, p);
        assert(ts == seq![head] + rest);
        assert(ts.drop_first() =~= rest);
        assert(ts[0] == head);
        assert forall|i: int| 0 <= i < ts.len() implies #[trigger] ts[i].start < ts[i].end
            && ts[i].text == s.subrange(ts[i].start, ts[i].end) by {
            if i > 0 {
                assert(ts[i] == rest[i - 1]);
            }
        }
        assert forall|i: int| 0 <= i < ts.len() - 1 implies #[trigger] ts[i].end == ts[i
            + 1].start by {
            if i > 0 {
                assert(ts[i] == rest[i - 1]);
                assert(ts[i + 1] == rest[i]);
            } else {
                assert(ts[1] == rest[0]);
            }
        }
        if rest.len() > 0 {
            assert(ts.last() == rest.last());
        }
        assert(s.subrange(p, s.len() as int) =~= s.subrange(p, e) + s.subrange(
            e,
            s.len() as int,
        ));
    } else {
        assert(s.subrange(p, s.len() as int) =~= Seq::<char>::empty());
    }
}

/// Tokenizing loses nothing: the tokens of `s` lie side by side from the start
/// to the end of `s`, each non-empty and holding the text it covers, and their
/// texts put together give `s` back.
pub proof fn lemma_tokenize_covers_input(s: Seq<char>)
    ensures
        tiles(s, spec_tokenize(s), 0, s.len() as int),
        joined_text(spec_tokenize(s)) == s,
        spec_tokenize(s).len() == 0 <==> s.len() == 0,
{
    lemma_tokens_from_tile(s, 0);
    assert(s.subrange(0, s.len() as int) =~= s);
}

// ====================
// Syntax highlighting.
// ====================

/// Highlighting categories.
#[derive(Debug, Clone, Copy, PartialEq, Eq, Structural)]
pub enum SyntaxHighlight {
    Number,
    String,
    Keyword,
    Function,
    Operator,
    Identifier,
    BuiltIn,
    Punctuation,
    Error,
}

/// The highlighting category of a token kind; whitespace has none.
pub open spec fn spec_highlight(k: TokenKind) -> Option<SyntaxHighlight> {
    match k {
        TokenKind::Integer | TokenKind::Float => Some(SyntaxHighlight::Number),
        TokenKind::String => Some(SyntaxHighlight::String),
        TokenKind::Function(_) => Some(SyntaxHighlight::Function),
        TokenKind::BuiltIn(_) => Some(SyntaxHighlight::BuiltIn),
        TokenKind::UnaryOp(_) | TokenKind::BinaryOp(_) => Some(SyntaxHighlight::Operator),
        TokenKind::Identifier | TokenKind::Attribute | TokenKind::Property => Some(
            SyntaxHighlight::Identifier,
        ),
        TokenKind::LeftParen | TokenKind::RightParen | TokenKind::Comma | TokenKind::Dot => Some(
            SyntaxHighlight::Punctuation,
        ),
        TokenKind::Error => Some(SyntaxHighlight::Error),
        TokenKind::Whitespace => None,
    }
}

impl Token {
    /// The highlighting category of this token.
    pub fn syntax_highlight(&self) -> (r: Option<SyntaxHighlight>)
        ensures
            r == spec_highlight(self.kind),
    {
        match &self.kind {
            TokenKind::Integer | TokenKind::Float => Some(SyntaxHighlight::Number),
            TokenKind::String => Some(SyntaxHighlight::String),
            TokenKind::Function(_) => Some(SyntaxHighlight::Function),
            TokenKind::BuiltIn(_) => Some(SyntaxHighlight::BuiltIn),
            TokenKind::UnaryOp(_) | TokenKind::BinaryOp(_) => Some(SyntaxHighlight::Operator),
            TokenKind::Identifier | TokenKind::Attribute | TokenKind::Property => Some(
                SyntaxHighlight::Identifier,
            ),
            TokenKind::LeftParen | TokenKind::RightParen | TokenKind::Comma | TokenKind::Dot => {
                Some(SyntaxHighlight::Punctuation)
            },
            TokenKind::Error => Some(SyntaxHighlight::Error),
            TokenKind::Whitespace => None,
        }
    }
}

/// Each highlighting category is given to exactly its own token kinds:
/// numbers to integers and reals, strings to strings, functions to function
/// names, built-ins to built-in names, operators to operator symbols, names
/// to identifiers, attributes and properties, punctuation to parentheses,
/// commas and dots, and errors to error tokens; whitespace gets none, and no
/// token is highlighted as a keyword. So two tokens are highlighted alike
/// exactly when their kinds are of one of these groups.
pub proof fn lemma_highlight_categories(k: TokenKind)
    ensures
        spec_highlight(k) == Some(SyntaxHighlight::Number) <==> (k == TokenKind::Integer || k
            == TokenKind::Float),
        spec_highlight(k) == Some(SyntaxHighlight::String) <==> k == TokenKind::String,
        spec_highlight(k) == Some(SyntaxHighlight::Function) <==> k is Function,
        spec_highlight(k) == Some(SyntaxHighlight::BuiltIn) <==> k is BuiltIn,
        spec_highlight(k) == Some(SyntaxHighlight::Operator) <==> (k is UnaryOp || k is BinaryOp),
        spec_highlight(k) == Some(SyntaxHighlight::Identifier) <==> (k == TokenKind::Identifier
            || k == TokenKind::Attribute || k == TokenKind::Property),
        spec_highlight(k) == Some(SyntaxHighlight::Punctuation) <==> (k == TokenKind::LeftParen
            || k == TokenKind::RightParen || k == TokenKind::Comma || k == TokenKind::Dot),
        spec_highlight(k) == Some(SyntaxHighlight::Error) <==> k == TokenKind::Error,
        spec_highlight(k) is None <==> k == TokenKind::Whitespace,
        spec_highlight(k) != Some(SyntaxHighlight::Keyword),
{
}

// ====================
// Auto-completion.
// ====================

/// What a completion inserts.
#[derive(Debug, Clone, Copy, PartialEq, Eq, Structural)]
pub enum CompletionKind {
    Function,
    BuiltIn,
    Attribute,
    Property,
    Keyword,
}

/// A completion suggestion.
#[derive(Debug, Clone, PartialEq)]
pub struct CompletionItem {
    pub label: String,
    pub kind: CompletionKind,
    pub detail: Option<String>,
    pub insert_text: String,
}

/// A completion suggestion as the specification sees it.
pub struct SCompletion {
    pub label: Seq<char>,
    pub kind: CompletionKind,
    pub detail: Option<Seq<char>>,
    pub insert_text: Seq<char>,
}

impl View for CompletionItem {
    type V = SCompletion;

    open spec fn view(&self) -> SCompletion {
        SCompletion {
            label: self.label@,
            kind: self.kind,
            detail: match self.detail {
                Some(d) => Some(d@),
                None => None,
            },
            insert_text: self.insert_text@,
        }
    }
}

/// How many suggestions the completion table holds.
pub open spec fn completion_count() -> nat {
    25
}

/// One completion entry: label, kind, detail, inserted text.
pub open spec fn completion_entry(i: int) -> (Seq<char>, CompletionKind, Seq<char>, Seq<char>) {
    if i == 0 {
        ("sin"@, CompletionKind::Function, "Sine function"@, "sin(1.0)"@)
    } else if i == 1 {
        ("cos"@, CompletionKind::Function, "Cosine function"@, "cos(1.0)"@)
    } else if i == 2 {
        ("abs"@, CompletionKind::Function, "Absolute value"@, "abs(1.0)"@)
    } else if i == 3 {
        ("norm"@, CompletionKind::Function, "Normalize vector"@, "norm(vec2(1.0, 1.0))"@)
    } else if i == 4 {
        (
            "all"@,
            CompletionKind::Function,
            "Check if all components are true"@,
            "all(vec2(1.0, 1.0))"@,
        )
    } else if i == 5 {
        (
            "any"@,
            CompletionKind::Function,
            "Check if any component is true"@,
            "any(vec2(1.0, 1.0))"@,
        )
    } else if i == 6 {
        ("dot"@, CompletionKind::Function, "Dot product"@, "dot(vec2(1.0, 1.0), vec2(1.0, 1.0))"@)
    } else if i == 7 {
        (
            "cross"@,
            CompletionKind::Function,
            "Cross product"@,
            "cross(vec3(1.0, 1.0, 1.0), vec3(1.0, 1.0, 1.0))"@,
        )
    } else if i == 8 {
        ("min"@, CompletionKind::Function, "Minimum value"@, "min(1.0, 1.0)"@)
    } else if i == 9 {
        ("max"@, CompletionKind::Function, "Maximum value"@, "max(1.0, 1.0)"@)
    } else if i == 10 {
        ("vec2"@, CompletionKind::Function, "2D vector constructor"@, "vec2(1.0, 1.0)"@)
    } else if i == 11 {
        ("vec3"@, CompletionKind::Function, "3D vector constructor"@, "vec3(1.0, 1.0, 1.0)"@)
    } else if i == 12 {
        ("attr"@, CompletionKind::Function, "Access particle attribute"@, "attr(\"name\")"@)
    } else if i == 13 {
        ("prop"@, CompletionKind::Function, "Access effect property"@, "prop(\"name\")"@)
    } else if i == 14 {
        ("time"@, CompletionKind::BuiltIn, "Current simulation time"@, "time"@)
    } else if i == 15 {
        ("delta_time"@, CompletionKind::BuiltIn, "Time since last update"@, "delta_time"@)
    } else if i == 16 {
        ("rand"@, CompletionKind::BuiltIn, "Random value [0, 1]"@, "rand"@)
    } else if i == 17 {
        ("alpha_cutoff"@, CompletionKind::BuiltIn, "Alpha mask threshold"@, "alpha_cutoff"@)
    } else if i == 18 {
        ("particle_id"@, CompletionKind::BuiltIn, "Unique particle identifier"@, "particle_id"@)
    } else if i == 19 {
        ("position"@, CompletionKind::Attribute, "Particle position"@, "position"@)
    } else if i == 20 {
        ("velocity"@, CompletionKind::Attribute, "Particle velocity"@, "velocity"@)
    } else if i == 21 {
        ("lifetime"@, CompletionKind::Attribute, "Particle lifetime"@, "lifetime"@)
    } else if i == 22 {
        ("age"@, CompletionKind::Attribute, "Particle age"@, "age"@)
    } else if i == 23 {
        ("color"@, CompletionKind::Attribute, "Particle color"@, "color"@)
    } else {
        ("size"@, CompletionKind::Attribute, "Particle size"@, "size"@)
    }
}

/// The suggestion for completion entry `i`.
pub open spec fn completion_item(i: int) -> SCompletion {
    let (label, kind, detail, insert_text) = completion_entry(i);
    SCompletion { label, kind, detail: Some(detail), insert_text }
}

/// The entries among the first `n` whose label starts with `prefix`, in table order.
pub open spec fn completions_upto(prefix: Seq<char>, n: int) -> Seq<SCompletion>
    decreases n,
{
    if n <= 0 {
        Seq::empty()
    } else if prefix.is_prefix_of(completion_entry(n - 1).0) {
        completions_upto(prefix, n - 1).push(completion_item(n - 1))
    } else {
        completions_upto(prefix, n - 1)
    }
}

/// The suggestions for `prefix`: the functions, then the built-ins, then the
/// particle attributes whose name starts with `prefix`.
pub open spec fn spec_completions(prefix: Seq<char>) -> Seq<SCompletion> {
    completions_upto(prefix, completion_count() as int)
}

/// The suggestions among the first `n` entries are exactly those entries whose
/// label starts with `prefix`, in table order; for the empty prefix, all `n`.
proof fn lemma_completions_upto(prefix: Seq<char>, n: int)
    requires
        0 <= n <= completion_count(),
    ensures
        forall|k: int|
            0 <= k < completions_upto(prefix, n).len() ==> exists|i: int|
                0 <= i < n && #[trigger] completions_upto(prefix, n)[k] == completion_item(i)
                    && prefix.is_prefix_of(completion_entry(i).0),
        forall|i: int|
            0 <= i < n && prefix.is_prefix_of(#[trigger] completion_entry(i).0) ==> completions_upto(
                prefix,
                n,
            ).contains(completion_item(i)),
        prefix.len() == 0 ==> completions_upto(prefix, n).len() == n,
    decreases n,
{
    if n > 0 {
        lemma_completions_upto(prefix, n - 1);
        let before = completions_upto(prefix, n - 1);
        let after = completions_upto(prefix, n);
        if prefix.is_prefix_of(completion_entry(n - 1).0) {
            assert(after == before.push(completion_item(n - 1)));
            assert forall|k: int| 0 <= k < after.len() implies exists|i: int|
                0 <= i < n && #[trigger] after[k] == completion_item(i)
                    && prefix.is_prefix_of(completion_entry(i).0) by {
                if k < before.len() {
                    assert(after[k] == before[k]);
                } else {
                    assert(after[k] == completion_item(n - 1));
                }
            }
            assert forall|i: int|
                0 <= i < n && prefix.is_prefix_of(#[trigger] completion_entry(i).0) implies after.contains(
                completion_item(i),
            ) by {
                if i < n - 1 {
                    let k = choose|k: int| 0 <= k < before.len() && before[k] == completion_item(i);
                    assert(after[k] == completion_item(i));
                } else {
                    assert(after[before.len() as int] == completion_item(i));
                }
            }
        } else {
            assert(after == before);
        }
        if prefix.len() == 0 {
            assert(prefix.is_prefix_of(completion_entry(n - 1).0));
        }
    }
}

/// The suggestions for a prefix are the table entries whose label starts with
/// it, in table order, whatever the cursor: every suggestion is such an entry,
/// every such entry is suggested, and the empty prefix suggests all entries.
pub proof fn lemma_completions_filter_table(prefix: Seq<char>)
    ensures
        forall|k: int|
            0 <= k < spec_completions(prefix).len() ==> exists|i: int|
                0 <= i < completion_count() && #[trigger] spec_completions(prefix)[k] == completion_item(i)
                    && prefix.is_prefix_of(completion_entry(i).0),
        forall|i: int|
            0 <= i < completion_count() && prefix.is_prefix_of(#[trigger] completion_entry(i).0)
                ==> spec_completions(prefix).contains(completion_item(i)),
        spec_completions(Seq::empty()).len() == completion_count(),
{
    lemma_completions_upto(prefix, completion_count() as int);
    lemma_completions_upto(Seq::empty(), completion_count() as int);
}

/// Every suggestion has a description; the first fourteen entries are
/// functions, the next five built-ins and the last six attributes; and a
/// built-in or an attribute is inserted as its own name.
pub proof fn lemma_completion_entries(i: int)
    requires
        0 <= i < completion_count(),
    ensures
        completion_item(i).detail is Some,
        i < 14 ==> completion_entry(i).1 == CompletionKind::Function,
        14 <= i < 19 ==> completion_entry(i).1 == CompletionKind::BuiltIn,
        19 <= i ==> completion_entry(i).1 == CompletionKind::Attribute,
        14 <= i ==> completion_entry(i).3 == completion_entry(i).0,
{
}

/// No two entries share a label, so no suggestion is listed twice.
pub proof fn lemma_completion_labels_distinct(i: int, j: int)
    requires
        0 <= i < j < completion_count(),
    ensures
        completion_entry(i).0 != completion_entry(j).0,
{
    reveal_strlit("sin");
    reveal_strlit("cos");
    reveal_strlit("abs");
    reveal_strlit("norm");
    reveal_strlit("all");
    reveal_strlit("any");
    reveal_strlit("dot");
    reveal_strlit("cross");
    reveal_strlit("min");
    reveal_strlit("max");
    reveal_strlit("vec2");
    reveal_strlit("vec3");
    reveal_strlit("attr");
    reveal_strlit("prop");
    reveal_strlit("time");
    reveal_strlit("delta_time");
    reveal_strlit("rand");
    reveal_strlit("alpha_cutoff");
    reveal_strlit("particle_id");
    reveal_strlit("position");
    reveal_strlit("velocity");
    reveal_strlit("lifetime");
    reveal_strlit("age");
    reveal_strlit("color");
    reveal_strlit("size");
    let a = completion_entry(i).0;
    let b = completion_entry(j).0;
    if a.len() == b.len() {
        if i == 0 && j == 1 {
            assert(a[0] != b[0]);
        }
        if i == 0 && j == 2 {
            assert(a[0] != b[0]);
        }
        if i == 0 && j == 4 {
            assert(a[0] != b[0]);
        }
        if i == 0 && j == 5 {
            assert(a[0] != b[0]);
        }
        if i == 0 && j == 6 {
            assert(a[0] != b[0]);
        }
        if i == 0 && j == 8 {
            assert(a[0] != b[0]);
        }
        if i == 0 && j == 9 {
            assert(a[0] != b[0]);
        }
        if i == 0 && j == 22 {
            assert(a[0] != b[0]);
        }
        if i == 1 && j == 2 {
            assert(a[0] != b[0]);
        }
        if i == 1 && j == 4 {
            assert(a[0] != b[0]);
        }
        if i == 1 && j == 5 {
            assert(a[0] != b[0]);
        }
        if i == 1 && j == 6 {
            assert(a[0] != b[0]);
        }
        if i == 1 && j == 8 {
            assert(a[0] != b[0]);
        }
        if i == 1 && j == 9 {
            assert(a[0] != b[0]);
        }
        if i == 1 && j == 22 {
            assert(a[0] != b[0]);
        }
        if i == 2 && j == 4 {
            assert(a[1] != b[1]);
        }
        if i == 2 && j == 5 {
            assert(a[1] != b[1]);
        }
        if i == 2 && j == 6 {
            assert(a[0] != b[0]);
        }
        if i == 2 && j == 8 {
            assert(a[0] != b[0]);
        }
        if i == 2 && j == 9 {
            assert(a[0] != b[0]);
        }
        if i == 2 && j == 22 {
            assert(a[1] != b[1]);
        }
        if i == 3 && j == 10 {
            assert(a[0] != b[0]);
        }
        if i == 3 && j == 11 {
            assert(a[0] != b[0]);
        }
        if i == 3 && j == 12 {
            assert(a[0] != b[0]);
        }
        if i == 3 && j == 13 {
            assert(a[0] != b[0]);
        }
        if i == 3 && j == 14 {
            assert(a[0] != b[0]);
        }
        if i == 3 && j == 16 {
            assert(a[0] != b[0]);
        }
        if i == 3 && j == 24 {
            assert(a[0] != b[0]);
        }
        if i == 4 && j == 5 {
            assert(a[1] != b[1]);
        }
        if i == 4 && j == 6 {
            assert(a[0] != b[0]);
        }
        if i == 4 && j == 8 {
            assert(a[0] != b[0]);
        }
        if i == 4 && j == 9 {
            assert(a[0] != b[0]);
        }
        if i == 4 && j == 22 {
            assert(a[1] != b[1]);
        }
        if i == 5 && j == 6 {
            assert(a[0] != b[0]);
        }
        if i == 5 && j == 8 {
            assert(a[0] != b[0]);
        }
        if i == 5 && j == 9 {
            assert(a[0] != b[0]);
        }
        if i == 5 && j == 22 {
            assert(a[1] != b[1]);
        }
        if i == 6 && j == 8 {
            assert(a[0] != b[0]);
        }
        if i == 6 && j == 9 {
            assert(a[0] != b[0]);
        }
        if i == 6 && j == 22 {
            assert(a[0] != b[0]);
        }
        if i == 7 && j == 23 {
            assert(a[1] != b[1]);
        }
        if i == 8 && j == 9 {
            assert(a[1] != b[1]);
        }
        if i == 8 && j == 22 {
            assert(a[0] != b[0]);
        }
        if i == 9 && j == 22 {
            assert(a[0] != b[0]);
        }
        if i == 10 && j == 11 {
            assert(a[3] != b[3]);
        }
        if i == 10 && j == 12 {
            assert(a[0] != b[0]);
        }
        if i == 10 && j == 13 {
            assert(a[0] != b[0]);
        }
        if i == 10 && j == 14 {
            assert(a[0] != b[0]);
        }
        if i == 10 && j == 16 {
            assert(a[0] != b[0]);
        }
        if i == 10 && j == 24 {
            assert(a[0] != b[0]);
        }
        if i == 11 && j == 12 {
            assert(a[0] != b[0]);
        }
        if i == 11 && j == 13 {
            assert(a[0] != b[0]);
        }
        if i == 11 && j == 14 {
            assert(a[0] != b[0]);
        }
        if i == 11 && j == 16 {
            assert(a[0] != b[0]);
        }
        if i == 11 && j == 24 {
            assert(a[0] != b[0]);
        }
        if i == 12 && j == 13 {
            assert(a[0] != b[0]);
        }
        if i == 12 && j == 14 {
            assert(a[0] != b[0]);
        }
        if i == 12 && j == 16 {
            assert(a[0] != b[0]);
        }
        if i == 12 && j == 24 {
            assert(a[0] != b[0]);
        }
        if i == 13 && j == 14 {
            assert(a[0] != b[0]);
        }
        if i == 13 && j == 16 {
            assert(a[0] != b[0]);
        }
        if i == 13 && j == 24 {
            assert(a[0] != b[0]);
        }
        if i == 14 && j == 16 {
            assert(a[0] != b[0]);
        }
        if i == 14 && j == 24 {
            assert(a[0] != b[0]);
        }
        if i == 16 && j == 24 {
            assert(a[0] != b[0]);
        }
        if i == 19 && j == 20 {
            assert(a[0] != b[0]);
        }
        if i == 19 && j == 21 {
            assert(a[0] != b[0]);
        }
        if i == 20 && j == 21 {
            assert(a[0] != b[0]);
        }
    }
}

/// Completion entry `i`: label, kind, detail, inserted text.
fn completion_entry_exec(i: usize) -> (r: (&'static str, CompletionKind, &'static str, &'static str))
    requires
        i < 25,
    ensures
        (r.0@, r.1, r.2@, r.3@) == completion_entry(i as int),
{
    if i == 0 {
        ("sin", CompletionKind::Function, "Sine function", "sin(1.0)")
    } else if i == 1 {
        ("cos", CompletionKind::Function, "Cosine function", "cos(1.0)")
    } else if i == 2 {
        ("abs", CompletionKind::Function, "Absolute value", "abs(1.0)")
    } else if i == 3 {
        ("norm", CompletionKind::Function, "Normalize vector", "norm(vec2(1.0, 1.0))")
    } else if i == 4 {
        ("all", CompletionKind::Function, "Check if all components are true", "all(vec2(1.0, 1.0))")
    } else if i == 5 {
        ("any", CompletionKind::Function, "Check if any component is true", "any(vec2(1.0, 1.0))")
    } else if i == 6 {
        ("dot", CompletionKind::Function, "Dot product", "dot(vec2(1.0, 1.0), vec2(1.0, 1.0))")
    } else if i == 7 {
        (
            "cross",
            CompletionKind::Function,
            "Cross product",
            "cross(vec3(1.0, 1.0, 1.0), vec3(1.0, 1.0, 1.0))",
        )
    } else if i == 8 {
        ("min", CompletionKind::Function, "Minimum value", "min(1.0, 1.0)")
    } else if i == 9 {
        ("max", CompletionKind::Function, "Maximum value", "max(1.0, 1.0)")
    } else if i == 10 {
        ("vec2", CompletionKind::Function, "2D vector constructor", "vec2(1.0, 1.0)")
    } else if i == 11 {
        ("vec3", CompletionKind::Function, "3D vector constructor", "vec3(1.0, 1.0, 1.0)")
    } else if i == 12 {
        ("attr", CompletionKind::Function, "Access particle attribute", "attr(\"name\")")
    } else if i == 13 {
        ("prop", CompletionKind::Function, "Access effect property", "prop(\"name\")")
    } else if i == 14 {
        ("time", CompletionKind::BuiltIn, "Current simulation time", "time")
    } else if i == 15 {
        ("delta_time", CompletionKind::BuiltIn, "Time since last update", "delta_time")
    } else if i == 16 {
        ("rand", CompletionKind::BuiltIn, "Random value [0, 1]", "rand")
    } else if i == 17 {
        ("alpha_cutoff", CompletionKind::BuiltIn, "Alpha mask threshold", "alpha_cutoff")
    } else if i == 18 {
        ("particle_id", CompletionKind::BuiltIn, "Unique particle identifier", "particle_id")
    } else if i == 19 {
        ("position", CompletionKind::Attribute, "Particle position", "position")
    } else if i == 20 {
        ("velocity", CompletionKind::Attribute, "Particle velocity", "velocity")
    } else if i == 21 {
        ("lifetime", CompletionKind::Attribute, "Particle lifetime", "lifetime")
    } else if i == 22 {
        ("age", CompletionKind::Attribute, "Particle age", "age")
    } else if i == 23 {
        ("color", CompletionKind::Attribute, "Particle color", "color")
    } else {
        ("size", CompletionKind::Attribute, "Particle size", "size")
    }
}

/// Whether `s` starts with `prefix` (what `str::starts_with` computes for a
/// string pattern).
pub fn starts_with(s: &str, prefix: &str) -> (b: bool)
    ensures
        b == prefix@.is_prefix_of(s@),
{
    let sv = chars_of(s);
    let pv = chars_of(prefix);
    if pv.len() > sv.len() {
        return false;
    }
    let mut i: usize = 0;
    while i < pv.len()
        invariant
            pv.len() <= sv.len(),
            i <= pv.len(),
            sv@ == s@,
            pv@ == prefix@,
            forall|k: int| 0 <= k < i ==> sv@[k] == pv@[k],
        decreases pv.len() - i,
    {
        if sv[i] != pv[i] {
            return false;
        }
        i = i + 1;
    }
    true
}

/// The views of a sequence of suggestions.
pub open spec fn completion_views(cs: Seq<CompletionItem>) -> Seq<SCompletion> {
    cs.map_values(|c: CompletionItem| c@)
}

/// Completion suggestions for `prefix`; the cursor position is not used.
pub fn get_completions(prefix: &str, _cursor_pos: usize) -> (r: Vec<CompletionItem>)
    ensures
        completion_views(r@) == spec_completions(prefix@),
{
    let mut completions: Vec<CompletionItem> = Vec::new();
    let mut i: usize = 0;
    while i < 25
        invariant
            i <= 25,
            completion_views(completions@) == completions_upto(prefix@, i as int),
        decreases 25 - i,
    {
        let (name, kind, detail, insert) = completion_entry_exec(i);
        if starts_with(name, prefix) {
            let item = CompletionItem {
                label: name.to_owned(),
                kind,
                detail: Some(detail.to_owned()),
                insert_text: insert.to_owned(),
            };
            let ghost before = completion_views(completions@);
            completions.push(item);
            assert(completion_views(completions@) =~= before.push(item@));
        } else {
            assert(completion_views(completions@) == completions_upto(prefix@, i + 1));
        }
        i = i + 1;
    }
    completions
}

} // verus!
