//! The scanner: one left-to-right pass from source text to tokens.
//!
//! `next_lexical` is the lexical grammar, one maximal-munch step at a time:
//! the next cursor position and line, the token recorded and the diagnostic
//! reported. `lexical_scan` folds it over the whole source, and the
//! executable scanner is proved to return exactly those tokens and report
//! exactly those diagnostics. Scanning never fails: an unrecognized
//! character, an unterminated string or an out-of-range number literal is
//! reported and skipped, and the pass goes on. Exactly one end-of-input
//! token closes every scan.

use vstd::prelude::*;
use crate::decimal::Decimal;
use crate::error::error;
use crate::error::report_text;
use crate::token::Object;
use crate::token::TokenModel;
use crate::token::Token;
use crate::token::TokenType;
use crate::token::Val;
use crate::token::obj_wf;
use crate::token::token_consistent;
use crate::token::token_literal_exact;
use crate::token::token_wf;
use vstd::string::StrSliceExecFns;

verus! {

/// The token kind an identifier lexeme stands for: one of the sixteen
/// reserved words, or a plain identifier.
pub open spec fn keyword_type_s(s: Seq<char>) -> TokenType {
    if s == "and"@ {
        TokenType::And
    } else if s == "class"@ {
        TokenType::Class
    } else if s == "else"@ {
        TokenType::Else
    } else if s == "false"@ {
        TokenType::False
    } else if s == "for"@ {
        TokenType::For
    } else if s == "fun"@ {
        TokenType::Fun
    } else if s == "if"@ {
        TokenType::If
    } else if s == "nil"@ {
        TokenType::Nil
    } else if s == "or"@ {
        TokenType::Or
    } else if s == "print"@ {
        TokenType::Print
    } else if s == "return"@ {
        TokenType::Return
    } else if s == "super"@ {
        TokenType::Super
    } else if s == "this"@ {
        TokenType::This
    } else if s == "true"@ {
        TokenType::True
    } else if s == "var"@ {
        TokenType::Var
    } else if s == "while"@ {
        TokenType::While
    } else {
        TokenType::Identifier
    }
}

/// The lexeme is an exact substring of the source text.
pub open spec fn lexeme_of(src: Seq<char>, t: Token) -> bool {
    exists|p: int, q: int| 0 <= p <= q <= src.len() && t.lexeme@ == src.subrange(p, q)
}


/// Where a line comment opened at `i` ends: the next newline, or the end.
pub open spec fn comment_end(src: Seq<char>, i: int) -> int
    decreases src.len() - i,
{
    if i < 0 || i >= src.len() || src[i] == '\n' {
        i
    } else {
        comment_end(src, i + 1)
    }
}

/// Where the closing quote of a string opened before `i` stands, or the end.
pub open spec fn string_end(src: Seq<char>, i: int) -> int
    decreases src.len() - i,
{
    if i < 0 || i >= src.len() || src[i] == '"' {
        i
    } else {
        string_end(src, i + 1)
    }
}

/// The first position at or after `i` that holds no digit.
pub open spec fn digits_end(src: Seq<char>, i: int) -> int
    decreases src.len() - i,
{
    if i < 0 || i >= src.len() || !is_digit_s(src[i]) {
        i
    } else {
        digits_end(src, i + 1)
    }
}

/// Where a number lexeme whose first digit stands before `i` ends: the
/// digits, then a point with at least one digit after it, then those digits.
pub open spec fn number_end(src: Seq<char>, i: int) -> int {
    let j = digits_end(src, i);
    if j < src.len() && src[j] == '.' && j + 1 < src.len() && is_digit_s(src[j + 1]) {
        digits_end(src, j + 1)
    } else {
        j
    }
}

/// The first position at or after `i` that holds no identifier character.
pub open spec fn ident_end(src: Seq<char>, i: int) -> int
    decreases src.len() - i,
{
    if i < 0 || i >= src.len() || !(is_alpha_s(src[i]) || is_digit_s(src[i])) {
        i
    } else {
        ident_end(src, i + 1)
    }
}

/// Maximal munch for a one-or-two-character operator: the two-character
/// kind where an equals sign follows, the one-character kind otherwise.
pub open spec fn two_char(src: Seq<char>, i: int, with_eq: TokenType, alone: TokenType) -> (
    int,
    TokenType,
) {
    if i < src.len() && src[i] == '=' {
        (i + 1, with_eq)
    } else {
        (i, alone)
    }
}

/// One saturating line bump, as a line break causes.
pub open spec fn bump_line_s(line: int) -> int {
    if line < u32::MAX {
        line + 1
    } else {
        line
    }
}

/// How many line breaks stand in `src[i..j)`.
pub open spec fn newlines(src: Seq<char>, i: int, j: int) -> int
    decreases j - i,
{
    if i >= j {
        0
    } else {
        newlines(src, i, j - 1) + (if src[j - 1] == '\n' {
            1int
        } else {
            0int
        })
    }
}

/// `n` saturating line bumps at once.
pub open spec fn bump_lines(line: int, n: int) -> int {
    if line + n > u32::MAX {
        u32::MAX as int
    } else {
        line + n
    }
}

proof fn lemma_bump_compose(line: int, n: int)
    requires
        0 <= n,
        line <= u32::MAX,
    ensures
        bump_line_s(bump_lines(line, n)) == bump_lines(line, n + 1),
{
}

proof fn lemma_newlines_nonneg(src: Seq<char>, i: int, j: int)
    ensures
        newlines(src, i, j) >= 0,
    decreases j - i,
{
    if i < j {
        lemma_newlines_nonneg(src, i, j - 1);
    }
}

/// One step of the lexical grammar: where the cursor and the line counter
/// stand after it, the token it records and the diagnostic it reports, if
/// any. A string token carries the line its literal ends on; every other
/// token the line it starts on.
pub struct LexStep {
    pub next: int,
    pub line: int,
    pub token: Option<TokenModel>,
    pub diag: Option<Seq<char>>,
}

pub open spec fn lex_tok(next: int, line: int, t: TokenType, lex: Seq<char>, v: Val) -> LexStep {
    LexStep {
        next,
        line,
        token: Some(TokenModel { type_: t, lexeme: lex, literal: v, line }),
        diag: None,
    }
}

pub open spec fn lex_skip(next: int, line: int) -> LexStep {
    LexStep { next, line, token: None, diag: None }
}

pub open spec fn lex_fault(next: int, line: int, message: Seq<char>) -> LexStep {
    LexStep { next, line, token: None, diag: Some(report_text(line, ""@, message)) }
}

/// The lexical grammar as one step at position `i0`. Blank space and
/// comments record nothing; the three reported faults (an unexpected
/// character, an unterminated string, an out-of-range number literal)
/// record a diagnostic instead of a token.
pub open spec fn next_lexical(src: Seq<char>, i0: int, line: int) -> LexStep {
    let c = src[i0];
    let i = i0 + 1;
    if c == '(' {
        lex_tok(i, line, TokenType::LeftParen, src.subrange(i0, i), Val::Nil)
    } else if c == ')' {
        lex_tok(i, line, TokenType::RightParen, src.subrange(i0, i), Val::Nil)
    } else if c == '{' {
        lex_tok(i, line, TokenType::LeftBrace, src.subrange(i0, i), Val::Nil)
    } else if c == '}' {
        lex_tok(i, line, TokenType::RightBrace, src.subrange(i0, i), Val::Nil)
    } else if c == ',' {
        lex_tok(i, line, TokenType::Comma, src.subrange(i0, i), Val::Nil)
    } else if c == '.' {
        lex_tok(i, line, TokenType::Dot, src.subrange(i0, i), Val::Nil)
    } else if c == '-' {
        lex_tok(i, line, TokenType::Minus, src.subrange(i0, i), Val::Nil)
    } else if c == '+' {
        lex_tok(i, line, TokenType::Plus, src.subrange(i0, i), Val::Nil)
    } else if c == ';' {
        lex_tok(i, line, TokenType::Semicolon, src.subrange(i0, i), Val::Nil)
    } else if c == '*' {
        lex_tok(i, line, TokenType::Star, src.subrange(i0, i), Val::Nil)
    } else if c == '!' {
        let (j, t) = two_char(src, i, TokenType::BangEqual, TokenType::Bang);
        lex_tok(j, line, t, src.subrange(i0, j), Val::Nil)
    } else if c == '=' {
        let (j, t) = two_char(src, i, TokenType::EqualEqual, TokenType::Equal);
        lex_tok(j, line, t, src.subrange(i0, j), Val::Nil)
    } else if c == '<' {
        let (j, t) = two_char(src, i, TokenType::LessEqual, TokenType::Less);
        lex_tok(j, line, t, src.subrange(i0, j), Val::Nil)
    } else if c == '>' {
        let (j, t) = two_char(src, i, TokenType::GreaterEqual, TokenType::Greater);
        lex_tok(j, line, t, src.subrange(i0, j), Val::Nil)
    } else if c == '/' {
        if i < src.len() && src[i] == '/' {
            lex_skip(comment_end(src, i + 1), line)
        } else {
            lex_tok(i, line, TokenType::Slash, src.subrange(i0, i), Val::Nil)
        }
    } else if c == ' ' || c == '\r' || c == '\t' {
        lex_skip(i, line)
    } else if c == '\n' {
        lex_skip(i, bump_line_s(line))
    } else if c == '"' {
        let j = string_end(src, i);
        let nl = bump_lines(line, newlines(src, i, j));
        if j >= src.len() {
            lex_fault(j, nl, "Unterminated string."@)
        } else {
            lex_tok(
                j + 1,
                nl,
                TokenType::Str,
                src.subrange(i0, j + 1),
                Val::Str(src.subrange(i0 + 1, j)),
            )
        }
    } else if is_digit_s(c) {
        let k = number_end(src, i);
        match crate::decimal::dec_parse(src.subrange(i0, k)) {
            Some(d) => lex_tok(k, line, TokenType::Number, src.subrange(i0, k), Val::Num(d)),
            None => lex_fault(k, line, "Number literal is out of range."@),
        }
    } else if is_alpha_s(c) {
        let k = ident_end(src, i);
        lex_tok(
            k,
            line,
            keyword_type_s(src.subrange(i0, k)),
            src.subrange(i0, k),
            Val::Nil,
        )
    } else {
        LexStep {
            next: i,
            line,
            token: None,
            diag: Some(
                report_text(
                    line,
                    ""@,
                    "Unexpected character: "@ + src.subrange(i0, i) + "."@,
                ),
            ),
        }
    }
}

/// Law: a comment contributes no tokens. The scan step entered at a double
/// slash records nothing and moves the cursor to the end of the line.
pub proof fn lemma_comment_contributes_no_token(src: Seq<char>, i: int, line: int)
    requires
        0 <= i,
        i + 1 < src.len(),
        src[i] == '/',
        src[i + 1] == '/',
    ensures
        next_lexical(src, i, line) == lex_skip(comment_end(src, i + 2), line),
{
}


proof fn lemma_comment_end_bounds(src: Seq<char>, i: int)
    requires
        0 <= i <= src.len(),
    ensures
        i <= comment_end(src, i) <= src.len(),
    decreases src.len() - i,
{
    if i < src.len() && src[i] != '\n' {
        lemma_comment_end_bounds(src, i + 1);
    }
}

proof fn lemma_string_end_bounds(src: Seq<char>, i: int)
    requires
        0 <= i <= src.len(),
    ensures
        i <= string_end(src, i) <= src.len(),
    decreases src.len() - i,
{
    if i < src.len() && src[i] != '"' {
        lemma_string_end_bounds(src, i + 1);
    }
}

proof fn lemma_digits_end_bounds(src: Seq<char>, i: int)
    requires
        0 <= i <= src.len(),
    ensures
        i <= digits_end(src, i) <= src.len(),
    decreases src.len() - i,
{
    if i < src.len() && is_digit_s(src[i]) {
        lemma_digits_end_bounds(src, i + 1);
    }
}

proof fn lemma_ident_end_bounds(src: Seq<char>, i: int)
    requires
        0 <= i <= src.len(),
    ensures
        i <= ident_end(src, i) <= src.len(),
    decreases src.len() - i,
{
    if i < src.len() && (is_alpha_s(src[i]) || is_digit_s(src[i])) {
        lemma_ident_end_bounds(src, i + 1);
    }
}

/// Every scan step moves the cursor forward and stays inside the source.
pub proof fn lemma_next_lexical_progress(src: Seq<char>, i0: int, line: int)
    requires
        0 <= i0 < src.len(),
    ensures
        i0 < next_lexical(src, i0, line).next <= src.len(),
{
    let c = src[i0];
    if c == '/' && i0 + 1 < src.len() && src[i0 + 1] == '/' {
        lemma_comment_end_bounds(src, i0 + 2);
    }
    if c == '"' {
        lemma_string_end_bounds(src, i0 + 1);
    }
    if is_digit_s(c) {
        lemma_digits_end_bounds(src, i0 + 1);
        let j = digits_end(src, i0 + 1);
        if j < src.len() && src[j] == '.' && j + 1 < src.len() && is_digit_s(src[j + 1]) {
            lemma_digits_end_bounds(src, j + 1);
        }
    }
    if is_alpha_s(c) {
        lemma_ident_end_bounds(src, i0 + 1);
    }
}

/// The whole scan folded over the source: the tokens it records before the
/// closing end-of-input token, the diagnostics it reports, and the final
/// line counter, which the closing token carries.
pub open spec fn lexical_scan(src: Seq<char>, i: int, line: int) -> (
    Seq<TokenModel>,
    Seq<Seq<char>>,
    int,
)
    decreases src.len() - i,
        when 0 <= i
        via lexical_scan_dec
{
    if i >= src.len() {
        (Seq::empty(), Seq::empty(), line)
    } else {
        let st = next_lexical(src, i, line);
        let rest = lexical_scan(src, st.next, st.line);
        (
            (match st.token {
                Some(t) => seq![t],
                None => Seq::<TokenModel>::empty(),
            }) + rest.0,
            (match st.diag {
                Some(d) => seq![d],
                None => Seq::<Seq<char>>::empty(),
            }) + rest.1,
            rest.2,
        )
    }
}

#[via_fn]
proof fn lexical_scan_dec(src: Seq<char>, i: int, line: int) {
    if i < src.len() {
        lemma_next_lexical_progress(src, i, line);
    }
}

/// Converts source text into tokens.
pub struct Scanner {
    source: String,
    tokens: Vec<Token>,
    diagnostics: Vec<String>,
    start: usize,
    current: usize,
    line: u32,
}

impl View for Scanner {
    type V = Seq<char>;

    /// A scanner is modelled by the source text it walks.
    closed spec fn view(&self) -> Seq<char> {
        self.source@
    }
}

impl Scanner {
    /// All tokens gathered so far are well formed and none is end-of-input;
    /// the cursor pair stays inside the source.
    pub closed spec fn wf(&self) -> bool {
        &&& self.start <= self.current <= self.source@.len()
        &&& self.line >= 1
        &&& forall|i: int|
            0 <= i < self.tokens@.len() ==> token_wf(#[trigger] self.tokens@[i])
                && self.tokens@[i].type_ != TokenType::Eof && self.tokens@[i].line >= 1
                && token_consistent(self.tokens@[i]) && token_literal_exact(self.tokens@[i])
                && lexeme_of(self.source@, self.tokens@[i])
    }

    /// A scanner that has not started: no tokens, cursor at the front.
    pub closed spec fn fresh(&self) -> bool {
        self.tokens@.len() == 0 && self.diagnostics@.len() == 0 && self.start == 0 && self.current
            == 0 && self.line == 1
    }

    pub fn new(source: &str) -> (r: Scanner)
        ensures
            r@ == source@,
            r.fresh(),
            r.wf(),
    {
        Scanner {
            source: source.to_owned(),
            tokens: Vec::new(),
            diagnostics: Vec::new(),
            start: 0,
            current: 0,
            line: 1,
        }
    }

    /// The diagnostics recorded so far, abstractly.
    pub closed spec fn diags(&self) -> Seq<Seq<char>> {
        self.diagnostics@.map_values(|d: String| d@)
    }

    /// Scans the whole source and appends the one closing end-of-input
    /// token, whose lexeme is empty and whose line is the final line
    /// counter. The tokens before it are, in kind, lexeme, literal value and
    /// line, exactly what the lexical grammar prescribes for the source
    /// text, and the diagnostics are exactly the faults it reports, in
    /// order. Empty input yields the closing token alone, on line one.
    pub fn scan_tokens(&mut self) -> (r: Vec<Token>)
        requires
            old(self).fresh(),
            old(self).wf(),
        ensures
            r@.len() >= 1,
            r@[r@.len() - 1].type_ == TokenType::Eof,
            forall|i: int| 0 <= i < r@.len() - 1 ==> #[trigger] r@[i].type_ != TokenType::Eof,
            forall|i: int|
                0 <= i < r@.len() ==> token_wf(#[trigger] r@[i]) && r@[i].line >= 1
                    && token_consistent(r@[i]) && token_literal_exact(r@[i]) && lexeme_of(
                    old(self)@,
                    r@[i],
                ),
            old(self)@.len() == 0 ==> r@.len() == 1,
            final(self)@ == old(self)@,
            r@.drop_last().map_values(|t: Token| t@) == lexical_scan(old(self)@, 0, 1).0,
            r@.last()@ == (TokenModel {
                type_: TokenType::Eof,
                lexeme: Seq::empty(),
                literal: Val::Nil,
                line: lexical_scan(old(self)@, 0, 1).2,
            }),
            final(self).diags() == lexical_scan(old(self)@, 0, 1).1,
    {
        proof {
            assert(self.tokens@.map_values(|t: Token| t@) + lexical_scan(
                self@,
                self.current as int,
                self.line as int,
            ).0 =~= lexical_scan(self@, 0, 1).0);
            assert(self.diagnostics@.map_values(|d: String| d@) + lexical_scan(
                self@,
                self.current as int,
                self.line as int,
            ).1 =~= lexical_scan(self@, 0, 1).1);
        }
        while !self.is_at_end(self.current)
            invariant
                self.wf(),
                self@ == old(self)@,
                old(self)@.len() == 0 ==> self.tokens@.len() == 0,
                self.tokens@.map_values(|t: Token| t@) + lexical_scan(
                    self@,
                    self.current as int,
                    self.line as int,
                ).0 == lexical_scan(self@, 0, 1).0,
                self.diagnostics@.map_values(|d: String| d@) + lexical_scan(
                    self@,
                    self.current as int,
                    self.line as int,
                ).1 == lexical_scan(self@, 0, 1).1,
                lexical_scan(self@, self.current as int, self.line as int).2 == lexical_scan(
                    self@,
                    0,
                    1,
                ).2,
            decreases self@.len() - self.current,
        {
            self.start = self.current;
            let ghost pre = *self;
            self.scan_token();
            proof {
                let st = next_lexical(pre@, pre.current as int, pre.line as int);
                assert(lexical_scan(pre@, pre.current as int, pre.line as int) == (
                    (match st.token {
                        Some(t) => seq![t],
                        None => Seq::<TokenModel>::empty(),
                    }) + lexical_scan(pre@, st.next, st.line).0,
                    (match st.diag {
                        Some(d) => seq![d],
                        None => Seq::<Seq<char>>::empty(),
                    }) + lexical_scan(pre@, st.next, st.line).1,
                    lexical_scan(pre@, st.next, st.line).2,
                ));
                match st.token {
                    Some(t) => {
                        assert(self.tokens@.map_values(|t2: Token| t2@)
                            =~= pre.tokens@.map_values(|t2: Token| t2@).push(
                            self.tokens@.last()@,
                        ));
                        assert(self.tokens@.map_values(|t2: Token| t2@) + lexical_scan(
                            self@,
                            self.current as int,
                            self.line as int,
                        ).0 =~= lexical_scan(self@, 0, 1).0);
                    },
                    None => {
                        assert(self.tokens@.map_values(|t2: Token| t2@) + lexical_scan(
                            self@,
                            self.current as int,
                            self.line as int,
                        ).0 =~= lexical_scan(self@, 0, 1).0);
                    },
                }
                match st.diag {
                    Some(d) => {
                        assert(self.diagnostics@.map_values(|d2: String| d2@)
                            =~= pre.diagnostics@.map_values(|d2: String| d2@).push(
                            self.diagnostics@.last()@,
                        ));
                        assert(self.diagnostics@.map_values(|d2: String| d2@) + lexical_scan(
                            self@,
                            self.current as int,
                            self.line as int,
                        ).1 =~= lexical_scan(self@, 0, 1).1);
                    },
                    None => {
                        assert(self.diagnostics@.map_values(|d2: String| d2@) + lexical_scan(
                            self@,
                            self.current as int,
                            self.line as int,
                        ).1 =~= lexical_scan(self@, 0, 1).1);
                    },
                }
            }
        }
        proof {
            assert(lexical_scan(self@, self.current as int, self.line as int).0
                =~= Seq::<TokenModel>::empty());
            assert(lexical_scan(self@, self.current as int, self.line as int).1
                =~= Seq::<Seq<char>>::empty());
            assert(self.tokens@.map_values(|t: Token| t@) =~= lexical_scan(self@, 0, 1).0);
            assert(self.diagnostics@.map_values(|d: String| d@) =~= lexical_scan(self@, 0, 1).1);
        }
        let eof = Token::new(TokenType::Eof, String::new(), Object::Nil, self.line);
        proof {
            assert(eof.lexeme@ =~= self@.subrange(0, 0));
            assert(lexeme_of(self@, eof));
            assert(eof.lexeme@ =~= Seq::<char>::empty());
        }
        let mut r: Vec<Token> = Vec::new();
        core::mem::swap(&mut r, &mut self.tokens);
        let ghost scanned = r@;
        r.push(eof);
        proof {
            assert(r@.drop_last() =~= scanned);
            assert(r@.drop_last().map_values(|t: Token| t@) =~= scanned.map_values(
                |t: Token| t@,
            ));
        }
        r
    }

    /// The diagnostics reported so far, one line each.
    pub fn diagnostics(&self) -> (r: &Vec<String>)
        ensures
            r@.len() == self.diags().len(),
            forall|i: int| 0 <= i < r@.len() ==> r@[i]@ == self.diags()[i],
    {
        &self.diagnostics
    }

    /// Whether the given cursor has passed the last character.
    fn is_at_end(&self, current: usize) -> (r: bool)
        ensures
            r == (current >= self@.len()),
    {
        current >= self.source.unicode_len()
    }

    /// Reads one token (or skips blank space or a comment) at the cursor:
    /// exactly the step the lexical grammar prescribes at that position.
    fn scan_token(&mut self)
        requires
            old(self).wf(),
            old(self).start == old(self).current,
            old(self).current < old(self)@.len(),
        ensures
            final(self).wf(),
            final(self).current > old(self).current,
            final(self)@ == old(self)@,
            ({
                let st = next_lexical(old(self)@, old(self).current as int, old(self).line as int);
                &&& final(self).current == st.next
                &&& final(self).line as int == st.line
                &&& (match st.token {
                    Some(t) => final(self).tokens@ == old(self).tokens@.push(
                        final(self).tokens@.last(),
                    ) && final(self).tokens@.last()@ == t,
                    None => final(self).tokens@ == old(self).tokens@,
                })
                &&& (match st.diag {
                    Some(d) => final(self).diagnostics@ == old(self).diagnostics@.push(
                        final(self).diagnostics@.last(),
                    ) && final(self).diagnostics@.last()@ == d,
                    None => final(self).diagnostics@ == old(self).diagnostics@,
                })
            }),
    {
        let c = self.advance();
        if c == '(' {
            self.add_token(TokenType::LeftParen);
        } else if c == ')' {
            self.add_token(TokenType::RightParen);
        } else if c == '{' {
            self.add_token(TokenType::LeftBrace);
        } else if c == '}' {
            self.add_token(TokenType::RightBrace);
        } else if c == ',' {
            self.add_token(TokenType::Comma);
        } else if c == '.' {
            self.add_token(TokenType::Dot);
        } else if c == '-' {
            self.add_token(TokenType::Minus);
        } else if c == '+' {
            self.add_token(TokenType::Plus);
        } else if c == ';' {
            self.add_token(TokenType::Semicolon);
        } else if c == '*' {
            self.add_token(TokenType::Star);
        } else if c == '!' {
            let type_ = if self.match_char('=') {
                TokenType::BangEqual
            } else {
                TokenType::Bang
            };
            self.add_token(type_);
        } else if c == '=' {
            let type_ = if self.match_char('=') {
                TokenType::EqualEqual
            } else {
                TokenType::Equal
            };
            self.add_token(type_);
        } else if c == '<' {
            let type_ = if self.match_char('=') {
                TokenType::LessEqual
            } else {
                TokenType::Less
            };
            self.add_token(type_);
        } else if c == '>' {
            let type_ = if self.match_char('=') {
                TokenType::GreaterEqual
            } else {
                TokenType::Greater
            };
            self.add_token(type_);
        } else if c == '/' {
            // a second slash begins a comment running to the end of the line
            if self.match_char('/') {
                while self.peek() != '\n' && !self.is_at_end(self.current)
                    invariant
                        self.wf(),
                        self@ == old(self)@,
                        self.current > old(self).current,
                        self.tokens@ == old(self).tokens@,
                        self.diagnostics@ == old(self).diagnostics@,
                        self.line == old(self).line,
                        comment_end(self@, self.current as int) == comment_end(
                            old(self)@,
                            old(self).current as int + 2,
                        ),
                    decreases self@.len() - self.current,
                {
                    proof {
                        assert(comment_end(self@, self.current as int) == comment_end(
                            self@,
                            self.current as int + 1,
                        ));
                    }
                    self.advance_cursor();
                }
                proof {
                    assert(self.current as int == comment_end(
                        old(self)@,
                        old(self).current as int + 2,
                    ));
                }
            } else {
                self.add_token(TokenType::Slash);
            }
        } else if c == ' ' || c == '\r' || c == '\t' {
            // blank space contributes no token
        } else if c == '\n' {
            self.bump_line();
        } else if c == '"' {
            self.string();
        } else if is_digit(c) {
            self.number();
        } else if is_alpha(c) {
            self.identifier();
        } else {
            let mut msg = String::from_str("Unexpected character: ");
            let cs = self.source.as_str().substring_char(self.current - 1, self.current);
            msg.append(cs);
            msg.append(".");
            proof {
                assert(msg@ =~= "Unexpected character: "@ + old(self)@.subrange(
                    old(self).current as int,
                    old(self).current as int + 1,
                ) + "."@);
            }
            let d = error(self.line, msg.as_str());
            self.diagnostics.push(d);
        }
    }

    /// Consumes and returns the character at the cursor.
    fn advance(&mut self) -> (c: char)
        requires
            old(self).wf(),
            old(self).current < old(self)@.len(),
        ensures
            final(self).wf(),
            c == old(self)@[old(self).current as int],
            final(self).current == old(self).current + 1,
            final(self)@ == old(self)@,
            final(self).tokens@ == old(self).tokens@,
            final(self).diagnostics@ == old(self).diagnostics@,
            final(self).start == old(self).start,
            final(self).line == old(self).line,
    {
        let len = self.source.unicode_len();
        let c = self.source.as_str().get_char(self.current);
        proof {
            assert(self.current < len);
        }
        self.current = self.current + 1;
        c
    }

    /// Consumes the character at the cursor, counting line breaks.
    fn advance_cursor(&mut self)
        requires
            old(self).wf(),
            old(self).current < old(self)@.len(),
        ensures
            final(self).wf(),
            final(self).current == old(self).current + 1,
            final(self)@ == old(self)@,
            final(self).tokens@ == old(self).tokens@,
            final(self).diagnostics@ == old(self).diagnostics@,
            final(self).start == old(self).start,
            final(self).line as int == (if old(self)@[old(self).current as int] == '\n' {
                bump_line_s(old(self).line as int)
            } else {
                old(self).line as int
            }),
    {
        let len = self.source.unicode_len();
        if self.source.as_str().get_char(self.current) == '\n' {
            self.bump_line();
        }
        proof {
            assert(self.current < len);
        }
        self.current = self.current + 1;
    }

    /// Moves to the next source line.
    fn bump_line(&mut self)
        requires
            old(self).wf(),
        ensures
            final(self).wf(),
            final(self).current == old(self).current,
            final(self).start == old(self).start,
            final(self)@ == old(self)@,
            final(self).tokens@ == old(self).tokens@,
            final(self).diagnostics@ == old(self).diagnostics@,
            final(self).line as int == bump_line_s(old(self).line as int),
    {
        if self.line < u32::MAX {
            self.line = self.line + 1;
        }
    }

    /// Consumes the character at the cursor only where it is the expected
    /// one.
    fn match_char(&mut self, expected: char) -> (r: bool)
        requires
            old(self).wf(),
        ensures
            final(self).wf(),
            r == (old(self).current < old(self)@.len() && old(self)@[old(self).current as int]
                == expected),
            final(self).current == old(self).current + (if r {
                1int
            } else {
                0int
            }),
            final(self)@ == old(self)@,
            final(self).tokens@ == old(self).tokens@,
            final(self).diagnostics@ == old(self).diagnostics@,
            final(self).start == old(self).start,
            final(self).line == old(self).line,
    {
        let n = self.source.unicode_len();
        if self.current >= n {
            return false;
        }
        let c = self.source.as_str().get_char(self.current);
        if c != expected {
            return false;
        }
        self.current = self.current + 1;
        true
    }

    /// The character at the cursor, or the null character at the end.
    fn peek(&self) -> (c: char)
        requires
            self.wf(),
        ensures
            c == (if self.current < self@.len() {
                self@[self.current as int]
            } else {
                '\0'
            }),
    {
        if self.is_at_end(self.current) {
            return '\0';
        }
        self.source.as_str().get_char(self.current)
    }

    /// The character after the cursor, or the null character at the end.
    fn peek_next(&self) -> (c: char)
        requires
            self.wf(),
        ensures
            c == (if self.current + 1 < self@.len() {
                self@[self.current as int + 1]
            } else {
                '\0'
            }),
    {
        let n = self.source.unicode_len();
        if self.current >= n {
            return '\0';
        }
        if self.current + 1 >= n {
            return '\0';
        }
        self.source.as_str().get_char(self.current + 1)
    }

    /// Records a token with no literal payload.
    fn add_token(&mut self, type_: TokenType)
        requires
            old(self).wf(),
            type_ != TokenType::Eof,
            type_ != TokenType::Number,
            type_ != TokenType::Str,
        ensures
            final(self).wf(),
            final(self).current == old(self).current,
            final(self)@ == old(self)@,
            final(self).start == old(self).start,
            final(self).line == old(self).line,
            final(self).tokens@ == old(self).tokens@.push(final(self).tokens@.last()),
            final(self).tokens@.last()@ == (TokenModel {
                type_: type_,
                lexeme: old(self)@.subrange(old(self).start as int, old(self).current as int),
                literal: Val::Nil,
                line: old(self).line as int,
            }),
            final(self).diagnostics@ == old(self).diagnostics@,
    {
        self.add_token_literal(type_, Object::Nil);
    }

    /// Records a token whose lexeme is the source span `start..current`.
    fn add_token_literal(&mut self, type_: TokenType, literal: Object)
        requires
            old(self).wf(),
            type_ != TokenType::Eof,
            obj_wf(literal),
            match type_ {
                TokenType::Number => literal matches Object::Number(d) && crate::decimal::dec_parse(
                    old(self)@.subrange(old(self).start as int, old(self).current as int),
                ) == Some(d@),
                TokenType::Str => literal matches Object::Str(v) && old(self).current >= old(
                    self,
                ).start + 2 && v@ == old(self)@.subrange(
                    old(self).start as int + 1,
                    old(self).current as int - 1,
                ),
                _ => literal is Nil,
            },
        ensures
            final(self).wf(),
            final(self).current == old(self).current,
            final(self)@ == old(self)@,
            final(self).start == old(self).start,
            final(self).line == old(self).line,
            final(self).tokens@ == old(self).tokens@.push(final(self).tokens@.last()),
            final(self).tokens@.last()@ == (TokenModel {
                type_: type_,
                lexeme: old(self)@.subrange(old(self).start as int, old(self).current as int),
                literal: literal@,
                line: old(self).line as int,
            }),
            final(self).diagnostics@ == old(self).diagnostics@,
    {
        let text = self.source.as_str().substring_char(self.start, self.current).to_owned();
        let t = Token::new(type_, text, literal, self.line);
        proof {
            if type_ == TokenType::Str {
                assert(t.lexeme@.subrange(1, t.lexeme@.len() - 1) =~= self@.subrange(
                    self.start as int + 1,
                    self.current as int - 1,
                ));
            }
            assert(token_literal_exact(t));
            assert(lexeme_of(self.source@, t));
        }
        self.tokens.push(t);
    }

    /// Reads the rest of a string literal opened by a double quote.
    fn string(&mut self)
        requires
            old(self).wf(),
            old(self).current == old(self).start + 1,
        ensures
            final(self).wf(),
            final(self).current >= old(self).current,
            final(self)@ == old(self)@,
            final(self).start == old(self).start,
            ({
                let j = string_end(old(self)@, old(self).current as int);
                let nl = bump_lines(
                    old(self).line as int,
                    newlines(old(self)@, old(self).current as int, j),
                );
                &&& final(self).line as int == nl
                &&& (if j >= old(self)@.len() {
                    final(self).current == j && final(self).tokens@ == old(self).tokens@ && final(self).diagnostics@ == old(self).diagnostics@.push(final(self).diagnostics@.last())
                        && final(self).diagnostics@.last()@ == report_text(
                        nl,
                        ""@,
                        "Unterminated string."@,
                    )
                } else {
                    final(self).current == j + 1 && final(self).tokens@
                        == old(self).tokens@.push(final(self).tokens@.last()) && final(self).tokens@.last()@ == (TokenModel {
                        type_: TokenType::Str,
                        lexeme: old(self)@.subrange(old(self).start as int, j + 1),
                        literal: Val::Str(old(self)@.subrange(old(self).start as int + 1, j)),
                        line: nl,
                    }) && final(self).diagnostics@ == old(self).diagnostics@
                })
            }),
    {
        proof {
            assert(newlines(self@, old(self).current as int, old(self).current as int) == 0);
        }
        while self.peek() != '"' && !self.is_at_end(self.current)
            invariant
                self.wf(),
                self@ == old(self)@,
                self.current >= old(self).current,
                self.start == old(self).start,
                self.tokens@ == old(self).tokens@,
                self.diagnostics@ == old(self).diagnostics@,
                string_end(self@, self.current as int) == string_end(
                    old(self)@,
                    old(self).current as int,
                ),
                self.line as int == bump_lines(
                    old(self).line as int,
                    newlines(self@, old(self).current as int, self.current as int),
                ),
            decreases self@.len() - self.current,
        {
            proof {
                assert(string_end(self@, self.current as int) == string_end(
                    self@,
                    self.current as int + 1,
                ));
                lemma_newlines_nonneg(self@, old(self).current as int, self.current as int);
                assert(newlines(self@, old(self).current as int, self.current as int + 1)
                    == newlines(self@, old(self).current as int, self.current as int) + (
                if self@[self.current as int] == '\n' {
                    1int
                } else {
                    0int
                }));
                if self@[self.current as int] == '\n' {
                    lemma_bump_compose(
                        old(self).line as int,
                        newlines(self@, old(self).current as int, self.current as int),
                    );
                }
            }
            self.advance_cursor();
        }
        if self.is_at_end(self.current) {
            let d = error(self.line, "Unterminated string.");
            self.diagnostics.push(d);
            return;
        }
        // consume the closing quote
        self.advance_cursor();
        let value = self.source.as_str().substring_char(self.start + 1, self.current - 1).to_owned(
        );
        self.add_token_literal(TokenType::Str, Object::Str(value));
    }

    /// Reads the rest of a number literal opened by a digit: digits, then
    /// optionally a point followed by at least one digit.
    fn number(&mut self)
        requires
            old(self).wf(),
        ensures
            final(self).wf(),
            final(self).current >= old(self).current,
            final(self)@ == old(self)@,
            final(self).start == old(self).start,
            final(self).line == old(self).line,
            ({
                let k = number_end(old(self)@, old(self).current as int);
                final(self).current == k && match crate::decimal::dec_parse(
                    old(self)@.subrange(old(self).start as int, k),
                ) {
                    Some(d) => final(self).tokens@ == old(self).tokens@.push(
                        final(self).tokens@.last(),
                    ) && final(self).tokens@.last()@ == (TokenModel {
                        type_: TokenType::Number,
                        lexeme: old(self)@.subrange(old(self).start as int, k),
                        literal: Val::Num(d),
                        line: old(self).line as int,
                    }) && final(self).diagnostics@ == old(self).diagnostics@,
                    None => final(self).tokens@ == old(self).tokens@ && final(self).diagnostics@
                        == old(self).diagnostics@.push(final(self).diagnostics@.last()) && final(self).diagnostics@.last()@ == report_text(
                        old(self).line as int,
                        ""@,
                        "Number literal is out of range."@,
                    ),
                }
            }),
    {
        while is_digit(self.peek())
            invariant
                self.wf(),
                self@ == old(self)@,
                self.current >= old(self).current,
                self.start == old(self).start,
                self.tokens@ == old(self).tokens@,
                self.diagnostics@ == old(self).diagnostics@,
                self.line == old(self).line,
                digits_end(self@, self.current as int) == digits_end(
                    old(self)@,
                    old(self).current as int,
                ),
            decreases self@.len() - self.current,
        {
            proof {
                assert(self.current < self@.len());
                assert(digits_end(self@, self.current as int) == digits_end(
                    self@,
                    self.current as int + 1,
                ));
            }
            self.advance();
        }
        proof {
            assert(self.current as int == digits_end(old(self)@, old(self).current as int));
        }
        // a point counts only with a digit after it; a trailing point is
        // left for the next scan step
        if self.peek() == '.' && is_digit(self.peek_next()) {
            let ghost j = self.current as int;
            self.advance();
            while is_digit(self.peek())
                invariant
                    self.wf(),
                    self@ == old(self)@,
                    self.current >= old(self).current,
                    self.start == old(self).start,
                    self.tokens@ == old(self).tokens@,
                    self.diagnostics@ == old(self).diagnostics@,
                    self.line == old(self).line,
                    digits_end(self@, self.current as int) == digits_end(self@, j + 1),
                decreases self@.len() - self.current,
            {
                proof {
                    assert(self.current < self@.len());
                    assert(digits_end(self@, self.current as int) == digits_end(
                        self@,
                        self.current as int + 1,
                    ));
                }
                self.advance();
            }
            proof {
                assert(self.current as int == number_end(old(self)@, old(self).current as int));
            }
        }
        let lexeme = self.source.as_str().substring_char(self.start, self.current);
        match Decimal::parse(lexeme) {
            Some(d) => {
                self.add_token_literal(TokenType::Number, Object::Number(d));
            },
            None => {
                let d = error(self.line, "Number literal is out of range.");
                self.diagnostics.push(d);
            },
        }
    }

    /// Reads the rest of an identifier or keyword opened by a letter.
    fn identifier(&mut self)
        requires
            old(self).wf(),
        ensures
            final(self).wf(),
            final(self).current >= old(self).current,
            final(self)@ == old(self)@,
            final(self).start == old(self).start,
            final(self).line == old(self).line,
            ({
                let k = ident_end(old(self)@, old(self).current as int);
                final(self).current == k && final(self).tokens@ == old(self).tokens@.push(
                    final(self).tokens@.last(),
                ) && final(self).tokens@.last()@ == (TokenModel {
                    type_: keyword_type_s(old(self)@.subrange(old(self).start as int, k)),
                    lexeme: old(self)@.subrange(old(self).start as int, k),
                    literal: Val::Nil,
                    line: old(self).line as int,
                }) && final(self).diagnostics@ == old(self).diagnostics@
            }),
    {
        while is_alpha(self.peek()) || is_digit(self.peek())
            invariant
                self.wf(),
                self@ == old(self)@,
                self.current >= old(self).current,
                self.start == old(self).start,
                self.tokens@ == old(self).tokens@,
                self.diagnostics@ == old(self).diagnostics@,
                self.line == old(self).line,
                ident_end(self@, self.current as int) == ident_end(
                    old(self)@,
                    old(self).current as int,
                ),
            decreases self@.len() - self.current,
        {
            proof {
                assert(self.current < self@.len());
                assert(ident_end(self@, self.current as int) == ident_end(
                    self@,
                    self.current as int + 1,
                ));
            }
            self.advance();
        }
        proof {
            assert(self.current as int == ident_end(old(self)@, old(self).current as int));
        }
        let text = self.source.as_str().substring_char(self.start, self.current).to_owned();
        let type_ = keyword_type(&text);
        self.add_token(type_);
    }
}

/// The characters a number literal is made of.
pub open spec fn is_digit_s(c: char) -> bool {
    '0' as u32 <= c as u32 <= '9' as u32
}

fn is_digit(c: char) -> (r: bool)
    ensures
        r == is_digit_s(c),
{
    ('0' as u32) <= (c as u32) && (c as u32) <= ('9' as u32)
}

/// The characters an identifier may start with.
pub open spec fn is_alpha_s(c: char) -> bool {
    ('a' as u32 <= c as u32 <= 'z' as u32) || ('A' as u32 <= c as u32 <= 'Z' as u32) || c == '_'
}

fn is_alpha(c: char) -> (r: bool)
    ensures
        r == is_alpha_s(c),
{
    (('a' as u32) <= (c as u32) && (c as u32) <= ('z' as u32)) || (('A' as u32) <= (c as u32) && (c
        as u32) <= ('Z' as u32)) || c == '_'
}

fn keyword_type(text: &String) -> (r: TokenType)
    ensures
        r == keyword_type_s(text@),
        r != TokenType::Eof,
        r != TokenType::Number,
        r != TokenType::Str,
{
    if *text == String::from_str("and") {
        TokenType::And
    } else if *text == String::from_str("class") {
        TokenType::Class
    } else if *text == String::from_str("else") {
        TokenType::Else
    } else if *text == String::from_str("false") {
        TokenType::False
    } else if *text == String::from_str("for") {
        TokenType::For
    } else if *text == String::from_str("fun") {
        TokenType::Fun
    } else if *text == String::from_str("if") {
        TokenType::If
    } else if *text == String::from_str("nil") {
        TokenType::Nil
    } else if *text == String::from_str("or") {
        TokenType::Or
    } else if *text == String::from_str("print") {
        TokenType::Print
    } else if *text == String::from_str("return") {
        TokenType::Return
    } else if *text == String::from_str("super") {
        TokenType::Super
    } else if *text == String::from_str("this") {
        TokenType::This
    } else if *text == String::from_str("true") {
        TokenType::True
    } else if *text == String::from_str("var") {
        TokenType::Var
    } else if *text == String::from_str("while") {
        TokenType::While
    } else {
        TokenType::Identifier
    }
}

} // verus!
