//! The scanner: from characters to tokens, each with the line and column of
//! its first character.

use crate::errors::{CompilerError, CompilerErrorView};
use crate::schemas::{
    token_views, BinOpKind, Literal, LiteralView, Primitive, Span, Token, TokenKind,
    TokenKindView, TokenView,
};
use crate::text::{unicode_alphabetic, unicode_numeric, unicode_whitespace};
use vstd::prelude::*;
use vstd::string::{StrSliceExecFns, StringExecFns};

verus! {

/// The line of the character at index `i` of `src` (or of the end of `src`,
/// for `i == src.len()`): one more than the number of line feeds before it.
pub open spec fn line_at(src: Seq<char>, i: int) -> nat
    decreases i,
{
    if i <= 0 {
        1
    } else if src[i - 1] == '\n' {
        line_at(src, i - 1) + 1
    } else {
        line_at(src, i - 1)
    }
}

/// The column of the character at index `i` of `src`: one more than the
/// number of characters between it and the line feed before it, or the
/// start of the text.
pub open spec fn col_at(src: Seq<char>, i: int) -> nat
    decreases i,
{
    if i <= 0 {
        1
    } else if src[i - 1] == '\n' {
        1
    } else {
        col_at(src, i - 1) + 1
    }
}

/// The place of the character at index `i` of `src`.
pub open spec fn span_at(src: Seq<char>, i: int) -> Span {
    Span { line: line_at(src, i) as usize, col: col_at(src, i) as usize }
}

/// Lines and columns grow by at most one per character.
pub proof fn lemma_position_bound(src: Seq<char>, i: int)
    requires
        0 <= i,
    ensures
        line_at(src, i) + col_at(src, i) <= i + 2,
        1 <= line_at(src, i),
        1 <= col_at(src, i),
    decreases i,
{
    if i > 0 {
        lemma_position_bound(src, i - 1);
    }
}

/// What the scanner does on meeting a character where a token may start.
#[derive(Debug, PartialEq, Eq, Clone, Copy, Structural)]
pub enum Lead {
    /// White space: skipped.
    Blank,
    /// The first character of a keyword or an identifier.
    Word,
    /// The first character of a number.
    Number,
    /// One of `= < > & ! |`, which may begin a two-character operator.
    Compound,
    /// One of `+ - * / ( ) ;`, a token by itself.
    Symbol,
    /// The character that ends the text.
    Sentinel,
    /// Anything else: not part of the language.
    Unknown,
}

/// The lead of `c`, given which of the three Unicode classes it is in. The
/// tests are made in this order, and the first that holds decides.
pub open spec fn lead_from(c: char, whitespace: bool, alphabetic: bool, numeric: bool) -> Lead {
    if whitespace {
        Lead::Blank
    } else if alphabetic {
        Lead::Word
    } else if numeric || c == '.' {
        Lead::Number
    } else if c == '<' || c == '>' || c == '=' || c == '&' || c == '!' || c == '|' {
        Lead::Compound
    } else if c == '+' || c == '-' || c == '*' || c == '/' || c == '(' || c == ')' || c == ';' {
        Lead::Symbol
    } else if c == '\0' {
        Lead::Sentinel
    } else {
        Lead::Unknown
    }
}

/// The lead of `c`.
pub open spec fn lead_of(c: char) -> Lead {
    lead_from(c, unicode_whitespace(c), unicode_alphabetic(c), unicode_numeric(c))
}

/// Decides the lead of `c` from the answers to the three class tests.
pub fn classify(c: char, whitespace: bool, alphabetic: bool, numeric: bool) -> (r: Lead)
    ensures
        r == lead_from(c, whitespace, alphabetic, numeric),
{
    if whitespace {
        Lead::Blank
    } else if alphabetic {
        Lead::Word
    } else if numeric || c == '.' {
        Lead::Number
    } else if c == '<' || c == '>' || c == '=' || c == '&' || c == '!' || c == '|' {
        Lead::Compound
    } else if c == '+' || c == '-' || c == '*' || c == '/' || c == '(' || c == ')' || c == ';' {
        Lead::Symbol
    } else if c == '\0' {
        Lead::Sentinel
    } else {
        Lead::Unknown
    }
}

fn lead(c: char) -> (r: Lead)
    ensures
        r == lead_of(c),
{
    classify(c, c.is_whitespace(), c.is_alphabetic(), c.is_numeric())
}

/// Whether `c` continues a word (`numeric == false`) or a number
/// (`numeric == true`).
pub open spec fn continues(c: char, numeric: bool) -> bool {
    if numeric {
        unicode_numeric(c) || c == '.'
    } else {
        unicode_alphabetic(c) || unicode_numeric(c) || c == '_'
    }
}

/// How many characters from index `from` on continue a word or a number:
/// the length of the longest such run.
pub open spec fn run_len(src: Seq<char>, from: int, numeric: bool) -> nat
    decreases src.len() - from,
{
    if 0 <= from < src.len() && continues(src[from], numeric) {
        1 + run_len(src, from + 1, numeric)
    } else {
        0
    }
}

/// The token that a word stands for: a keyword, a boolean literal, or else
/// an identifier.
pub open spec fn word_kind(word: Seq<char>) -> TokenKindView {
    if word == "int"@ {
        TokenKindView::Declare(Primitive::Int)
    } else if word == "float"@ {
        TokenKindView::Declare(Primitive::Float)
    } else if word == "bool"@ {
        TokenKindView::Declare(Primitive::Bool)
    } else if word == "mut"@ {
        TokenKindView::Mut
    } else if word == "print"@ {
        TokenKindView::Print
    } else if word == "true"@ || word == "false"@ {
        TokenKindView::Literal(LiteralView { value: word, primitive: Primitive::Bool })
    } else {
        TokenKindView::Identifier(word)
    }
}

/// The token that a run of digits and dots stands for: a `Float` if there
/// is a dot in it, else an `Int`. The lexeme is kept as written.
pub open spec fn number_kind(word: Seq<char>) -> TokenKindView {
    TokenKindView::Literal(
        LiteralView {
            value: word,
            primitive: if word.contains('.') {
                Primitive::Float
            } else {
                Primitive::Int
            },
        },
    )
}

/// The token that one of `+ - * / ( ) ;` stands for.
pub open spec fn symbol_kind(c: char) -> TokenKindView {
    if c == '+' {
        TokenKindView::BinOp(BinOpKind::Add)
    } else if c == '-' {
        TokenKindView::BinOp(BinOpKind::Sub)
    } else if c == '*' {
        TokenKindView::BinOp(BinOpKind::Mult)
    } else if c == '/' {
        TokenKindView::BinOp(BinOpKind::Div)
    } else if c == '(' {
        TokenKindView::LParen
    } else if c == ')' {
        TokenKindView::RParen
    } else {
        TokenKindView::EOS
    }
}

/// The message for a character that the language has no use for.
pub open spec fn unexpected_char_message(c: char) -> Seq<char> {
    "Unexpected character '"@.push(c) + "'."@
}

/// The message for an `&` or a `|` that stands alone.
pub open spec fn lone_char_message(c: char) -> Seq<char> {
    if c == '&' {
        "Unexpected single character '&', did you mean '&&'?"@
    } else {
        "Unexpected single character '|', did you mean '||'?"@
    }
}

/// One move of the scanner.
pub enum Step {
    /// One character of white space is passed over.
    Skip,
    /// A token of `len` characters is recognised.
    Emit { kind: TokenKindView, len: nat },
    /// The text ends here; `len` is 1 where a sentinel character is read
    /// and 0 where the text just stops.
    Finish { len: nat },
    /// The scan fails here, after reading `len` characters.
    Fail { message: Seq<char>, len: nat },
}

/// The character at index `i`, or the sentinel where the text has ended.
pub open spec fn peek_at(src: Seq<char>, i: int) -> char {
    if 0 <= i < src.len() {
        src[i]
    } else {
        '\0'
    }
}

/// The move for `c`, one of `= < > & ! |`, when `next` follows it.
pub open spec fn compound_step(c: char, next: char) -> Step {
    if c == '=' {
        if next == '=' {
            Step::Emit { kind: TokenKindView::BinOp(BinOpKind::Eq), len: 2 }
        } else {
            Step::Emit { kind: TokenKindView::BinOp(BinOpKind::Assign), len: 1 }
        }
    } else if c == '<' {
        if next == '=' {
            Step::Emit { kind: TokenKindView::BinOp(BinOpKind::Le), len: 2 }
        } else {
            Step::Emit { kind: TokenKindView::BinOp(BinOpKind::Lt), len: 1 }
        }
    } else if c == '>' {
        if next == '=' {
            Step::Emit { kind: TokenKindView::BinOp(BinOpKind::Ge), len: 2 }
        } else {
            Step::Emit { kind: TokenKindView::BinOp(BinOpKind::Gt), len: 1 }
        }
    } else if c == '&' {
        if next == '&' {
            Step::Emit { kind: TokenKindView::BinOp(BinOpKind::And), len: 2 }
        } else {
            Step::Fail { message: lone_char_message(c), len: 1 }
        }
    } else if c == '|' {
        if next == '|' {
            Step::Emit { kind: TokenKindView::BinOp(BinOpKind::Or), len: 2 }
        } else {
            Step::Fail { message: lone_char_message(c), len: 1 }
        }
    } else {
        if next == '=' {
            Step::Emit { kind: TokenKindView::BinOp(BinOpKind::Ne), len: 2 }
        } else {
            Step::Emit { kind: TokenKindView::BinOp(BinOpKind::Not), len: 1 }
        }
    }
}

/// The scanner's move at index `pos` of `src`.
pub open spec fn step_at(src: Seq<char>, pos: int) -> Step {
    if !(0 <= pos < src.len()) {
        Step::Finish { len: 0 }
    } else {
        let c = src[pos];
        match lead_of(c) {
            Lead::Blank => Step::Skip,
            Lead::Word => {
                let len = 1 + run_len(src, pos + 1, false);
                Step::Emit { kind: word_kind(src.subrange(pos, pos + len)), len }
            },
            Lead::Number => {
                let len = 1 + run_len(src, pos + 1, true);
                Step::Emit { kind: number_kind(src.subrange(pos, pos + len)), len }
            },
            Lead::Compound => compound_step(c, peek_at(src, pos + 1)),
            Lead::Symbol => Step::Emit { kind: symbol_kind(c), len: 1 },
            Lead::Sentinel => Step::Finish { len: 1 },
            Lead::Unknown => Step::Fail { message: unexpected_char_message(c), len: 0 },
        }
    }
}

/// What a scan leaves behind: the tokens it recognised, the index at which
/// it stopped, and the error if it failed.
pub struct ScanRun {
    pub tokens: Seq<TokenView>,
    pub end: int,
    pub error: Option<CompilerErrorView>,
}

/// How many characters are left from index `pos` on.
pub open spec fn left(src: Seq<char>, pos: int) -> nat {
    if pos < src.len() {
        (src.len() - pos) as nat
    } else {
        0
    }
}

/// The scan of `src` from index `pos` on: move by move, until the text ends
/// or a move fails.
pub open spec fn scan_from(src: Seq<char>, pos: int) -> ScanRun
    decreases left(src, pos),
{
    match step_at(src, pos) {
        Step::Skip => scan_from(src, pos + 1),
        Step::Emit { kind, len } => {
            let rest = scan_from(src, pos + len);
            ScanRun {
                tokens: seq![TokenView { kind, span: span_at(src, pos) }] + rest.tokens,
                end: rest.end,
                error: rest.error,
            }
        },
        Step::Finish { len } => ScanRun {
            tokens: seq![TokenView { kind: TokenKindView::EOF, span: span_at(src, pos) }],
            end: pos + len,
            error: None,
        },
        Step::Fail { message, len } => ScanRun {
            tokens: Seq::empty(),
            end: pos + len,
            error: Some(CompilerErrorView::SyntaxError { message, span: span_at(src, pos) }),
        },
    }
}

/// No token but the last is the end-of-input token.
pub open spec fn eof_only_last(tokens: Seq<TokenView>) -> bool {
    forall|i: int| 0 <= i < tokens.len() - 1 ==> (#[trigger] tokens[i]).kind != TokenKindView::EOF
}

/// No token is the end-of-input token.
pub open spec fn eof_free(tokens: Seq<TokenView>) -> bool {
    forall|i: int| 0 <= i < tokens.len() ==> (#[trigger] tokens[i]).kind != TokenKindView::EOF
}

/// The last token, and no other, is the end-of-input token.
pub open spec fn ends_with_eof(tokens: Seq<TokenView>) -> bool {
    &&& tokens.len() > 0
    &&& tokens.last().kind == TokenKindView::EOF
    &&& eof_only_last(tokens)
}

/// A scanner over one source text. It walks the text once, from the first
/// character to the sentinel or the end.
pub struct Lexer {
    chars: Vec<char>,
    at: Cursor,
    tokens: Vec<Token>,
}

/// Where the scanner stands: the index of the next character, and its line
/// and column.
#[derive(Clone, Copy)]
struct Cursor {
    pos: usize,
    line: usize,
    col: usize,
}

/// The value of a [`Lexer`]: the text, how far the scanner has come in it,
/// and the tokens recognised so far.
pub struct LexerView {
    pub source: Seq<char>,
    pub pos: nat,
    pub tokens: Seq<TokenView>,
}

impl LexerView {
    /// Whether the end-of-input token has been produced.
    pub open spec fn finished(self) -> bool {
        self.tokens.len() > 0 && self.tokens.last().kind == TokenKindView::EOF
    }

    /// The state that a run of the scanner leads to. A finished scanner
    /// stays as it is.
    pub open spec fn scanned(self) -> LexerView {
        if self.finished() {
            self
        } else {
            let run = scan_from(self.source, self.pos as int);
            LexerView {
                source: self.source,
                pos: run.end as nat,
                tokens: self.tokens + run.tokens,
            }
        }
    }

    /// The error that a run of the scanner ends in, if any.
    pub open spec fn failure(self) -> Option<CompilerErrorView> {
        if self.finished() {
            None
        } else {
            scan_from(self.source, self.pos as int).error
        }
    }
}

impl View for Lexer {
    type V = LexerView;

    closed spec fn view(&self) -> LexerView {
        LexerView {
            source: self.chars@,
            pos: self.at.pos as nat,
            tokens: token_views(self.tokens@),
        }
    }
}

proof fn lemma_token_views_push(tokens: Seq<Token>, token: Token)
    ensures
        token_views(tokens.push(token)) == token_views(tokens).push(token@),
{
    assert(token_views(tokens.push(token)) =~= token_views(tokens).push(token@));
}

fn continues_run(c: char, numeric: bool) -> (r: bool)
    ensures
        r == continues(c, numeric),
{
    if numeric {
        c.is_numeric() || c == '.'
    } else {
        c.is_alphanumeric() || c == '_'
    }
}

/// Whether the characters of `chars` from `start` up to `end` spell `text`.
fn slice_is(chars: &Vec<char>, start: usize, end: usize, text: &str) -> (r: bool)
    requires
        start <= end <= chars.len(),
    ensures
        r == (chars@.subrange(start as int, end as int) == text@),
{
    let n = text.unicode_len();
    if n != end - start {
        return false;
    }
    let mut i: usize = 0;
    while i < n
        invariant
            n == text@.len(),
            n == end - start,
            start <= end <= chars.len(),
            i <= n,
            forall|j: int| 0 <= j < i ==> chars[start + j] == text@[j],
        decreases n - i,
    {
        if chars[start + i] != text.get_char(i) {
            assert(chars@.subrange(start as int, end as int)[i as int] != text@[i as int]);
            return false;
        }
        i = i + 1;
    }
    assert(chars@.subrange(start as int, end as int) =~= text@);
    true
}

fn symbol_token(c: char) -> (r: TokenKind)
    ensures
        r@ == symbol_kind(c),
{
    if c == '+' {
        TokenKind::BinOp(BinOpKind::Add)
    } else if c == '-' {
        TokenKind::BinOp(BinOpKind::Sub)
    } else if c == '*' {
        TokenKind::BinOp(BinOpKind::Mult)
    } else if c == '/' {
        TokenKind::BinOp(BinOpKind::Div)
    } else if c == '(' {
        TokenKind::LParen
    } else if c == ')' {
        TokenKind::RParen
    } else {
        TokenKind::EOS
    }
}

fn unexpected_char(c: char) -> (r: String)
    ensures
        r@ == unexpected_char_message(c),
{
    let mut message = String::from_str("Unexpected character '");
    message.push(c);
    message.append("'.");
    message
}

impl Lexer {
    #[verifier::type_invariant]
    spec fn inv(&self) -> bool {
        &&& self.at.pos <= self.chars.len()
        &&& self.chars.len() < usize::MAX
        &&& self.at.line == line_at(self.chars@, self.at.pos as int)
        &&& self.at.col == col_at(self.chars@, self.at.pos as int)
        &&& eof_only_last(token_views(self.tokens@))
    }

    /// A scanner at the start of `program`, with no token yet.
    pub fn new(program: &str) -> (r: Self)
        requires
            program@.len() < usize::MAX,
        ensures
            r@ == (LexerView { source: program@, pos: 0, tokens: Seq::empty() }),
    {
        let mut chars: Vec<char> = Vec::new();
        for c in it: program.chars()
            invariant
                it.seq() == program@,
                chars@ == program@.take(it.index() as int),
        {
            chars.push(c);
        }
        assert(chars@ =~= program@);
        let r = Lexer { chars, at: Cursor { pos: 0, line: 1, col: 1 }, tokens: Vec::new() };
        assert(r@.tokens =~= Seq::empty());
        r
    }

    fn peek_next(&self) -> (c: char)
        ensures
            c == peek_at(self.chars@, self.at.pos as int),
    {
        if self.at.pos < self.chars.len() {
            self.chars[self.at.pos]
        } else {
            '\0'
        }
    }

    fn here(&self) -> (r: Span)
        ensures
            r == span_at(self.chars@, self.at.pos as int),
    {
        proof {
            use_type_invariant(self);
        }
        Span { line: self.at.line, col: self.at.col }
    }

    fn consume_next(&mut self) -> (c: char)
        requires
            old(self).at.pos < old(self).chars.len(),
        ensures
            c == old(self).chars[old(self).at.pos as int],
            final(self).chars == old(self).chars,
            final(self).tokens == old(self).tokens,
            final(self).at.pos == old(self).at.pos + 1,
    {
        proof {
            use_type_invariant(&*self);
            lemma_position_bound(self.chars@, self.at.pos as int);
        }
        let c = self.chars[self.at.pos];
        if c == '\n' {
            self.at = Cursor { pos: self.at.pos + 1, line: self.at.line + 1, col: 1 };
        } else {
            self.at = Cursor { pos: self.at.pos + 1, line: self.at.line, col: self.at.col + 1 };
        }
        c
    }

    fn emit(&mut self, kind: TokenKind, span: Span)
        requires
            eof_free(token_views(old(self).tokens@)),
        ensures
            final(self).chars == old(self).chars,
            final(self).at == old(self).at,
            token_views(final(self).tokens@) == token_views(old(self).tokens@).push(
                TokenView { kind: kind@, span },
            ),
    {
        proof {
            use_type_invariant(&*self);
            lemma_token_views_push(self.tokens@, Token { kind, span });
        }
        let mut tokens: Vec<Token> = Vec::new();
        core::mem::swap(&mut self.tokens, &mut tokens);
        tokens.push(Token { kind, span });
        self.tokens = tokens;
    }

    /// Reads on from the cursor for as long as the characters continue a
    /// word (or a number), and returns what was read, and whether there is
    /// a dot in it.
    fn read_run(&mut self, numeric: bool) -> (r: (String, bool))
        ensures
            final(self).chars == old(self).chars,
            final(self).tokens == old(self).tokens,
            final(self).at.pos == old(self).at.pos + run_len(
                old(self).chars@,
                old(self).at.pos as int,
                numeric,
            ),
            final(self).at.pos <= final(self).chars.len(),
            r.0@ == old(self).chars@.subrange(old(self).at.pos as int, final(self).at.pos as int),
            r.1 == r.0@.contains('.'),
    {
        proof {
            use_type_invariant(&*self);
        }
        let ghost src = self.chars@;
        let ghost start = self.at.pos as int;
        let mut word = String::new();
        let mut dotted = false;
        assert(word@ =~= src.subrange(start, start));
        while self.at.pos < self.chars.len() && continues_run(self.chars[self.at.pos], numeric)
            invariant
                self.chars == old(self).chars,
                self.tokens == old(self).tokens,
                src == self.chars@,
                start == old(self).at.pos,
                start <= self.at.pos <= self.chars.len(),
                word@ == src.subrange(start, self.at.pos as int),
                dotted == word@.contains('.'),
                (self.at.pos - start) + run_len(src, self.at.pos as int, numeric) == run_len(
                    src,
                    start,
                    numeric,
                ),
            decreases self.chars.len() - self.at.pos,
        {
            let ghost before = word@;
            let c = self.consume_next();
            word.push(c);
            if c == '.' {
                dotted = true;
            }
            proof {
                assert(word@ =~= src.subrange(start, self.at.pos as int));
                assert(word@ == before.push(c));
                assert(word@.contains('.') == (before.contains('.') || c == '.')) by {
                    if before.contains('.') {
                        let i = choose|i: int| 0 <= i < before.len() && before[i] == '.';
                        assert(word@[i] == '.');
                    }
                    if c == '.' {
                        assert(word@[before.len() as int] == '.');
                    }
                }
            }
        }
        (word, dotted)
    }

    /// Reads a keyword, a boolean literal or an identifier.
    fn handle_alphanumeric(&mut self)
        requires
            old(self).at.pos < old(self).chars.len(),
            lead_of(old(self).chars[old(self).at.pos as int]) == Lead::Word,
            eof_free(token_views(old(self).tokens@)),
        ensures
            final(self).chars == old(self).chars,
            final(self).at.pos <= final(self).chars.len(),
            step_at(old(self).chars@, old(self).at.pos as int) matches Step::Emit { kind, len }
                && final(self).at.pos == old(self).at.pos + len && token_views(
                final(self).tokens@,
            ) == token_views(old(self).tokens@).push(
                TokenView { kind, span: span_at(old(self).chars@, old(self).at.pos as int) },
            ) && kind != TokenKindView::EOF,
    {
        let span = self.here();
        let start = self.at.pos;
        let (word, _) = self.read_run(false);
        let end = self.at.pos;
        let kind = if slice_is(&self.chars, start, end, "int") {
            TokenKind::Declare(Primitive::Int)
        } else if slice_is(&self.chars, start, end, "float") {
            TokenKind::Declare(Primitive::Float)
        } else if slice_is(&self.chars, start, end, "bool") {
            TokenKind::Declare(Primitive::Bool)
        } else if slice_is(&self.chars, start, end, "mut") {
            TokenKind::Mut
        } else if slice_is(&self.chars, start, end, "print") {
            TokenKind::Print
        } else if slice_is(&self.chars, start, end, "true") || slice_is(
            &self.chars,
            start,
            end,
            "false",
        ) {
            TokenKind::Literal(Literal { value: word, primitive: Primitive::Bool })
        } else {
            TokenKind::Identifier(word)
        };
        self.emit(kind, span);
    }

    /// Reads a number.
    fn handle_numeric(&mut self)
        requires
            old(self).at.pos < old(self).chars.len(),
            lead_of(old(self).chars[old(self).at.pos as int]) == Lead::Number,
            eof_free(token_views(old(self).tokens@)),
        ensures
            final(self).chars == old(self).chars,
            final(self).at.pos <= final(self).chars.len(),
            step_at(old(self).chars@, old(self).at.pos as int) matches Step::Emit { kind, len }
                && final(self).at.pos == old(self).at.pos + len && token_views(
                final(self).tokens@,
            ) == token_views(old(self).tokens@).push(
                TokenView { kind, span: span_at(old(self).chars@, old(self).at.pos as int) },
            ) && kind != TokenKindView::EOF,
    {
        let span = self.here();
        let (word, dotted) = self.read_run(true);
        let primitive = if dotted {
            Primitive::Float
        } else {
            Primitive::Int
        };
        self.emit(TokenKind::Literal(Literal { value: word, primitive }), span);
    }

    /// Reads an operator that begins with one of `= < > & ! |`.
    fn handle_boolean(&mut self) -> (r: Result<(), CompilerError>)
        requires
            old(self).at.pos < old(self).chars.len(),
            lead_of(old(self).chars[old(self).at.pos as int]) == Lead::Compound,
            eof_free(token_views(old(self).tokens@)),
        ensures
            final(self).chars == old(self).chars,
            final(self).at.pos <= final(self).chars.len(),
            match step_at(old(self).chars@, old(self).at.pos as int) {
                Step::Emit { kind, len } => {
                    &&& r is Ok
                    &&& final(self).at.pos == old(self).at.pos + len
                    &&& token_views(final(self).tokens@) == token_views(old(self).tokens@).push(
                        TokenView {
                            kind,
                            span: span_at(old(self).chars@, old(self).at.pos as int),
                        },
                    )
                    &&& kind != TokenKindView::EOF
                },
                Step::Fail { message, len } => {
                    &&& r is Err
                    &&& r->Err_0@ == (CompilerErrorView::SyntaxError {
                        message,
                        span: span_at(old(self).chars@, old(self).at.pos as int),
                    })
                    &&& final(self).at.pos == old(self).at.pos + len
                    &&& final(self).tokens == old(self).tokens
                },
                _ => false,
            },
    {
        let span = self.here();
        let c = self.consume_next();
        let next = self.peek_next();
        if c == '&' || c == '|' {
            if next == c {
                let op = if c == '&' {
                    BinOpKind::And
                } else {
                    BinOpKind::Or
                };
                self.emit(TokenKind::BinOp(op), span);
                self.consume_next();
                Ok(())
            } else {
                let message = if c == '&' {
                    String::from_str("Unexpected single character '&', did you mean '&&'?")
                } else {
                    String::from_str("Unexpected single character '|', did you mean '||'?")
                };
                Err(CompilerError::SyntaxError { message, span })
            }
        } else if next == '=' {
            let op = if c == '=' {
                BinOpKind::Eq
            } else if c == '<' {
                BinOpKind::Le
            } else if c == '>' {
                BinOpKind::Ge
            } else {
                BinOpKind::Ne
            };
            self.emit(TokenKind::BinOp(op), span);
            self.consume_next();
            Ok(())
        } else {
            let op = if c == '=' {
                BinOpKind::Assign
            } else if c == '<' {
                BinOpKind::Lt
            } else if c == '>' {
                BinOpKind::Gt
            } else {
                BinOpKind::Not
            };
            self.emit(TokenKind::BinOp(op), span);
            Ok(())
        }
    }

    /// Scans the text from where the scanner stands to its end, adding the
    /// tokens to those already recognised. The scan stops at the first
    /// error. Once the end-of-input token is there, nothing more is done.
    pub fn tokenize(&mut self) -> (r: Result<(), CompilerError>)
        ensures
            final(self)@ == old(self)@.scanned(),
            match old(self)@.failure() {
                None => r is Ok,
                Some(error) => r is Err && r->Err_0@ == error,
            },
            eof_only_last(final(self)@.tokens),
            r is Ok ==> ends_with_eof(final(self)@.tokens),
    {
        proof {
            use_type_invariant(&*self);
        }
        let n = self.tokens.len();
        if n > 0 && matches!(self.tokens[n - 1].kind, TokenKind::EOF) {
            return Ok(());
        }
        let ghost src = self.chars@;
        let ghost first = scan_from(src, self.at.pos as int);
        let ghost before = token_views(self.tokens@);
        loop
            invariant
                self.chars == old(self).chars,
                src == self.chars@,
                self.at.pos <= self.chars.len(),
                eof_free(token_views(self.tokens@)),
                first == scan_from(src, old(self).at.pos as int),
                before == token_views(old(self).tokens@),
                !old(self)@.finished(),
                first.error == scan_from(src, self.at.pos as int).error,
                first.end == scan_from(src, self.at.pos as int).end,
                before + first.tokens == token_views(self.tokens@) + scan_from(
                    src,
                    self.at.pos as int,
                ).tokens,
            decreases self.chars.len() - self.at.pos,
        {
            let ghost seen = token_views(self.tokens@);
            let ghost rest = scan_from(src, self.at.pos as int);
            let span = self.here();
            if self.at.pos >= self.chars.len() {
                self.emit(TokenKind::EOF, span);
                proof {
                    use_type_invariant(&*self);
                    assert(self@.tokens =~= seen + rest.tokens);
                }
                return Ok(());
            }
            let c = self.chars[self.at.pos];
            match lead(c) {
                Lead::Blank => {
                    self.consume_next();
                },
                Lead::Word => {
                    self.handle_alphanumeric();
                    proof {
                        let next = scan_from(src, self.at.pos as int);
                        assert(token_views(self.tokens@) + next.tokens =~= seen + rest.tokens);
                    }
                },
                Lead::Number => {
                    self.handle_numeric();
                    proof {
                        let next = scan_from(src, self.at.pos as int);
                        assert(token_views(self.tokens@) + next.tokens =~= seen + rest.tokens);
                    }
                },
                Lead::Compound => {
                    match self.handle_boolean() {
                        Ok(_) => {
                            proof {
                                let next = scan_from(src, self.at.pos as int);
                                assert(token_views(self.tokens@) + next.tokens =~= seen
                                    + rest.tokens);
                            }
                        },
                        Err(error) => {
                            proof {
                                use_type_invariant(&*self);
                                assert(self@.tokens =~= seen + rest.tokens);
                            }
                            return Err(error);
                        },
                    }
                },
                Lead::Symbol => {
                    self.emit(symbol_token(c), span);
                    self.consume_next();
                    proof {
                        let next = scan_from(src, self.at.pos as int);
                        assert(token_views(self.tokens@) + next.tokens =~= seen + rest.tokens);
                    }
                },
                Lead::Sentinel => {
                    self.emit(TokenKind::EOF, span);
                    self.consume_next();
                    proof {
                        use_type_invariant(&*self);
                        assert(self@.tokens =~= seen + rest.tokens);
                    }
                    return Ok(());
                },
                Lead::Unknown => {
                    proof {
                        assert(self@.tokens =~= seen + rest.tokens);
                    }
                    return Err(CompilerError::SyntaxError { message: unexpected_char(c), span });
                },
            }
        }
    }

    /// The tokens recognised so far.
    pub fn get_tokens(&self) -> (r: &Vec<Token>)
        ensures
            token_views(r@) == self@.tokens,
    {
        &self.tokens
    }
}

/// What scanning a whole text yields: its tokens, or the first error.
pub open spec fn scan_spec(source: Seq<char>) -> Result<Seq<TokenView>, CompilerErrorView> {
    let run = scan_from(source, 0);
    match run.error {
        None => Ok(run.tokens),
        Some(error) => Err(error),
    }
}

/// Scans `source` from its first character to the sentinel or, where there
/// is none, to its end.
pub fn scan(source: &str) -> (r: Result<Vec<Token>, CompilerError>)
    requires
        source@.len() < usize::MAX,
    ensures
        match scan_spec(source@) {
            Ok(tokens) => r is Ok && token_views(r->Ok_0@) == tokens,
            Err(error) => r is Err && r->Err_0@ == error,
        },
        r is Ok ==> ends_with_eof(token_views(r->Ok_0@)),
{
    let mut lexer = Lexer::new(source);
    match lexer.tokenize() {
        Ok(_) => {
            assert(lexer@.tokens =~= scan_from(source@, 0).tokens);
            Ok(lexer.tokens)
        },
        Err(error) => Err(error),
    }
}

/// A scan that succeeds yields the end-of-input token last, and nowhere
/// else; a scan that fails yields it nowhere.
pub proof fn lemma_scan_ends_with_eof(src: Seq<char>, pos: int)
    ensures
        scan_from(src, pos).error is None ==> ends_with_eof(scan_from(src, pos).tokens),
        scan_from(src, pos).error is Some ==> eof_free(scan_from(src, pos).tokens),
    decreases left(src, pos),
{
    match step_at(src, pos) {
        Step::Skip => {
            lemma_scan_ends_with_eof(src, pos + 1);
        },
        Step::Emit { kind, len } => {
            lemma_scan_ends_with_eof(src, pos + len);
            let rest = scan_from(src, pos + len);
            let all = scan_from(src, pos);
            assert(kind != TokenKindView::EOF);
            assert forall|i: int| 0 <= i < all.tokens.len() implies (i < all.tokens.len() - 1
                || rest.error is Some) ==> (#[trigger] all.tokens[i]).kind
                != TokenKindView::EOF by {
                if i > 0 {
                    assert(all.tokens[i] == rest.tokens[i - 1]);
                }
            }
            if rest.error is None {
                assert(all.tokens.last() == rest.tokens.last());
            }
        },
        Step::Finish { len } => {},
        Step::Fail { message, len } => {},
    }
}

/// The index at which the scan from `pos` stops: that of the move which
/// finishes it or fails.
pub open spec fn stop_at(src: Seq<char>, pos: int) -> int
    decreases left(src, pos),
{
    match step_at(src, pos) {
        Step::Skip => stop_at(src, pos + 1),
        Step::Emit { kind, len } => stop_at(src, pos + len),
        Step::Finish { len } => pos,
        Step::Fail { message, len } => pos,
    }
}

/// A run of word or number characters from `from` on ends before any
/// character at or after `from` that does not continue it.
pub proof fn lemma_run_stops(src: Seq<char>, from: int, numeric: bool, i: int)
    requires
        0 <= from <= i < src.len(),
        !continues(src[i], numeric),
    ensures
        from + run_len(src, from, numeric) <= i,
    decreases i - from,
{
    if from < i && continues(src[from], numeric) {
        lemma_run_stops(src, from + 1, numeric, i);
    }
}

/// A scan that fails reports the move that failed: the error carries the
/// message of that move and the line and column of the character it stood
/// at.
pub proof fn lemma_error_at_stop(src: Seq<char>, pos: int)
    ensures
        pos <= stop_at(src, pos),
        match scan_from(src, pos).error {
            Some(error) => step_at(src, stop_at(src, pos)) matches Step::Fail { message, len }
                && error == (CompilerErrorView::SyntaxError {
                message,
                span: span_at(src, stop_at(src, pos)),
            }),
            None => step_at(src, stop_at(src, pos)) is Finish,
        },
    decreases left(src, pos),
{
    match step_at(src, pos) {
        Step::Skip => {
            lemma_error_at_stop(src, pos + 1);
        },
        Step::Emit { kind, len } => {
            lemma_error_at_stop(src, pos + len);
        },
        Step::Finish { len } => {},
        Step::Fail { message, len } => {},
    }
}

/// A character that the language has no use for is never passed over.
/// Where it stands at index `i`, outside a word, the scan from any index up
/// to `i` stops at `i` at the latest; and if it stops there, it fails with
/// the message for that character, at its line and column.
pub proof fn lemma_unknown_char_stops_scan(src: Seq<char>, pos: int, i: int)
    requires
        0 <= pos <= i < src.len(),
        lead_of(src[i]) == Lead::Unknown,
        src[i] != '_',
    ensures
        stop_at(src, pos) <= i,
        stop_at(src, pos) == i ==> scan_from(src, pos).error == Some(
            CompilerErrorView::SyntaxError {
                message: unexpected_char_message(src[i]),
                span: span_at(src, i),
            },
        ),
    decreases i - pos,
{
    lemma_error_at_stop(src, pos);
    if pos < i {
        match step_at(src, pos) {
            Step::Skip => {
                lemma_unknown_char_stops_scan(src, pos + 1, i);
            },
            Step::Emit { kind, len } => {
                match lead_of(src[pos]) {
                    Lead::Word => {
                        lemma_run_stops(src, pos + 1, false, i);
                    },
                    Lead::Number => {
                        lemma_run_stops(src, pos + 1, true, i);
                    },
                    _ => {},
                }
                lemma_unknown_char_stops_scan(src, pos + len, i);
            },
            Step::Finish { len } => {},
            Step::Fail { message, len } => {},
        }
    }
}

/// Whether `a` comes before `b` in the text: on an earlier line, or
/// earlier on the same line.
pub open spec fn precedes(a: Span, b: Span) -> bool {
    a.line < b.line || (a.line == b.line && a.col < b.col)
}

/// The index in the text at which the token at index `k` of the scan from
/// `pos` begins.
pub open spec fn token_start(src: Seq<char>, pos: int, k: int) -> int
    decreases left(src, pos),
{
    match step_at(src, pos) {
        Step::Skip => token_start(src, pos + 1, k),
        Step::Emit { kind, len } => if k <= 0 {
            pos
        } else {
            token_start(src, pos + len, k - 1)
        },
        Step::Finish { len } => pos,
        Step::Fail { message, len } => pos,
    }
}

/// A run of word or number characters ends within the text.
pub proof fn lemma_run_within(src: Seq<char>, from: int, numeric: bool)
    requires
        0 <= from <= src.len(),
    ensures
        from + run_len(src, from, numeric) <= src.len(),
    decreases src.len() - from,
{
    if from < src.len() && continues(src[from], numeric) {
        lemma_run_within(src, from + 1, numeric);
    }
}

/// No move of the scanner reads beyond the end of the text.
pub proof fn lemma_step_within(src: Seq<char>, pos: int)
    requires
        0 <= pos <= src.len(),
    ensures
        match step_at(src, pos) {
            Step::Skip => pos + 1 <= src.len(),
            Step::Emit { kind, len } => 1 <= len && pos + len <= src.len(),
            Step::Finish { len } => pos + len <= src.len(),
            Step::Fail { message, len } => pos + len <= src.len(),
        },
{
    if pos < src.len() {
        lemma_run_within(src, pos + 1, false);
        lemma_run_within(src, pos + 1, true);
    }
}

/// Later characters stand at later places: the line and column of an index
/// come before those of every greater index.
pub proof fn lemma_places_advance(src: Seq<char>, i: int, j: int)
    requires
        0 <= i < j,
    ensures
        line_at(src, i) < line_at(src, j) || (line_at(src, i) == line_at(src, j) && col_at(src, i)
            < col_at(src, j)),
    decreases j - i,
{
    if i + 1 < j {
        lemma_places_advance(src, i, j - 1);
    }
}

/// Every token carries the line and column of the character it begins
/// with, and the tokens begin at growing indices of the text.
pub proof fn lemma_token_places(src: Seq<char>, pos: int, k: int)
    requires
        0 <= pos <= src.len(),
        0 <= k < scan_from(src, pos).tokens.len(),
    ensures
        pos <= token_start(src, pos, k) <= src.len(),
        scan_from(src, pos).tokens[k].span == span_at(src, token_start(src, pos, k)),
        k + 1 < scan_from(src, pos).tokens.len() ==> token_start(src, pos, k) < token_start(
            src,
            pos,
            k + 1,
        ),
    decreases left(src, pos),
{
    lemma_step_within(src, pos);
    match step_at(src, pos) {
        Step::Skip => {
            lemma_token_places(src, pos + 1, k);
        },
        Step::Emit { kind, len } => {
            let rest = scan_from(src, pos + len);
            if k > 0 {
                assert(scan_from(src, pos).tokens[k] == rest.tokens[k - 1]);
                lemma_token_places(src, pos + len, k - 1);
            } else if k + 1 < scan_from(src, pos).tokens.len() {
                lemma_token_places(src, pos + len, 0);
            }
        },
        Step::Finish { len } => {},
        Step::Fail { message, len } => {},
    }
}

/// Places only move forward along the token stream: of two tokens of a
/// scan, the earlier one stands at the earlier place in the text.
pub proof fn lemma_spans_advance(src: Seq<char>, k: int, m: int)
    requires
        src.len() < usize::MAX,
        0 <= k < m < scan_from(src, 0).tokens.len(),
    ensures
        precedes(scan_from(src, 0).tokens[k].span, scan_from(src, 0).tokens[m].span),
    decreases m - k,
{
    lemma_token_places(src, 0, k);
    lemma_token_places(src, 0, m);
    lemma_starts_advance(src, k, m);
    let i = token_start(src, 0, k);
    let j = token_start(src, 0, m);
    lemma_places_advance(src, i, j);
    lemma_position_bound(src, i);
    lemma_position_bound(src, j);
}

proof fn lemma_starts_advance(src: Seq<char>, k: int, m: int)
    requires
        0 <= k < m < scan_from(src, 0).tokens.len(),
    ensures
        token_start(src, 0, k) < token_start(src, 0, m),
    decreases m - k,
{
    lemma_token_places(src, 0, m - 1);
    if k < m - 1 {
        lemma_starts_advance(src, k, m - 1);
    }
}

} // verus!
