//! The tokenizer: a single left-to-right pass over the source bytes that
//! produces, on each pull, the next token or a lexing failure. Each call
//! skips whitespace and comments, then classifies the next byte to choose
//! exactly one token production: identifier or keyword, numeric constant, or
//! a maximal-munch match against the symbol spellings (preferring `<<=` over
//! `<<` over `<`). Line and column are tracked incrementally.
//!
//! The whole pass is mirrored by specification functions; `next_token` is
//! proved to step exactly as `spec_next_token` says, and the full stream is
//! `spec_tokens`.

use vstd::prelude::*;

use crate::error::{CompilerError, LexError};
use crate::token::{
    dec_value, is_digit, is_ident_char, is_ident_start, keyword_of, spell, spell_ok, Span,
    SpecToken, SpecTokenType, StaticToken, Token, TokenType,
};

verus! {

/// A position in the source text: byte offset plus 1-based line and column.
pub struct SpecCursor {
    pub pos: int,
    pub line: int,
    pub col: int,
}

/// The position before the first byte.
pub open spec fn start_cursor() -> SpecCursor {
    SpecCursor { pos: 0, line: 1, col: 1 }
}

/// A cursor that lies within the source and whose line and column are
/// plausible for its offset (both grow by at most one per byte).
pub open spec fn cursor_wf(src: Seq<u8>, c: SpecCursor) -> bool {
    &&& 0 <= c.pos <= src.len()
    &&& 1 <= c.line <= c.pos + 1
    &&& 1 <= c.col <= c.pos + 1
}

/// Whitespace bytes.
pub open spec fn is_space(b: u8) -> bool {
    b == ' ' as u8 || b == '\t' as u8 || b == '\r' as u8 || b == '\n' as u8
}

/// One byte forward, tracking line and column.
pub open spec fn advance(c: SpecCursor, b: u8) -> SpecCursor {
    if b == '\n' as u8 {
        SpecCursor { pos: c.pos + 1, line: c.line + 1, col: 1 }
    } else {
        SpecCursor { pos: c.pos + 1, line: c.line, col: c.col + 1 }
    }
}

/// `k` bytes forward within one line.
pub open spec fn bump_cols(c: SpecCursor, k: int) -> SpecCursor {
    SpecCursor { pos: c.pos + k, line: c.line, col: c.col + k }
}

/// The rest of a `//` comment: everything up to and including the next
/// newline, or to the end of input.
pub open spec fn spec_skip_line(src: Seq<u8>, c: SpecCursor) -> SpecCursor
    decreases src.len() - c.pos,
    when 0 <= c.pos <= src.len()
{
    if c.pos < src.len() {
        if src[c.pos] == '\n' as u8 {
            advance(c, src[c.pos])
        } else {
            spec_skip_line(src, advance(c, src[c.pos]))
        }
    } else {
        c
    }
}

/// How a `/* ... */` comment ends: at its closing `*/`, or never.
pub enum SpecBlockEnd {
    Closed(SpecCursor),
    Open,
}

/// The rest of a `/*` comment, starting just after the opener.
pub open spec fn spec_skip_block(src: Seq<u8>, c: SpecCursor) -> SpecBlockEnd
    decreases src.len() - c.pos,
    when 0 <= c.pos <= src.len()
{
    if c.pos + 2 <= src.len() {
        if src[c.pos] == '*' as u8 && src[c.pos + 1] == '/' as u8 {
            SpecBlockEnd::Closed(advance(advance(c, src[c.pos]), src[c.pos + 1]))
        } else {
            spec_skip_block(src, advance(c, src[c.pos]))
        }
    } else {
        SpecBlockEnd::Open
    }
}

proof fn lemma_skip_line_bounds(src: Seq<u8>, c: SpecCursor)
    requires
        cursor_wf(src, c),
    ensures
        cursor_wf(src, spec_skip_line(src, c)),
        c.pos <= spec_skip_line(src, c).pos,
    decreases src.len() - c.pos,
{
    if c.pos < src.len() && src[c.pos] != '\n' as u8 {
        lemma_skip_line_bounds(src, advance(c, src[c.pos]));
    }
}

proof fn lemma_skip_block_bounds(src: Seq<u8>, c: SpecCursor)
    requires
        cursor_wf(src, c),
    ensures
        spec_skip_block(src, c) matches SpecBlockEnd::Closed(c2) ==> cursor_wf(src, c2) && c.pos + 2
            <= c2.pos,
    decreases src.len() - c.pos,
{
    if c.pos + 2 <= src.len() {
        if !(src[c.pos] == '*' as u8 && src[c.pos + 1] == '/' as u8) {
            lemma_skip_block_bounds(src, advance(c, src[c.pos]));
        }
    }
}

/// Where the trivia (whitespace and comments) before the next token ends:
/// at a clean token boundary, or inside a block comment that never closes
/// (the carried cursor points at the `/*` that opened it).
pub enum SpecTrivia {
    Clean(SpecCursor),
    Unterminated(SpecCursor),
}

/// Skips whitespace, `//` comments and `/* ... */` comments.
pub open spec fn spec_skip_trivia(src: Seq<u8>, c: SpecCursor) -> SpecTrivia
    decreases src.len() - c.pos,
    when cursor_wf(src, c)
    via spec_skip_trivia_decreases
{
    if c.pos < src.len() && is_space(src[c.pos]) {
        spec_skip_trivia(src, advance(c, src[c.pos]))
    } else if c.pos + 2 <= src.len() && src[c.pos] == '/' as u8 && src[c.pos + 1] == '/' as u8 {
        spec_skip_trivia(
            src,
            spec_skip_line(src, advance(advance(c, src[c.pos]), src[c.pos + 1])),
        )
    } else if c.pos + 2 <= src.len() && src[c.pos] == '/' as u8 && src[c.pos + 1] == '*' as u8 {
        match spec_skip_block(src, advance(advance(c, src[c.pos]), src[c.pos + 1])) {
            SpecBlockEnd::Closed(c2) => spec_skip_trivia(src, c2),
            SpecBlockEnd::Open => SpecTrivia::Unterminated(c),
        }
    } else {
        SpecTrivia::Clean(c)
    }
}

#[via_fn]
proof fn spec_skip_trivia_decreases(src: Seq<u8>, c: SpecCursor) {
    if c.pos < src.len() && is_space(src[c.pos]) {
    } else if c.pos + 2 <= src.len() && src[c.pos] == '/' as u8 && src[c.pos + 1] == '/' as u8 {
        lemma_skip_line_bounds(src, advance(advance(c, src[c.pos]), src[c.pos + 1]));
    } else if c.pos + 2 <= src.len() && src[c.pos] == '/' as u8 && src[c.pos + 1] == '*' as u8 {
        lemma_skip_block_bounds(src, advance(advance(c, src[c.pos]), src[c.pos + 1]));
    }
}

proof fn lemma_skip_trivia_bounds(src: Seq<u8>, c: SpecCursor)
    requires
        cursor_wf(src, c),
    ensures
        spec_skip_trivia(src, c) matches SpecTrivia::Clean(c2) ==> cursor_wf(src, c2) && c.pos
            <= c2.pos,
        spec_skip_trivia(src, c) matches SpecTrivia::Unterminated(o) ==> cursor_wf(src, o),
    decreases src.len() - c.pos,
{
    if c.pos < src.len() && is_space(src[c.pos]) {
        lemma_skip_trivia_bounds(src, advance(c, src[c.pos]));
    } else if c.pos + 2 <= src.len() && src[c.pos] == '/' as u8 && src[c.pos + 1] == '/' as u8 {
        lemma_skip_line_bounds(src, advance(advance(c, src[c.pos]), src[c.pos + 1]));
        lemma_skip_trivia_bounds(
            src,
            spec_skip_line(src, advance(advance(c, src[c.pos]), src[c.pos + 1])),
        );
    } else if c.pos + 2 <= src.len() && src[c.pos] == '/' as u8 && src[c.pos + 1] == '*' as u8 {
        lemma_skip_block_bounds(src, advance(advance(c, src[c.pos]), src[c.pos + 1]));
        match spec_skip_block(src, advance(advance(c, src[c.pos]), src[c.pos + 1])) {
            SpecBlockEnd::Closed(c2) => {
                lemma_skip_trivia_bounds(src, c2);
            },
            SpecBlockEnd::Open => {
            },
        }
    }
}

/// The end of the identifier that starts at `i`: the first position at or
/// after `i` whose byte cannot continue an identifier.
pub open spec fn spec_scan_ident(src: Seq<u8>, i: int) -> int
    decreases src.len() - i,
    when 0 <= i <= src.len()
{
    if i < src.len() && is_ident_char(src[i]) {
        spec_scan_ident(src, i + 1)
    } else {
        i
    }
}

/// The end of the digit run that starts at `i`.
pub open spec fn spec_scan_digits(src: Seq<u8>, i: int) -> int
    decreases src.len() - i,
    when 0 <= i <= src.len()
{
    if i < src.len() && is_digit(src[i]) {
        spec_scan_digits(src, i + 1)
    } else {
        i
    }
}

proof fn lemma_scan_ident_facts(src: Seq<u8>, i: int)
    requires
        0 <= i <= src.len(),
    ensures
        i <= spec_scan_ident(src, i) <= src.len(),
        forall|j: int| i <= j < spec_scan_ident(src, i) ==> is_ident_char(#[trigger] src[j]),
    decreases src.len() - i,
{
    if i < src.len() && is_ident_char(src[i]) {
        lemma_scan_ident_facts(src, i + 1);
    }
}

proof fn lemma_scan_digits_facts(src: Seq<u8>, i: int)
    requires
        0 <= i <= src.len(),
    ensures
        i <= spec_scan_digits(src, i) <= src.len(),
        forall|j: int| i <= j < spec_scan_digits(src, i) ==> is_digit(#[trigger] src[j]),
    decreases src.len() - i,
{
    if i < src.len() && is_digit(src[i]) {
        lemma_scan_digits_facts(src, i + 1);
    }
}

/// The longest symbol spelling that starts at `i`, with its length:
/// maximal munch over the static-token table.
pub open spec fn sym_munch(src: Seq<u8>, i: int) -> Option<(StaticToken, int)> {
    let b = src[i];
    let two = i + 2 <= src.len();
    let three = i + 3 <= src.len();
    if b == '<' as u8 {
        if two && src[i + 1] == '<' as u8 {
            if three && src[i + 2] == '=' as u8 {
                Some((StaticToken::LeftShiftEqual, 3))
            } else {
                Some((StaticToken::LeftShift, 2))
            }
        } else if two && src[i + 1] == '=' as u8 {
            Some((StaticToken::LessThanOrEqual, 2))
        } else {
            Some((StaticToken::LessThan, 1))
        }
    } else if b == '>' as u8 {
        if two && src[i + 1] == '>' as u8 {
            if three && src[i + 2] == '=' as u8 {
                Some((StaticToken::RightShiftEqual, 3))
            } else {
                Some((StaticToken::RightShift, 2))
            }
        } else if two && src[i + 1] == '=' as u8 {
            Some((StaticToken::GreaterThanOrEqual, 2))
        } else {
            Some((StaticToken::GreaterThan, 1))
        }
    } else if b == '=' as u8 {
        if two && src[i + 1] == '=' as u8 {
            Some((StaticToken::EqualEqual, 2))
        } else {
            Some((StaticToken::Equal, 1))
        }
    } else if b == '!' as u8 {
        if two && src[i + 1] == '=' as u8 {
            Some((StaticToken::NotEqual, 2))
        } else {
            Some((StaticToken::Not, 1))
        }
    } else if b == '+' as u8 {
        if two && src[i + 1] == '=' as u8 {
            Some((StaticToken::PlusEqual, 2))
        } else if two && src[i + 1] == '+' as u8 {
            Some((StaticToken::PlusPlus, 2))
        } else {
            Some((StaticToken::Plus, 1))
        }
    } else if b == '-' as u8 {
        if two && src[i + 1] == '=' as u8 {
            Some((StaticToken::MinusEqual, 2))
        } else if two && src[i + 1] == '-' as u8 {
            Some((StaticToken::MinusMinus, 2))
        } else if two && src[i + 1] == '>' as u8 {
            Some((StaticToken::Arrow, 2))
        } else {
            Some((StaticToken::Minus, 1))
        }
    } else if b == '*' as u8 {
        if two && src[i + 1] == '=' as u8 {
            Some((StaticToken::StarEqual, 2))
        } else {
            Some((StaticToken::Star, 1))
        }
    } else if b == '/' as u8 {
        if two && src[i + 1] == '=' as u8 {
            Some((StaticToken::SlashEqual, 2))
        } else {
            Some((StaticToken::Slash, 1))
        }
    } else if b == '%' as u8 {
        if two && src[i + 1] == '=' as u8 {
            Some((StaticToken::PercentEqual, 2))
        } else {
            Some((StaticToken::Percent, 1))
        }
    } else if b == '&' as u8 {
        if two && src[i + 1] == '&' as u8 {
            Some((StaticToken::LogicalAnd, 2))
        } else if two && src[i + 1] == '=' as u8 {
            Some((StaticToken::AmpersandEqual, 2))
        } else {
            Some((StaticToken::Ampersand, 1))
        }
    } else if b == '|' as u8 {
        if two && src[i + 1] == '|' as u8 {
            Some((StaticToken::LogicalOr, 2))
        } else if two && src[i + 1] == '=' as u8 {
            Some((StaticToken::PipeEqual, 2))
        } else {
            Some((StaticToken::Pipe, 1))
        }
    } else if b == '^' as u8 {
        if two && src[i + 1] == '=' as u8 {
            Some((StaticToken::CaretEqual, 2))
        } else {
            Some((StaticToken::Caret, 1))
        }
    } else if b == '~' as u8 {
        Some((StaticToken::Tilde, 1))
    } else if b == '.' as u8 {
        if three && src[i + 1] == '.' as u8 && src[i + 2] == '.' as u8 {
            Some((StaticToken::Ellipsis, 3))
        } else {
            Some((StaticToken::Dot, 1))
        }
    } else if b == '#' as u8 {
        if two && src[i + 1] == '#' as u8 {
            Some((StaticToken::DoubleHash, 2))
        } else {
            Some((StaticToken::Hash, 1))
        }
    } else if b == ';' as u8 {
        Some((StaticToken::Semicolon, 1))
    } else if b == '(' as u8 {
        Some((StaticToken::LParen, 1))
    } else if b == ')' as u8 {
        Some((StaticToken::RParen, 1))
    } else if b == '{' as u8 {
        Some((StaticToken::LBrace, 1))
    } else if b == '}' as u8 {
        Some((StaticToken::RBrace, 1))
    } else if b == '[' as u8 {
        Some((StaticToken::LBracket, 1))
    } else if b == ']' as u8 {
        Some((StaticToken::RBracket, 1))
    } else if b == ',' as u8 {
        Some((StaticToken::Comma, 1))
    } else if b == ':' as u8 {
        Some((StaticToken::Colon, 1))
    } else if b == '?' as u8 {
        Some((StaticToken::Question, 1))
    } else {
        None
    }
}

/// The span of a token that starts at `c` and ends at byte offset `end`.
pub open spec fn token_span(c: SpecCursor, end: int) -> Span {
    Span { start: c.pos as usize, end: end as usize, line: c.line as usize, column: c.col as usize }
}

/// One step of the tokenizer: end of input, the next token together with
/// the cursor after it, or a failure.
pub enum SpecLexStep {
    Eof(SpecCursor),
    Tok(SpecToken, SpecCursor),
    Fail(CompilerError<LexError>),
}

/// What one pull on the tokenizer yields at cursor `c`.
pub open spec fn spec_next_token(src: Seq<u8>, c: SpecCursor) -> SpecLexStep {
    match spec_skip_trivia(src, c) {
        SpecTrivia::Unterminated(o) => SpecLexStep::Fail(
            CompilerError {
                error: LexError::UnterminatedComment,
                span: Span {
                    start: o.pos as usize,
                    end: src.len() as usize,
                    line: o.line as usize,
                    column: o.col as usize,
                },
            },
        ),
        SpecTrivia::Clean(c1) => {
            if c1.pos >= src.len() {
                SpecLexStep::Eof(c1)
            } else {
                let b = src[c1.pos];
                if is_ident_start(b) {
                    let end = spec_scan_ident(src, c1.pos);
                    let text = src.subrange(c1.pos, end);
                    let kind = match keyword_of(text) {
                        Some(kw) => SpecTokenType::Static(kw),
                        None => SpecTokenType::Identifier(text),
                    };
                    SpecLexStep::Tok(
                        SpecToken { kind, span: token_span(c1, end) },
                        bump_cols(c1, end - c1.pos),
                    )
                } else if is_digit(b) {
                    let end = spec_scan_digits(src, c1.pos);
                    let text = src.subrange(c1.pos, end);
                    if dec_value(text) > i32::MAX {
                        SpecLexStep::Fail(
                            CompilerError {
                                error: LexError::MalformedNumber,
                                span: token_span(c1, end),
                            },
                        )
                    } else {
                        SpecLexStep::Tok(
                            SpecToken {
                                kind: SpecTokenType::Constant(dec_value(text) as i32),
                                span: token_span(c1, end),
                            },
                            bump_cols(c1, end - c1.pos),
                        )
                    }
                } else {
                    match sym_munch(src, c1.pos) {
                        Some((st, k)) => SpecLexStep::Tok(
                            SpecToken {
                                kind: SpecTokenType::Static(st),
                                span: token_span(c1, c1.pos + k),
                            },
                            bump_cols(c1, k),
                        ),
                        None => SpecLexStep::Fail(
                            CompilerError {
                                error: LexError::UnrecognizedCharacter,
                                span: token_span(c1, c1.pos + 1),
                            },
                        ),
                    }
                }
            }
        },
    }
}

/// A matched symbol spelling is non-empty and lies within the source.
proof fn lemma_sym_munch_bounds(src: Seq<u8>, i: int)
    requires
        0 <= i < src.len(),
    ensures
        sym_munch(src, i) matches Some((st, k)) ==> 1 <= k && i + k <= src.len(),
{
}

/// A produced token moves the cursor strictly forward and stays within the
/// source.
pub proof fn lemma_next_token_advances(src: Seq<u8>, c: SpecCursor)
    requires
        cursor_wf(src, c),
    ensures
        spec_next_token(src, c) matches SpecLexStep::Tok(t, c2) ==> cursor_wf(src, c2) && c.pos
            < c2.pos,
        spec_next_token(src, c) matches SpecLexStep::Eof(c2) ==> cursor_wf(src, c2) && c2.pos
            == src.len(),
{
    lemma_skip_trivia_bounds(src, c);
    match spec_skip_trivia(src, c) {
        SpecTrivia::Unterminated(_) => {
        },
        SpecTrivia::Clean(c1) => {
            if c1.pos < src.len() {
                let b = src[c1.pos];
                if is_ident_start(b) {
                    lemma_scan_ident_facts(src, c1.pos + 1);
                    assert(spec_scan_ident(src, c1.pos) == spec_scan_ident(src, c1.pos + 1));
                } else if is_digit(b) {
                    lemma_scan_digits_facts(src, c1.pos + 1);
                    assert(spec_scan_digits(src, c1.pos) == spec_scan_digits(src, c1.pos + 1));
                } else {
                    lemma_sym_munch_bounds(src, c1.pos);
                }
            }
        },
    }
}

/// The stream of tokens from cursor `c` on: token by token up to end of
/// input, or cut short at the first lexing failure.
pub open spec fn spec_tokens(src: Seq<u8>, c: SpecCursor) -> Seq<
    Result<SpecToken, CompilerError<LexError>>,
>
    decreases src.len() - c.pos,
    when cursor_wf(src, c)
    via spec_tokens_decreases
{
    match spec_next_token(src, c) {
        SpecLexStep::Eof(_) => Seq::empty(),
        SpecLexStep::Fail(e) => seq![Err(e)],
        SpecLexStep::Tok(t, c2) => seq![Ok(t)] + spec_tokens(src, c2),
    }
}

#[via_fn]
proof fn spec_tokens_decreases(src: Seq<u8>, c: SpecCursor) {
    lemma_next_token_advances(src, c);
}

/// A matched symbol's source text is exactly its canonical spelling.
proof fn lemma_sym_spell(src: Seq<u8>, i: int)
    requires
        0 <= i < src.len(),
    ensures
        sym_munch(src, i) matches Some((st, k)) ==> src.subrange(i, i + k) == spell(st),
{
    if i + 1 <= src.len() {
        assert(src.subrange(i, i + 1) =~= seq![src[i]]);
    }
    if i + 2 <= src.len() {
        assert(src.subrange(i, i + 2) =~= seq![src[i], src[i + 1]]);
    }
    if i + 3 <= src.len() {
        assert(src.subrange(i, i + 3) =~= seq![src[i], src[i + 1], src[i + 2]]);
    }
}

/// Every produced token's span selects exactly a spelling of that token out
/// of the source text, and the cursor moves to the end of that spelling.
pub proof fn lemma_token_text(src: Seq<u8>, c: SpecCursor)
    requires
        cursor_wf(src, c),
        src.len() < usize::MAX,
    ensures
        spec_next_token(src, c) matches SpecLexStep::Tok(t, c2) ==> {
            &&& c.pos <= t.span.start < t.span.end <= src.len()
            &&& c2.pos == t.span.end
            &&& spell_ok(t.kind, src.subrange(t.span.start as int, t.span.end as int))
        },
{
    lemma_skip_trivia_bounds(src, c);
    lemma_next_token_advances(src, c);
    match spec_skip_trivia(src, c) {
        SpecTrivia::Unterminated(_) => {
        },
        SpecTrivia::Clean(c1) => {
            if c1.pos < src.len() {
                let b = src[c1.pos];
                if is_ident_start(b) {
                    lemma_scan_ident_facts(src, c1.pos + 1);
                    assert(spec_scan_ident(src, c1.pos) == spec_scan_ident(src, c1.pos + 1));
                    let end = spec_scan_ident(src, c1.pos);
                    let text = src.subrange(c1.pos, end);
                    assert(forall|j: int|
                        0 <= j < text.len() ==> is_ident_char(#[trigger] text[j]));
                } else if is_digit(b) {
                    lemma_scan_digits_facts(src, c1.pos + 1);
                    assert(spec_scan_digits(src, c1.pos) == spec_scan_digits(src, c1.pos + 1));
                    let end = spec_scan_digits(src, c1.pos);
                    let text = src.subrange(c1.pos, end);
                    assert(forall|j: int| 0 <= j < text.len() ==> is_digit(#[trigger] text[j]));
                    lemma_dec_value_nonneg(text);
                } else {
                    lemma_sym_munch_bounds(src, c1.pos);
                    lemma_sym_spell(src, c1.pos);
                }
            }
        },
    }
}

/// Round trip on spans: within the token stream of a source text, spans are
/// non-overlapping and ordered, and the source substring under each token's
/// span is a spelling of exactly that token (see `kind_of_text`). The
/// substrings of consecutive tokens therefore reconstruct the token stream
/// of the whitespace-stripped input.
pub proof fn lemma_span_round_trip(src: Seq<u8>, c: SpecCursor, i: int)
    requires
        cursor_wf(src, c),
        src.len() < usize::MAX,
        0 <= i < spec_tokens(src, c).len(),
    ensures
        spec_tokens(src, c)[i] matches Ok(t) ==> {
            &&& c.pos <= t.span.start < t.span.end <= src.len()
            &&& spell_ok(t.kind, src.subrange(t.span.start as int, t.span.end as int))
            &&& (i + 1 < spec_tokens(src, c).len() && spec_tokens(src, c)[i + 1] is Ok
                ==> t.span.end <= spec_tokens(src, c)[i + 1]->Ok_0.span.start)
        },
    decreases src.len() - c.pos,
{
    lemma_next_token_advances(src, c);
    lemma_token_text(src, c);
    match spec_next_token(src, c) {
        SpecLexStep::Eof(_) => {
        },
        SpecLexStep::Fail(_) => {
        },
        SpecLexStep::Tok(t, c2) => {
            if i == 0 {
                if 1 < spec_tokens(src, c).len() && spec_tokens(src, c)[1] is Ok {
                    lemma_token_text(src, c2);
                    lemma_next_token_advances(src, c2);
                }
            } else {
                lemma_span_round_trip(src, c2, i - 1);
            }
        },
    }
}

/// The number of newline bytes strictly before offset `pos`.
pub open spec fn newlines_before(src: Seq<u8>, pos: int) -> int
    decreases pos,
{
    if pos <= 0 {
        0
    } else {
        newlines_before(src, pos - 1) + if src[pos - 1] == '\n' as u8 {
            1int
        } else {
            0int
        }
    }
}

/// The offset of the first byte of the line that offset `pos` lies on.
pub open spec fn line_start_of(src: Seq<u8>, pos: int) -> int
    decreases pos,
{
    if pos <= 0 {
        0
    } else if src[pos - 1] == '\n' as u8 {
        pos
    } else {
        line_start_of(src, pos - 1)
    }
}

/// The true 1-based line number of offset `pos`.
pub open spec fn line_of(src: Seq<u8>, pos: int) -> int {
    1 + newlines_before(src, pos)
}

/// The true 1-based column number of offset `pos`.
pub open spec fn col_of(src: Seq<u8>, pos: int) -> int {
    1 + pos - line_start_of(src, pos)
}

/// A cursor whose line and column are exactly the line and column of its
/// offset.
pub open spec fn cursor_exact(src: Seq<u8>, c: SpecCursor) -> bool {
    &&& 0 <= c.pos <= src.len()
    &&& c.line == line_of(src, c.pos)
    &&& c.col == col_of(src, c.pos)
}

proof fn lemma_advance_exact(src: Seq<u8>, c: SpecCursor)
    requires
        cursor_exact(src, c),
        c.pos < src.len(),
    ensures
        cursor_exact(src, advance(c, src[c.pos])),
{
}

proof fn lemma_bump_cols_exact(src: Seq<u8>, c: SpecCursor, k: int)
    requires
        cursor_exact(src, c),
        0 <= k,
        c.pos + k <= src.len(),
        forall|j: int| c.pos <= j < c.pos + k ==> src[j] != '\n' as u8,
    ensures
        cursor_exact(src, bump_cols(c, k)),
    decreases k,
{
    if k > 0 {
        lemma_advance_exact(src, c);
        lemma_bump_cols_exact(src, advance(c, src[c.pos]), k - 1);
    }
}

proof fn lemma_skip_line_exact(src: Seq<u8>, c: SpecCursor)
    requires
        cursor_exact(src, c),
    ensures
        cursor_exact(src, spec_skip_line(src, c)),
    decreases src.len() - c.pos,
{
    if c.pos < src.len() {
        lemma_advance_exact(src, c);
        if src[c.pos] != '\n' as u8 {
            lemma_skip_line_exact(src, advance(c, src[c.pos]));
        }
    }
}

proof fn lemma_skip_block_exact(src: Seq<u8>, c: SpecCursor)
    requires
        cursor_exact(src, c),
    ensures
        spec_skip_block(src, c) matches SpecBlockEnd::Closed(c2) ==> cursor_exact(src, c2),
    decreases src.len() - c.pos,
{
    if c.pos + 2 <= src.len() {
        lemma_advance_exact(src, c);
        if src[c.pos] == '*' as u8 && src[c.pos + 1] == '/' as u8 {
            lemma_advance_exact(src, advance(c, src[c.pos]));
        } else {
            lemma_skip_block_exact(src, advance(c, src[c.pos]));
        }
    }
}

proof fn lemma_skip_trivia_exact(src: Seq<u8>, c: SpecCursor)
    requires
        cursor_wf(src, c),
        cursor_exact(src, c),
    ensures
        spec_skip_trivia(src, c) matches SpecTrivia::Clean(c2) ==> cursor_exact(src, c2),
        spec_skip_trivia(src, c) matches SpecTrivia::Unterminated(o) ==> cursor_exact(src, o),
    decreases src.len() - c.pos,
{
    lemma_skip_trivia_bounds(src, c);
    if c.pos < src.len() && is_space(src[c.pos]) {
        lemma_advance_exact(src, c);
        lemma_skip_trivia_bounds(src, advance(c, src[c.pos]));
        lemma_skip_trivia_exact(src, advance(c, src[c.pos]));
    } else if c.pos + 2 <= src.len() && src[c.pos] == '/' as u8 && src[c.pos + 1] == '/' as u8 {
        lemma_advance_exact(src, c);
        lemma_advance_exact(src, advance(c, src[c.pos]));
        let c2 = advance(advance(c, src[c.pos]), src[c.pos + 1]);
        lemma_skip_line_bounds(src, c2);
        lemma_skip_line_exact(src, c2);
        lemma_skip_trivia_exact(src, spec_skip_line(src, c2));
    } else if c.pos + 2 <= src.len() && src[c.pos] == '/' as u8 && src[c.pos + 1] == '*' as u8 {
        lemma_advance_exact(src, c);
        lemma_advance_exact(src, advance(c, src[c.pos]));
        let c2 = advance(advance(c, src[c.pos]), src[c.pos + 1]);
        lemma_skip_block_bounds(src, c2);
        lemma_skip_block_exact(src, c2);
        match spec_skip_block(src, c2) {
            SpecBlockEnd::Closed(c3) => {
                lemma_skip_trivia_exact(src, c3);
            },
            SpecBlockEnd::Open => {
            },
        }
    }
}

/// No symbol spelling contains a newline.
proof fn lemma_sym_munch_no_newline(src: Seq<u8>, i: int)
    requires
        0 <= i < src.len(),
    ensures
        sym_munch(src, i) matches Some((st, k)) ==> forall|j: int|
            i <= j < i + k ==> src[j] != '\n' as u8,
{
}

/// Every token's span carries the true line and column of the token's first
/// byte, and the cursor after it stays exact.
pub proof fn lemma_token_position(src: Seq<u8>, c: SpecCursor)
    requires
        cursor_wf(src, c),
        cursor_exact(src, c),
        src.len() < usize::MAX,
    ensures
        spec_next_token(src, c) matches SpecLexStep::Tok(t, c2) ==> {
            &&& t.span.line as int == line_of(src, t.span.start as int)
            &&& t.span.column as int == col_of(src, t.span.start as int)
            &&& cursor_exact(src, c2)
        },
        spec_next_token(src, c) matches SpecLexStep::Eof(c2) ==> cursor_exact(src, c2),
        spec_next_token(src, c) matches SpecLexStep::Fail(e) ==> e.span.line as int == line_of(
            src,
            e.span.start as int,
        ) && e.span.column as int == col_of(src, e.span.start as int),
{
    lemma_skip_trivia_bounds(src, c);
    lemma_skip_trivia_exact(src, c);
    lemma_token_text(src, c);
    match spec_skip_trivia(src, c) {
        SpecTrivia::Unterminated(_) => {
        },
        SpecTrivia::Clean(c1) => {
            if c1.pos < src.len() {
                let b = src[c1.pos];
                if is_ident_start(b) {
                    lemma_scan_ident_facts(src, c1.pos);
                    let end = spec_scan_ident(src, c1.pos);
                    assert(forall|j: int| c1.pos <= j < end ==> src[j] != '\n' as u8);
                    lemma_bump_cols_exact(src, c1, end - c1.pos);
                } else if is_digit(b) {
                    lemma_scan_digits_facts(src, c1.pos);
                    let end = spec_scan_digits(src, c1.pos);
                    assert(forall|j: int| c1.pos <= j < end ==> src[j] != '\n' as u8);
                    lemma_bump_cols_exact(src, c1, end - c1.pos);
                } else {
                    lemma_sym_munch_bounds(src, c1.pos);
                    lemma_sym_munch_no_newline(src, c1.pos);
                    match sym_munch(src, c1.pos) {
                        Some((st, k)) => {
                            lemma_bump_cols_exact(src, c1, k);
                        },
                        None => {
                        },
                    }
                }
            }
        },
    }
}

/// Every token in the stream carries the true line and column of its first
/// byte.
pub proof fn lemma_stream_positions(src: Seq<u8>, c: SpecCursor, i: int)
    requires
        cursor_wf(src, c),
        cursor_exact(src, c),
        src.len() < usize::MAX,
        0 <= i < spec_tokens(src, c).len(),
    ensures
        spec_tokens(src, c)[i] matches Ok(t) ==> t.span.line as int == line_of(
            src,
            t.span.start as int,
        ) && t.span.column as int == col_of(src, t.span.start as int),
    decreases src.len() - c.pos,
{
    lemma_next_token_advances(src, c);
    lemma_token_position(src, c);
    match spec_next_token(src, c) {
        SpecLexStep::Eof(_) => {
        },
        SpecLexStep::Fail(_) => {
        },
        SpecLexStep::Tok(t, c2) => {
            if i > 0 {
                lemma_stream_positions(src, c2, i - 1);
            }
        },
    }
}

/// Line and column of any offset stay within one past that offset.
proof fn lemma_position_bounds(src: Seq<u8>, pos: int)
    requires
        pos >= 0,
    ensures
        0 <= newlines_before(src, pos) <= pos,
        0 <= line_start_of(src, pos) <= pos,
    decreases pos,
{
    if pos > 0 {
        lemma_position_bounds(src, pos - 1);
    }
}

/// The position before the first byte is exact: line one, column one.
pub proof fn lemma_start_cursor_exact(src: Seq<u8>)
    ensures
        cursor_exact(src, start_cursor()),
{
}

proof fn lemma_end_cursor_exact(src: Seq<u8>, c: SpecCursor)
    requires
        cursor_exact(src, c),
    ensures
        cursor_exact(src, spec_end_cursor(src, c)),
        spec_end_cursor(src, c).pos == src.len(),
    decreases src.len() - c.pos,
{
    if c.pos < src.len() {
        lemma_advance_exact(src, c);
        lemma_end_cursor_exact(src, advance(c, src[c.pos]));
    }
}

/// The span for end-of-input diagnostics sits one past the last byte and
/// carries the true line and column of the end of the source.
pub proof fn lemma_eof_span_exact(src: Seq<u8>, c: SpecCursor)
    requires
        cursor_exact(src, c),
        src.len() < usize::MAX,
    ensures
        spec_eof_span(src, c).start == src.len(),
        spec_eof_span(src, c).end == src.len(),
        spec_eof_span(src, c).line as int == line_of(src, src.len() as int),
        spec_eof_span(src, c).column as int == col_of(src, src.len() as int),
{
    lemma_end_cursor_exact(src, c);
    lemma_position_bounds(src, src.len() as int);
}

/// The cursor after the whole source: position, line and column of the end
/// of input.
pub open spec fn spec_end_cursor(src: Seq<u8>, c: SpecCursor) -> SpecCursor
    decreases src.len() - c.pos,
    when 0 <= c.pos <= src.len()
{
    if c.pos < src.len() {
        spec_end_cursor(src, advance(c, src[c.pos]))
    } else {
        c
    }
}

/// The span a hypothetical end-of-input token would carry: an empty range
/// at the very end of the source.
pub open spec fn spec_eof_span(src: Seq<u8>, c: SpecCursor) -> Span {
    let e = spec_end_cursor(src, c);
    Span {
        start: src.len() as usize,
        end: src.len() as usize,
        line: e.line as usize,
        column: e.col as usize,
    }
}

fn byte_is_space(b: u8) -> (r: bool)
    ensures
        r == is_space(b),
{
    b == ' ' as u8 || b == '\t' as u8 || b == '\r' as u8 || b == '\n' as u8
}

fn byte_is_digit(b: u8) -> (r: bool)
    ensures
        r == is_digit(b),
{
    '0' as u8 <= b && b <= '9' as u8
}

fn byte_is_ident_start(b: u8) -> (r: bool)
    ensures
        r == is_ident_start(b),
{
    ('a' as u8 <= b && b <= 'z' as u8) || ('A' as u8 <= b && b <= 'Z' as u8) || b == '_' as u8
}

fn byte_is_ident_char(b: u8) -> (r: bool)
    ensures
        r == is_ident_char(b),
{
    byte_is_ident_start(b) || byte_is_digit(b)
}

/// Classifies scanned identifier text against the fixed keyword set.
fn lookup_keyword(v: &Vec<u8>) -> (r: Option<StaticToken>)
    ensures
        r == keyword_of(v@),
{
    let n = v.len();
    if n == 2 {
        if v[0] == 'i' as u8 && v[1] == 'f' as u8 {
            proof {
                assert(v@ =~= spell(StaticToken::If));
            }
            return Some(StaticToken::If);
        }
        if v[0] == 'd' as u8 && v[1] == 'o' as u8 {
            proof {
                assert(v@ =~= spell(StaticToken::Do));
            }
            return Some(StaticToken::Do);
        }
    } else if n == 3 {
        if v[0] == 'i' as u8 && v[1] == 'n' as u8 && v[2] == 't' as u8 {
            proof {
                assert(v@ =~= spell(StaticToken::Int));
            }
            return Some(StaticToken::Int);
        }
        if v[0] == 'f' as u8 && v[1] == 'o' as u8 && v[2] == 'r' as u8 {
            proof {
                assert(v@ =~= spell(StaticToken::For));
            }
            return Some(StaticToken::For);
        }
    } else if n == 4 {
        if v[0] == 'v' as u8 && v[1] == 'o' as u8 && v[2] == 'i' as u8 && v[3] == 'd' as u8 {
            proof {
                assert(v@ =~= spell(StaticToken::Void));
            }
            return Some(StaticToken::Void);
        }
        if v[0] == 'e' as u8 && v[1] == 'l' as u8 && v[2] == 's' as u8 && v[3] == 'e' as u8 {
            proof {
                assert(v@ =~= spell(StaticToken::Else));
            }
            return Some(StaticToken::Else);
        }
    } else if n == 5 {
        if v[0] == 'w' as u8 && v[1] == 'h' as u8 && v[2] == 'i' as u8 && v[3] == 'l' as u8 && v[4]
            == 'e' as u8 {
            proof {
                assert(v@ =~= spell(StaticToken::While));
            }
            return Some(StaticToken::While);
        }
        if v[0] == 'b' as u8 && v[1] == 'r' as u8 && v[2] == 'e' as u8 && v[3] == 'a' as u8 && v[4]
            == 'k' as u8 {
            proof {
                assert(v@ =~= spell(StaticToken::Break));
            }
            return Some(StaticToken::Break);
        }
    } else if n == 6 {
        if v[0] == 'r' as u8 && v[1] == 'e' as u8 && v[2] == 't' as u8 && v[3] == 'u' as u8 && v[4]
            == 'r' as u8 && v[5] == 'n' as u8 {
            proof {
                assert(v@ =~= spell(StaticToken::Return));
            }
            return Some(StaticToken::Return);
        }
    } else if n == 8 {
        if v[0] == 'c' as u8 && v[1] == 'o' as u8 && v[2] == 'n' as u8 && v[3] == 't' as u8 && v[4]
            == 'i' as u8 && v[5] == 'n' as u8 && v[6] == 'u' as u8 && v[7] == 'e' as u8 {
            proof {
                assert(v@ =~= spell(StaticToken::Continue));
            }
            return Some(StaticToken::Continue);
        }
    }
    None
}

/// The longest symbol spelling at position `i`, as executable lookup.
fn sym_lookup(src: &Vec<u8>, i: usize) -> (r: Option<(StaticToken, usize)>)
    requires
        i < src@.len(),
    ensures
        match sym_munch(src@, i as int) {
            Some((st, k)) => r matches Some(p) && p.0 == st && p.1 as int == k && 1 <= p.1 <= 3 && i
                + p.1 <= src@.len(),
            None => r is None,
        },
{
    let n = src.len();
    let b = src[i];
    let two = n - i > 1;
    let three = n - i > 2;
    let b2: u8 = if two {
        src[i + 1]
    } else {
        0
    };
    let b3: u8 = if three {
        src[i + 2]
    } else {
        0
    };
    if b == '<' as u8 {
        if two && b2 == '<' as u8 {
            if three && b3 == '=' as u8 {
                Some((StaticToken::LeftShiftEqual, 3))
            } else {
                Some((StaticToken::LeftShift, 2))
            }
        } else if two && b2 == '=' as u8 {
            Some((StaticToken::LessThanOrEqual, 2))
        } else {
            Some((StaticToken::LessThan, 1))
        }
    } else if b == '>' as u8 {
        if two && b2 == '>' as u8 {
            if three && b3 == '=' as u8 {
                Some((StaticToken::RightShiftEqual, 3))
            } else {
                Some((StaticToken::RightShift, 2))
            }
        } else if two && b2 == '=' as u8 {
            Some((StaticToken::GreaterThanOrEqual, 2))
        } else {
            Some((StaticToken::GreaterThan, 1))
        }
    } else if b == '=' as u8 {
        if two && b2 == '=' as u8 {
            Some((StaticToken::EqualEqual, 2))
        } else {
            Some((StaticToken::Equal, 1))
        }
    } else if b == '!' as u8 {
        if two && b2 == '=' as u8 {
            Some((StaticToken::NotEqual, 2))
        } else {
            Some((StaticToken::Not, 1))
        }
    } else if b == '+' as u8 {
        if two && b2 == '=' as u8 {
            Some((StaticToken::PlusEqual, 2))
        } else if two && b2 == '+' as u8 {
            Some((StaticToken::PlusPlus, 2))
        } else {
            Some((StaticToken::Plus, 1))
        }
    } else if b == '-' as u8 {
        if two && b2 == '=' as u8 {
            Some((StaticToken::MinusEqual, 2))
        } else if two && b2 == '-' as u8 {
            Some((StaticToken::MinusMinus, 2))
        } else if two && b2 == '>' as u8 {
            Some((StaticToken::Arrow, 2))
        } else {
            Some((StaticToken::Minus, 1))
        }
    } else if b == '*' as u8 {
        if two && b2 == '=' as u8 {
            Some((StaticToken::StarEqual, 2))
        } else {
            Some((StaticToken::Star, 1))
        }
    } else if b == '/' as u8 {
        if two && b2 == '=' as u8 {
            Some((StaticToken::SlashEqual, 2))
        } else {
            Some((StaticToken::Slash, 1))
        }
    } else if b == '%' as u8 {
        if two && b2 == '=' as u8 {
            Some((StaticToken::PercentEqual, 2))
        } else {
            Some((StaticToken::Percent, 1))
        }
    } else if b == '&' as u8 {
        if two && b2 == '&' as u8 {
            Some((StaticToken::LogicalAnd, 2))
        } else if two && b2 == '=' as u8 {
            Some((StaticToken::AmpersandEqual, 2))
        } else {
            Some((StaticToken::Ampersand, 1))
        }
    } else if b == '|' as u8 {
        if two && b2 == '|' as u8 {
            Some((StaticToken::LogicalOr, 2))
        } else if two && b2 == '=' as u8 {
            Some((StaticToken::PipeEqual, 2))
        } else {
            Some((StaticToken::Pipe, 1))
        }
    } else if b == '^' as u8 {
        if two && b2 == '=' as u8 {
            Some((StaticToken::CaretEqual, 2))
        } else {
            Some((StaticToken::Caret, 1))
        }
    } else if b == '~' as u8 {
        Some((StaticToken::Tilde, 1))
    } else if b == '.' as u8 {
        if three && b2 == '.' as u8 && b3 == '.' as u8 {
            Some((StaticToken::Ellipsis, 3))
        } else {
            Some((StaticToken::Dot, 1))
        }
    } else if b == '#' as u8 {
        if two && b2 == '#' as u8 {
            Some((StaticToken::DoubleHash, 2))
        } else {
            Some((StaticToken::Hash, 1))
        }
    } else if b == ';' as u8 {
        Some((StaticToken::Semicolon, 1))
    } else if b == '(' as u8 {
        Some((StaticToken::LParen, 1))
    } else if b == ')' as u8 {
        Some((StaticToken::RParen, 1))
    } else if b == '{' as u8 {
        Some((StaticToken::LBrace, 1))
    } else if b == '}' as u8 {
        Some((StaticToken::RBrace, 1))
    } else if b == ']' as u8 {
        Some((StaticToken::RBracket, 1))
    } else if b == '[' as u8 {
        Some((StaticToken::LBracket, 1))
    } else if b == ',' as u8 {
        Some((StaticToken::Comma, 1))
    } else if b == ':' as u8 {
        Some((StaticToken::Colon, 1))
    } else if b == '?' as u8 {
        Some((StaticToken::Question, 1))
    } else {
        None
    }
}

/// The value of digit text is never negative.
proof fn lemma_dec_value_nonneg(s: Seq<u8>)
    requires
        forall|j: int| 0 <= j < s.len() ==> is_digit(#[trigger] s[j]),
    ensures
        dec_value(s) >= 0,
    decreases s.len(),
{
    if s.len() > 0 {
        lemma_dec_value_nonneg(s.drop_last());
    }
}

/// Extending digit text never shrinks its value.
proof fn lemma_dec_value_prefix(s: Seq<u8>, k: int)
    requires
        forall|j: int| 0 <= j < s.len() ==> is_digit(#[trigger] s[j]),
        0 <= k <= s.len(),
    ensures
        dec_value(s.subrange(0, k)) <= dec_value(s),
    decreases s.len(),
{
    if k == s.len() {
        assert(s.subrange(0, k) =~= s);
    } else {
        assert(s.drop_last() =~= s.subrange(0, s.len() - 1));
        assert(s.subrange(0, k) =~= s.drop_last().subrange(0, k));
        lemma_dec_value_prefix(s.drop_last(), k);
        lemma_dec_value_nonneg(s.drop_last());
    }
}

/// The tokenizer: one pass over the source bytes, pulled one token at a
/// time, tracking position, line and column.
pub struct Lexer {
    src: Vec<u8>,
    pos: usize,
    line: usize,
    col: usize,
}

impl Lexer {
    /// The source text being tokenized.
    pub closed spec fn src(&self) -> Seq<u8> {
        self.src@
    }

    /// The current position.
    pub closed spec fn cursor(&self) -> SpecCursor {
        SpecCursor { pos: self.pos as int, line: self.line as int, col: self.col as int }
    }

    /// The lexer's invariant: the cursor lies within the source.
    pub open spec fn wf(&self) -> bool {
        cursor_wf(self.src(), self.cursor()) && self.src().len() < usize::MAX
    }

    pub fn new(src: Vec<u8>) -> (r: Lexer)
        requires
            src@.len() < usize::MAX,
        ensures
            r.wf(),
            r.src() == src@,
            r.cursor() == start_cursor(),
    {
        Lexer { src, pos: 0, line: 1, col: 1 }
    }

    /// The span that a hypothetical end-of-input token would carry, needed
    /// for end-of-input diagnostics.
    pub fn eof_span(&self) -> (r: Span)
        requires
            self.wf(),
        ensures
            r == spec_eof_span(self.src(), self.cursor()),
    {
        let ghost src = self.src@;
        let n = self.src.len();
        let mut p: usize = self.pos;
        let mut ln: usize = self.line;
        let mut cl: usize = self.col;
        loop
            invariant_except_break
                self.wf(),
                self.src@ == src,
                cursor_wf(src, SpecCursor { pos: p as int, line: ln as int, col: cl as int }),
                n == src.len(),
                spec_end_cursor(src, self.cursor()) == spec_end_cursor(
                    src,
                    SpecCursor { pos: p as int, line: ln as int, col: cl as int },
                ),
            ensures
                p == n,
                spec_end_cursor(src, self.cursor()) == (SpecCursor {
                    pos: p as int,
                    line: ln as int,
                    col: cl as int,
                }),
            decreases src.len() - p,
        {
            if p >= n {
                break ;
            }
            let b = self.src[p];
            if b == '\n' as u8 {
                ln = ln + 1;
                cl = 1;
            } else {
                cl = cl + 1;
            }
            p = p + 1;
        }
        Span { start: n, end: n, line: ln, column: cl }
    }

    /// One byte forward.
    fn bump(&mut self)
        requires
            old(self).wf(),
            old(self).cursor().pos < old(self).src().len(),
        ensures
            final(self).wf(),
            final(self).src() == old(self).src(),
            final(self).cursor() == advance(
                old(self).cursor(),
                old(self).src()[old(self).cursor().pos],
            ),
    {
        let b = self.src[self.pos];
        self.pos = self.pos + 1;
        if b == '\n' as u8 {
            self.line = self.line + 1;
            self.col = 1;
        } else {
            self.col = self.col + 1;
        }
    }

    /// Pulls the next token: `None` at end of input, otherwise the token or
    /// the failure that `spec_next_token` assigns to the current position.
    /// After a failure the lexer stops: it jumps to the end of the input.
    pub fn next_token(&mut self) -> (r: Option<Result<Token, CompilerError<LexError>>>)
        requires
            old(self).wf(),
        ensures
            final(self).wf(),
            final(self).src() == old(self).src(),
            match spec_next_token(old(self).src(), old(self).cursor()) {
                SpecLexStep::Eof(c2) => r is None && final(self).cursor() == c2,
                SpecLexStep::Tok(t, c2) => (r matches Some(Ok(tok)) && tok@ == t) && final(self).cursor() == c2,
                SpecLexStep::Fail(e) => r == Some(Err::<Token, CompilerError<LexError>>(e))
                    && final(self).cursor().pos == old(self).src().len() as int,
            },
    {
        let ghost src = self.src@;
        let ghost c0 = self.cursor();
        let n = self.src.len();
        // Phase one: skip whitespace and comments.
        loop
            invariant_except_break
                self.wf(),
                self.src@ == src,
                src == old(self).src(),
                c0 == old(self).cursor(),
                n == src.len(),
                spec_skip_trivia(src, c0) == spec_skip_trivia(src, self.cursor()),
            ensures
                self.wf(),
                self.src@ == src,
                spec_skip_trivia(src, c0) == SpecTrivia::Clean(self.cursor()),
            decreases src.len() - self.pos,
        {
            if self.pos >= n {
                break ;
            }
            let b = self.src[self.pos];
            if byte_is_space(b) {
                self.bump();
            } else if b == '/' as u8 && self.pos + 1 < n && self.src[self.pos + 1] == '/' as u8 {
                let ghost centry = self.cursor();
                self.bump();
                self.bump();
                let ghost lstart = self.cursor();
                // the rest of the line comment
                    loop
                    invariant_except_break
                        self.wf(),
                        self.src@ == src,
                        n == src.len(),
                        cursor_wf(src, lstart),
                        spec_skip_line(src, lstart) == spec_skip_line(src, self.cursor()),
                    ensures
                        self.wf(),
                        self.src@ == src,
                        self.cursor() == spec_skip_line(src, lstart),
                    decreases src.len() - self.pos,
                {
                    if self.pos >= n {
                        break ;
                    }
                    let c = self.src[self.pos];
                    self.bump();
                    if c == '\n' as u8 {
                        break ;
                    }
                }
                proof {
                    lemma_skip_line_bounds(src, lstart);
                    assert(spec_skip_trivia(src, centry) == spec_skip_trivia(src, self.cursor()));
                }
            } else if b == '/' as u8 && self.pos + 1 < n && self.src[self.pos + 1] == '*' as u8 {
                let open_pos = self.pos;
                let open_line = self.line;
                let open_col = self.col;
                let ghost copen = self.cursor();
                self.bump();
                self.bump();
                let ghost bstart = self.cursor();
                // the body of the block comment, up to its closing `*/`
                    loop
                    invariant_except_break
                        self.wf(),
                        self.src@ == src,
                        n == src.len(),
                        open_pos == copen.pos,
                        open_line == copen.line,
                        open_col == copen.col,
                        cursor_wf(src, copen),
                        src == old(self).src(),
                        c0 == old(self).cursor(),
                        copen.pos + 2 <= src.len(),
                        src[copen.pos] == '/' as u8,
                        src[copen.pos + 1] == '*' as u8,
                        bstart == advance(advance(copen, src[copen.pos]), src[copen.pos + 1]),
                        spec_skip_trivia(src, c0) == spec_skip_trivia(src, copen),
                        spec_skip_block(src, bstart) == spec_skip_block(src, self.cursor()),
                    ensures
                        self.wf(),
                        self.src@ == src,
                        spec_skip_block(src, bstart) == SpecBlockEnd::Closed(self.cursor()),
                    decreases src.len() - self.pos,
                {
                    if self.pos + 1 >= n {
                        // `/*` with no closing `*/`: the lexer fails here and
                        // never recovers
                        let span = Span { start: open_pos, end: n, line: open_line, column: open_col };
                        let e = CompilerError { error: LexError::UnterminatedComment, span };
                        proof {
                            assert(spec_skip_block(src, self.cursor()) == SpecBlockEnd::Open);
                            assert(spec_skip_trivia(src, copen) == SpecTrivia::Unterminated(copen));
                        }
                        self.pos = n;
                        return Some(Err(e));
                    }
                    if self.src[self.pos] == '*' as u8 && self.src[self.pos + 1] == '/' as u8 {
                        self.bump();
                        self.bump();
                        break ;
                    }
                    self.bump();
                }
                proof {
                    lemma_skip_block_bounds(src, bstart);
                    assert(spec_skip_trivia(src, copen) == spec_skip_trivia(src, self.cursor()));
                }
            } else {
                proof {
                    assert(spec_skip_trivia(src, self.cursor()) == SpecTrivia::Clean(
                        self.cursor(),
                    ));
                }
                break ;
            }
        }
        // Phase two: classify the byte at the token boundary.
        if self.pos >= n {
            return None;
        }
        let start = self.pos;
        let ghost c1 = self.cursor();
        let b = self.src[start];
        if byte_is_ident_start(b) {
            // identifier or keyword: maximal munch of identifier characters
            let mut end = start;
            loop
                invariant_except_break
                    self.wf(),
                    self.src@ == src,
                    n == src.len(),
                    start <= end <= n,
                    spec_scan_ident(src, start as int) == spec_scan_ident(src, end as int),
                ensures
                    start <= end <= n,
                    end as int == spec_scan_ident(src, start as int),
                decreases src.len() - end,
            {
                if end < n && byte_is_ident_char(self.src[end]) {
                    end = end + 1;
                } else {
                    break ;
                }
            }
            let mut text: Vec<u8> = Vec::new();
            let mut i = start;
            while i < end
                invariant
                    self.wf(),
                    self.src@ == src,
                    n == src.len(),
                    start <= i <= end <= n,
                    text@ == src.subrange(start as int, i as int),
                decreases end - i,
            {
                text.push(self.src[i]);
                i = i + 1;
                proof {
                    assert(text@ =~= src.subrange(start as int, i as int));
                }
            }
            let kind = match lookup_keyword(&text) {
                Some(kw) => TokenType::Static(kw),
                None => TokenType::Identifier(text),
            };
            let span = Span { start, end, line: self.line, column: self.col };
            self.col = self.col + (end - start);
            self.pos = end;
            return Some(Ok(Token { kind, span }));
        } else if byte_is_digit(b) {
            // numeric constant: maximal munch of digits, then the value
            let mut end = start;
            loop
                invariant_except_break
                    self.wf(),
                    self.src@ == src,
                    n == src.len(),
                    start <= end <= n,
                    spec_scan_digits(src, start as int) == spec_scan_digits(src, end as int),
                ensures
                    start <= end <= n,
                    end as int == spec_scan_digits(src, start as int),
                decreases src.len() - end,
            {
                if end < n && byte_is_digit(self.src[end]) {
                    end = end + 1;
                } else {
                    break ;
                }
            }
            proof {
                lemma_scan_digits_facts(src, start as int);
            }
            let ghost text = src.subrange(start as int, end as int);
            let span = Span { start, end, line: self.line, column: self.col };
            let mut v: u64 = 0;
            let mut i = start;
            while i < end
                invariant
                    self.wf(),
                    self.src@ == src,
                    src == old(self).src(),
                    c0 == old(self).cursor(),
                    spec_skip_trivia(src, c0) == SpecTrivia::Clean(c1),
                    n == src.len(),
                    c1.pos < n,
                    is_digit(src[c1.pos]),
                    self.cursor() == c1,
                    start == c1.pos,
                    span == (Span { start, end, line: self.line, column: self.col }),
                    end as int == spec_scan_digits(src, start as int),
                    start <= i <= end <= n,
                    text == src.subrange(start as int, end as int),
                    forall|j: int| start <= j < end ==> is_digit(#[trigger] src[j]),
                    v as int == dec_value(src.subrange(start as int, i as int)),
                    v <= i32::MAX,
                decreases end - i,
            {
                let d = self.src[i] - '0' as u8;
                v = v * 10 + (d as u64);
                i = i + 1;
                proof {
                    assert(src.subrange(start as int, i as int).drop_last() =~= src.subrange(
                        start as int,
                        i as int - 1,
                    ));
                }
                if v > 2147483647u64 {
                    proof {
                        assert(text.subrange(0, i - start) =~= src.subrange(start as int, i as int));
                        assert(forall|j: int| 0 <= j < text.len() ==> is_digit(#[trigger] text[j]));
                        lemma_dec_value_prefix(text, i - start);
                    }
                    self.pos = n;
                    return Some(
                        Err(CompilerError { error: LexError::MalformedNumber, span }),
                    );
                }
            }
            proof {
                assert(text =~= src.subrange(start as int, end as int));
            }
            self.col = self.col + (end - start);
            self.pos = end;
            return Some(Ok(Token { kind: TokenType::Constant(v as i32), span }));
        } else {
            // symbol: maximal munch against the static spellings
            match sym_lookup(&self.src, start) {
                Some((st, k)) => {
                    let span = Span { start, end: start + k, line: self.line, column: self.col };
                    self.col = self.col + k;
                    self.pos = self.pos + k;
                    return Some(Ok(Token { kind: TokenType::Static(st), span }));
                },
                None => {
                    let span = Span { start, end: start + 1, line: self.line, column: self.col };
                    self.pos = n;
                    return Some(
                        Err(CompilerError { error: LexError::UnrecognizedCharacter, span }),
                    );
                },
            }
        }
    }
}

} // verus!
