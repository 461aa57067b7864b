//! The token model: source spans, the fixed-spelling token set, and the
//! token value type produced by the lexer.

use vstd::prelude::*;

verus! {

/// Static tokens: keywords and symbols with a fixed spelling.
#[derive(Debug, Clone, Copy, PartialEq, Eq, Structural)]
pub enum StaticToken {
    // Keywords
    Int,
    Void,
    Return,
    If,
    Else,
    While,
    Do,
    For,
    Break,
    Continue,
    // Grouping and delimiters
    Semicolon,
    LParen,
    RParen,
    LBrace,
    RBrace,
    LBracket,
    RBracket,
    Comma,
    Colon,
    Question,
    // Arithmetic operators
    Plus,
    Minus,
    Star,
    Slash,
    Percent,
    // Bitwise operators
    Ampersand,
    Pipe,
    Caret,
    Tilde,
    LeftShift,
    RightShift,
    // Logical operators
    Not,
    LogicalAnd,
    LogicalOr,
    // Comparison operators
    LessThan,
    GreaterThan,
    LessThanOrEqual,
    GreaterThanOrEqual,
    EqualEqual,
    NotEqual,
    // Assignment operators
    Equal,
    PlusEqual,
    MinusEqual,
    StarEqual,
    SlashEqual,
    PercentEqual,
    AmpersandEqual,
    PipeEqual,
    CaretEqual,
    LeftShiftEqual,
    RightShiftEqual,
    // Increment and decrement
    PlusPlus,
    MinusMinus,
    // Member access
    Dot,
    Arrow,
    // Other
    Ellipsis,
    Hash,
    DoubleHash,
}

/// The canonical spelling of a static token, as the bytes the lexer
/// recognizes in the source text.
pub open spec fn spell(st: StaticToken) -> Seq<u8> {
    match st {
        StaticToken::Int => seq!['i' as u8, 'n' as u8, 't' as u8],
        StaticToken::Void => seq!['v' as u8, 'o' as u8, 'i' as u8, 'd' as u8],
        StaticToken::Return => seq!['r' as u8, 'e' as u8, 't' as u8, 'u' as u8, 'r' as u8, 'n' as u8],
        StaticToken::If => seq!['i' as u8, 'f' as u8],
        StaticToken::Else => seq!['e' as u8, 'l' as u8, 's' as u8, 'e' as u8],
        StaticToken::While => seq!['w' as u8, 'h' as u8, 'i' as u8, 'l' as u8, 'e' as u8],
        StaticToken::Do => seq!['d' as u8, 'o' as u8],
        StaticToken::For => seq!['f' as u8, 'o' as u8, 'r' as u8],
        StaticToken::Break => seq!['b' as u8, 'r' as u8, 'e' as u8, 'a' as u8, 'k' as u8],
        StaticToken::Continue => seq!['c' as u8, 'o' as u8, 'n' as u8, 't' as u8, 'i' as u8, 'n' as u8, 'u' as u8, 'e' as u8],
        StaticToken::Semicolon => seq![';' as u8],
        StaticToken::LParen => seq!['(' as u8],
        StaticToken::RParen => seq![')' as u8],
        StaticToken::LBrace => seq!['{' as u8],
        StaticToken::RBrace => seq!['}' as u8],
        StaticToken::LBracket => seq!['[' as u8],
        StaticToken::RBracket => seq![']' as u8],
        StaticToken::Comma => seq![',' as u8],
        StaticToken::Colon => seq![':' as u8],
        StaticToken::Question => seq!['?' as u8],
        StaticToken::Plus => seq!['+' as u8],
        StaticToken::Minus => seq!['-' as u8],
        StaticToken::Star => seq!['*' as u8],
        StaticToken::Slash => seq!['/' as u8],
        StaticToken::Percent => seq!['%' as u8],
        StaticToken::Ampersand => seq!['&' as u8],
        StaticToken::Pipe => seq!['|' as u8],
        StaticToken::Caret => seq!['^' as u8],
        StaticToken::Tilde => seq!['~' as u8],
        StaticToken::LeftShift => seq!['<' as u8, '<' as u8],
        StaticToken::RightShift => seq!['>' as u8, '>' as u8],
        StaticToken::Not => seq!['!' as u8],
        StaticToken::LogicalAnd => seq!['&' as u8, '&' as u8],
        StaticToken::LogicalOr => seq!['|' as u8, '|' as u8],
        StaticToken::LessThan => seq!['<' as u8],
        StaticToken::GreaterThan => seq!['>' as u8],
        StaticToken::LessThanOrEqual => seq!['<' as u8, '=' as u8],
        StaticToken::GreaterThanOrEqual => seq!['>' as u8, '=' as u8],
        StaticToken::EqualEqual => seq!['=' as u8, '=' as u8],
        StaticToken::NotEqual => seq!['!' as u8, '=' as u8],
        StaticToken::Equal => seq!['=' as u8],
        StaticToken::PlusEqual => seq!['+' as u8, '=' as u8],
        StaticToken::MinusEqual => seq!['-' as u8, '=' as u8],
        StaticToken::StarEqual => seq!['*' as u8, '=' as u8],
        StaticToken::SlashEqual => seq!['/' as u8, '=' as u8],
        StaticToken::PercentEqual => seq!['%' as u8, '=' as u8],
        StaticToken::AmpersandEqual => seq!['&' as u8, '=' as u8],
        StaticToken::PipeEqual => seq!['|' as u8, '=' as u8],
        StaticToken::CaretEqual => seq!['^' as u8, '=' as u8],
        StaticToken::LeftShiftEqual => seq!['<' as u8, '<' as u8, '=' as u8],
        StaticToken::RightShiftEqual => seq!['>' as u8, '>' as u8, '=' as u8],
        StaticToken::PlusPlus => seq!['+' as u8, '+' as u8],
        StaticToken::MinusMinus => seq!['-' as u8, '-' as u8],
        StaticToken::Dot => seq!['.' as u8],
        StaticToken::Arrow => seq!['-' as u8, '>' as u8],
        StaticToken::Ellipsis => seq!['.' as u8, '.' as u8, '.' as u8],
        StaticToken::Hash => seq!['#' as u8],
        StaticToken::DoubleHash => seq!['#' as u8, '#' as u8],
    }
}

/// The spelling of a static token as characters, for display.
pub open spec fn spell_chars(st: StaticToken) -> Seq<char> {
    match st {
        StaticToken::Int => "int"@,
        StaticToken::Void => "void"@,
        StaticToken::Return => "return"@,
        StaticToken::If => "if"@,
        StaticToken::Else => "else"@,
        StaticToken::While => "while"@,
        StaticToken::Do => "do"@,
        StaticToken::For => "for"@,
        StaticToken::Break => "break"@,
        StaticToken::Continue => "continue"@,
        StaticToken::Semicolon => ";"@,
        StaticToken::LParen => "("@,
        StaticToken::RParen => ")"@,
        StaticToken::LBrace => "{"@,
        StaticToken::RBrace => "}"@,
        StaticToken::LBracket => "["@,
        StaticToken::RBracket => "]"@,
        StaticToken::Comma => ","@,
        StaticToken::Colon => ":"@,
        StaticToken::Question => "?"@,
        StaticToken::Plus => "+"@,
        StaticToken::Minus => "-"@,
        StaticToken::Star => "*"@,
        StaticToken::Slash => "/"@,
        StaticToken::Percent => "%"@,
        StaticToken::Ampersand => "&"@,
        StaticToken::Pipe => "|"@,
        StaticToken::Caret => "^"@,
        StaticToken::Tilde => "~"@,
        StaticToken::LeftShift => "<<"@,
        StaticToken::RightShift => ">>"@,
        StaticToken::Not => "!"@,
        StaticToken::LogicalAnd => "&&"@,
        StaticToken::LogicalOr => "||"@,
        StaticToken::LessThan => "<"@,
        StaticToken::GreaterThan => ">"@,
        StaticToken::LessThanOrEqual => "<="@,
        StaticToken::GreaterThanOrEqual => ">="@,
        StaticToken::EqualEqual => "=="@,
        StaticToken::NotEqual => "!="@,
        StaticToken::Equal => "="@,
        StaticToken::PlusEqual => "+="@,
        StaticToken::MinusEqual => "-="@,
        StaticToken::StarEqual => "*="@,
        StaticToken::SlashEqual => "/="@,
        StaticToken::PercentEqual => "%="@,
        StaticToken::AmpersandEqual => "&="@,
        StaticToken::PipeEqual => "|="@,
        StaticToken::CaretEqual => "^="@,
        StaticToken::LeftShiftEqual => "<<="@,
        StaticToken::RightShiftEqual => ">>="@,
        StaticToken::PlusPlus => "++"@,
        StaticToken::MinusMinus => "--"@,
        StaticToken::Dot => "."@,
        StaticToken::Arrow => "->"@,
        StaticToken::Ellipsis => "..."@,
        StaticToken::Hash => "#"@,
        StaticToken::DoubleHash => "##"@,
    }
}

impl StaticToken {
    /// The canonical spelling, usable for display and for re-deriving the
    /// token's length.
    pub fn as_str(&self) -> (r: &'static str)
        ensures
            r@ == spell_chars(*self),
    {
        match self {
            StaticToken::Int => "int",
            StaticToken::Void => "void",
            StaticToken::Return => "return",
            StaticToken::If => "if",
            StaticToken::Else => "else",
            StaticToken::While => "while",
            StaticToken::Do => "do",
            StaticToken::For => "for",
            StaticToken::Break => "break",
            StaticToken::Continue => "continue",
            StaticToken::Semicolon => ";",
            StaticToken::LParen => "(",
            StaticToken::RParen => ")",
            StaticToken::LBrace => "{",
            StaticToken::RBrace => "}",
            StaticToken::LBracket => "[",
            StaticToken::RBracket => "]",
            StaticToken::Comma => ",",
            StaticToken::Colon => ":",
            StaticToken::Question => "?",
            StaticToken::Plus => "+",
            StaticToken::Minus => "-",
            StaticToken::Star => "*",
            StaticToken::Slash => "/",
            StaticToken::Percent => "%",
            StaticToken::Ampersand => "&",
            StaticToken::Pipe => "|",
            StaticToken::Caret => "^",
            StaticToken::Tilde => "~",
            StaticToken::LeftShift => "<<",
            StaticToken::RightShift => ">>",
            StaticToken::Not => "!",
            StaticToken::LogicalAnd => "&&",
            StaticToken::LogicalOr => "||",
            StaticToken::LessThan => "<",
            StaticToken::GreaterThan => ">",
            StaticToken::LessThanOrEqual => "<=",
            StaticToken::GreaterThanOrEqual => ">=",
            StaticToken::EqualEqual => "==",
            StaticToken::NotEqual => "!=",
            StaticToken::Equal => "=",
            StaticToken::PlusEqual => "+=",
            StaticToken::MinusEqual => "-=",
            StaticToken::StarEqual => "*=",
            StaticToken::SlashEqual => "/=",
            StaticToken::PercentEqual => "%=",
            StaticToken::AmpersandEqual => "&=",
            StaticToken::PipeEqual => "|=",
            StaticToken::CaretEqual => "^=",
            StaticToken::LeftShiftEqual => "<<=",
            StaticToken::RightShiftEqual => ">>=",
            StaticToken::PlusPlus => "++",
            StaticToken::MinusMinus => "--",
            StaticToken::Dot => ".",
            StaticToken::Arrow => "->",
            StaticToken::Ellipsis => "...",
            StaticToken::Hash => "#",
            StaticToken::DoubleHash => "##",
        }
    }
}

/// The character spelling and the byte spelling of a static token agree
/// position for position, so the displayed text has exactly the bytes the
/// lexer matched.
pub proof fn lemma_spell_chars_agrees(st: StaticToken)
    ensures
        spell_chars(st).len() == spell(st).len(),
        forall|i: int|
            0 <= i < spell(st).len() ==> spell_chars(st)[i] as u8 == #[trigger] spell(st)[i],
{
    reveal_strlit("int");
    reveal_strlit("void");
    reveal_strlit("return");
    reveal_strlit("if");
    reveal_strlit("else");
    reveal_strlit("while");
    reveal_strlit("do");
    reveal_strlit("for");
    reveal_strlit("break");
    reveal_strlit("continue");
    reveal_strlit(";");
    reveal_strlit("(");
    reveal_strlit(")");
    reveal_strlit("{");
    reveal_strlit("}");
    reveal_strlit("[");
    reveal_strlit("]");
    reveal_strlit(",");
    reveal_strlit(":");
    reveal_strlit("?");
    reveal_strlit("+");
    reveal_strlit("-");
    reveal_strlit("*");
    reveal_strlit("/");
    reveal_strlit("%");
    reveal_strlit("&");
    reveal_strlit("|");
    reveal_strlit("^");
    reveal_strlit("~");
    reveal_strlit("<<");
    reveal_strlit(">>");
    reveal_strlit("!");
    reveal_strlit("&&");
    reveal_strlit("||");
    reveal_strlit("<");
    reveal_strlit(">");
    reveal_strlit("<=");
    reveal_strlit(">=");
    reveal_strlit("==");
    reveal_strlit("!=");
    reveal_strlit("=");
    reveal_strlit("+=");
    reveal_strlit("-=");
    reveal_strlit("*=");
    reveal_strlit("/=");
    reveal_strlit("%=");
    reveal_strlit("&=");
    reveal_strlit("|=");
    reveal_strlit("^=");
    reveal_strlit("<<=");
    reveal_strlit(">>=");
    reveal_strlit("++");
    reveal_strlit("--");
    reveal_strlit(".");
    reveal_strlit("->");
    reveal_strlit("...");
    reveal_strlit("#");
    reveal_strlit("##");
}

/// Span: the location of a token in the source text. Offsets are byte
/// offsets; `end` is exclusive. `line` and `column` are 1-based.
#[derive(Debug, Clone, Copy, PartialEq, Eq, Structural)]
pub struct Span {
    /// byte offset in the source (inclusive)
    pub start: usize,
    /// byte offset in the source (exclusive)
    pub end: usize,
    /// 1-based line number
    pub line: usize,
    /// 1-based column number (at the start of the token)
    pub column: usize,
}

impl Span {
    pub fn new(start: usize, end: usize, line: usize, column: usize) -> (r: Self)
        ensures
            r == (Span { start, end, line, column }),
    {
        Span { start, end, line, column }
    }
}

/// Token: a lexical token together with its location.
#[derive(Debug)]
pub struct Token {
    pub kind: TokenType,
    pub span: Span,
}

/// The mathematical model of a `TokenType`: identifier text as a byte
/// sequence rather than a `Vec`.
pub enum SpecTokenType {
    Identifier(Seq<u8>),
    Constant(i32),
    Static(StaticToken),
}

/// The mathematical model of a `Token`.
pub struct SpecToken {
    pub kind: SpecTokenType,
    pub span: Span,
}

#[derive(Debug)]
pub enum TokenType {
    /// `[a-zA-Z_]\w*`, not spelled like a keyword
    Identifier(Vec<u8>),
    /// `[0-9]+`
    Constant(i32),
    /// keywords and symbols with a fixed spelling
    Static(StaticToken),
}

impl View for TokenType {
    type V = SpecTokenType;

    open spec fn view(&self) -> SpecTokenType {
        match self {
            TokenType::Identifier(v) => SpecTokenType::Identifier(v@),
            TokenType::Constant(n) => SpecTokenType::Constant(*n),
            TokenType::Static(st) => SpecTokenType::Static(*st),
        }
    }
}

impl View for Token {
    type V = SpecToken;

    open spec fn view(&self) -> SpecToken {
        SpecToken { kind: self.kind@, span: self.span }
    }
}

/// Copies a byte vector element by element.
fn copy_bytes(v: &Vec<u8>) -> (r: Vec<u8>)
    ensures
        r@ == v@,
{
    let mut out: Vec<u8> = Vec::new();
    let mut i: usize = 0;
    while i < v.len()
        invariant
            i <= v.len(),
            out@ == v@.subrange(0, i as int),
        decreases v.len() - i,
    {
        out.push(v[i]);
        i = i + 1;
        proof {
            assert(out@ =~= v@.subrange(0, i as int));
        }
    }
    proof {
        assert(v@.subrange(0, v.len() as int) =~= v@);
    }
    out
}

/// Compares two byte vectors element by element.
pub fn bytes_eq(a: &Vec<u8>, b: &Vec<u8>) -> (r: bool)
    ensures
        r == (a@ == b@),
{
    if a.len() != b.len() {
        proof {
            assert(a@ != b@) by {
                if a@ == b@ {
                    assert(a@.len() == b@.len());
                }
            }
        }
        return false;
    }
    let mut i: usize = 0;
    while i < a.len()
        invariant
            i <= a.len(),
            a.len() == b.len(),
            forall|j: int| 0 <= j < i ==> a@[j] == b@[j],
        decreases a.len() - i,
    {
        if a[i] != b[i] {
            return false;
        }
        i = i + 1;
    }
    proof {
        assert(a@ =~= b@);
    }
    true
}

impl Clone for TokenType {
    /// A clone has the same model as the original.
    fn clone(&self) -> (r: Self)
        ensures
            r@ == self@,
    {
        match self {
            TokenType::Identifier(v) => TokenType::Identifier(copy_bytes(v)),
            TokenType::Constant(n) => TokenType::Constant(*n),
            TokenType::Static(st) => TokenType::Static(*st),
        }
    }
}

impl Clone for Token {
    /// A clone has the same model as the original.
    fn clone(&self) -> (r: Self)
        ensures
            r@ == self@,
    {
        Token { kind: self.kind.clone(), span: self.span }
    }
}

impl PartialEq for TokenType {
    fn eq(&self, other: &Self) -> (r: bool)
        ensures
            r == (self@ == other@),
    {
        match (self, other) {
            (TokenType::Identifier(a), TokenType::Identifier(b)) => bytes_eq(a, b),
            (TokenType::Constant(a), TokenType::Constant(b)) => a == b,
            (TokenType::Static(a), TokenType::Static(b)) => a == b,
            _ => false,
        }
    }
}

impl vstd::std_specs::cmp::PartialEqSpecImpl for TokenType {
    open spec fn obeys_eq_spec() -> bool {
        true
    }

    open spec fn eq_spec(&self, other: &Self) -> bool {
        self@ == other@
    }
}

/// Token equality compares only the kind, ignoring the span: convenient for
/// comparing token streams against expectations.
impl PartialEq for Token {
    fn eq(&self, other: &Self) -> (r: bool)
        ensures
            r == (self@.kind == other@.kind),
    {
        self.kind == other.kind
    }
}

impl vstd::std_specs::cmp::PartialEqSpecImpl for Token {
    open spec fn obeys_eq_spec() -> bool {
        true
    }

    open spec fn eq_spec(&self, other: &Self) -> bool {
        self@.kind == other@.kind
    }
}

impl Token {
    pub fn new(kind: TokenType, span: Span) -> (r: Self)
        ensures
            r@ == (SpecToken { kind: kind@, span }),
    {
        Token { kind, span }
    }
}

/// The decimal digits of a non-negative integer, most significant first;
/// empty for zero.
pub open spec fn dec_digits(n: int) -> Seq<u8>
    decreases n,
{
    if n <= 0 {
        Seq::empty()
    } else {
        dec_digits(n / 10).push((('0' as u8) + n % 10) as u8)
    }
}

/// The canonical decimal spelling of an integer, sign included.
pub open spec fn dec_spell(n: int) -> Seq<u8> {
    if n == 0 {
        seq!['0' as u8]
    } else if n > 0 {
        dec_digits(n)
    } else {
        seq!['-' as u8] + dec_digits(-n)
    }
}

/// The canonical spelling of a token kind: the identifier text, the decimal
/// form of a constant, or the fixed spelling of a static token.
pub open spec fn kind_spell(k: SpecTokenType) -> Seq<u8> {
    match k {
        SpecTokenType::Identifier(name) => name,
        SpecTokenType::Constant(n) => dec_spell(n as int),
        SpecTokenType::Static(st) => spell(st),
    }
}

/// ASCII decimal digit.
pub open spec fn is_digit(b: u8) -> bool {
    '0' as u8 <= b <= '9' as u8
}

/// A byte that may start an identifier: a letter or an underscore.
pub open spec fn is_ident_start(b: u8) -> bool {
    ('a' as u8 <= b <= 'z' as u8) || ('A' as u8 <= b <= 'Z' as u8) || b == '_' as u8
}

/// A byte that may continue an identifier.
pub open spec fn is_ident_char(b: u8) -> bool {
    is_ident_start(b) || is_digit(b)
}

/// The keyword spelled by the given text, if any.
pub open spec fn keyword_of(s: Seq<u8>) -> Option<StaticToken> {
    if s == spell(StaticToken::Int) {
        Some(StaticToken::Int)
    } else if s == spell(StaticToken::Void) {
        Some(StaticToken::Void)
    } else if s == spell(StaticToken::Return) {
        Some(StaticToken::Return)
    } else if s == spell(StaticToken::If) {
        Some(StaticToken::If)
    } else if s == spell(StaticToken::Else) {
        Some(StaticToken::Else)
    } else if s == spell(StaticToken::While) {
        Some(StaticToken::While)
    } else if s == spell(StaticToken::Do) {
        Some(StaticToken::Do)
    } else if s == spell(StaticToken::For) {
        Some(StaticToken::For)
    } else if s == spell(StaticToken::Break) {
        Some(StaticToken::Break)
    } else if s == spell(StaticToken::Continue) {
        Some(StaticToken::Continue)
    } else {
        None
    }
}

/// The value of a sequence of ASCII decimal digits, most significant first.
pub open spec fn dec_value(s: Seq<u8>) -> int
    decreases s.len(),
{
    if s.len() == 0 {
        0
    } else {
        dec_value(s.drop_last()) * 10 + (s.last() - '0' as u8)
    }
}

/// The symbol token spelled by the given text, if any.
pub open spec fn sym_of_text(s: Seq<u8>) -> Option<StaticToken> {
    if s.len() == 1 {
        let b = s[0];
        if b == ';' as u8 {
            Some(StaticToken::Semicolon)
        } else if b == '(' as u8 {
            Some(StaticToken::LParen)
        } else if b == ')' as u8 {
            Some(StaticToken::RParen)
        } else if b == '{' as u8 {
            Some(StaticToken::LBrace)
        } else if b == '}' as u8 {
            Some(StaticToken::RBrace)
        } else if b == '[' as u8 {
            Some(StaticToken::LBracket)
        } else if b == ']' as u8 {
            Some(StaticToken::RBracket)
        } else if b == ',' as u8 {
            Some(StaticToken::Comma)
        } else if b == ':' as u8 {
            Some(StaticToken::Colon)
        } else if b == '?' as u8 {
            Some(StaticToken::Question)
        } else if b == '+' as u8 {
            Some(StaticToken::Plus)
        } else if b == '-' as u8 {
            Some(StaticToken::Minus)
        } else if b == '*' as u8 {
            Some(StaticToken::Star)
        } else if b == '/' as u8 {
            Some(StaticToken::Slash)
        } else if b == '%' as u8 {
            Some(StaticToken::Percent)
        } else if b == '&' as u8 {
            Some(StaticToken::Ampersand)
        } else if b == '|' as u8 {
            Some(StaticToken::Pipe)
        } else if b == '^' as u8 {
            Some(StaticToken::Caret)
        } else if b == '~' as u8 {
            Some(StaticToken::Tilde)
        } else if b == '!' as u8 {
            Some(StaticToken::Not)
        } else if b == '<' as u8 {
            Some(StaticToken::LessThan)
        } else if b == '>' as u8 {
            Some(StaticToken::GreaterThan)
        } else if b == '=' as u8 {
            Some(StaticToken::Equal)
        } else if b == '.' as u8 {
            Some(StaticToken::Dot)
        } else if b == '#' as u8 {
            Some(StaticToken::Hash)
        } else {
            None
        }
    } else if s.len() == 2 {
        let a = s[0];
        let b = s[1];
        if a == '<' as u8 && b == '<' as u8 {
            Some(StaticToken::LeftShift)
        } else if a == '>' as u8 && b == '>' as u8 {
            Some(StaticToken::RightShift)
        } else if a == '&' as u8 && b == '&' as u8 {
            Some(StaticToken::LogicalAnd)
        } else if a == '|' as u8 && b == '|' as u8 {
            Some(StaticToken::LogicalOr)
        } else if a == '<' as u8 && b == '=' as u8 {
            Some(StaticToken::LessThanOrEqual)
        } else if a == '>' as u8 && b == '=' as u8 {
            Some(StaticToken::GreaterThanOrEqual)
        } else if a == '=' as u8 && b == '=' as u8 {
            Some(StaticToken::EqualEqual)
        } else if a == '!' as u8 && b == '=' as u8 {
            Some(StaticToken::NotEqual)
        } else if a == '+' as u8 && b == '=' as u8 {
            Some(StaticToken::PlusEqual)
        } else if a == '-' as u8 && b == '=' as u8 {
            Some(StaticToken::MinusEqual)
        } else if a == '*' as u8 && b == '=' as u8 {
            Some(StaticToken::StarEqual)
        } else if a == '/' as u8 && b == '=' as u8 {
            Some(StaticToken::SlashEqual)
        } else if a == '%' as u8 && b == '=' as u8 {
            Some(StaticToken::PercentEqual)
        } else if a == '&' as u8 && b == '=' as u8 {
            Some(StaticToken::AmpersandEqual)
        } else if a == '|' as u8 && b == '=' as u8 {
            Some(StaticToken::PipeEqual)
        } else if a == '^' as u8 && b == '=' as u8 {
            Some(StaticToken::CaretEqual)
        } else if a == '+' as u8 && b == '+' as u8 {
            Some(StaticToken::PlusPlus)
        } else if a == '-' as u8 && b == '-' as u8 {
            Some(StaticToken::MinusMinus)
        } else if a == '-' as u8 && b == '>' as u8 {
            Some(StaticToken::Arrow)
        } else if a == '#' as u8 && b == '#' as u8 {
            Some(StaticToken::DoubleHash)
        } else {
            None
        }
    } else if s.len() == 3 {
        if s[0] == '<' as u8 && s[1] == '<' as u8 && s[2] == '=' as u8 {
            Some(StaticToken::LeftShiftEqual)
        } else if s[0] == '>' as u8 && s[1] == '>' as u8 && s[2] == '=' as u8 {
            Some(StaticToken::RightShiftEqual)
        } else if s[0] == '.' as u8 && s[1] == '.' as u8 && s[2] == '.' as u8 {
            Some(StaticToken::Ellipsis)
        } else {
            None
        }
    } else {
        None
    }
}

/// Decodes a piece of source text back into the unique token kind it spells:
/// identifier text yields the identifier (or the keyword it spells), digit
/// text yields the constant with that value, and symbol text yields the
/// symbol.
pub open spec fn kind_of_text(s: Seq<u8>) -> Option<SpecTokenType> {
    if s.len() == 0 {
        None
    } else if is_ident_start(s[0]) && (forall|i: int| 0 <= i < s.len() ==> is_ident_char(#[trigger] s[i])) {
        match keyword_of(s) {
            Some(kw) => Some(SpecTokenType::Static(kw)),
            None => Some(SpecTokenType::Identifier(s)),
        }
    } else if (forall|i: int| 0 <= i < s.len() ==> is_digit(#[trigger] s[i])) && dec_value(s)
        <= i32::MAX {
        Some(SpecTokenType::Constant(dec_value(s) as i32))
    } else {
        match sym_of_text(s) {
            Some(st) => Some(SpecTokenType::Static(st)),
            None => None,
        }
    }
}

/// `spell_ok(k, s)` says that the source text `s` is a spelling of the token
/// kind `k`: exactly what the lexer guarantees of the text under a produced
/// token's span.
pub open spec fn spell_ok(k: SpecTokenType, s: Seq<u8>) -> bool {
    match k {
        SpecTokenType::Identifier(name) => s == name && name.len() > 0 && is_ident_start(name[0])
            && (forall|i: int| 0 <= i < name.len() ==> is_ident_char(#[trigger] name[i]))
            && keyword_of(name) is None,
        SpecTokenType::Constant(n) => n >= 0 && s.len() > 0 && (forall|i: int|
            0 <= i < s.len() ==> is_digit(#[trigger] s[i])) && dec_value(s) == n,
        SpecTokenType::Static(st) => s == spell(st),
    }
}

/// Every spelling decodes back to the token kind it was produced for: the
/// source text under a token's span determines the token.
pub proof fn lemma_spell_ok_decodes(k: SpecTokenType, s: Seq<u8>)
    requires
        spell_ok(k, s),
    ensures
        kind_of_text(s) == Some(k),
{
    match k {
        SpecTokenType::Identifier(name) => {
        },
        SpecTokenType::Constant(n) => {
            assert(!is_ident_start(s[0]));
        },
        SpecTokenType::Static(st) => {
        },
    }
}

/// Two token kinds with a common spelling are the same kind: concatenating
/// the source text of consecutive tokens loses no information.
pub proof fn lemma_spell_ok_unique(k1: SpecTokenType, k2: SpecTokenType, s: Seq<u8>)
    requires
        spell_ok(k1, s),
        spell_ok(k2, s),
    ensures
        k1 == k2,
{
    lemma_spell_ok_decodes(k1, s);
    lemma_spell_ok_decodes(k2, s);
}

/// Powers of ten.
pub open spec fn pow10(k: nat) -> int
    decreases k,
{
    if k == 0 {
        1
    } else {
        10 * pow10((k - 1) as nat)
    }
}

/// A number below the `k`-th power of ten has at most `k` decimal digits.
proof fn lemma_dec_digits_len(m: int, k: nat)
    requires
        0 <= m < pow10(k),
    ensures
        dec_digits(m).len() <= k,
    decreases k,
{
    if k == 0 {
    } else if m == 0 {
    } else {
        assert(m / 10 < pow10((k - 1) as nat)) by (nonlinear_arith)
            requires
                m < 10 * pow10((k - 1) as nat),
                m >= 0,
                pow10((k - 1) as nat) >= 0,
        ;
        lemma_dec_digits_len(m / 10, (k - 1) as nat);
    }
}

/// The decimal digit count of a positive 31-bit number, by repeated division.
fn count_digits(m0: u64) -> (r: usize)
    requires
        1 <= m0 <= 0x7fffffff80000000u64,
    ensures
        r == dec_digits(m0 as int).len(),
        r <= 19,
{
    proof {
        reveal_with_fuel(pow10, 20);
        assert(pow10(19) == 10000000000000000000);
        assert(m0 < pow10(19));
        lemma_dec_digits_len(m0 as int, 19);
    }
    let mut m: u64 = m0;
    let mut d: usize = 1;
    while m >= 10
        invariant
            1 <= m,
            1 <= d,
            dec_digits(m0 as int).len() == d - 1 + dec_digits(m as int).len(),
            dec_digits(m0 as int).len() <= 19,
        decreases m,
    {
        proof {
            assert(dec_digits(m as int) == dec_digits(m as int / 10).push(
                (('0' as u8) + (m as int) % 10) as u8,
            ));
            assert(dec_digits(m as int / 10).len() >= 1);
        }
        m = m / 10;
        d = d + 1;
    }
    proof {
        assert(dec_digits(m as int) == dec_digits(m as int / 10).push(
            (('0' as u8) + (m as int) % 10) as u8,
        ));
        assert(m as int / 10 == 0);
        assert(dec_digits(0).len() == 0);
    }
    d
}

impl TokenType {
    pub fn identifier(input: Vec<u8>) -> (r: Self)
        ensures
            r@ == SpecTokenType::Identifier(input@),
    {
        TokenType::Identifier(input)
    }

    /// The length in bytes of this token's canonical spelling.
    pub fn ascii_length(&self) -> (r: usize)
        ensures
            r == kind_spell(self@).len(),
    {
        match self {
            TokenType::Identifier(v) => v.len(),
            TokenType::Constant(n) => {
                if *n == 0 {
                    1
                } else if *n > 0 {
                    count_digits(*n as u64)
                } else {
                    let m: u64 = (-(*n as i64)) as u64;
                    proof {
                        assert(m as int == -(*n as int));
                    }
                    1 + count_digits(m)
                }
            },
            TokenType::Static(st) => match st {
                StaticToken::Semicolon | StaticToken::LParen | StaticToken::RParen
                    | StaticToken::LBrace | StaticToken::RBrace | StaticToken::LBracket
                    | StaticToken::RBracket | StaticToken::Comma | StaticToken::Colon
                    | StaticToken::Question | StaticToken::Plus | StaticToken::Minus
                    | StaticToken::Star | StaticToken::Slash | StaticToken::Percent
                    | StaticToken::Ampersand | StaticToken::Pipe | StaticToken::Caret
                    | StaticToken::Tilde | StaticToken::Not | StaticToken::LessThan
                    | StaticToken::GreaterThan | StaticToken::Equal | StaticToken::Dot
                    | StaticToken::Hash => 1,
                StaticToken::If | StaticToken::Do | StaticToken::LeftShift
                    | StaticToken::RightShift | StaticToken::LogicalAnd | StaticToken::LogicalOr
                    | StaticToken::LessThanOrEqual | StaticToken::GreaterThanOrEqual
                    | StaticToken::EqualEqual | StaticToken::NotEqual | StaticToken::PlusEqual
                    | StaticToken::MinusEqual | StaticToken::StarEqual | StaticToken::SlashEqual
                    | StaticToken::PercentEqual | StaticToken::AmpersandEqual
                    | StaticToken::PipeEqual | StaticToken::CaretEqual | StaticToken::PlusPlus
                    | StaticToken::MinusMinus | StaticToken::Arrow | StaticToken::DoubleHash => 2,
                StaticToken::Int | StaticToken::For | StaticToken::LeftShiftEqual
                    | StaticToken::RightShiftEqual | StaticToken::Ellipsis => 3,
                StaticToken::Void | StaticToken::Else => 4,
                StaticToken::While | StaticToken::Break => 5,
                StaticToken::Return => 6,
                StaticToken::Continue => 8,
            },
        }
    }
}

} // verus!
