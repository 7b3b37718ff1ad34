use vstd::prelude::*;
use vstd::slice::slice_subrange;
use vstd::string::*;
use crate::error::Error;

verus! {

#[derive(Clone, Copy, Debug, PartialEq, Eq, Structural)]
pub enum TokenKind {
    // Single-character tokens.
    LeftParen,
    RightParen,
    LeftBrace,
    RightBrace,
    Comma,
    Dot,
    Minus,
    Plus,
    Semicolon,
    Slash,
    Star,
    // One or two character tokens.
    Bang,
    BangEqual,
    Equal,
    EqualEqual,
    Greater,
    GreaterEqual,
    Less,
    LessEqual,
    // Literals.
    Identifier,
    String,
    Number,
    // Keywords.
    And,
    Class,
    Else,
    False,
    For,
    Fun,
    If,
    Nil,
    Or,
    Print,
    Return,
    Super,
    This,
    True,
    Var,
    While,
    Eof,
}

impl TokenKind {
    /// The kind's name as it is written in a token dump.
    pub open spec fn spec_name(self) -> Seq<char> {
        match self {
            TokenKind::LeftParen => "LeftParen"@,
            TokenKind::RightParen => "RightParen"@,
            TokenKind::LeftBrace => "LeftBrace"@,
            TokenKind::RightBrace => "RightBrace"@,
            TokenKind::Comma => "Comma"@,
            TokenKind::Dot => "Dot"@,
            TokenKind::Minus => "Minus"@,
            TokenKind::Plus => "Plus"@,
            TokenKind::Semicolon => "Semicolon"@,
            TokenKind::Slash => "Slash"@,
            TokenKind::Star => "Star"@,
            TokenKind::Bang => "Bang"@,
            TokenKind::BangEqual => "BangEqual"@,
            TokenKind::Equal => "Equal"@,
            TokenKind::EqualEqual => "EqualEqual"@,
            TokenKind::Greater => "Greater"@,
            TokenKind::GreaterEqual => "GreaterEqual"@,
            TokenKind::Less => "Less"@,
            TokenKind::LessEqual => "LessEqual"@,
            TokenKind::Identifier => "Identifier"@,
            TokenKind::String => "String"@,
            TokenKind::Number => "Number"@,
            TokenKind::And => "And"@,
            TokenKind::Class => "Class"@,
            TokenKind::Else => "Else"@,
            TokenKind::False => "False"@,
            TokenKind::For => "For"@,
            TokenKind::Fun => "Fun"@,
            TokenKind::If => "If"@,
            TokenKind::Nil => "Nil"@,
            TokenKind::Or => "Or"@,
            TokenKind::Print => "Print"@,
            TokenKind::Return => "Return"@,
            TokenKind::Super => "Super"@,
            TokenKind::This => "This"@,
            TokenKind::True => "True"@,
            TokenKind::Var => "Var"@,
            TokenKind::While => "While"@,
            TokenKind::Eof => "Eof"@,
        }
    }

    /// The kind's name as it is written in a token dump.
    pub fn name(&self) -> (name: &'static str)
        ensures
            name@ == self.spec_name(),
    {
        match self {
            TokenKind::LeftParen => "LeftParen",
            TokenKind::RightParen => "RightParen",
            TokenKind::LeftBrace => "LeftBrace",
            TokenKind::RightBrace => "RightBrace",
            TokenKind::Comma => "Comma",
            TokenKind::Dot => "Dot",
            TokenKind::Minus => "Minus",
            TokenKind::Plus => "Plus",
            TokenKind::Semicolon => "Semicolon",
            TokenKind::Slash => "Slash",
            TokenKind::Star => "Star",
            TokenKind::Bang => "Bang",
            TokenKind::BangEqual => "BangEqual",
            TokenKind::Equal => "Equal",
            TokenKind::EqualEqual => "EqualEqual",
            TokenKind::Greater => "Greater",
            TokenKind::GreaterEqual => "GreaterEqual",
            TokenKind::Less => "Less",
            TokenKind::LessEqual => "LessEqual",
            TokenKind::Identifier => "Identifier",
            TokenKind::String => "String",
            TokenKind::Number => "Number",
            TokenKind::And => "And",
            TokenKind::Class => "Class",
            TokenKind::Else => "Else",
            TokenKind::False => "False",
            TokenKind::For => "For",
            TokenKind::Fun => "Fun",
            TokenKind::If => "If",
            TokenKind::Nil => "Nil",
            TokenKind::Or => "Or",
            TokenKind::Print => "Print",
            TokenKind::Return => "Return",
            TokenKind::Super => "Super",
            TokenKind::This => "This",
            TokenKind::True => "True",
            TokenKind::Var => "Var",
            TokenKind::While => "While",
            TokenKind::Eof => "Eof",
        }
    }
}

/// A token: its kind, the bytes of the source it covers, and the 1-based line
/// on which it starts.
pub struct Token<'a> {
    pub kind: TokenKind,
    pub str: &'a [u8],
    pub line: u32,
}

/// The classes of bytes that a token or a comment is a maximal run of.
pub enum ByteClass {
    /// An ASCII decimal digit.
    Digit,
    /// A byte that continues an identifier.
    Word,
    /// Any byte but a line feed.
    InLine,
    /// Any byte but a double quote.
    InString,
}

/// What stands at a position of the source: a token of some kind, or one of
/// the two lexical failures.
pub enum Lexed {
    Token(TokenKind),
    UnterminatedString,
    UnexpectedCharacter,
}

pub open spec fn is_digit(b: u8) -> bool {
    '0' as u8 <= b <= '9' as u8
}

pub open spec fn is_ascii_letter(b: u8) -> bool {
    ('a' as u8 <= b <= 'z' as u8) || ('A' as u8 <= b <= 'Z' as u8)
}

/// Whether the byte, read as the character with that code point, is a letter.
pub open spec fn is_alphabetic(b: u8) -> bool {
    is_ascii_letter(b) || b == 0xAA || b == 0xB5 || b == 0xBA || (0xC0 <= b <= 0xD6) || (0xD8 <= b
        <= 0xF6) || 0xF8 <= b
}

pub open spec fn is_word_start(b: u8) -> bool {
    is_ascii_letter(b) || b == '_' as u8
}

pub open spec fn is_word(b: u8) -> bool {
    is_alphabetic(b) || is_digit(b) || b == '_' as u8
}

/// Space, tab, carriage return or line feed.
pub open spec fn is_blank(b: u8) -> bool {
    b == ' ' as u8 || b == '\r' as u8 || b == '\t' as u8 || b == '\n' as u8
}

pub open spec fn in_class(class: ByteClass, b: u8) -> bool {
    match class {
        ByteClass::Digit => is_digit(b),
        ByteClass::Word => is_word(b),
        ByteClass::InLine => b != '\n' as u8,
        ByteClass::InString => b != '"' as u8,
    }
}

/// The byte at `i`, or zero where `i` is outside the source.
pub open spec fn byte_at(src: Seq<u8>, i: int) -> u8 {
    if 0 <= i < src.len() {
        src[i]
    } else {
        0
    }
}

/// The number of line feeds among the first `upto` bytes.
pub open spec fn newlines(src: Seq<u8>, upto: int) -> int
    decreases upto,
{
    if upto <= 0 {
        0
    } else {
        newlines(src, upto - 1) + if byte_at(src, upto - 1) == '\n' as u8 {
            1int
        } else {
            0int
        }
    }
}

/// Where the longest run of bytes of `class` that begins at `pos` ends.
pub open spec fn run_end(src: Seq<u8>, pos: int, class: ByteClass) -> int
    decreases src.len() - pos,
{
    if 0 <= pos < src.len() && in_class(class, src[pos]) {
        run_end(src, pos + 1, class)
    } else {
        pos
    }
}

/// Whether a `//` comment begins at `pos`.
pub open spec fn comment_starts(src: Seq<u8>, pos: int) -> bool {
    0 <= pos && pos + 1 < src.len() && src[pos] == '/' as u8 && src[pos + 1] == '/' as u8
}

/// Where the blanks and comments that begin at `pos` end: the position of
/// the next token, or the end of the source. `in_comment` says that `pos`
/// lies inside a comment.
pub open spec fn trivia_end(src: Seq<u8>, pos: int, in_comment: bool) -> int
    decreases src.len() - pos,
{
    if pos < 0 || pos >= src.len() {
        pos
    } else if in_comment {
        trivia_end(src, pos + 1, src[pos] != '\n' as u8)
    } else if is_blank(src[pos]) {
        trivia_end(src, pos + 1, false)
    } else if comment_starts(src, pos) {
        trivia_end(src, pos + 2, true)
    } else {
        pos
    }
}

/// The kind of a token that is one punctuation byte.
pub open spec fn punctuation(b: u8) -> Option<TokenKind> {
    if b == '(' as u8 {
        Some(TokenKind::LeftParen)
    } else if b == ')' as u8 {
        Some(TokenKind::RightParen)
    } else if b == '{' as u8 {
        Some(TokenKind::LeftBrace)
    } else if b == '}' as u8 {
        Some(TokenKind::RightBrace)
    } else if b == ';' as u8 {
        Some(TokenKind::Semicolon)
    } else if b == ',' as u8 {
        Some(TokenKind::Comma)
    } else if b == '.' as u8 {
        Some(TokenKind::Dot)
    } else if b == '-' as u8 {
        Some(TokenKind::Minus)
    } else if b == '+' as u8 {
        Some(TokenKind::Plus)
    } else if b == '/' as u8 {
        Some(TokenKind::Slash)
    } else if b == '*' as u8 {
        Some(TokenKind::Star)
    } else {
        None
    }
}

/// The kind of an operator that begins with `b`, alone or followed by `=`.
pub open spec fn operator(b: u8, with_equal: bool) -> Option<TokenKind> {
    if b == '!' as u8 {
        Some(if with_equal { TokenKind::BangEqual } else { TokenKind::Bang })
    } else if b == '=' as u8 {
        Some(if with_equal { TokenKind::EqualEqual } else { TokenKind::Equal })
    } else if b == '<' as u8 {
        Some(if with_equal { TokenKind::LessEqual } else { TokenKind::Less })
    } else if b == '>' as u8 {
        Some(if with_equal { TokenKind::GreaterEqual } else { TokenKind::Greater })
    } else {
        None
    }
}

pub open spec fn is_keyword(kind: TokenKind) -> bool {
    match kind {
        TokenKind::And
        | TokenKind::Class
        | TokenKind::Else
        | TokenKind::False
        | TokenKind::For
        | TokenKind::Fun
        | TokenKind::If
        | TokenKind::Nil
        | TokenKind::Or
        | TokenKind::Print
        | TokenKind::Return
        | TokenKind::Super
        | TokenKind::This
        | TokenKind::True
        | TokenKind::Var
        | TokenKind::While => true,
        _ => false,
    }
}

/// The spelling of a reserved word; empty for every other kind.
pub open spec fn keyword_text(kind: TokenKind) -> Seq<u8> {
    match kind {
        TokenKind::And => seq!['a' as u8, 'n' as u8, 'd' as u8],
        TokenKind::Class => seq!['c' as u8, 'l' as u8, 'a' as u8, 's' as u8, 's' as u8],
        TokenKind::Else => seq!['e' as u8, 'l' as u8, 's' as u8, 'e' as u8],
        TokenKind::False => seq!['f' as u8, 'a' as u8, 'l' as u8, 's' as u8, 'e' as u8],
        TokenKind::For => seq!['f' as u8, 'o' as u8, 'r' as u8],
        TokenKind::Fun => seq!['f' as u8, 'u' as u8, 'n' as u8],
        TokenKind::If => seq!['i' as u8, 'f' as u8],
        TokenKind::Nil => seq!['n' as u8, 'i' as u8, 'l' as u8],
        TokenKind::Or => seq!['o' as u8, 'r' as u8],
        TokenKind::Print => seq!['p' as u8, 'r' as u8, 'i' as u8, 'n' as u8, 't' as u8],
        TokenKind::Return => seq![
            'r' as u8,
            'e' as u8,
            't' as u8,
            'u' as u8,
            'r' as u8,
            'n' as u8,
        ],
        TokenKind::Super => seq!['s' as u8, 'u' as u8, 'p' as u8, 'e' as u8, 'r' as u8],
        TokenKind::This => seq!['t' as u8, 'h' as u8, 'i' as u8, 's' as u8],
        TokenKind::True => seq!['t' as u8, 'r' as u8, 'u' as u8, 'e' as u8],
        TokenKind::Var => seq!['v' as u8, 'a' as u8, 'r' as u8],
        TokenKind::While => seq!['w' as u8, 'h' as u8, 'i' as u8, 'l' as u8, 'e' as u8],
        _ => Seq::empty(),
    }
}

/// The kind of a word: the reserved word that it spells byte for byte, or an
/// identifier.
pub open spec fn word_kind(word: Seq<u8>) -> TokenKind {
    if word == keyword_text(TokenKind::And) {
        TokenKind::And
    } else if word == keyword_text(TokenKind::Class) {
        TokenKind::Class
    } else if word == keyword_text(TokenKind::Else) {
        TokenKind::Else
    } else if word == keyword_text(TokenKind::False) {
        TokenKind::False
    } else if word == keyword_text(TokenKind::For) {
        TokenKind::For
    } else if word == keyword_text(TokenKind::Fun) {
        TokenKind::Fun
    } else if word == keyword_text(TokenKind::If) {
        TokenKind::If
    } else if word == keyword_text(TokenKind::Nil) {
        TokenKind::Nil
    } else if word == keyword_text(TokenKind::Or) {
        TokenKind::Or
    } else if word == keyword_text(TokenKind::Print) {
        TokenKind::Print
    } else if word == keyword_text(TokenKind::Return) {
        TokenKind::Return
    } else if word == keyword_text(TokenKind::Super) {
        TokenKind::Super
    } else if word == keyword_text(TokenKind::This) {
        TokenKind::This
    } else if word == keyword_text(TokenKind::True) {
        TokenKind::True
    } else if word == keyword_text(TokenKind::Var) {
        TokenKind::Var
    } else if word == keyword_text(TokenKind::While) {
        TokenKind::While
    } else {
        TokenKind::Identifier
    }
}

/// Where the number that begins at `pos` ends: after its digits, and after
/// a point and further digits where a digit follows the point.
pub open spec fn number_end(src: Seq<u8>, pos: int) -> int {
    let whole = run_end(src, pos, ByteClass::Digit);
    if byte_at(src, whole) == '.' as u8 && is_digit(byte_at(src, whole + 1)) {
        run_end(src, whole + 1, ByteClass::Digit)
    } else {
        whole
    }
}

/// What begins at `pos`, a position that no blank or comment begins at, and
/// where it ends.
pub open spec fn lex_at(src: Seq<u8>, pos: int) -> (Lexed, int) {
    if pos < 0 || pos >= src.len() {
        (Lexed::Token(TokenKind::Eof), pos)
    } else if punctuation(src[pos]) is Some {
        (Lexed::Token(punctuation(src[pos])->0), pos + 1)
    } else if operator(src[pos], false) is Some {
        if byte_at(src, pos + 1) == '=' as u8 {
            (Lexed::Token(operator(src[pos], true)->0), pos + 2)
        } else {
            (Lexed::Token(operator(src[pos], false)->0), pos + 1)
        }
    } else if src[pos] == '"' as u8 {
        let quote = run_end(src, pos + 1, ByteClass::InString);
        if quote < src.len() {
            (Lexed::Token(TokenKind::String), quote + 1)
        } else {
            (Lexed::UnterminatedString, quote)
        }
    } else if is_digit(src[pos]) {
        (Lexed::Token(TokenKind::Number), number_end(src, pos))
    } else if is_word_start(src[pos]) {
        let end = run_end(src, pos + 1, ByteClass::Word);
        (Lexed::Token(word_kind(src.subrange(pos, end))), end)
    } else {
        (Lexed::UnexpectedCharacter, pos + 1)
    }
}

/// A run never ends before it begins, nor beyond the source.
pub proof fn lemma_run_end_bounds(src: Seq<u8>, pos: int, class: ByteClass)
    requires
        0 <= pos <= src.len(),
    ensures
        pos <= run_end(src, pos, class) <= src.len(),
    decreases src.len() - pos,
{
    if pos < src.len() && in_class(class, src[pos]) {
        lemma_run_end_bounds(src, pos + 1, class);
    }
}

/// A stretch of bytes of one class, followed by the end of the source or by
/// a byte of another class, is the run that begins where the stretch does.
pub proof fn lemma_run_end_is(src: Seq<u8>, pos: int, end: int, class: ByteClass)
    requires
        0 <= pos <= end <= src.len(),
        forall|i: int| pos <= i < end ==> in_class(class, #[trigger] src[i]),
        end == src.len() || !in_class(class, src[end]),
    ensures
        run_end(src, pos, class) == end,
    decreases end - pos,
{
    if pos < end {
        lemma_run_end_is(src, pos + 1, end, class);
    }
}

/// Blanks and comments end at or after the position they begin at, inside
/// the source.
pub proof fn lemma_trivia_end_bounds(src: Seq<u8>, pos: int, in_comment: bool)
    requires
        0 <= pos <= src.len(),
        in_comment ==> pos >= 2,
    ensures
        pos <= trivia_end(src, pos, in_comment) <= src.len(),
    decreases src.len() - pos,
{
    if pos < src.len() {
        if in_comment {
            lemma_trivia_end_bounds(src, pos + 1, src[pos] != '\n' as u8);
        } else if is_blank(src[pos]) {
            lemma_trivia_end_bounds(src, pos + 1, false);
        } else if comment_starts(src, pos) {
            lemma_trivia_end_bounds(src, pos + 2, true);
        }
    }
}

/// Whatever begins inside the source ends after it begins, and inside the
/// source.
pub proof fn lemma_lex_advances(src: Seq<u8>, pos: int)
    requires
        0 <= pos < src.len(),
    ensures
        pos < lex_at(src, pos).1 <= src.len(),
{
    lemma_run_end_bounds(src, pos + 1, ByteClass::InString);
    lemma_run_end_bounds(src, pos + 1, ByteClass::Word);
    lemma_run_end_bounds(src, pos, ByteClass::Digit);
    lemma_run_end_bounds(src, pos + 1, ByteClass::Digit);
    let whole = run_end(src, pos, ByteClass::Digit);
    if is_digit(src[pos]) {
        assert(whole > pos);
    }
    if whole < src.len() {
        lemma_run_end_bounds(src, whole + 1, ByteClass::Digit);
    }
}

/// No more line feeds than bytes.
pub proof fn lemma_newlines_bounds(src: Seq<u8>, upto: int)
    requires
        0 <= upto,
    ensures
        0 <= newlines(src, upto) <= upto,
    decreases upto,
{
    if upto > 0 {
        lemma_newlines_bounds(src, upto - 1);
    }
}

/// The first byte of each reserved word, and the second of those that share
/// their first.
pub proof fn lemma_keyword_heads()
    ensures
        keyword_text(TokenKind::And)[0] == 'a' as u8,
        keyword_text(TokenKind::Class)[0] == 'c' as u8,
        keyword_text(TokenKind::Else)[0] == 'e' as u8,
        keyword_text(TokenKind::False)[0] == 'f' as u8,
        keyword_text(TokenKind::False)[1] == 'a' as u8,
        keyword_text(TokenKind::For)[0] == 'f' as u8,
        keyword_text(TokenKind::For)[1] == 'o' as u8,
        keyword_text(TokenKind::Fun)[0] == 'f' as u8,
        keyword_text(TokenKind::Fun)[1] == 'u' as u8,
        keyword_text(TokenKind::If)[0] == 'i' as u8,
        keyword_text(TokenKind::Nil)[0] == 'n' as u8,
        keyword_text(TokenKind::Or)[0] == 'o' as u8,
        keyword_text(TokenKind::Print)[0] == 'p' as u8,
        keyword_text(TokenKind::Return)[0] == 'r' as u8,
        keyword_text(TokenKind::Super)[0] == 's' as u8,
        keyword_text(TokenKind::This)[0] == 't' as u8,
        keyword_text(TokenKind::This)[1] == 'h' as u8,
        keyword_text(TokenKind::True)[0] == 't' as u8,
        keyword_text(TokenKind::True)[1] == 'r' as u8,
        keyword_text(TokenKind::Var)[0] == 'v' as u8,
        keyword_text(TokenKind::While)[0] == 'w' as u8,
        forall|kind: TokenKind| is_keyword(kind) ==> (#[trigger] keyword_text(kind)).len() >= 2,
{
}

pub fn is_digit_byte(b: u8) -> (r: bool)
    ensures
        r == is_digit(b),
{
    b >= '0' as u8 && b <= '9' as u8
}

pub fn is_word_start_byte(b: u8) -> (r: bool)
    ensures
        r == is_word_start(b),
{
    (b >= 'a' as u8 && b <= 'z' as u8) || (b >= 'A' as u8 && b <= 'Z' as u8) || b == '_' as u8
}

pub fn is_word_byte(b: u8) -> (r: bool)
    ensures
        r == is_word(b),
{
    is_word_start_byte(b) || is_digit_byte(b) || b == 0xAA || b == 0xB5 || b == 0xBA || (b >= 0xC0
        && b <= 0xD6) || (b >= 0xD8 && b <= 0xF6) || b >= 0xF8
}

/// A cursor over borrowed source bytes: where the current token starts, the
/// next byte to read, and the line of that byte.
pub struct Scanner<'a> {
    start: u32,
    current: u32,
    line: u32,
    source: &'a [u8],
}

impl<'a> Scanner<'a> {
    /// The source bytes.
    pub closed spec fn text(&self) -> Seq<u8> {
        self.source@
    }

    /// Where the token last scanned starts.
    pub closed spec fn token_start(&self) -> int {
        self.start as int
    }

    /// The position of the next byte to read.
    pub closed spec fn cursor(&self) -> int {
        self.current as int
    }

    /// The 1-based line of the next byte to read.
    pub closed spec fn line_number(&self) -> int {
        self.line as int
    }

    /// The cursors lie in order inside the source.
    pub open spec fn in_bounds(&self) -> bool {
        0 <= self.token_start() <= self.cursor() <= self.text().len() < u32::MAX
    }

    /// The cursors are in bounds and the line is one more than the number of
    /// line feeds before the cursor.
    pub open spec fn wf(&self) -> bool {
        &&& self.in_bounds()
        &&& self.line_number() == 1 + newlines(self.text(), self.cursor())
    }

    /// A scanner at the first byte of `source`, on line 1.
    pub fn new(source: &'a str) -> (scanner: Scanner<'a>)
        requires
            source.spec_bytes().len() < u32::MAX,
        ensures
            scanner.wf(),
            scanner.text() == source.spec_bytes(),
            scanner.token_start() == 0,
            scanner.cursor() == 0,
            scanner.line_number() == 1,
    {
        Scanner { start: 0, current: 0, line: 1, source: source.as_bytes() }
    }

    /// Skips blanks and comments, then scans the one token that follows, or
    /// reports what stands in its way.
    pub fn scan_token(&mut self) -> (result: Result<Token<'a>, Error>)
        requires
            old(self).wf(),
        ensures
            final(self).wf(),
            final(self).text() == old(self).text(),
            old(self).cursor() <= final(self).token_start(),
            final(self).token_start() == trivia_end(old(self).text(), old(self).cursor(), false),
            final(self).cursor() == lex_at(final(self).text(), final(self).token_start()).1,
            match lex_at(final(self).text(), final(self).token_start()).0 {
                Lexed::Token(kind) => result matches Ok(token) && token.kind == kind && token.str@
                    == final(self).text().subrange(final(self).token_start(), final(self).cursor())
                    && token.line == 1 + newlines(final(self).text(), final(self).token_start()),
                Lexed::UnterminatedString => result matches Err(Error::CompileError(msg)) && msg@
                    == "Unterminated string."@,
                Lexed::UnexpectedCharacter => result matches Err(Error::CompileError(msg)) && msg@
                    == "Unexpected character"@,
            },
    {
        proof {
            lemma_trivia_end_bounds(self.text(), self.cursor(), false);
        }
        self.skip_whitespace();
        self.start = self.current;
        if self.is_end() {
            return Ok(self.make_token(TokenKind::Eof));
        }
        let c = self.advance();
        if c == '(' as u8 {
            Ok(self.make_token(TokenKind::LeftParen))
        } else if c == ')' as u8 {
            Ok(self.make_token(TokenKind::RightParen))
        } else if c == '{' as u8 {
            Ok(self.make_token(TokenKind::LeftBrace))
        } else if c == '}' as u8 {
            Ok(self.make_token(TokenKind::RightBrace))
        } else if c == ';' as u8 {
            Ok(self.make_token(TokenKind::Semicolon))
        } else if c == ',' as u8 {
            Ok(self.make_token(TokenKind::Comma))
        } else if c == '.' as u8 {
            Ok(self.make_token(TokenKind::Dot))
        } else if c == '-' as u8 {
            Ok(self.make_token(TokenKind::Minus))
        } else if c == '+' as u8 {
            Ok(self.make_token(TokenKind::Plus))
        } else if c == '/' as u8 {
            Ok(self.make_token(TokenKind::Slash))
        } else if c == '*' as u8 {
            Ok(self.make_token(TokenKind::Star))
        } else if c == '!' as u8 {
            Ok(self.two_char_token(TokenKind::Bang, TokenKind::BangEqual))
        } else if c == '=' as u8 {
            Ok(self.two_char_token(TokenKind::Equal, TokenKind::EqualEqual))
        } else if c == '<' as u8 {
            Ok(self.two_char_token(TokenKind::Less, TokenKind::LessEqual))
        } else if c == '>' as u8 {
            Ok(self.two_char_token(TokenKind::Greater, TokenKind::GreaterEqual))
        } else if c == '"' as u8 {
            self.string()
        } else if is_digit_byte(c) {
            Ok(self.number())
        } else if is_word_start_byte(c) {
            Ok(self.identifier())
        } else {
            Err(Error::CompileError(String::from_str("Unexpected character")))
        }
    }

    /// The source bytes from `start` up to `end`.
    pub fn get_slice(&self, start: u32, end: u32) -> (bytes: &'a [u8])
        requires
            start <= end <= self.text().len(),
        ensures
            bytes@ == self.text().subrange(start as int, end as int),
    {
        slice_subrange(self.source, start as usize, end as usize)
    }

    fn is_end(&self) -> (r: bool)
        ensures
            r == (self.cursor() >= self.text().len()),
    {
        self.current as usize >= self.source.len()
    }

    /// The token of `kind` from the token start to the cursor, on the
    /// cursor's line.
    fn make_token(&self, kind: TokenKind) -> (token: Token<'a>)
        requires
            self.in_bounds(),
        ensures
            token.kind == kind,
            token.str@ == self.text().subrange(self.token_start(), self.cursor()),
            token.line == self.line_number(),
    {
        Token { kind, str: self.get_slice(self.start, self.current), line: self.line }
    }

    /// The one-byte operator, or the two-byte one where `=` follows.
    fn two_char_token(&mut self, alone: TokenKind, with_equal: TokenKind) -> (token: Token<'a>)
        requires
            old(self).wf(),
        ensures
            final(self).wf(),
            final(self).text() == old(self).text(),
            final(self).token_start() == old(self).token_start(),
            final(self).line_number() == old(self).line_number(),
            byte_at(old(self).text(), old(self).cursor()) == '=' as u8 ==> final(self).cursor()
                == old(self).cursor() + 1 && token.kind == with_equal,
            byte_at(old(self).text(), old(self).cursor()) != '=' as u8 ==> final(self).cursor()
                == old(self).cursor() && token.kind == alone,
            token.str@ == final(self).text().subrange(
                final(self).token_start(),
                final(self).cursor(),
            ),
            token.line == final(self).line_number(),
    {
        if self.match_next('=' as u8) {
            self.make_token(with_equal)
        } else {
            self.make_token(alone)
        }
    }

    /// Scans the rest of a string literal whose opening quote was read.
    fn string(&mut self) -> (result: Result<Token<'a>, Error>)
        requires
            old(self).wf(),
        ensures
            final(self).wf(),
            final(self).text() == old(self).text(),
            final(self).token_start() == old(self).token_start(),
            ({
                let quote = run_end(old(self).text(), old(self).cursor(), ByteClass::InString);
                if quote < old(self).text().len() {
                    &&& final(self).cursor() == quote + 1
                    &&& result matches Ok(token) && token.kind == TokenKind::String && token.str@
                        == final(self).text().subrange(
                        final(self).token_start(),
                        final(self).cursor(),
                    ) && token.line == old(self).line_number()
                } else {
                    &&& final(self).cursor() == quote
                    &&& result matches Err(Error::CompileError(msg)) && msg@
                        == "Unterminated string."@
                }
            }),
    {
        let first_line = self.line;
        while !self.is_end() && self.peek() != '"' as u8
            invariant
                self.wf(),
                self.text() == old(self).text(),
                self.token_start() == old(self).token_start(),
                first_line == old(self).line_number(),
                run_end(self.text(), self.cursor(), ByteClass::InString) == run_end(
                    old(self).text(),
                    old(self).cursor(),
                    ByteClass::InString,
                ),
            decreases self.text().len() - self.cursor(),
        {
            proof {
                lemma_newlines_bounds(self.text(), self.cursor());
            }
            if self.peek() == '\n' as u8 {
                self.line += 1;
            }
            self.advance();
        }
        if self.is_end() {
            return Err(Error::CompileError(String::from_str("Unterminated string.")));
        }
        // Skip the closing quote.
        self.advance();
        Ok(
            Token {
                kind: TokenKind::String,
                str: self.get_slice(self.start, self.current),
                line: first_line,
            },
        )
    }

    /// Scans the rest of a number whose first digit was read.
    fn number(&mut self) -> (token: Token<'a>)
        requires
            old(self).wf(),
        ensures
            final(self).wf(),
            final(self).text() == old(self).text(),
            final(self).token_start() == old(self).token_start(),
            final(self).line_number() == old(self).line_number(),
            final(self).cursor() == number_end(old(self).text(), old(self).cursor()),
            token.kind == TokenKind::Number,
            token.str@ == final(self).text().subrange(
                final(self).token_start(),
                final(self).cursor(),
            ),
            token.line == final(self).line_number(),
    {
        self.digits();
        if self.peek() == '.' as u8 && is_digit_byte(self.peek_next()) {
            // Consume the point.
            self.advance();
            self.digits();
        }
        self.make_token(TokenKind::Number)
    }

    /// Moves the cursor past the digits that it stands at.
    fn digits(&mut self)
        requires
            old(self).wf(),
        ensures
            final(self).wf(),
            final(self).text() == old(self).text(),
            final(self).token_start() == old(self).token_start(),
            final(self).line_number() == old(self).line_number(),
            final(self).cursor() == run_end(old(self).text(), old(self).cursor(), ByteClass::Digit),
    {
        while is_digit_byte(self.peek())
            invariant
                self.wf(),
                self.text() == old(self).text(),
                self.token_start() == old(self).token_start(),
                self.line_number() == old(self).line_number(),
                run_end(self.text(), self.cursor(), ByteClass::Digit) == run_end(
                    old(self).text(),
                    old(self).cursor(),
                    ByteClass::Digit,
                ),
            decreases self.text().len() - self.cursor(),
        {
            self.advance();
        }
    }

    /// Scans the rest of a word whose first byte was read.
    fn identifier(&mut self) -> (token: Token<'a>)
        requires
            old(self).wf(),
            old(self).token_start() < old(self).cursor(),
        ensures
            final(self).wf(),
            final(self).text() == old(self).text(),
            final(self).token_start() == old(self).token_start(),
            final(self).line_number() == old(self).line_number(),
            final(self).cursor() == run_end(old(self).text(), old(self).cursor(), ByteClass::Word),
            token.kind == word_kind(token.str@),
            token.str@ == final(self).text().subrange(
                final(self).token_start(),
                final(self).cursor(),
            ),
            token.line == final(self).line_number(),
    {
        while is_word_byte(self.peek())
            invariant
                self.wf(),
                self.token_start() < self.cursor(),
                self.text() == old(self).text(),
                self.token_start() == old(self).token_start(),
                self.line_number() == old(self).line_number(),
                run_end(self.text(), self.cursor(), ByteClass::Word) == run_end(
                    old(self).text(),
                    old(self).cursor(),
                    ByteClass::Word,
                ),
            decreases self.text().len() - self.cursor(),
        {
            self.advance();
        }
        self.make_token(self.identifier_type())
    }

    /// The kind of the word between the token start and the cursor.
    fn identifier_type(&self) -> (kind: TokenKind)
        requires
            self.in_bounds(),
            self.token_start() < self.cursor(),
        ensures
            kind == word_kind(self.text().subrange(self.token_start(), self.cursor())),
    {
        let first = self.get_char(self.start);
        proof {
            let word = self.text().subrange(self.token_start(), self.cursor());
            lemma_keyword_heads();
            assert(word[0] == first);
            if word.len() > 1 {
                assert(word[1] == byte_at(self.text(), self.token_start() + 1));
            }
        }
        if first == 'a' as u8 {
            self.check_keyword(TokenKind::And)
        } else if first == 'c' as u8 {
            self.check_keyword(TokenKind::Class)
        } else if first == 'e' as u8 {
            self.check_keyword(TokenKind::Else)
        } else if first == 'f' as u8 {
            if self.current - self.start > 1 {
                let second = self.get_char(self.start + 1);
                if second == 'a' as u8 {
                    self.check_keyword(TokenKind::False)
                } else if second == 'o' as u8 {
                    self.check_keyword(TokenKind::For)
                } else if second == 'u' as u8 {
                    self.check_keyword(TokenKind::Fun)
                } else {
                    TokenKind::Identifier
                }
            } else {
                TokenKind::Identifier
            }
        } else if first == 'i' as u8 {
            self.check_keyword(TokenKind::If)
        } else if first == 'n' as u8 {
            self.check_keyword(TokenKind::Nil)
        } else if first == 'o' as u8 {
            self.check_keyword(TokenKind::Or)
        } else if first == 'p' as u8 {
            self.check_keyword(TokenKind::Print)
        } else if first == 'r' as u8 {
            self.check_keyword(TokenKind::Return)
        } else if first == 's' as u8 {
            self.check_keyword(TokenKind::Super)
        } else if first == 't' as u8 {
            if self.current - self.start > 1 {
                let second = self.get_char(self.start + 1);
                if second == 'h' as u8 {
                    self.check_keyword(TokenKind::This)
                } else if second == 'r' as u8 {
                    self.check_keyword(TokenKind::True)
                } else {
                    TokenKind::Identifier
                }
            } else {
                TokenKind::Identifier
            }
        } else if first == 'v' as u8 {
            self.check_keyword(TokenKind::Var)
        } else if first == 'w' as u8 {
            self.check_keyword(TokenKind::While)
        } else {
            TokenKind::Identifier
        }
    }

    /// `kind` where the word between the token start and the cursor is the
    /// spelling of `kind`, an identifier where it is not.
    fn check_keyword(&self, kind: TokenKind) -> (found: TokenKind)
        requires
            self.in_bounds(),
            is_keyword(kind),
        ensures
            found == if self.text().subrange(self.token_start(), self.cursor()) == keyword_text(
                kind,
            ) {
                kind
            } else {
                TokenKind::Identifier
            },
    {
        let word = self.get_slice(self.start, self.current);
        let spelling = keyword_spelling(kind);
        if word.len() != spelling.len() {
            return TokenKind::Identifier;
        }
        let mut i: usize = 0;
        while i < word.len()
            invariant
                i <= word@.len() == spelling@.len(),
                word@ == self.text().subrange(self.token_start(), self.cursor()),
                spelling@ == keyword_text(kind),
                forall|j: int| 0 <= j < i ==> word@[j] == spelling@[j],
            decreases word@.len() - i,
        {
            if word[i] != spelling[i] {
                return TokenKind::Identifier;
            }
            i += 1;
        }
        assert(word@ =~= spelling@);
        kind
    }

    fn get_char(&self, i: u32) -> (c: u8)
        ensures
            c == byte_at(self.text(), i as int),
    {
        if (i as usize) < self.source.len() {
            self.source[i as usize]
        } else {
            0
        }
    }

    fn advance(&mut self) -> (c: u8)
        requires
            old(self).in_bounds(),
            old(self).cursor() < old(self).text().len(),
        ensures
            final(self).in_bounds(),
            final(self).text() == old(self).text(),
            final(self).token_start() == old(self).token_start(),
            final(self).line_number() == old(self).line_number(),
            final(self).cursor() == old(self).cursor() + 1,
            c == old(self).text()[old(self).cursor()],
    {
        self.current += 1;
        self.get_char(self.current - 1)
    }

    /// Moves the cursor past the next byte where that byte is `expected`,
    /// and says whether it did.
    fn match_next(&mut self, expected: u8) -> (matched: bool)
        requires
            old(self).in_bounds(),
        ensures
            final(self).in_bounds(),
            final(self).text() == old(self).text(),
            final(self).token_start() == old(self).token_start(),
            final(self).line_number() == old(self).line_number(),
            matched == (old(self).cursor() < old(self).text().len() && old(self).text()[old(
                self,
            ).cursor()] == expected),
            final(self).cursor() == old(self).cursor() + if matched {
                1int
            } else {
                0int
            },
    {
        if self.is_end() {
            return false;
        }
        if self.get_char(self.current) != expected {
            return false;
        }
        self.current += 1;
        true
    }

    fn peek(&self) -> (c: u8)
        ensures
            c == byte_at(self.text(), self.cursor()),
    {
        self.get_char(self.current)
    }

    fn peek_next(&self) -> (c: u8)
        requires
            self.in_bounds(),
        ensures
            c == byte_at(self.text(), self.cursor() + 1),
    {
        self.get_char(self.current + 1)
    }

    fn skip_whitespace(&mut self)
        requires
            old(self).wf(),
        ensures
            final(self).wf(),
            final(self).text() == old(self).text(),
            final(self).token_start() == old(self).token_start(),
            final(self).cursor() == trivia_end(old(self).text(), old(self).cursor(), false),
            !is_blank(byte_at(final(self).text(), final(self).cursor())),
    {
        loop
            invariant
                self.wf(),
                self.text() == old(self).text(),
                self.token_start() == old(self).token_start(),
                trivia_end(self.text(), self.cursor(), false) == trivia_end(
                    old(self).text(),
                    old(self).cursor(),
                    false,
                ),
            decreases self.text().len() - self.cursor(),
        {
            proof {
                lemma_newlines_bounds(self.text(), self.cursor());
            }
            let c = self.peek();
            if c == ' ' as u8 || c == '\r' as u8 || c == '\t' as u8 {
                self.advance();
            } else if c == '\n' as u8 {
                self.line += 1;
                self.advance();
            } else if c == '/' as u8 && self.peek_next() == '/' as u8 {
                let ghost slash = self.cursor();
                self.advance();
                assert(self.wf());
                self.advance();
                while !self.is_end() && self.peek() != '\n' as u8
                    invariant
                        self.wf(),
                        self.cursor() > slash,
                        self.text() == old(self).text(),
                        self.token_start() == old(self).token_start(),
                        trivia_end(self.text(), self.cursor(), true) == trivia_end(
                            old(self).text(),
                            old(self).cursor(),
                            false,
                        ),
                    decreases self.text().len() - self.cursor(),
                {
                    self.advance();
                }
            } else {
                return ;
            }
        }
    }
}

/// The bytes that spell a reserved word.
fn keyword_spelling(kind: TokenKind) -> (spelling: Vec<u8>)
    requires
        is_keyword(kind),
    ensures
        spelling@ == keyword_text(kind),
{
    let spelling = match kind {
        TokenKind::And => vec!['a' as u8, 'n' as u8, 'd' as u8],
        TokenKind::Class => vec!['c' as u8, 'l' as u8, 'a' as u8, 's' as u8, 's' as u8],
        TokenKind::Else => vec!['e' as u8, 'l' as u8, 's' as u8, 'e' as u8],
        TokenKind::False => vec!['f' as u8, 'a' as u8, 'l' as u8, 's' as u8, 'e' as u8],
        TokenKind::For => vec!['f' as u8, 'o' as u8, 'r' as u8],
        TokenKind::Fun => vec!['f' as u8, 'u' as u8, 'n' as u8],
        TokenKind::If => vec!['i' as u8, 'f' as u8],
        TokenKind::Nil => vec!['n' as u8, 'i' as u8, 'l' as u8],
        TokenKind::Or => vec!['o' as u8, 'r' as u8],
        TokenKind::Print => vec!['p' as u8, 'r' as u8, 'i' as u8, 'n' as u8, 't' as u8],
        TokenKind::Return => vec!['r' as u8, 'e' as u8, 't' as u8, 'u' as u8, 'r' as u8, 'n' as u8],
        TokenKind::Super => vec!['s' as u8, 'u' as u8, 'p' as u8, 'e' as u8, 'r' as u8],
        TokenKind::This => vec!['t' as u8, 'h' as u8, 'i' as u8, 's' as u8],
        TokenKind::True => vec!['t' as u8, 'r' as u8, 'u' as u8, 'e' as u8],
        TokenKind::Var => vec!['v' as u8, 'a' as u8, 'r' as u8],
        _ => vec!['w' as u8, 'h' as u8, 'i' as u8, 'l' as u8, 'e' as u8],
    };
    assert(spelling@ =~= keyword_text(kind));
    spelling
}

} // verus!
