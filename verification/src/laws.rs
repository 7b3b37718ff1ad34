use vstd::prelude::*;
use crate::compiler::scan_all;
use crate::chunk::{line_column, listing_line, operation_text, Instruction, OpCode};
use crate::text::{center, decimal, pad_left};
use crate::scanner::{
    comment_starts, is_blank, is_digit, is_keyword, is_word, keyword_text, lemma_keyword_heads,
    lemma_run_end_is, lex_at, newlines, number_end, trivia_end, word_kind, ByteClass, Lexed,
    TokenKind,
};
use crate::vm::{Action, Machine};

verus! {

/// Every byte from `from` up to `to` is a decimal digit.
pub open spec fn all_digits(s: Seq<u8>, from: int, to: int) -> bool {
    forall|i: int| from <= i < to ==> is_digit(#[trigger] s[i])
}

/// `s` is a number whose whole part is its first `whole` bytes: at least one
/// digit, then nothing more, or a point and at least one digit.
pub open spec fn is_number_split(s: Seq<u8>, whole: int) -> bool {
    &&& 0 < whole <= s.len()
    &&& all_digits(s, 0, whole)
    &&& whole == s.len() || (s[whole] == '.' as u8 && whole + 1 < s.len() && all_digits(
        s,
        whole + 1,
        s.len() as int,
    ))
}

/// Where none of the first `upto` bytes is a line feed, they hold no line
/// feed.
pub proof fn lemma_one_line(s: Seq<u8>, upto: int)
    requires
        0 <= upto <= s.len(),
        forall|i: int| 0 <= i < upto ==> #[trigger] s[i] != '\n' as u8,
    ensures
        newlines(s, upto) == 0,
    decreases upto,
{
    if upto > 0 {
        lemma_one_line(s, upto - 1);
    }
}

/// The tokens of a source that is one token of `kind` on one line.
pub open spec fn one_token(kind: TokenKind, s: Seq<u8>) -> (
    Seq<(TokenKind, Seq<u8>, int)>,
    Option<Lexed>,
) {
    (seq![(kind, s, 1int), (TokenKind::Eof, Seq::<u8>::empty(), 1int)], None)
}

/// A source that is one token of `kind` from its first byte to its last,
/// without a line feed, has that token and the end of input as its tokens.
pub proof fn lemma_one_token(kind: TokenKind, s: Seq<u8>)
    requires
        s.len() > 0,
        kind != TokenKind::Eof,
        trivia_end(s, 0, false) == 0,
        lex_at(s, 0) == (Lexed::Token(kind), s.len() as int),
        forall|i: int| 0 <= i < s.len() ==> #[trigger] s[i] != '\n' as u8,
    ensures
        scan_all(s, 0) == one_token(kind, s),
{
    let n = s.len() as int;
    lemma_one_line(s, n);
    assert(s.subrange(n, n) =~= Seq::<u8>::empty());
    assert(s.subrange(0, n) =~= s);
    assert(scan_all(s, n).0 =~= seq![(TokenKind::Eof, Seq::<u8>::empty(), 1int)]);
    assert(scan_all(s, n).1 == None::<Lexed>);
    assert(scan_all(s, 0).0 =~= one_token(kind, s).0);
}

/// `s` is a numeric literal.
pub open spec fn is_number_literal(s: Seq<u8>) -> bool {
    exists|whole: int| #[trigger] is_number_split(s, whole)
}

/// A source that is one numeric literal scans as one number token that
/// covers all of it, and then the end of input.
pub proof fn number_literal_is_one_token(s: Seq<u8>)
    requires
        is_number_literal(s),
    ensures
        trivia_end(s, 0, false) == 0,
        lex_at(s, 0) == (Lexed::Token(TokenKind::Number), s.len() as int),
        trivia_end(s, s.len() as int, false) == s.len(),
        lex_at(s, s.len() as int) == (Lexed::Token(TokenKind::Eof), s.len() as int),
        scan_all(s, 0) == one_token(TokenKind::Number, s),
{
    let whole = choose|whole: int| #[trigger] is_number_split(s, whole);
    assert forall|i: int| 0 <= i < s.len() implies #[trigger] s[i] != '\n' as u8 by {
        if i != whole {
            assert(is_digit(s[i]));
        }
    }
    assert(is_digit(s[0]));
    lemma_run_end_is(s, 0, whole, ByteClass::Digit);
    if whole < s.len() {
        assert(is_digit(s[whole + 1]));
        lemma_run_end_is(s, whole + 1, s.len() as int, ByteClass::Digit);
    }
    assert(number_end(s, 0) == s.len());
    lemma_one_token(TokenKind::Number, s);
}

/// A source that is one string literal, a quote at either end and none
/// between, scans as one string token that covers all of it, quotes
/// included.
pub proof fn closed_string_is_one_token(s: Seq<u8>)
    requires
        s.len() >= 2,
        s[0] == '"' as u8,
        s[s.len() - 1] == '"' as u8,
        forall|i: int| 1 <= i < s.len() - 1 ==> #[trigger] s[i] != '"' as u8,
    ensures
        trivia_end(s, 0, false) == 0,
        lex_at(s, 0) == (Lexed::Token(TokenKind::String), s.len() as int),
{
    lemma_run_end_is(s, 1, s.len() - 1, ByteClass::InString);
}

/// A source that opens a string and never closes it has no token: the scan
/// fails at the end of the source, where no closing quote was found.
pub proof fn unclosed_string_fails(s: Seq<u8>)
    requires
        s.len() > 0,
        s[0] == '"' as u8,
        forall|i: int| 1 <= i < s.len() ==> #[trigger] s[i] != '"' as u8,
    ensures
        trivia_end(s, 0, false) == 0,
        lex_at(s, 0) == (Lexed::UnterminatedString, s.len() as int),
        scan_all(s, 0) == (
            Seq::<(TokenKind, Seq<u8>, int)>::empty(),
            Some(Lexed::UnterminatedString),
        ),
{
    lemma_run_end_is(s, 1, s.len() as int, ByteClass::InString);
}

/// At the end of the source stands the end of input, and a scan from there
/// stays there: every further token is the end of input again.
pub proof fn end_of_input_repeats(s: Seq<u8>)
    ensures
        trivia_end(s, s.len() as int, false) == s.len(),
        lex_at(s, s.len() as int) == (Lexed::Token(TokenKind::Eof), s.len() as int),
{
}

/// A comment that begins before `pos` runs up to `pos`.
pub open spec fn comment_open(s: Seq<u8>, pos: int) -> bool {
    exists|j: int|
        #[trigger] comment_starts(s, j) && j < pos && forall|k: int|
            j <= k < pos ==> #[trigger] s[k] != '\n' as u8
}

/// The byte at `i` is a blank or lies in a comment.
pub open spec fn trivia_at(s: Seq<u8>, i: int) -> bool {
    is_blank(s[i]) || comment_starts(s, i) || comment_open(s, i)
}

/// Every byte of `s` is a blank or lies in a comment.
pub open spec fn only_trivia(s: Seq<u8>) -> bool {
    forall|i: int| 0 <= i < s.len() ==> #[trigger] trivia_at(s, i)
}

proof fn lemma_trivia_runs_out(s: Seq<u8>, pos: int, open: bool)
    requires
        only_trivia(s),
        0 <= pos <= s.len(),
        open == comment_open(s, pos),
    ensures
        trivia_end(s, pos, open) == s.len(),
    decreases s.len() - pos,
{
    if pos < s.len() {
        if open {
            let j = choose|j: int|
                #[trigger] comment_starts(s, j) && j < pos && forall|k: int|
                    j <= k < pos ==> #[trigger] s[k] != '\n' as u8;
            if s[pos] == '\n' as u8 {
                assert(!comment_open(s, pos + 1));
            } else {
                assert(comment_starts(s, j) && j < pos + 1 && forall|k: int|
                    j <= k < pos + 1 ==> #[trigger] s[k] != '\n' as u8);
            }
            lemma_trivia_runs_out(s, pos + 1, s[pos] != '\n' as u8);
        } else if is_blank(s[pos]) {
            assert(!comment_open(s, pos + 1)) by {
                if comment_open(s, pos + 1) {
                    let j = choose|j: int|
                        #[trigger] comment_starts(s, j) && j < pos + 1 && forall|k: int|
                            j <= k < pos + 1 ==> #[trigger] s[k] != '\n' as u8;
                    assert(comment_starts(s, j) && j < pos && forall|k: int|
                        j <= k < pos ==> #[trigger] s[k] != '\n' as u8);
                }
            }
            lemma_trivia_runs_out(s, pos + 1, false);
        } else {
            assert(trivia_at(s, pos));
            assert(comment_starts(s, pos));
            assert(comment_starts(s, pos) && pos < pos + 2 && forall|k: int|
                pos <= k < pos + 2 ==> #[trigger] s[k] != '\n' as u8);
            lemma_trivia_runs_out(s, pos + 2, true);
        }
    }
}

/// A source of blanks and comments alone holds no token: the scan runs to
/// its end and finds the end of input there.
pub proof fn blank_source_is_only_eof(s: Seq<u8>)
    requires
        only_trivia(s),
    ensures
        trivia_end(s, 0, false) == s.len(),
        lex_at(s, s.len() as int) == (Lexed::Token(TokenKind::Eof), s.len() as int),
        scan_all(s, 0) == (
            seq![(TokenKind::Eof, Seq::<u8>::empty(), 1 + newlines(s, s.len() as int))],
            None::<Lexed>,
        ),
{
    lemma_trivia_runs_out(s, 0, false);
    assert(s.subrange(s.len() as int, s.len() as int) =~= Seq::<u8>::empty());
}

/// Every byte of a reserved word is a lower-case letter.
pub proof fn lemma_keyword_letters(kind: TokenKind)
    requires
        is_keyword(kind),
    ensures
        2 <= keyword_text(kind).len() <= 6,
        forall|i: int|
            0 <= i < keyword_text(kind).len() ==> 'a' as u8 <= #[trigger] keyword_text(kind)[i]
                <= 'z' as u8,
{
}

/// No two reserved words are spelled alike, and none is spelled like
/// another with one byte added.
pub proof fn lemma_keywords_differ(kind: TokenKind, other: TokenKind)
    requires
        is_keyword(kind),
        is_keyword(other),
        kind != other,
    ensures
        keyword_text(kind) != keyword_text(other),
        keyword_text(kind)[0] != keyword_text(other)[0] || keyword_text(kind)[1] != keyword_text(
            other,
        )[1],
{
    lemma_keyword_heads();
}

/// A source that is one reserved word scans as the token of that word.
pub proof fn keyword_scans_as_itself(kind: TokenKind)
    requires
        is_keyword(kind),
    ensures
        trivia_end(keyword_text(kind), 0, false) == 0,
        lex_at(keyword_text(kind), 0) == (Lexed::Token(kind), keyword_text(kind).len() as int),
        scan_all(keyword_text(kind), 0) == one_token(kind, keyword_text(kind)),
{
    let s = keyword_text(kind);
    lemma_keyword_letters(kind);
    assert('a' as u8 <= s[0] <= 'z' as u8);
    lemma_run_end_is(s, 1, s.len() as int, ByteClass::Word);
    assert(s.subrange(0, s.len() as int) =~= s);
    lemma_word_kind_of_keyword(kind);
    lemma_one_token(kind, s);
}

/// The spelling of a reserved word is a word of that kind.
pub proof fn lemma_word_kind_of_keyword(kind: TokenKind)
    requires
        is_keyword(kind),
    ensures
        word_kind(keyword_text(kind)) == kind,
{
    assert forall|other: TokenKind| is_keyword(other) && other != kind implies keyword_text(kind)
        != #[trigger] keyword_text(other) by {
        lemma_keywords_differ(kind, other);
    }
}

/// In a listing, an instruction on the line of the one before it shows a
/// bar in the line column, and one on another line shows its line's number.
pub proof fn line_column_marks_shared_line(
    code: Seq<Instruction>,
    constants: Seq<String>,
    index: int,
)
    requires
        0 < index < code.len(),
    ensures
        listing_line(code, constants, index) == pad_left(decimal(index as nat), 4, '0') + " "@
            + line_column(code[index].spec_line(), Some(code[index - 1].spec_line())) + " "@
            + operation_text(code[index], constants),
        code[index].spec_line() == code[index - 1].spec_line() ==> line_column(
            code[index].spec_line(),
            Some(code[index - 1].spec_line()),
        ) == seq![' ', '|', ' ', ' '],
        code[index].spec_line() != code[index - 1].spec_line() ==> line_column(
            code[index].spec_line(),
            Some(code[index - 1].spec_line()),
        ) == center(decimal(code[index].spec_line() as nat), 4),
{
    reveal_strlit("|");
    assert(center("|"@, 4) =~= seq![' ', '|', ' ', ' ']);
    assert(listing_line(code, constants, index) =~= pad_left(decimal(index as nat), 4, '0') + " "@
        + line_column(code[index].spec_line(), Some(code[index - 1].spec_line())) + " "@
        + operation_text(code[index], constants));
}

/// The first instruction of a listing has none before it and shows its
/// line's number, whatever that line is.
pub proof fn first_row_shows_its_line(code: Seq<Instruction>, constants: Seq<String>)
    requires
        code.len() > 0,
    ensures
        listing_line(code, constants, 0) == pad_left(decimal(0), 4, '0') + " "@ + center(
            decimal(code[0].spec_line() as nat),
            4,
        ) + " "@ + operation_text(code[0], constants),
{
    assert(listing_line(code, constants, 0) =~= pad_left(decimal(0), 4, '0') + " "@ + center(
        decimal(code[0].spec_line() as nat),
        4,
    ) + " "@ + operation_text(code[0], constants));
}

/// A reserved word with one or more word bytes behind it scans as an
/// identifier that covers all of them: a reserved word that is only the
/// beginning of a word is not recognised.
pub proof fn keyword_prefix_is_identifier(kind: TokenKind, rest: Seq<u8>)
    requires
        is_keyword(kind),
        rest.len() > 0,
        forall|i: int| 0 <= i < rest.len() ==> is_word(#[trigger] rest[i]),
    ensures
        trivia_end(keyword_text(kind) + rest, 0, false) == 0,
        lex_at(keyword_text(kind) + rest, 0) == (
            Lexed::Token(TokenKind::Identifier),
            (keyword_text(kind).len() + rest.len()) as int,
        ),
        scan_all(keyword_text(kind) + rest, 0) == one_token(
            TokenKind::Identifier,
            keyword_text(kind) + rest,
        ),
{
    let word = keyword_text(kind);
    let s = word + rest;
    lemma_keyword_letters(kind);
    assert(s[0] == word[0]);
    assert(s[1] == word[1]);
    assert('a' as u8 <= word[0] <= 'z' as u8);
    assert forall|i: int| 1 <= i < s.len() implies is_word(#[trigger] s[i]) by {
        if i < word.len() {
            assert(s[i] == word[i]);
            assert('a' as u8 <= word[i] <= 'z' as u8);
        } else {
            assert(s[i] == rest[i - word.len()]);
        }
    }
    lemma_run_end_is(s, 1, s.len() as int, ByteClass::Word);
    assert(s.subrange(0, s.len() as int) =~= s);
    assert forall|other: TokenKind| is_keyword(other) implies s != #[trigger] keyword_text(
        other,
    ) by {
        if other == kind {
            assert(s.len() == word.len() + rest.len());
        } else {
            lemma_keywords_differ(kind, other);
        }
    }
    assert(s[0] != '\n' as u8);
    lemma_one_token(TokenKind::Identifier, s);
}

/// Wherever a string opens that never closes, the scan fails there and
/// stops at the end of the source, not beyond it.
pub proof fn unclosed_string_fails_at(src: Seq<u8>, pos: int)
    requires
        0 <= pos < src.len(),
        src[pos] == '"' as u8,
        forall|i: int| pos < i < src.len() ==> #[trigger] src[i] != '"' as u8,
    ensures
        lex_at(src, pos) == (Lexed::UnterminatedString, src.len() as int),
{
    lemma_run_end_is(src, pos + 1, src.len() as int, ByteClass::InString);
}

/// The four instructions that take two operands.
pub open spec fn is_binary(instruction: Instruction) -> bool {
    match instruction.spec_opcode() {
        OpCode::Add | OpCode::Subtract | OpCode::Multiply | OpCode::Divide => true,
        _ => false,
    }
}

/// A binary instruction that finds two operands takes the top of the stack
/// as its right operand and the value below it as its left, and leaves the
/// rest of the stack for the result to be pushed on.
pub proof fn binary_pops_right_then_left(m: Machine)
    requires
        m.wf(),
        !m.halted(),
        is_binary(m.code[m.ip]),
        m.stack.len() >= 2,
    ensures
        m.action() == Some(
            Action::Binary {
                op: m.code[m.ip].spec_opcode(),
                lhs: m.stack[m.stack.len() - 2],
                rhs: m.stack[m.stack.len() - 1],
            },
        ),
        m.next().stack == m.stack.subrange(0, m.stack.len() - 2),
        m.next().ip == m.ip + 1,
{
    assert(m.next().stack =~= m.stack.subrange(0, m.stack.len() - 2));
}

/// A return on an empty stack succeeds: it asks for the empty marker to be
/// printed, and the machine goes on with the next instruction.
pub proof fn return_on_empty_stack_succeeds(m: Machine)
    requires
        m.wf(),
        !m.halted(),
        m.code[m.ip].spec_opcode() == OpCode::Return,
        m.stack.len() == 0,
    ensures
        m.action() == Some(Action::PrintEmpty),
        m.next().ip == m.ip + 1,
        m.next().stack.len() == 0,
{
}

/// A binary instruction that finds fewer than two operands fails, and the
/// machine is halted from then on: no later instruction runs.
pub proof fn binary_underflow_halts(m: Machine)
    requires
        m.wf(),
        !m.halted(),
        is_binary(m.code[m.ip]),
        m.stack.len() < 2,
    ensures
        m.action() is None,
        m.next().halted(),
        m.next().action() == Some(Action::Halt),
        m.next().next() == m.next(),
{
}

} // verus!
