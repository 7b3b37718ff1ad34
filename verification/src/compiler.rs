use vstd::prelude::*;
use vstd::string::*;
use crate::error::Error;
use crate::scanner::{
    lemma_lex_advances, lemma_trivia_end_bounds, lex_at, newlines, trivia_end, Lexed, Scanner, Token,
    TokenKind,
};
use crate::text::{decimal, decimal_text, pad_right, padded};

verus! {

/// The line column of a token dump: the line's number where the token is
/// the first of its line to be dumped, else a bar.
pub open spec fn dump_column(line: u32, current_line: u32) -> Seq<char> {
    if line != current_line {
        decimal(line as nat)
    } else {
        "|"@
    }
}

/// One line of a token dump: the line column, a tab, the kind's name in a
/// column of fourteen characters, and the lexeme in quotes.
pub open spec fn dump_text(kind: TokenKind, line: u32, current_line: u32, lexeme: Seq<char>) -> Seq<
    char,
> {
    dump_column(line, current_line) + "\t"@ + pad_right(kind.spec_name(), 14) + "  '"@ + lexeme
        + "'\n"@
}

/// The dump line of a token of `kind` on `line` with the text `lexeme`,
/// where `current_line` is the line of the token dumped before it, or zero
/// for the first.
pub fn dump_line(kind: TokenKind, line: u32, current_line: u32, lexeme: &str) -> (text: String)
    ensures
        text@ == dump_text(kind, line, current_line, lexeme@),
{
    let mut text = if line != current_line {
        decimal_text(line as u64)
    } else {
        String::from_str("|")
    };
    text.append("\t");
    text.append(padded(kind.name(), 14).as_str());
    text.append("  '");
    text.append(lexeme);
    text.append("'\n");
    assert(text@ =~= dump_text(kind, line, current_line, lexeme@));
    text
}

/// The line of the token dumped before the one at `index`; zero for the
/// first token.
pub open spec fn dumped_before(tokens: Seq<Token>, index: int) -> u32 {
    if index <= 0 {
        0
    } else {
        tokens[index - 1].line
    }
}

/// The dump of the first `count` tokens, one line each, where `lexemes`
/// holds the text of each token.
pub open spec fn dump_rows(tokens: Seq<Token>, lexemes: Seq<String>, count: int) -> Seq<char>
    decreases count,
{
    if count <= 0 {
        Seq::empty()
    } else {
        dump_rows(tokens, lexemes, count - 1) + dump_text(
            tokens[count - 1].kind,
            tokens[count - 1].line,
            dumped_before(tokens, count - 1),
            lexemes[count - 1]@,
        )
    }
}

/// The dump of `tokens` in order, one line each: a token shows a bar where
/// its line is the line of the token before it, the first where its line is
/// zero, and its line's number otherwise. `lexemes` holds the text of each
/// token.
pub fn dump(tokens: &Vec<Token>, lexemes: &Vec<String>) -> (text: String)
    requires
        tokens@.len() == lexemes@.len(),
    ensures
        text@ == dump_rows(tokens@, lexemes@, tokens@.len() as int),
{
    let mut text = String::new();
    let mut current_line: u32 = 0;
    let mut index: usize = 0;
    while index < tokens.len()
        invariant
            tokens@.len() == lexemes@.len(),
            index <= tokens@.len(),
            current_line == dumped_before(tokens@, index as int),
            text@ == dump_rows(tokens@, lexemes@, index as int),
        decreases tokens@.len() - index,
    {
        let ghost before = text@;
        let token = &tokens[index];
        let row = dump_line(token.kind, token.line, current_line, lexemes[index].as_str());
        text.append(row.as_str());
        current_line = token.line;
        index += 1;
        assert(text@ =~= dump_rows(tokens@, lexemes@, index as int));
    }
    text
}

/// What a token is to its reader: its kind, its bytes and its line.
pub open spec fn token_view(token: Token) -> (TokenKind, Seq<u8>, int) {
    (token.kind, token.str@, token.line as int)
}

/// The tokens of `src` from `pos` on, up to and with the end of input, or
/// up to the first lexical failure, and that failure.
pub open spec fn scan_all(src: Seq<u8>, pos: int) -> (Seq<(TokenKind, Seq<u8>, int)>, Option<Lexed>)
    decreases src.len() - pos,
{
    let start = trivia_end(src, pos, false);
    let (what, end) = lex_at(src, start);
    match what {
        Lexed::Token(kind) => {
            let token = (kind, src.subrange(start, end), 1 + newlines(src, start));
            if kind == TokenKind::Eof || end <= pos || end > src.len() {
                (seq![token], None)
            } else {
                (seq![token] + scan_all(src, end).0, scan_all(src, end).1)
            }
        },
        failure => (Seq::empty(), Some(failure)),
    }
}

/// Scans the whole of `source`: its tokens in order, the last of them the
/// end of input, or the tokens before the first lexical failure and that
/// failure.
pub fn compile<'a>(source: &'a str) -> (out: (Vec<Token<'a>>, Result<(), Error>))
    requires
        source.spec_bytes().len() < u32::MAX,
    ensures
        out.0@.len() == scan_all(source.spec_bytes(), 0).0.len(),
        forall|i: int|
            0 <= i < out.0@.len() ==> token_view(#[trigger] out.0@[i]) == scan_all(
                source.spec_bytes(),
                0,
            ).0[i],
        match scan_all(source.spec_bytes(), 0).1 {
            None => out.1 is Ok,
            Some(Lexed::UnterminatedString) => out.1 matches Err(Error::CompileError(msg)) && msg@
                == "Unterminated string."@,
            Some(_) => out.1 matches Err(Error::CompileError(msg)) && msg@
                == "Unexpected character"@,
        },
{
    let ghost src = source.spec_bytes();
    let mut scanner = Scanner::new(source);
    let mut tokens: Vec<Token<'a>> = Vec::new();
    let ghost mut seen: Seq<(TokenKind, Seq<u8>, int)> = Seq::empty();
    loop
        invariant
            scanner.wf(),
            src == source.spec_bytes(),
            scanner.text() == src,
            seen.len() == tokens@.len(),
            forall|i: int| 0 <= i < tokens@.len() ==> token_view(#[trigger] tokens@[i]) == seen[i],
            scan_all(src, 0).0 == seen + scan_all(src, scanner.cursor()).0,
            scan_all(src, 0).1 == scan_all(src, scanner.cursor()).1,
        decreases src.len() - scanner.cursor(),
    {
        let ghost pos = scanner.cursor();
        proof {
            lemma_trivia_end_bounds(src, pos, false);
            if trivia_end(src, pos, false) < src.len() {
                lemma_lex_advances(src, trivia_end(src, pos, false));
            }
        }
        match scanner.scan_token() {
            Ok(token) => {
                let done = token.kind == TokenKind::Eof;
                proof {
                    let last = seen.push(token_view(token));
                    assert(last =~= seen + seq![token_view(token)]);
                    if !done {
                        assert(scan_all(src, 0).0 =~= last + scan_all(src, scanner.cursor()).0);
                    } else {
                        assert(scan_all(src, 0).0 =~= last);
                    }
                    seen = last;
                }
                tokens.push(token);
                if done {
                    return (tokens, Ok(()));
                }
            },
            Err(e) => {
                assert(scan_all(src, 0).0 =~= seen);
                return (tokens, Err(e));
            },
        }
    }
}

} // verus!
