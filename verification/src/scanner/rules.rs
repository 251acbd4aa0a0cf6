//! The lexical rules, stated over the bytes of the source.
//!
//! The scanner reads the source byte by byte and takes each byte for the
//! character with the same code. Everything here is specification: the
//! executable scanner is proved to compute [`scan_source`].

use vstd::prelude::*;
use vstd::utf8::{
    decode_utf8, decode_utf8_encode_utf8, encode_utf8, encode_utf8_decode_utf8,
    encode_utf8_valid_utf8, is_ascii_chars_encode_utf8, valid_utf8,
};
use super::text::lossy_text;
use super::{ScanFailure, ScanFailureKind, TokenType, TokenView};

verus! {

pub const LINE_FEED: u8 = 0x0A;

pub const QUOTE: u8 = 0x22;

/// An ASCII decimal digit.
pub open spec fn digit(b: u8) -> bool {
    0x30 <= b <= 0x39
}

/// A byte whose character is alphabetic or numeric: the ASCII letters and
/// digits, and those characters between U+0080 and U+00FF that Unicode
/// classes as letters or numbers.
pub open spec fn alphanumeric(b: u8) -> bool {
    ||| digit(b)
    ||| 0x41 <= b <= 0x5A
    ||| 0x61 <= b <= 0x7A
    ||| b == 0xAA
    ||| b == 0xB2
    ||| b == 0xB3
    ||| b == 0xB5
    ||| b == 0xB9
    ||| b == 0xBA
    ||| 0xBC <= b <= 0xBE
    ||| 0xC0 <= b <= 0xD6
    ||| 0xD8 <= b <= 0xF6
    ||| 0xF8 <= b
}

/// A byte whose character is white space.
pub open spec fn whitespace(b: u8) -> bool {
    ||| 0x09 <= b <= 0x0D
    ||| b == 0x20
    ||| b == 0x85
    ||| b == 0xA0
}

/// The byte at `i`, or zero past the end of the source.
pub open spec fn byte_at(src: Seq<u8>, i: int) -> u8 {
    if 0 <= i < src.len() {
        src[i]
    } else {
        0
    }
}

/// The kinds of run that a lexeme can continue with.
pub enum Run {
    /// Decimal digits.
    Digits,
    /// Alphanumeric bytes, as in an identifier.
    Word,
    /// Anything up to the end of the line, as in a comment.
    Comment,
    /// Anything up to the next double quote, as in a string.
    Text,
}

/// Whether byte `b` continues a run of kind `run`.
pub open spec fn continues(run: Run, b: u8) -> bool {
    match run {
        Run::Digits => digit(b),
        Run::Word => alphanumeric(b),
        Run::Comment => b != LINE_FEED,
        Run::Text => b != QUOTE,
    }
}

/// Length of the longest run of kind `run` that starts at `from`.
pub open spec fn run_len(src: Seq<u8>, from: int, run: Run) -> nat
    decreases src.len() - from,
{
    if 0 <= from < src.len() && continues(run, src[from]) {
        1 + run_len(src, from + 1, run)
    } else {
        0
    }
}

/// Number of line feeds among the bytes from `from` up to `to`.
pub open spec fn line_feeds(src: Seq<u8>, from: int, to: int) -> nat
    decreases to - from,
{
    if 0 <= from < to <= src.len() {
        line_feeds(src, from, to - 1) + if src[to - 1] == LINE_FEED {
            1nat
        } else {
            0nat
        }
    } else {
        0
    }
}

/// The kind of a word: that of the keyword it spells, else an identifier.
pub open spec fn word_kind(text: Seq<char>) -> TokenType {
    if text == "fn"@ {
        TokenType::FN
    } else if text == "if"@ {
        TokenType::IF
    } else if text == "else"@ {
        TokenType::ELSE
    } else if text == "true"@ {
        TokenType::TRUE
    } else if text == "false"@ {
        TokenType::FALSE
    } else if text == "while"@ {
        TokenType::WHILE
    } else if text == "for"@ {
        TokenType::FOR
    } else if text == "return"@ {
        TokenType::RETURN
    } else if text == "self"@ {
        TokenType::SELF
    } else if text == "var"@ {
        TokenType::VAR
    } else if text == "nil"@ {
        TokenType::NIL
    } else if text == "guard"@ {
        TokenType::GUARD
    } else if text == "pub"@ {
        TokenType::PUB
    } else if text == "import"@ {
        TokenType::IMPORT
    } else if text == "from"@ {
        TokenType::FROM
    } else if text == "as"@ {
        TokenType::AS
    } else if text == "let"@ {
        TokenType::LET
    } else if text == "const"@ {
        TokenType::CONST
    } else {
        TokenType::IDENTIFIER
    }
}

/// What the scanner finds at one position. Every shape consumes the byte at
/// that position and `extra` bytes after it.
pub enum Shape {
    /// A token of a fixed kind.
    Fixed { token_type: TokenType, extra: nat },
    /// A word: a keyword or an identifier, decided by its text.
    Word { extra: nat },
    /// A string literal with both quotes; `lines` line feeds lie inside it.
    Text { extra: nat, lines: nat },
    /// Nothing to emit: white space, a line feed or a comment.
    Blank { extra: nat, lines: nat },
    /// A string that the source ends in.
    Unterminated { extra: nat },
    /// A byte that no rule accepts.
    Unexpected,
}

/// One of two kinds, by whether the byte after `pos` is `second`.
pub open spec fn pair(src: Seq<u8>, pos: int, second: u8, two: TokenType, one: TokenType) -> Shape {
    if pos + 1 < src.len() && src[pos + 1] == second {
        Shape::Fixed { token_type: two, extra: 1 }
    } else {
        Shape::Fixed { token_type: one, extra: 0 }
    }
}

/// The shape of a number that starts at `pos`: digits, and a fraction only
/// where a digit follows the point.
pub open spec fn number_shape(src: Seq<u8>, pos: int) -> Shape {
    let whole = run_len(src, pos + 1, Run::Digits);
    let point = pos + 1 + whole;
    if byte_at(src, point) == 0x2E && digit(byte_at(src, point + 1)) {  // `.` and a digit
        Shape::Fixed {
            token_type: TokenType::FLOATING,
            extra: whole + 1 + run_len(src, point + 1, Run::Digits),
        }
    } else {
        Shape::Fixed { token_type: TokenType::INTEGER, extra: whole }
    }
}

/// The shape of a string whose opening quote is at `pos`.
pub open spec fn string_shape(src: Seq<u8>, pos: int) -> Shape {
    let inner = run_len(src, pos + 1, Run::Text);
    if pos + 1 + inner >= src.len() {
        Shape::Unterminated { extra: inner }
    } else {
        Shape::Text { extra: inner + 1, lines: line_feeds(src, pos + 1, pos + 1 + inner) }
    }
}

/// The shape of what starts at `pos`, a position inside the source.
pub open spec fn shape_at(src: Seq<u8>, pos: int) -> Shape
    recommends
        0 <= pos < src.len(),
{
    let c = src[pos];
    if c == 0x28 {  // `(`
        Shape::Fixed { token_type: TokenType::LEFT_PAREN, extra: 0 }
    } else if c == 0x29 {  // `)`
        Shape::Fixed { token_type: TokenType::RIGHT_PAREN, extra: 0 }
    } else if c == 0x7B {  // `{`
        Shape::Fixed { token_type: TokenType::LEFT_BRACE, extra: 0 }
    } else if c == 0x7D {  // `}`
        Shape::Fixed { token_type: TokenType::RIGHT_BRACE, extra: 0 }
    } else if c == 0x2C {  // `,`
        Shape::Fixed { token_type: TokenType::COMMA, extra: 0 }
    } else if c == 0x2E {  // `.`
        Shape::Fixed { token_type: TokenType::DOT, extra: 0 }
    } else if c == 0x3B {  // `;`
        Shape::Fixed { token_type: TokenType::SEMICOLON, extra: 0 }
    } else if c == 0x2A {  // `*`
        Shape::Fixed { token_type: TokenType::STAR, extra: 0 }
    } else if c == 0x3A {  // `:`
        Shape::Fixed { token_type: TokenType::COLON, extra: 0 }
    } else if c == 0x21 {  // `!`
        pair(src, pos, 0x3D, TokenType::BANG_EQUAL, TokenType::BANG)
    } else if c == 0x3D {  // `=`
        pair(src, pos, 0x3D, TokenType::EQUAL_EQUAL, TokenType::EQUAL)
    } else if c == 0x3C {  // `<`
        pair(src, pos, 0x3D, TokenType::LESS_EQUAL, TokenType::LESS)
    } else if c == 0x3E {  // `>`
        pair(src, pos, 0x3D, TokenType::GREATER_EQUAL, TokenType::GREATER)
    } else if c == 0x2B {  // `+`
        pair(src, pos, 0x2B, TokenType::INCREMENT, TokenType::PLUS)
    } else if c == 0x2D {  // `-`
        pair(src, pos, 0x2D, TokenType::DECREMENT, TokenType::MINUS)
    } else if c == 0x26 {  // `&`
        pair(src, pos, 0x26, TokenType::AND, TokenType::AMPERSAND)
    } else if c == 0x7C {  // `|`
        pair(src, pos, 0x7C, TokenType::OR, TokenType::PIPE)
    } else if c == 0x2F {  // `/`
        if pos + 1 < src.len() && src[pos + 1] == 0x2F {  // a second `/`
            Shape::Blank { extra: 1 + run_len(src, pos + 2, Run::Comment), lines: 0 }
        } else {
            Shape::Fixed { token_type: TokenType::SLASH, extra: 0 }
        }
    } else if c == QUOTE {
        string_shape(src, pos)
    } else if digit(c) {
        number_shape(src, pos)
    } else if c == 0x5F {  // `_`
        if whitespace(byte_at(src, pos + 1)) {
            Shape::Fixed { token_type: TokenType::UNDERSCORE, extra: 0 }
        } else {
            Shape::Word { extra: run_len(src, pos + 1, Run::Word) }
        }
    } else if c == 0x24 || 0x41 <= c <= 0x7A {  // `$`, or from `A` to `z`
        Shape::Word { extra: run_len(src, pos + 1, Run::Word) }
    } else if c == 0x20 || c == 0x0D || c == 0x09 {  // space, carriage return, tab
        Shape::Blank { extra: 0, lines: 0 }
    } else if c == LINE_FEED {
        Shape::Blank { extra: 0, lines: 1 }
    } else {
        Shape::Unexpected
    }
}

/// The text that the bytes from `from` up to `to` spell.
pub open spec fn text(src: Seq<u8>, from: int, to: int) -> Seq<char> {
    decode_utf8(src.subrange(from, to))
}

/// Whether the bytes from `from` up to `to` spell a text at all.
pub open spec fn spells(src: Seq<u8>, from: int, to: int) -> bool {
    valid_utf8(src.subrange(from, to))
}

/// The characters with the codes `bytes`.
pub open spec fn characters(bytes: Seq<u8>) -> Seq<char> {
    bytes.map_values(|b: u8| b as char)
}

/// ASCII bytes always spell a text: the characters with their codes.
pub proof fn lemma_ascii_spells(src: Seq<u8>, from: int, to: int)
    requires
        0 <= from <= to <= src.len(),
        forall|i: int| from <= i < to ==> src[i] < 0x80,
    ensures
        spells(src, from, to),
        text(src, from, to) == characters(src.subrange(from, to)),
{
    let bytes = src.subrange(from, to);
    let chars = characters(bytes);
    is_ascii_chars_encode_utf8(chars);
    assert(encode_utf8(chars) =~= bytes);
    encode_utf8_valid_utf8(chars);
    encode_utf8_decode_utf8(chars);
}

/// One step of the scanner.
pub enum Step {
    /// A token, with the position and the line after it.
    Emit { token: TokenView, next: nat, line: nat },
    /// Nothing, with the position and the line after it.
    Skip { next: nat, line: nat },
    /// The failure that ends the scan.
    Fail { failure: ScanFailure },
}

/// What a failure of kind `kind` reports of the bytes from `pos` up to `to`:
/// where they start, and their text with each ill-formed part replaced.
pub open spec fn failure(kind: ScanFailureKind, src: Seq<u8>, pos: nat, to: nat, line: nat) -> Step {
    Step::Fail {
        failure: ScanFailure {
            kind,
            line,
            start: pos,
            lexeme: lossy_text(src.subrange(pos as int, to as int)),
        },
    }
}

/// The step that the scanner takes at `pos` on line `line`. A lexeme whose
/// bytes spell no text is refused as an unexpected character.
pub open spec fn step_at(src: Seq<u8>, pos: nat, line: nat) -> Step
    recommends
        pos < src.len(),
{
    let p = pos as int;
    match shape_at(src, p) {
        Shape::Fixed { token_type, extra } => {
            let next = pos + 1 + extra;
            if spells(src, p, next as int) {
                Step::Emit {
                    token: TokenView {
                        token_type,
                        lexeme: text(src, p, next as int),
                        line,
                        start: pos,
                        data: None,
                    },
                    next,
                    line,
                }
            } else {
                failure(ScanFailureKind::UnexpectedCharacter, src, pos, next, line)
            }
        },
        Shape::Word { extra } => {
            let next = pos + 1 + extra;
            if spells(src, p, next as int) {
                Step::Emit {
                    token: TokenView {
                        token_type: word_kind(text(src, p, next as int)),
                        lexeme: text(src, p, next as int),
                        line,
                        start: pos,
                        data: None,
                    },
                    next,
                    line,
                }
            } else {
                failure(ScanFailureKind::UnexpectedCharacter, src, pos, next, line)
            }
        },
        Shape::Text { extra, lines } => {
            let next = pos + 1 + extra;
            if spells(src, p, next as int) && spells(src, p + 1, next - 1) {
                Step::Emit {
                    token: TokenView {
                        token_type: TokenType::STRING,
                        lexeme: text(src, p, next as int),
                        line: line + lines,
                        start: pos,
                        data: Some(text(src, p + 1, next - 1)),
                    },
                    next,
                    line: line + lines,
                }
            } else {
                failure(ScanFailureKind::UnexpectedCharacter, src, pos, next, line)
            }
        },
        Shape::Blank { extra, lines } => Step::Skip { next: pos + 1 + extra, line: line + lines },
        Shape::Unterminated { extra } => failure(
            ScanFailureKind::UnterminatedString,
            src,
            pos,
            pos + 1 + extra,
            line,
        ),
        Shape::Unexpected => failure(ScanFailureKind::UnexpectedCharacter, src, pos, pos + 1, line),
    }
}

/// The token that ends every scan: no lexeme, on the last line reached.
pub open spec fn end_token(line: nat) -> TokenView {
    TokenView {
        token_type: TokenType::EOF,
        lexeme: Seq::empty(),
        line,
        start: 0,
        data: None,
    }
}

/// Bytes left from `pos` to the end of a source of `len` bytes.
pub open spec fn left(len: nat, pos: nat) -> nat {
    if pos <= len {
        (len - pos) as nat
    } else {
        0
    }
}

/// The tokens from `pos` on, the scanner being on line `line`: those of
/// each step in turn and the end token, or the first failure.
pub open spec fn scan_from(src: Seq<u8>, pos: nat, line: nat) -> Result<Seq<TokenView>, ScanFailure>
    decreases left(src.len(), pos),
{
    if pos >= src.len() {
        Ok(seq![end_token(line)])
    } else {
        match step_at(src, pos, line) {
            Step::Emit { token, next, line } => match scan_from(src, next, line) {
                Ok(rest) => Ok(seq![token] + rest),
                Err(failure) => Err(failure),
            },
            Step::Skip { next, line } => scan_from(src, next, line),
            Step::Fail { failure } => Err(failure),
        }
    }
}

/// A scan that succeeds ends with the end token.
pub proof fn lemma_scan_ends(src: Seq<u8>, pos: nat, line: nat)
    ensures
        scan_from(src, pos, line) matches Ok(tokens) ==> tokens.len() > 0
            && tokens.last().token_type == TokenType::EOF,
    decreases left(src.len(), pos),
{
    if pos < src.len() {
        match step_at(src, pos, line) {
            Step::Emit { token, next, line } => {
                lemma_scan_ends(src, next, line);
            },
            Step::Skip { next, line } => {
                lemma_scan_ends(src, next, line);
            },
            Step::Fail { failure } => {},
        }
    }
}

/// A run ends inside the source.
pub proof fn lemma_run_in_source(src: Seq<u8>, from: int, run: Run)
    requires
        0 <= from <= src.len(),
    ensures
        from + run_len(src, from, run) <= src.len(),
    decreases src.len() - from,
{
    if from < src.len() && continues(run, src[from]) {
        lemma_run_in_source(src, from + 1, run);
    }
}

/// A step moves on, and not past the end of the source.
pub proof fn lemma_step_in_source(src: Seq<u8>, pos: nat, line: nat)
    requires
        pos < src.len(),
    ensures
        match step_at(src, pos, line) {
            Step::Emit { token, next, line: after } => pos < next <= src.len() && line <= after,
            Step::Skip { next, line: after } => pos < next <= src.len() && line <= after,
            Step::Fail { .. } => true,
        },
{
    let p = pos as int;
    lemma_run_in_source(src, p + 1, Run::Digits);
    lemma_run_in_source(src, p + 1, Run::Word);
    lemma_run_in_source(src, p + 1, Run::Text);
    if p + 2 <= src.len() {
        lemma_run_in_source(src, p + 2, Run::Comment);
    }
    let point = p + 1 + run_len(src, p + 1, Run::Digits);
    if point + 1 <= src.len() {
        lemma_run_in_source(src, point + 1, Run::Digits);
    }
}

/// Where the lexeme of `token` ends in the source: behind the bytes that
/// encode it.
pub open spec fn end_of(token: TokenView) -> nat {
    token.start + encode_utf8(token.lexeme).len()
}

/// Whether `token` stands in `src`: its lexeme is the text of the bytes
/// from its start on.
pub open spec fn stands_in(token: TokenView, src: Seq<u8>) -> bool {
    &&& end_of(token) <= src.len()
    &&& encode_utf8(token.lexeme) == src.subrange(token.start as int, end_of(token) as int)
}

/// Whether `tokens`, the last of them the end token, lie in `src` from
/// `pos` on and from line `line` on: each token but the last stands in the
/// source, behind the one before it, on the same line or a later one.
pub open spec fn laid_out(tokens: Seq<TokenView>, src: Seq<u8>, pos: nat, line: nat) -> bool
    decreases tokens.len(),
{
    if tokens.len() == 0 {
        false
    } else if tokens.len() == 1 {
        tokens[0].token_type == TokenType::EOF && tokens[0].lexeme.len() == 0 && line
            <= tokens[0].line
    } else {
        &&& tokens[0].token_type != TokenType::EOF
        &&& pos <= tokens[0].start
        &&& line <= tokens[0].line
        &&& stands_in(tokens[0], src)
        &&& end_of(tokens[0]) > tokens[0].start
        &&& laid_out(tokens.drop_first(), src, end_of(tokens[0]), tokens[0].line)
    }
}

/// The tokens of a scan are cut from the source: the lexeme of each is
/// the text at its offset, no two overlap, and they come in the order in
/// which they stand. Only the end token has no lexeme.
pub proof fn lemma_scan_laid_out(src: Seq<u8>, pos: nat, line: nat)
    requires
        pos <= src.len(),
    ensures
        scan_from(src, pos, line) matches Ok(tokens) ==> laid_out(tokens, src, pos, line),
    decreases left(src.len(), pos),
{
    if pos < src.len() {
        lemma_step_in_source(src, pos, line);
        match step_at(src, pos, line) {
            Step::Emit { token, next, line: after } => {
                lemma_scan_laid_out(src, next, after);
                if let Ok(rest) = scan_from(src, next, after) {
                    let tokens = seq![token] + rest;
                    assert(tokens.drop_first() =~= rest);
                    decode_utf8_encode_utf8(src.subrange(pos as int, next as int));
                    assert(token.token_type != TokenType::EOF);
                    assert(end_of(token) == next);
                }
            },
            Step::Skip { next, line: after } => {
                lemma_scan_laid_out(src, next, after);
                if let Ok(rest) = scan_from(src, next, after) {
                    lemma_laid_out_from(rest, src, next, after, pos, line);
                }
            },
            Step::Fail { failure } => {},
        }
    }
}

/// Tokens that lie behind a position and a line lie behind every earlier
/// position and line.
pub proof fn lemma_laid_out_from(
    tokens: Seq<TokenView>,
    src: Seq<u8>,
    pos: nat,
    line: nat,
    earlier: nat,
    above: nat,
)
    requires
        laid_out(tokens, src, pos, line),
        earlier <= pos,
        above <= line,
    ensures
        laid_out(tokens, src, earlier, above),
{
}

/// The tokens of a whole source, or the failure that ends its scan.
pub open spec fn scan_source(src: Seq<u8>) -> Result<Seq<TokenView>, ScanFailure> {
    scan_from(src, 0, 0)
}

} // verus!
