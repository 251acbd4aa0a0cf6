//! Tokens and the scanner that produces them from source text.

use vstd::prelude::*;
use vstd::slice::{slice_subrange, slice_to_vec};
use vstd::string::StringSliceAdditionalSpecFns;
use self::rules::{
    alphanumeric, byte_at, digit, end_token, failure, line_feeds, run_len, scan_from,
    scan_source, shape_at, spells, step_at, text, whitespace, word_kind, Run, Shape, Step,
    LINE_FEED, QUOTE,
};
use self::text::{decode, decode_lossy};
use crate::util::colors::plain;
use crate::util::{unified_error, ErrorFacts, HastyError};

pub mod rules;
pub mod text;

verus! {

/// Lexical kind of a token.
#[allow(non_camel_case_types)]
#[derive(Debug, Clone, Copy, PartialEq, Eq, Structural)]
pub enum TokenType {
    // Single-character tokens.
    LEFT_PAREN,
    RIGHT_PAREN,
    LEFT_BRACE,
    RIGHT_BRACE,
    COMMA,
    DOT,
    MINUS,
    PLUS,
    SEMICOLON,
    SLASH,
    STAR,
    UNDERSCORE,
    BANG,
    EQUAL,
    LESS,
    GREATER,
    AMPERSAND,
    PIPE,
    COLON,
    // Two-character tokens.
    BANG_EQUAL,
    EQUAL_EQUAL,
    GREATER_EQUAL,
    LESS_EQUAL,
    AND,
    OR,
    INCREMENT,
    DECREMENT,
    // Literals.
    IDENTIFIER,
    STRING,
    CHARACTER,
    INTEGER,
    FLOATING,
    // Keywords.
    FN,
    IF,
    ELSE,
    TRUE,
    FALSE,
    WHILE,
    FOR,
    RETURN,
    SELF,
    VAR,
    NIL,
    GUARD,
    PUB,
    IMPORT,
    FROM,
    AS,
    CONST,
    LET,
    EOF,
}

/// The name of the kind `ty`, as it is written in the program.
pub open spec fn kind_name(ty: TokenType) -> Seq<char> {
    match ty {
        TokenType::LEFT_PAREN => "LEFT_PAREN"@,
        TokenType::RIGHT_PAREN => "RIGHT_PAREN"@,
        TokenType::LEFT_BRACE => "LEFT_BRACE"@,
        TokenType::RIGHT_BRACE => "RIGHT_BRACE"@,
        TokenType::COMMA => "COMMA"@,
        TokenType::DOT => "DOT"@,
        TokenType::MINUS => "MINUS"@,
        TokenType::PLUS => "PLUS"@,
        TokenType::SEMICOLON => "SEMICOLON"@,
        TokenType::SLASH => "SLASH"@,
        TokenType::STAR => "STAR"@,
        TokenType::UNDERSCORE => "UNDERSCORE"@,
        TokenType::BANG => "BANG"@,
        TokenType::EQUAL => "EQUAL"@,
        TokenType::LESS => "LESS"@,
        TokenType::GREATER => "GREATER"@,
        TokenType::AMPERSAND => "AMPERSAND"@,
        TokenType::PIPE => "PIPE"@,
        TokenType::COLON => "COLON"@,
        TokenType::BANG_EQUAL => "BANG_EQUAL"@,
        TokenType::EQUAL_EQUAL => "EQUAL_EQUAL"@,
        TokenType::GREATER_EQUAL => "GREATER_EQUAL"@,
        TokenType::LESS_EQUAL => "LESS_EQUAL"@,
        TokenType::AND => "AND"@,
        TokenType::OR => "OR"@,
        TokenType::INCREMENT => "INCREMENT"@,
        TokenType::DECREMENT => "DECREMENT"@,
        TokenType::IDENTIFIER => "IDENTIFIER"@,
        TokenType::STRING => "STRING"@,
        TokenType::CHARACTER => "CHARACTER"@,
        TokenType::INTEGER => "INTEGER"@,
        TokenType::FLOATING => "FLOATING"@,
        TokenType::FN => "FN"@,
        TokenType::IF => "IF"@,
        TokenType::ELSE => "ELSE"@,
        TokenType::TRUE => "TRUE"@,
        TokenType::FALSE => "FALSE"@,
        TokenType::WHILE => "WHILE"@,
        TokenType::FOR => "FOR"@,
        TokenType::RETURN => "RETURN"@,
        TokenType::SELF => "SELF"@,
        TokenType::VAR => "VAR"@,
        TokenType::NIL => "NIL"@,
        TokenType::GUARD => "GUARD"@,
        TokenType::PUB => "PUB"@,
        TokenType::IMPORT => "IMPORT"@,
        TokenType::FROM => "FROM"@,
        TokenType::AS => "AS"@,
        TokenType::CONST => "CONST"@,
        TokenType::LET => "LET"@,
        TokenType::EOF => "EOF"@,
    }
}

/// The name of a kind holds no escape character.
pub proof fn lemma_kind_name_plain(ty: TokenType)
    ensures
        plain(kind_name(ty)),
{
    reveal_strlit("LEFT_PAREN");
    reveal_strlit("RIGHT_PAREN");
    reveal_strlit("LEFT_BRACE");
    reveal_strlit("RIGHT_BRACE");
    reveal_strlit("COMMA");
    reveal_strlit("DOT");
    reveal_strlit("MINUS");
    reveal_strlit("PLUS");
    reveal_strlit("SEMICOLON");
    reveal_strlit("SLASH");
    reveal_strlit("STAR");
    reveal_strlit("UNDERSCORE");
    reveal_strlit("BANG");
    reveal_strlit("EQUAL");
    reveal_strlit("LESS");
    reveal_strlit("GREATER");
    reveal_strlit("AMPERSAND");
    reveal_strlit("PIPE");
    reveal_strlit("COLON");
    reveal_strlit("BANG_EQUAL");
    reveal_strlit("EQUAL_EQUAL");
    reveal_strlit("GREATER_EQUAL");
    reveal_strlit("LESS_EQUAL");
    reveal_strlit("AND");
    reveal_strlit("OR");
    reveal_strlit("INCREMENT");
    reveal_strlit("DECREMENT");
    reveal_strlit("IDENTIFIER");
    reveal_strlit("STRING");
    reveal_strlit("CHARACTER");
    reveal_strlit("INTEGER");
    reveal_strlit("FLOATING");
    reveal_strlit("FN");
    reveal_strlit("IF");
    reveal_strlit("ELSE");
    reveal_strlit("TRUE");
    reveal_strlit("FALSE");
    reveal_strlit("WHILE");
    reveal_strlit("FOR");
    reveal_strlit("RETURN");
    reveal_strlit("SELF");
    reveal_strlit("VAR");
    reveal_strlit("NIL");
    reveal_strlit("GUARD");
    reveal_strlit("PUB");
    reveal_strlit("IMPORT");
    reveal_strlit("FROM");
    reveal_strlit("AS");
    reveal_strlit("CONST");
    reveal_strlit("LET");
    reveal_strlit("EOF");
}

impl TokenType {
    /// The name of this kind.
    pub fn name(&self) -> (name: &'static str)
        ensures
            name@ == kind_name(*self),
    {
        match self {
            TokenType::LEFT_PAREN => "LEFT_PAREN",
            TokenType::RIGHT_PAREN => "RIGHT_PAREN",
            TokenType::LEFT_BRACE => "LEFT_BRACE",
            TokenType::RIGHT_BRACE => "RIGHT_BRACE",
            TokenType::COMMA => "COMMA",
            TokenType::DOT => "DOT",
            TokenType::MINUS => "MINUS",
            TokenType::PLUS => "PLUS",
            TokenType::SEMICOLON => "SEMICOLON",
            TokenType::SLASH => "SLASH",
            TokenType::STAR => "STAR",
            TokenType::UNDERSCORE => "UNDERSCORE",
            TokenType::BANG => "BANG",
            TokenType::EQUAL => "EQUAL",
            TokenType::LESS => "LESS",
            TokenType::GREATER => "GREATER",
            TokenType::AMPERSAND => "AMPERSAND",
            TokenType::PIPE => "PIPE",
            TokenType::COLON => "COLON",
            TokenType::BANG_EQUAL => "BANG_EQUAL",
            TokenType::EQUAL_EQUAL => "EQUAL_EQUAL",
            TokenType::GREATER_EQUAL => "GREATER_EQUAL",
            TokenType::LESS_EQUAL => "LESS_EQUAL",
            TokenType::AND => "AND",
            TokenType::OR => "OR",
            TokenType::INCREMENT => "INCREMENT",
            TokenType::DECREMENT => "DECREMENT",
            TokenType::IDENTIFIER => "IDENTIFIER",
            TokenType::STRING => "STRING",
            TokenType::CHARACTER => "CHARACTER",
            TokenType::INTEGER => "INTEGER",
            TokenType::FLOATING => "FLOATING",
            TokenType::FN => "FN",
            TokenType::IF => "IF",
            TokenType::ELSE => "ELSE",
            TokenType::TRUE => "TRUE",
            TokenType::FALSE => "FALSE",
            TokenType::WHILE => "WHILE",
            TokenType::FOR => "FOR",
            TokenType::RETURN => "RETURN",
            TokenType::SELF => "SELF",
            TokenType::VAR => "VAR",
            TokenType::NIL => "NIL",
            TokenType::GUARD => "GUARD",
            TokenType::PUB => "PUB",
            TokenType::IMPORT => "IMPORT",
            TokenType::FROM => "FROM",
            TokenType::AS => "AS",
            TokenType::CONST => "CONST",
            TokenType::LET => "LET",
            TokenType::EOF => "EOF",
        }
    }
}

/// Mathematical model of a [`Token`]: its strings as character sequences.
pub struct TokenView {
    pub token_type: TokenType,
    pub lexeme: Seq<char>,
    pub line: nat,
    pub start: nat,
    pub data: Option<Seq<char>>,
}

/// A token with its place in the source.
#[derive(Debug)]
pub struct Token {
    /// Lexical kind.
    pub token_type: TokenType,
    /// Source text of the token.
    pub lexeme: String,
    /// Line on which the token appears, counted from zero.
    pub line: usize,
    /// Byte offset at which the token starts.
    pub start: usize,
    /// Literal payload, where the token carries one.
    pub data: Option<String>,
}

impl View for Token {
    type V = TokenView;

    open spec fn view(&self) -> TokenView {
        TokenView {
            token_type: self.token_type,
            lexeme: self.lexeme@,
            line: self.line as nat,
            start: self.start as nat,
            data: match self.data {
                Some(d) => Some(d@),
                None => None,
            },
        }
    }
}

impl Clone for Token {
    fn clone(&self) -> (copy: Self)
        ensures
            copy == *self,
    {
        Token {
            token_type: self.token_type,
            lexeme: self.lexeme.clone(),
            line: self.line,
            start: self.start,
            data: match &self.data {
                Some(d) => Some(d.clone()),
                None => None,
            },
        }
    }
}

impl Token {
    /// A token without payload.
    pub fn new(token_type: TokenType, lexeme: String, line: usize, start: usize) -> (token: Self)
        ensures
            token.token_type == token_type,
            token.lexeme == lexeme,
            token.line == line,
            token.start == start,
            token.data is None,
    {
        Self { token_type, lexeme, line, start, data: None }
    }

    /// The same token carrying `data` as its payload.
    pub fn with_data(self, data: String) -> (token: Self)
        ensures
            token.token_type == self.token_type,
            token.lexeme == self.lexeme,
            token.line == self.line,
            token.start == self.start,
            token.data == Some(data),
    {
        let mut token = self;
        token.data = Some(data);
        token
    }
}

/// The two ways in which a scan fails.
#[derive(Debug, Clone, Copy, PartialEq, Eq, Structural)]
pub enum ScanFailureKind {
    UnexpectedCharacter,
    UnterminatedString,
}

/// Mathematical model of a [`ScannerError`].
pub struct ScanFailure {
    pub kind: ScanFailureKind,
    pub line: nat,
    pub start: nat,
    pub lexeme: Seq<char>,
}

/// Why a scan was given up. Each error names the line and the byte offset
/// at which the offending lexeme starts, and holds its text.
#[derive(Debug)]
pub enum ScannerError {
    /// Found a character that no rule accepts.
    UnexpectedCharacter { line: usize, start: usize, lexeme: String },
    /// A string was opened and the source ended before its closing quote.
    UnterminatedString { line: usize, start: usize, lexeme: String },
}

impl View for ScannerError {
    type V = ScanFailure;

    open spec fn view(&self) -> ScanFailure {
        match self {
            ScannerError::UnexpectedCharacter { line, start, lexeme } => ScanFailure {
                kind: ScanFailureKind::UnexpectedCharacter,
                line: *line as nat,
                start: *start as nat,
                lexeme: lexeme@,
            },
            ScannerError::UnterminatedString { line, start, lexeme } => ScanFailure {
                kind: ScanFailureKind::UnterminatedString,
                line: *line as nat,
                start: *start as nat,
                lexeme: lexeme@,
            },
        }
    }
}

/// Whether `b` is an ASCII decimal digit.
pub fn is_digit(b: u8) -> (yes: bool)
    ensures
        yes == digit(b),
{
    0x30 <= b && b <= 0x39
}

/// Whether the character with code `b` is alphabetic or numeric.
pub fn is_alphanumeric(b: u8) -> (yes: bool)
    ensures
        yes == alphanumeric(b),
{
    is_digit(b) || (0x41 <= b && b <= 0x5A) || (0x61 <= b && b <= 0x7A) || b == 0xAA || b == 0xB2
        || b == 0xB3 || b == 0xB5 || b == 0xB9 || b == 0xBA || (0xBC <= b && b <= 0xBE) || (0xC0
        <= b && b <= 0xD6) || (0xD8 <= b && b <= 0xF6) || 0xF8 <= b
}

/// Whether the character with code `b` is white space.
pub fn is_whitespace(b: u8) -> (yes: bool)
    ensures
        yes == whitespace(b),
{
    (0x09 <= b && b <= 0x0D) || b == 0x20 || b == 0x85 || b == 0xA0
}

/// The kind of the word `text`: a keyword's, else that of an identifier.
pub fn keyword_or_identifier(text: &String) -> (token_type: TokenType)
    ensures
        token_type == word_kind(text@),
{
    if *text == "fn".to_owned() {
        TokenType::FN
    } else if *text == "if".to_owned() {
        TokenType::IF
    } else if *text == "else".to_owned() {
        TokenType::ELSE
    } else if *text == "true".to_owned() {
        TokenType::TRUE
    } else if *text == "false".to_owned() {
        TokenType::FALSE
    } else if *text == "while".to_owned() {
        TokenType::WHILE
    } else if *text == "for".to_owned() {
        TokenType::FOR
    } else if *text == "return".to_owned() {
        TokenType::RETURN
    } else if *text == "self".to_owned() {
        TokenType::SELF
    } else if *text == "var".to_owned() {
        TokenType::VAR
    } else if *text == "nil".to_owned() {
        TokenType::NIL
    } else if *text == "guard".to_owned() {
        TokenType::GUARD
    } else if *text == "pub".to_owned() {
        TokenType::PUB
    } else if *text == "import".to_owned() {
        TokenType::IMPORT
    } else if *text == "from".to_owned() {
        TokenType::FROM
    } else if *text == "as".to_owned() {
        TokenType::AS
    } else if *text == "let".to_owned() {
        TokenType::LET
    } else if *text == "const".to_owned() {
        TokenType::CONST
    } else {
        TokenType::IDENTIFIER
    }
}

/// Mathematical model of a [`Scanner`]: its source, the tokens found so
/// far, and where it stands.
pub struct ScannerView {
    pub source: Seq<u8>,
    pub tokens: Seq<TokenView>,
    pub start: nat,
    pub current: nat,
    pub line: nat,
}

/// The views of the tokens of `tokens`, in order.
pub open spec fn token_views(tokens: Seq<Token>) -> Seq<TokenView> {
    tokens.map_values(|t: Token| t@)
}

/// What a scan that stands as `state` does comes to: the tokens it holds
/// followed by those of the rest of its source, or the first failure there.
pub open spec fn finish(state: ScannerView) -> Result<Seq<TokenView>, ScanFailure> {
    match scan_from(state.source, state.current, state.line) {
        Ok(rest) => Ok(state.tokens + rest),
        Err(failure) => Err(failure),
    }
}

/// The model of what a scan returned.
pub open spec fn scanned(result: Result<Vec<Token>, ScannerError>) -> Result<
    Seq<TokenView>,
    ScanFailure,
> {
    match result {
        Ok(tokens) => Ok(token_views(tokens@)),
        Err(error) => Err(error@),
    }
}

/// Where a scanner stands in its source.
struct Cursor<'a> {
    source: &'a [u8],
    start: usize,
    current: usize,
    line: usize,
}

impl<'a> Cursor<'a> {
    #[verifier::type_invariant]
    spec fn in_bounds(&self) -> bool {
        &&& self.start <= self.current <= self.source@.len()
        &&& self.line <= self.current
    }
}

/// Scans source text into tokens.
pub struct Scanner<'a> {
    at: Cursor<'a>,
    tokens: Vec<Token>,
}

impl<'a> View for Scanner<'a> {
    type V = ScannerView;

    closed spec fn view(&self) -> ScannerView {
        ScannerView {
            source: self.at.source@,
            tokens: token_views(self.tokens@),
            start: self.at.start as nat,
            current: self.at.current as nat,
            line: self.at.line as nat,
        }
    }
}

impl<'a> Scanner<'a> {
    /// A scanner at the start of `source`.
    pub fn new(source: &'a str) -> (scanner: Self)
        ensures
            scanner@ == (ScannerView {
                source: source.spec_bytes(),
                tokens: Seq::empty(),
                start: 0,
                current: 0,
                line: 0,
            }),
    {
        let at = Cursor { source: source.as_bytes(), start: 0, current: 0, line: 0 };
        let scanner = Self { at, tokens: Vec::new() };
        assert(token_views(scanner.tokens@) =~= Seq::empty());
        scanner
    }

    /// Whether the whole source has been read.
    fn is_at_end(&self) -> (at_end: bool)
        ensures
            at_end == (self.at.current >= self.at.source@.len()),
    {
        self.at.current >= self.at.source.len()
    }

    /// Reads the next byte.
    fn advance(&mut self) -> (c: u8)
        requires
            old(self).at.current < old(self).at.source@.len(),
        ensures
            c == old(self).at.source@[old(self).at.current as int],
            final(self).read_on(old(self)),
            final(self).at.current == old(self).at.current + 1,
            final(self).at.line == old(self).at.line,
    {
        proof {
            use_type_invariant(&self.at);
        }
        let c = self.at.source[self.at.current];
        self.at.current += 1;
        c
    }

    /// The next byte, or zero at the end, without reading it.
    fn peek(&self) -> (c: u8)
        ensures
            c == byte_at(self.at.source@, self.at.current as int),
    {
        if self.is_at_end() {
            return 0;
        }
        self.at.source[self.at.current]
    }

    /// The byte after the next, or zero past the end.
    fn peek_next(&self) -> (c: u8)
        ensures
            c == byte_at(self.at.source@, self.at.current + 1),
    {
        proof {
            use_type_invariant(&self.at);
        }
        if self.at.source.len() - self.at.current <= 1 {
            return 0;
        }
        self.at.source[self.at.current + 1]
    }

    /// The error of kind `kind` for the lexeme being read, which started on
    /// line `line`.
    fn error_here(&self, kind: ScanFailureKind, line: usize) -> (error: ScannerError)
        ensures
            failure(
                kind,
                self.at.source@,
                self.at.start as nat,
                self.at.current as nat,
                line as nat,
            ) == (Step::Fail { failure: error@ }),
    {
        proof {
            use_type_invariant(&self.at);
        }
        let lexeme = decode_lossy(slice_subrange(self.at.source, self.at.start, self.at.current));
        match kind {
            ScanFailureKind::UnterminatedString => ScannerError::UnterminatedString {
                line,
                start: self.at.start,
                lexeme,
            },
            ScanFailureKind::UnexpectedCharacter => ScannerError::UnexpectedCharacter {
                line,
                start: self.at.start,
                lexeme,
            },
        }
    }

    /// The tokens found so far, as their models.
    spec fn emitted(&self) -> Seq<TokenView> {
        token_views(self.tokens@)
    }

    /// Whether this scanner is `before` after the step that the rules take
    /// at the start of its lexeme, `result` being what the step returned.
    spec fn took_step(&self, before: &Self, result: Result<(), ScannerError>) -> bool {
        &&& self.at.source == before.at.source
        &&& match step_at(before.at.source@, before.at.start as nat, before.at.line as nat) {
            Step::Emit { token, next, line } => {
                &&& result is Ok
                &&& self.at.current == next
                &&& self.at.line == line
                &&& self.emitted() == before.emitted().push(token)
            },
            Step::Skip { next, line } => {
                &&& result is Ok
                &&& self.at.current == next
                &&& self.at.line == line
                &&& self.emitted() == before.emitted()
            },
            Step::Fail { failure } => result matches Err(error) && error@ == failure,
        }
    }

    /// Whether this scanner differs from `before` at most in having read on.
    spec fn read_on(&self, before: &Self) -> bool {
        &&& self.at.source == before.at.source
        &&& self.tokens == before.tokens
        &&& self.at.start == before.at.start
        &&& self.at.current >= before.at.current
    }

    /// Adds the token of kind `token_type` whose lexeme has just been read;
    /// fails where its bytes spell no text.
    fn add_token(&mut self, token_type: TokenType) -> (result: Result<(), ScannerError>)
        ensures
            final(self).at == old(self).at,
            spells(old(self).at.source@, old(self).at.start as int, old(self).at.current as int) ==> {
                &&& result is Ok
                &&& final(self).emitted() == old(self).emitted().push(
                    TokenView {
                        token_type,
                        lexeme: text(
                            old(self).at.source@,
                            old(self).at.start as int,
                            old(self).at.current as int,
                        ),
                        line: old(self).at.line as nat,
                        start: old(self).at.start as nat,
                        data: None,
                    },
                )
            },
            !spells(old(self).at.source@, old(self).at.start as int, old(self).at.current as int) ==> {
                &&& result matches Err(error)
                &&& failure(
                    ScanFailureKind::UnexpectedCharacter,
                    old(self).at.source@,
                    old(self).at.start as nat,
                    old(self).at.current as nat,
                    old(self).at.line as nat,
                ) == (Step::Fail { failure: error@ })
                &&& final(self).tokens == old(self).tokens
            },
    {
        proof {
            use_type_invariant(&self.at);
        }
        match self.spelled(self.at.start, self.at.current) {
            Some(lexeme) => {
                let token = Token::new(token_type, lexeme, self.at.line, self.at.start);
                self.tokens.push(token);
                assert(self.emitted() =~= old(self).emitted().push(token@));
                Ok(())
            },
            None => Err(self.error_here(ScanFailureKind::UnexpectedCharacter, self.at.line)),
        }
    }

    /// Reads the next byte if it is `expected`, and says whether it did.
    fn try_match(&mut self, expected: u8) -> (matched: bool)
        ensures
            final(self).read_on(old(self)),
            final(self).at.line == old(self).at.line,
            matched == (old(self).at.current < old(self).at.source@.len() && old(self).at.source@[old(self).at.current as int] == expected),
            final(self).at.current == if matched {
                old(self).at.current + 1
            } else {
                old(self).at.current as int
            },
    {
        proof {
            use_type_invariant(&self.at);
        }
        if self.is_at_end() {
            return false;
        }
        if self.at.source[self.at.current] != expected {
            return false;
        }
        self.at.current += 1;
        true
    }

    /// The error for a byte that no rule accepts.
    fn err_unexpected_char(&self) -> (result: Result<(), ScannerError>)
        ensures
            result matches Err(error) && failure(
                ScanFailureKind::UnexpectedCharacter,
                self.at.source@,
                self.at.start as nat,
                self.at.current as nat,
                self.at.line as nat,
            ) == (Step::Fail { failure: error@ }),
    {
        Err(self.error_here(ScanFailureKind::UnexpectedCharacter, self.at.line))
    }

    /// Whether the first byte of the lexeme, and no more, has been read.
    spec fn opened(&self) -> bool {
        &&& self.at.current == self.at.start + 1
        &&& self.at.line <= self.at.start < self.at.source@.len()
    }

    /// Reads on to the end of the run of kind `run` that starts here.
    fn skip_run(&mut self, run: Run)
        ensures
            final(self).read_on(old(self)),
            final(self).at.line == old(self).at.line,
            final(self).at.current == old(self).at.current + run_len(
                old(self).at.source@,
                old(self).at.current as int,
                run,
            ),
    {
        loop
            invariant
                self.read_on(old(self)),
                self.at.line == old(self).at.line,
                old(self).at.current + run_len(
                    old(self).at.source@,
                    old(self).at.current as int,
                    run,
                ) == self.at.current + run_len(self.at.source@, self.at.current as int, run),
            ensures
                self.read_on(old(self)),
                self.at.line == old(self).at.line,
                self.at.current == old(self).at.current + run_len(
                    old(self).at.source@,
                    old(self).at.current as int,
                    run,
                ),
            decreases self.at.source@.len() - self.at.current,
        {
            proof {
                use_type_invariant(&self.at);
            }
            if self.is_at_end() {
                break ;
            }
            let c = self.at.source[self.at.current];
            let goes_on = match run {
                Run::Digits => is_digit(c),
                Run::Word => is_alphanumeric(c),
                Run::Comment => c != LINE_FEED,
                Run::Text => c != QUOTE,
            };
            if !goes_on {
                break ;
            }
            self.at.current += 1;
        }
    }

    /// Reads a number whose first digit has been read, and adds its token.
    fn number(&mut self) -> (result: Result<(), ScannerError>)
        requires
            old(self).opened(),
            digit(old(self).at.source@[old(self).at.start as int]),
        ensures
            final(self).took_step(old(self), result),
    {
        proof {
            use_type_invariant(&self.at);
        }
        self.skip_run(Run::Digits);
        let mut is_floating = false;
        if self.peek() == 0x2E && is_digit(self.peek_next()) {
            is_floating = true;
            self.advance();
            self.skip_run(Run::Digits);
        }
        self.add_token(
            if is_floating {
                TokenType::FLOATING
            } else {
                TokenType::INTEGER
            },
        )
    }

    /// Reads a word whose first byte has been read, and adds its token: a
    /// keyword's where the word spells one, else an identifier.
    fn identifier(&mut self) -> (result: Result<(), ScannerError>)
        requires
            old(self).opened(),
            shape_at(old(self).at.source@, old(self).at.start as int) == (Shape::Word {
                extra: run_len(old(self).at.source@, old(self).at.start + 1, Run::Word),
            }),
        ensures
            final(self).took_step(old(self), result),
    {
        proof {
            use_type_invariant(&self.at);
        }
        self.skip_run(Run::Word);
        proof {
            use_type_invariant(&self.at);
        }
        match self.spelled(self.at.start, self.at.current) {
            Some(word) => {
                let token_type = keyword_or_identifier(&word);
                let token = Token::new(token_type, word, self.at.line, self.at.start);
                self.tokens.push(token);
                assert(self.emitted() =~= old(self).emitted().push(token@));
                Ok(())
            },
            None => self.err_unexpected_char(),
        }
    }

    /// Character literals are not part of the language: a single quote is
    /// a character that no rule accepts.
    fn character(&mut self) -> (result: Result<(), ScannerError>)
        requires
            old(self).opened(),
            old(self).at.source@[old(self).at.start as int] == 0x27,
        ensures
            final(self).took_step(old(self), result),
    {
        self.err_unexpected_char()
    }

    /// Reads a string whose opening quote has been read, and adds its token,
    /// with the text between the quotes as its data. Nothing is escaped.
    fn string(&mut self) -> (result: Result<(), ScannerError>)
        requires
            old(self).opened(),
            old(self).at.source@[old(self).at.start as int] == QUOTE,
        ensures
            final(self).took_step(old(self), result),
    {
        let opened_on = self.at.line;
        let ghost first = self.at.current as int;
        loop
            invariant
                self.read_on(old(self)),
                first == old(self).at.current == old(self).at.start + 1,
                opened_on == old(self).at.line,
                self.at.line == opened_on + line_feeds(self.at.source@, first, self.at.current as int),
                self.at.line < self.at.current,
                run_len(old(self).at.source@, first, Run::Text) == self.at.current - first
                    + run_len(self.at.source@, self.at.current as int, Run::Text),
            ensures
                self.read_on(old(self)),
                self.at.line == opened_on + line_feeds(self.at.source@, first, self.at.current as int),
                self.at.current == first + run_len(old(self).at.source@, first, Run::Text),
            decreases self.at.source@.len() - self.at.current,
        {
            proof {
                use_type_invariant(&self.at);
            }
            if self.is_at_end() || self.peek() == QUOTE {
                break ;
            }
            if self.peek() == LINE_FEED {
                self.at.line += 1;
            }
            self.advance();
        }
        if self.is_at_end() {
            return Err(self.error_here(ScanFailureKind::UnterminatedString, opened_on));
        }
        self.advance();
        proof {
            use_type_invariant(&self.at);
        }
        let lexeme = self.spelled(self.at.start, self.at.current);
        let value = self.spelled(self.at.start + 1, self.at.current - 1);
        match (lexeme, value) {
            (Some(lexeme), Some(value)) => {
                self.add_token_with_data(TokenType::STRING, lexeme, value);
                Ok(())
            },
            _ => Err(self.error_here(ScanFailureKind::UnexpectedCharacter, opened_on)),
        }
    }

    /// Adds the token of kind `token_type` with the lexeme `lexeme` and the
    /// payload `data`.
    fn add_token_with_data(&mut self, token_type: TokenType, lexeme: String, data: String)
        ensures
            final(self).at == old(self).at,
            final(self).emitted() == old(self).emitted().push(
                TokenView {
                    token_type,
                    lexeme: lexeme@,
                    line: old(self).at.line as nat,
                    start: old(self).at.start as nat,
                    data: Some(data@),
                },
            ),
    {
        let token = Token::new(token_type, lexeme, self.at.line, self.at.start).with_data(data);
        self.tokens.push(token);
        assert(self.emitted() =~= old(self).emitted().push(token@));
    }

    /// Adds the token `two` where the next byte is `second`, reading it, and
    /// the token `one` where it is not.
    fn one_or_two(&mut self, second: u8, two: TokenType, one: TokenType) -> (result: Result<
        (),
        ScannerError,
    >)
        requires
            old(self).opened(),
            shape_at(old(self).at.source@, old(self).at.start as int) == rules::pair(
                old(self).at.source@,
                old(self).at.start as int,
                second,
                two,
                one,
            ),
        ensures
            final(self).took_step(old(self), result),
    {
        let token_type = if self.try_match(second) {
            two
        } else {
            one
        };
        self.add_token(token_type)
    }

    /// Scans one lexeme: reads it and adds its token, if it has one.
    fn scan_token(&mut self) -> (result: Result<(), ScannerError>)
        requires
            old(self).at.start == old(self).at.current < old(self).at.source@.len(),
        ensures
            final(self).took_step(old(self), result),
    {
        proof {
            use_type_invariant(&self.at);
        }
        let c = self.advance();
        if c == 0x28 {  // `(`
            self.add_token(TokenType::LEFT_PAREN)
        } else if c == 0x29 {  // `)`
            self.add_token(TokenType::RIGHT_PAREN)
        } else if c == 0x7B {  // `{`
            self.add_token(TokenType::LEFT_BRACE)
        } else if c == 0x7D {  // `}`
            self.add_token(TokenType::RIGHT_BRACE)
        } else if c == 0x2C {  // `,`
            self.add_token(TokenType::COMMA)
        } else if c == 0x2E {  // `.`
            self.add_token(TokenType::DOT)
        } else if c == 0x3B {  // `;`
            self.add_token(TokenType::SEMICOLON)
        } else if c == 0x2A {  // `*`
            self.add_token(TokenType::STAR)
        } else if c == 0x3A {  // `:`
            self.add_token(TokenType::COLON)
        } else if c == 0x21 {  // `!`
            self.one_or_two(0x3D, TokenType::BANG_EQUAL, TokenType::BANG)
        } else if c == 0x3D {  // `=`
            self.one_or_two(0x3D, TokenType::EQUAL_EQUAL, TokenType::EQUAL)
        } else if c == 0x3C {  // `<`
            self.one_or_two(0x3D, TokenType::LESS_EQUAL, TokenType::LESS)
        } else if c == 0x3E {  // `>`
            self.one_or_two(0x3D, TokenType::GREATER_EQUAL, TokenType::GREATER)
        } else if c == 0x2B {  // `+`
            self.one_or_two(0x2B, TokenType::INCREMENT, TokenType::PLUS)
        } else if c == 0x2D {  // `-`
            self.one_or_two(0x2D, TokenType::DECREMENT, TokenType::MINUS)
        } else if c == 0x26 {  // `&`
            self.one_or_two(0x26, TokenType::AND, TokenType::AMPERSAND)
        } else if c == 0x7C {  // `|`
            self.one_or_two(0x7C, TokenType::OR, TokenType::PIPE)
        } else if c == 0x2F {  // `/`
            if self.try_match(0x2F) {
                self.skip_run(Run::Comment);
                Ok(())
            } else {
                self.add_token(TokenType::SLASH)
            }
        } else if c == QUOTE {
            self.string()
        } else if c == 0x27 {  // `'`
            self.character()
        } else if is_digit(c) {
            self.number()
        } else if c == 0x5F {  // `_`
            if is_whitespace(self.peek()) {
                self.add_token(TokenType::UNDERSCORE)
            } else {
                self.identifier()
            }
        } else if c == 0x24 || (0x41 <= c && c <= 0x7A) {  // `$`, or from `A` to `z`
            self.identifier()
        } else if c == 0x20 || c == 0x0D || c == 0x09 {  // space, carriage return, tab  // space, carriage return, tab
            Ok(())
        } else if c == LINE_FEED {
            self.at.line += 1;
            Ok(())
        } else {
            self.err_unexpected_char()
        }
    }

    /// Scans the whole source. Returns its tokens, the last of them the end
    /// token, or the first error, and then no token at all.
    pub fn scan(self) -> (result: Result<Vec<Token>, ScannerError>)
        ensures
            scanned(result) == finish(self@),
            self@.tokens.len() == 0 && self@.current == 0 && self@.line == 0 ==> scanned(result)
                == scan_source(self@.source),
            result matches Ok(tokens) ==> tokens@.len() > 0 && tokens@.last().token_type
                == TokenType::EOF,
    {
        proof {
            if let Ok(rest) = scan_from(self@.source, self@.current, self@.line) {
                if self@.tokens.len() == 0 {
                    assert(self@.tokens + rest =~= rest);
                }
            }
        }
        let mut scanner = self;
        while !scanner.is_at_end()
            invariant
                scanner.at.source == self.at.source,
                finish(scanner@) == finish(self@),
            decreases scanner.at.source@.len() - scanner.at.current,
        {
            proof {
                use_type_invariant(&scanner.at);
            }
            scanner.at.start = scanner.at.current;
            let ghost before = scanner;
            match scanner.scan_token() {
                Ok(()) => {},
                Err(error) => {
                    return Err(error);
                },
            }
            proof {
                use_type_invariant(&scanner.at);
                let src = before.at.source@;
                let rest = scan_from(src, scanner.at.current as nat, scanner.at.line as nat);
                match step_at(src, before.at.start as nat, before.at.line as nat) {
                    Step::Emit { token, next, line } => {
                        assert(next > before.at.current);
                        if let Ok(rest) = rest {
                            assert(before.emitted() + (seq![token] + rest) =~= scanner.emitted()
                                + rest);
                        }
                    },
                    Step::Skip { next, line } => {
                        assert(next > before.at.current);
                    },
                    Step::Fail { failure } => {},
                }
            }
        }
        let end = Token::new(TokenType::EOF, String::new(), scanner.at.line, 0);
        let mut tokens = scanner.tokens;
        tokens.push(end);
        assert(token_views(tokens@) =~= scanner.emitted() + seq![end_token(scanner.at.line as nat)]);
        Ok(tokens)
    }

    /// The text of the bytes from `from` up to `to`, if they spell one.
    fn spelled(&self, from: usize, to: usize) -> (decoded: Option<String>)
        requires
            from <= to <= self.at.source@.len(),
        ensures
            decoded is Some <==> spells(self.at.source@, from as int, to as int),
            decoded matches Some(s) ==> s@ == text(self.at.source@, from as int, to as int),
    {
        decode(slice_to_vec(slice_subrange(self.at.source, from, to)))
    }
}

/// What went wrong in a scan that failed in the way `kind`.
pub open spec fn scan_description(kind: ScanFailureKind) -> Seq<char> {
    match kind {
        ScanFailureKind::UnexpectedCharacter => "Unexpected character."@,
        ScanFailureKind::UnterminatedString => "Unterminated string."@,
    }
}

impl HastyError for ScannerError {
    open spec fn facts(&self) -> ErrorFacts {
        ErrorFacts {
            stage: "SCANNER"@,
            description: scan_description(self@.kind),
            line: self@.line,
            column: self@.start,
            lexeme: self@.lexeme,
        }
    }

    fn stage(&self) -> (stage: &'static str) {
        "SCANNER"
    }

    fn line(&self) -> (line: usize) {
        match self {
            ScannerError::UnexpectedCharacter { line, .. } => *line,
            ScannerError::UnterminatedString { line, .. } => *line,
        }
    }

    fn column(&self) -> (column: usize) {
        match self {
            ScannerError::UnexpectedCharacter { start, .. } => *start,
            ScannerError::UnterminatedString { start, .. } => *start,
        }
    }

    fn lexeme(&self) -> (lexeme: &str) {
        match self {
            ScannerError::UnexpectedCharacter { lexeme, .. } => lexeme.as_str(),
            ScannerError::UnterminatedString { lexeme, .. } => lexeme.as_str(),
        }
    }

    fn as_hasty_error_string(&self) -> (report: String) {
        proof {
            reveal_strlit("");
            reveal_strlit("SCANNER");
            reveal_strlit("Unexpected character.");
            reveal_strlit("Unterminated string.");
        }
        unified_error(
            self.stage(),
            self.get_error_description().as_str(),
            self.line(),
            self.column(),
            self.lexeme(),
            "",
        )
    }

    fn get_error_description(&self) -> (description: String) {
        match self {
            ScannerError::UnexpectedCharacter { .. } => "Unexpected character.".to_owned(),
            ScannerError::UnterminatedString { .. } => "Unterminated string.".to_owned(),
        }
    }
}

} // verus!
