//! The lexical scanner: turns source text into a stream of classified
//! tokens, one [`Scanner::get_token`] call per token.
//!
//! The scanner walks the source by character position.  Each token carries
//! the slice of source text it was read from, its kind, and the source line
//! it ended on.  Scanning never fails the whole pass: an unterminated string
//! or an unexpected character comes back as an `Err` holding a token of kind
//! `Errorr` whose lexeme is the diagnostic message.

use vstd::prelude::*;
use vstd::string::StrSliceExecFns;

verus! {

/// The kinds of token the scanner produces.
#[derive(PartialEq, Eq, Clone, Copy, Debug, Structural)]
pub enum TokenType {
    // Single-character tokens
    LeftParen,
    RightParen,
    LeftBrace,
    RightBrace,
    Comma,
    Dot,
    DoubleQuote,
    // One or two character tokens
    Minus,
    MinusEqual,
    Plus,
    PlusEqual,
    Slash,
    SlashEqual,
    Star,
    StarEqual,
    Bang,
    BangEqual,
    Equal,
    EqualEqual,
    Greater,
    GreaterEqual,
    Less,
    LessEqual,
    // Literals
    Identifier,
    String,
    Number,
    // Keywords
    And,
    Else,
    ElseIf,
    False,
    For,
    Function,
    If,
    Import,
    In,
    Let,
    Match,
    Mutable,
    Not,
    Or,
    Public,
    Return,
    Selff,
    Struct,
    True,
    While,
    Volatile,
    // Other
    EOF,
    Errorr,
}

/// The token kind a single punctuation character maps to, or `None` for a
/// character the language has no use for.
pub open spec fn spec_char_token(c: char) -> Option<TokenType> {
    if c == '(' {
        Some(TokenType::LeftParen)
    } else if c == ')' {
        Some(TokenType::RightParen)
    } else if c == '{' {
        Some(TokenType::LeftBrace)
    } else if c == '}' {
        Some(TokenType::RightBrace)
    } else if c == ',' {
        Some(TokenType::Comma)
    } else if c == '.' {
        Some(TokenType::Dot)
    } else if c == '-' {
        Some(TokenType::Minus)
    } else if c == '+' {
        Some(TokenType::Plus)
    } else if c == '/' {
        Some(TokenType::Slash)
    } else if c == '*' {
        Some(TokenType::Star)
    } else if c == '!' {
        Some(TokenType::Bang)
    } else if c == '=' {
        Some(TokenType::Equal)
    } else if c == '<' {
        Some(TokenType::Less)
    } else if c == '>' {
        Some(TokenType::Greater)
    } else if c == '"' {
        Some(TokenType::DoubleQuote)
    } else {
        None
    }
}

impl TokenType {
    /// Fallible classification of one punctuation character.
    pub fn try_from(c: char) -> (r: Result<TokenType, ()>)
        ensures
            r matches Ok(tt) ==> spec_char_token(c) == Some(tt),
            r is Err <==> spec_char_token(c) is None,
    {
        if c == '(' {
            Ok(TokenType::LeftParen)
        } else if c == ')' {
            Ok(TokenType::RightParen)
        } else if c == '{' {
            Ok(TokenType::LeftBrace)
        } else if c == '}' {
            Ok(TokenType::RightBrace)
        } else if c == ',' {
            Ok(TokenType::Comma)
        } else if c == '.' {
            Ok(TokenType::Dot)
        } else if c == '-' {
            Ok(TokenType::Minus)
        } else if c == '+' {
            Ok(TokenType::Plus)
        } else if c == '/' {
            Ok(TokenType::Slash)
        } else if c == '*' {
            Ok(TokenType::Star)
        } else if c == '!' {
            Ok(TokenType::Bang)
        } else if c == '=' {
            Ok(TokenType::Equal)
        } else if c == '<' {
            Ok(TokenType::Less)
        } else if c == '>' {
            Ok(TokenType::Greater)
        } else if c == '"' {
            Ok(TokenType::DoubleQuote)
        } else {
            Err(())
        }
    }
}

/// One token: the source slice it was read from, its kind, and the source
/// line it ended on.
pub struct Token<'a> {
    pub lexeme: &'a str,
    pub typee: TokenType,
    pub line: usize,
}

impl<'a> Token<'a> {
    /// Builds a token from its three parts.
    pub fn new(lexeme: &'a str, typee: TokenType, line: usize) -> (token: Token<'a>)
        ensures
            token.lexeme@ == lexeme@,
            token.typee == typee,
            token.line == line,
    {
        Token { lexeme, typee, line }
    }
}

/// An ASCII letter or an underscore: what an identifier may start with.
pub open spec fn is_alpha_char(c: char) -> bool {
    ((c as u32) >= ('a' as u32) && (c as u32) <= ('z' as u32)) || ((c as u32) >= ('A' as u32) && (c
        as u32) <= ('Z' as u32)) || c == '_'
}

/// An ASCII decimal digit.
pub open spec fn is_digit_char(c: char) -> bool {
    (c as u32) >= ('0' as u32) && (c as u32) <= ('9' as u32)
}

/// The source line after one more newline: one higher, saturating at the
/// largest representable line number.
pub open spec fn next_line(line: usize) -> usize {
    if line < usize::MAX {
        (line + 1) as usize
    } else {
        line
    }
}

/// Where a run of identifier characters (letters, digits, underscores)
/// starting at `pos` ends.
pub open spec fn ident_end(src: Seq<char>, pos: nat) -> nat
    decreases src.len() - pos,
{
    if pos < src.len() && (is_digit_char(src[pos as int]) || is_alpha_char(src[pos as int])) {
        ident_end(src, pos + 1)
    } else {
        pos
    }
}

/// Where a run of decimal digits starting at `pos` ends.
pub open spec fn digits_end(src: Seq<char>, pos: nat) -> nat
    decreases src.len() - pos,
{
    if pos < src.len() && is_digit_char(src[pos as int]) {
        digits_end(src, pos + 1)
    } else {
        pos
    }
}

/// Where a number token whose digits start at `pos` ends: a run of digits,
/// then a fractional part only when a dot is directly followed by a digit.
pub open spec fn number_end(src: Seq<char>, pos: nat) -> nat {
    let whole = digits_end(src, pos);
    if whole + 1 < src.len() && src[whole as int] == '.' && is_digit_char(src[whole + 1 as int]) {
        digits_end(src, whole + 1)
    } else {
        whole
    }
}

/// The position of the closing double quote at or after `pos`, or the length
/// of the source when the string never closes.
pub open spec fn string_end(src: Seq<char>, pos: nat) -> nat
    decreases src.len() - pos,
{
    if pos >= src.len() {
        pos
    } else if src[pos as int] == '"' {
        pos
    } else {
        string_end(src, pos + 1)
    }
}

/// The line counter after scanning the characters of `src` in `[from, to)`,
/// starting from `line`: one bump per newline.
pub open spec fn line_after(src: Seq<char>, from: nat, to: nat, line: usize) -> usize
    decreases to - from,
{
    if from >= to {
        line
    } else {
        line_after(
            src,
            from + 1,
            to,
            if src[from as int] == '\n' {
                next_line(line)
            } else {
                line
            },
        )
    }
}

/// The end of a comment opened at or before `pos`: the position of the next
/// newline, or the length of the source.
pub open spec fn comment_end(src: Seq<char>, pos: nat) -> nat
    decreases src.len() - pos,
{
    if pos >= src.len() {
        pos
    } else if src[pos as int] == '\n' {
        pos
    } else {
        comment_end(src, pos + 1)
    }
}

/// A comment never ends before it starts, and never past the source.
pub proof fn lemma_comment_end_bounds(src: Seq<char>, pos: nat)
    ensures
        comment_end(src, pos) >= pos,
        pos <= src.len() ==> comment_end(src, pos) <= src.len(),
    decreases src.len() - pos,
{
    if pos < src.len() && src[pos as int] != '\n' {
        lemma_comment_end_bounds(src, pos + 1);
    }
}

/// A string's closing quote never stands before the scan starts, and never
/// past the source.
pub proof fn lemma_string_end_bounds(src: Seq<char>, pos: nat)
    ensures
        string_end(src, pos) >= pos,
        pos <= src.len() ==> string_end(src, pos) <= src.len(),
    decreases src.len() - pos,
{
    if pos < src.len() && src[pos as int] != '"' {
        lemma_string_end_bounds(src, pos + 1);
    }
}

/// The position and line after skipping what [`Scanner::get_token`] skips
/// before a token: one whitespace character, or a whole `#` comment up to —
/// not including — its terminating newline, after which skipping goes on.
pub open spec fn skip_ws(src: Seq<char>, pos: nat, line: usize) -> (nat, usize)
    decreases src.len() - pos,
    via skip_ws_decreases
{
    if pos >= src.len() {
        (pos, line)
    } else {
        let c = src[pos as int];
        if c == ' ' || c == '\r' || c == '\t' {
            (pos + 1, line)
        } else if c == '\n' {
            (pos + 1, next_line(line))
        } else if c == '#' {
            skip_ws(src, comment_end(src, pos), line)
        } else {
            (pos, line)
        }
    }
}

#[via_fn]
proof fn skip_ws_decreases(src: Seq<char>, pos: nat, line: usize) {
    if pos < src.len() && src[pos as int] == '#' {
        lemma_comment_end_bounds(src, pos + 1);
        assert(comment_end(src, pos) == comment_end(src, pos + 1));
        assert(pos < comment_end(src, pos) <= src.len());
    }
}

/// Whether the lexeme equals `rest` from `kw_start` on — and nothing more
/// follows — so that it is the keyword `token_type`; otherwise it is a plain
/// identifier.
pub open spec fn spec_check_keyword(
    lexeme: Seq<char>,
    kw_start: nat,
    length: nat,
    rest: Seq<char>,
    token_type: TokenType,
) -> TokenType {
    if lexeme.len() == kw_start + length && lexeme.subrange(
        kw_start as int,
        (kw_start + length) as int,
    ) == rest {
        token_type
    } else {
        TokenType::Identifier
    }
}

/// The kind of an identifier lexeme: one of the keywords, recognised by its
/// first one or two characters and the exact remainder, or `Identifier`.
pub open spec fn spec_identifier_type(lexeme: Seq<char>) -> TokenType {
    let c = lexeme[0];
    if c == 'a' {
        spec_check_keyword(lexeme, 1, 2, "nd"@, TokenType::And)
    } else if c == 'e' {
        spec_check_keyword(lexeme, 1, 3, "lse"@, TokenType::Else)
    } else if c == 'f' {
        if lexeme.len() > 1 && lexeme[1] == 'a' {
            spec_check_keyword(lexeme, 2, 3, "lse"@, TokenType::False)
        } else if lexeme.len() > 1 && lexeme[1] == 'o' {
            spec_check_keyword(lexeme, 2, 1, "r"@, TokenType::For)
        } else if lexeme.len() > 1 && lexeme[1] == 'u' {
            spec_check_keyword(lexeme, 2, 6, "nction"@, TokenType::Function)
        } else {
            TokenType::Identifier
        }
    } else if c == 'i' {
        if lexeme.len() > 1 && lexeme[1] == 'f' {
            spec_check_keyword(lexeme, 2, 0, ""@, TokenType::If)
        } else if lexeme.len() > 1 && lexeme[1] == 'n' {
            spec_check_keyword(lexeme, 2, 0, ""@, TokenType::In)
        } else if lexeme.len() > 1 && lexeme[1] == 'm' {
            spec_check_keyword(lexeme, 2, 4, "port"@, TokenType::Import)
        } else {
            TokenType::Identifier
        }
    } else if c == 'l' {
        spec_check_keyword(lexeme, 1, 2, "et"@, TokenType::Let)
    } else if c == 'm' {
        if lexeme.len() > 1 && lexeme[1] == 'a' {
            spec_check_keyword(lexeme, 2, 3, "tch"@, TokenType::Match)
        } else if lexeme.len() > 1 && lexeme[1] == 'u' {
            spec_check_keyword(lexeme, 2, 5, "table"@, TokenType::Mutable)
        } else {
            TokenType::Identifier
        }
    } else if c == 'n' {
        spec_check_keyword(lexeme, 1, 2, "ot"@, TokenType::Not)
    } else if c == 'o' {
        spec_check_keyword(lexeme, 1, 1, "r"@, TokenType::Or)
    } else if c == 'p' {
        spec_check_keyword(lexeme, 1, 5, "ublic"@, TokenType::Public)
    } else if c == 't' {
        spec_check_keyword(lexeme, 1, 3, "rue"@, TokenType::True)
    } else if c == 's' {
        if lexeme.len() > 1 && lexeme[1] == 'e' {
            spec_check_keyword(lexeme, 2, 2, "lf"@, TokenType::Selff)
        } else if lexeme.len() > 1 && lexeme[1] == 't' {
            spec_check_keyword(lexeme, 2, 4, "ruct"@, TokenType::Struct)
        } else {
            TokenType::Identifier
        }
    } else if c == 'r' {
        spec_check_keyword(lexeme, 1, 5, "eturn"@, TokenType::Return)
    } else if c == 'w' {
        spec_check_keyword(lexeme, 1, 4, "hile"@, TokenType::While)
    } else {
        TokenType::Identifier
    }
}

/// What one [`Scanner::get_token`] call produces and where it leaves the
/// scanner: the token's pieces, whether it is reported as an error, and the
/// scanner's start, position and line afterwards.
pub struct TokenInfo {
    pub lexeme: Seq<char>,
    pub typee: TokenType,
    pub line: usize,
    pub is_err: bool,
    pub token_start: nat,
    pub end: nat,
    pub end_line: usize,
}

/// The token read by a one- or two-character operator at `pos`: the compound
/// kind when `=` follows directly, the base kind otherwise.
pub open spec fn compound_info(
    src: Seq<char>,
    pos: nat,
    line: usize,
    base: TokenType,
    matched: TokenType,
) -> TokenInfo {
    if pos + 1 < src.len() && src[pos + 1 as int] == '=' {
        TokenInfo {
            lexeme: src.subrange(pos as int, pos + 2 as int),
            typee: matched,
            line: line,
            is_err: false,
            token_start: pos,
            end: pos + 2,
            end_line: line,
        }
    } else {
        TokenInfo {
            lexeme: src.subrange(pos as int, pos + 1 as int),
            typee: base,
            line: line,
            is_err: false,
            token_start: pos,
            end: pos + 1,
            end_line: line,
        }
    }
}

/// The token read by a string literal whose opening quote stands at `pos`:
/// the quoted slice — quotes included — or the unterminated-string
/// diagnostic, with the line counter pushed past any newlines inside.
pub open spec fn string_info(src: Seq<char>, pos: nat, line: usize) -> TokenInfo {
    let close = string_end(src, pos + 1);
    let l2 = line_after(src, pos + 1, close, line);
    if close >= src.len() {
        TokenInfo {
            lexeme: "Unterminated string"@,
            typee: TokenType::Errorr,
            line: l2,
            is_err: true,
            token_start: pos,
            end: close,
            end_line: l2,
        }
    } else {
        TokenInfo {
            lexeme: src.subrange(pos as int, close + 1 as int),
            typee: TokenType::String,
            line: l2,
            is_err: false,
            token_start: pos,
            end: close + 1,
            end_line: l2,
        }
    }
}

/// The exact tokenization step: what [`Scanner::get_token`] produces from a
/// scanner standing at `pos0` on `line0`, and the state it leaves behind.
pub open spec fn spec_get_token(src: Seq<char>, pos0: nat, line0: usize) -> TokenInfo {
    let skipped = skip_ws(src, pos0, line0);
    let p = skipped.0;
    let l = skipped.1;
    if p >= src.len() {
        TokenInfo {
            lexeme: Seq::<char>::empty(),
            typee: TokenType::EOF,
            line: l,
            is_err: false,
            token_start: p,
            end: p,
            end_line: l,
        }
    } else {
        let c = src[p as int];
        if is_alpha_char(c) {
            let e = ident_end(src, p + 1);
            TokenInfo {
                lexeme: src.subrange(p as int, e as int),
                typee: spec_identifier_type(src.subrange(p as int, e as int)),
                line: l,
                is_err: false,
                token_start: p,
                end: e,
                end_line: l,
            }
        } else if is_digit_char(c) {
            let e = number_end(src, p + 1);
            TokenInfo {
                lexeme: src.subrange(p as int, e as int),
                typee: TokenType::Number,
                line: l,
                is_err: false,
                token_start: p,
                end: e,
                end_line: l,
            }
        } else {
            match spec_char_token(c) {
                None => TokenInfo {
                    lexeme: "Unexpected character"@,
                    typee: TokenType::Errorr,
                    line: l,
                    is_err: true,
                    token_start: p,
                    end: p + 1,
                    end_line: l,
                },
                Some(tt) => match tt {
                    TokenType::Minus => compound_info(src, p, l, TokenType::Minus, TokenType::MinusEqual),
                    TokenType::Plus => compound_info(src, p, l, TokenType::Plus, TokenType::PlusEqual),
                    TokenType::Slash => compound_info(src, p, l, TokenType::Slash, TokenType::SlashEqual),
                    TokenType::Star => compound_info(src, p, l, TokenType::Star, TokenType::StarEqual),
                    TokenType::Bang => compound_info(src, p, l, TokenType::Bang, TokenType::BangEqual),
                    TokenType::Equal => compound_info(src, p, l, TokenType::Equal, TokenType::EqualEqual),
                    TokenType::Less => compound_info(src, p, l, TokenType::Less, TokenType::LessEqual),
                    TokenType::Greater => compound_info(src, p, l, TokenType::Greater, TokenType::GreaterEqual),
                    TokenType::DoubleQuote => string_info(src, p, l),
                    _ => TokenInfo {
                        lexeme: src.subrange(p as int, p + 1 as int),
                        typee: tt,
                        line: l,
                        is_err: false,
                        token_start: p,
                        end: p + 1,
                        end_line: l,
                    },
                },
            }
        }
    }
}

/// The scanner: the source it walks, the start of the token being read, the
/// position it stands at, and the current source line.  Positions count
/// characters, not bytes.
pub struct Scanner<'a> {
    source: &'a str,
    start: usize,
    current: usize,
    line: usize,
}

impl<'a> Scanner<'a> {
    /// The source text as a character sequence.
    pub closed spec fn src(&self) -> Seq<char> {
        self.source@
    }

    /// Where the token being read starts.
    pub closed spec fn spec_start(&self) -> nat {
        self.start as nat
    }

    /// The position the scanner stands at.
    pub closed spec fn spec_current(&self) -> nat {
        self.current as nat
    }

    /// The current source line.
    pub closed spec fn spec_line(&self) -> usize {
        self.line
    }

    /// The scanner's positions stay ordered and inside the source.
    pub open spec fn wf(&self) -> bool {
        self.spec_start() <= self.spec_current() <= self.src().len()
    }

    /// A fresh scanner at the top of `source`: both positions at 0, line 1.
    pub fn new(source: &'a str) -> (scanner: Self)
        ensures
            scanner.wf(),
            scanner.src() == source@,
            scanner.spec_start() == 0,
            scanner.spec_current() == 0,
            scanner.spec_line() == 1,
    {
        Self { source, start: 0, current: 0, line: 1 }
    }

    /// Whether the scanner stands past the last character.
    pub fn is_at_end(&self) -> (r: bool)
        ensures
            r == (self.spec_current() >= self.src().len()),
    {
        self.current >= self.source.unicode_len()
    }

    /// Consumes and returns the character at the current position, or `None`
    /// at the end of the source.
    pub fn advance(&mut self) -> (r: Option<char>)
        requires
            old(self).wf(),
        ensures
            final(self).wf(),
            final(self).src() == old(self).src(),
            final(self).spec_start() == old(self).spec_start(),
            final(self).spec_line() == old(self).spec_line(),
            old(self).spec_current() >= old(self).src().len() ==> r is None
                && final(self).spec_current() == old(self).spec_current(),
            old(self).spec_current() < old(self).src().len() ==> r == Some(
                old(self).src()[old(self).spec_current() as int],
            ) && final(self).spec_current() == old(self).spec_current() + 1,
    {
        let l = self.source.unicode_len();
        if self.current >= l {
            None
        } else {
            let c = self.source.get_char(self.current);
            self.current = self.current + 1;
            Some(c)
        }
    }

    /// The slice of source from the token start to the current position.
    pub fn get_lexeme(&self) -> (r: &'a str)
        requires
            self.wf(),
        ensures
            r@ == self.src().subrange(self.spec_start() as int, self.spec_current() as int),
    {
        let source: &'a str = self.source;
        source.substring_char(self.start, self.current)
    }

    /// The character at the current position, without consuming it.
    pub fn peek(&self) -> (r: Option<char>)
        ensures
            r == (if self.spec_current() < self.src().len() {
                Some(self.src()[self.spec_current() as int])
            } else {
                Option::<char>::None
            }),
    {
        if self.is_at_end() {
            None
        } else {
            Some(self.source.get_char(self.current))
        }
    }

    /// The character one past the current position, without consuming
    /// anything.
    pub fn peek_next(&self) -> (r: Option<char>)
        ensures
            r == (if self.spec_current() + 1 < self.src().len() {
                Some(self.src()[self.spec_current() + 1 as int])
            } else {
                Option::<char>::None
            }),
    {
        let l = self.source.unicode_len();
        if self.current >= l {
            None
        } else if self.current + 1 < l {
            Some(self.source.get_char(self.current + 1))
        } else {
            None
        }
    }

    /// Moves the token start up to the current position: the next token
    /// begins here.
    pub fn reset_start(&mut self)
        requires
            old(self).wf(),
        ensures
            final(self).wf(),
            final(self).src() == old(self).src(),
            final(self).spec_start() == old(self).spec_current(),
            final(self).spec_current() == old(self).spec_current(),
            final(self).spec_line() == old(self).spec_line(),
    {
        self.start = self.current;
    }

    /// Whether `c` may start an identifier: an ASCII letter or `_`.
    pub fn is_alpha(&self, c: char) -> (r: bool)
        ensures
            r == is_alpha_char(c),
    {
        ((c as u32) >= ('a' as u32) && (c as u32) <= ('z' as u32)) || ((c as u32) >= ('A' as u32)
            && (c as u32) <= ('Z' as u32)) || c == '_'
    }

    /// Whether `c` is an ASCII decimal digit.
    fn is_digit(&self, c: char) -> (r: bool)
        ensures
            r == is_digit_char(c),
    {
        (c as u32) >= ('0' as u32) && (c as u32) <= ('9' as u32)
    }

    /// Bumps the line counter for one newline, saturating at the largest
    /// representable line number.
    fn bump_line(&mut self)
        ensures
            final(self).src() == old(self).src(),
            final(self).spec_start() == old(self).spec_start(),
            final(self).spec_current() == old(self).spec_current(),
            final(self).spec_line() == next_line(old(self).spec_line()),
    {
        if self.line < usize::MAX {
            self.line = self.line + 1;
        }
    }

    /// Compares the lexeme from `start` on against `rest`: the keyword's
    /// kind on an exact match with nothing trailing, `Identifier` otherwise.
    pub fn check_keyword(
        &self,
        start: usize,
        length: usize,
        rest: &str,
        token_type: TokenType,
    ) -> (r: TokenType)
        requires
            self.wf(),
            start + length <= usize::MAX,
            rest@.len() == length,
        ensures
            r == spec_check_keyword(
                self.src().subrange(self.spec_start() as int, self.spec_current() as int),
                start as nat,
                length as nat,
                rest@,
                token_type,
            ),
    {
        let ghost lexeme = self.src().subrange(
            self.spec_start() as int,
            self.spec_current() as int,
        );
        if self.current - self.start != start + length {
            return TokenType::Identifier;
        }
        let mut i: usize = 0;
        while i < length
            invariant
                self.wf(),
                i <= length,
                rest@.len() == length,
                self.spec_current() - self.spec_start() == start + length,
                lexeme == self.src().subrange(
                    self.spec_start() as int,
                    self.spec_current() as int,
                ),
                forall|j: int| 0 <= j < i ==> lexeme[start + j] == rest@[j],
            decreases length - i,
        {
            let c = self.source.get_char(self.start + start + i);
            let e = rest.get_char(i);
            if c != e {
                proof {
                    assert(lexeme[start + i] == self.src()[self.spec_start() + start + i]);
                    assert(lexeme.subrange(start as int, (start + length) as int) != rest@);
                }
                return TokenType::Identifier;
            }
            i = i + 1;
        }
        proof {
            assert(lexeme.subrange(start as int, (start + length) as int) =~= rest@);
        }
        token_type
    }

    /// Classifies the current lexeme as a keyword or a plain identifier;
    /// exactly [`spec_identifier_type`].
    pub fn identifier_type(&self) -> (r: TokenType)
        requires
            self.wf(),
            self.spec_start() < self.spec_current(),
        ensures
            r == spec_identifier_type(
                self.src().subrange(self.spec_start() as int, self.spec_current() as int),
            ),
    {
        proof {
            reveal_strlit("nd");
            reveal_strlit("lse");
            reveal_strlit("r");
            reveal_strlit("nction");
            reveal_strlit("");
            reveal_strlit("port");
            reveal_strlit("et");
            reveal_strlit("tch");
            reveal_strlit("table");
            reveal_strlit("ot");
            reveal_strlit("ublic");
            reveal_strlit("rue");
            reveal_strlit("lf");
            reveal_strlit("ruct");
            reveal_strlit("eturn");
            reveal_strlit("hile");
        }
        let ghost lexeme = self.src().subrange(
            self.spec_start() as int,
            self.spec_current() as int,
        );
        let c = self.source.get_char(self.start);
        proof {
            assert(lexeme[0] == c);
        }
        let has_second = self.current - self.start > 1;
        if c == 'a' {
            self.check_keyword(1, 2, "nd", TokenType::And)
        } else if c == 'e' {
            self.check_keyword(1, 3, "lse", TokenType::Else)
        } else if c == 'f' {
            if has_second {
                let c1 = self.source.get_char(self.start + 1);
                proof {
                    assert(lexeme[1] == c1);
                }
                if c1 == 'a' {
                    self.check_keyword(2, 3, "lse", TokenType::False)
                } else if c1 == 'o' {
                    self.check_keyword(2, 1, "r", TokenType::For)
                } else if c1 == 'u' {
                    self.check_keyword(2, 6, "nction", TokenType::Function)
                } else {
                    TokenType::Identifier
                }
            } else {
                TokenType::Identifier
            }
        } else if c == 'i' {
            if has_second {
                let c1 = self.source.get_char(self.start + 1);
                proof {
                    assert(lexeme[1] == c1);
                }
                if c1 == 'f' {
                    self.check_keyword(2, 0, "", TokenType::If)
                } else if c1 == 'n' {
                    self.check_keyword(2, 0, "", TokenType::In)
                } else if c1 == 'm' {
                    self.check_keyword(2, 4, "port", TokenType::Import)
                } else {
                    TokenType::Identifier
                }
            } else {
                TokenType::Identifier
            }
        } else if c == 'l' {
            self.check_keyword(1, 2, "et", TokenType::Let)
        } else if c == 'm' {
            if has_second {
                let c1 = self.source.get_char(self.start + 1);
                proof {
                    assert(lexeme[1] == c1);
                }
                if c1 == 'a' {
                    self.check_keyword(2, 3, "tch", TokenType::Match)
                } else if c1 == 'u' {
                    self.check_keyword(2, 5, "table", TokenType::Mutable)
                } else {
                    TokenType::Identifier
                }
            } else {
                TokenType::Identifier
            }
        } else if c == 'n' {
            self.check_keyword(1, 2, "ot", TokenType::Not)
        } else if c == 'o' {
            self.check_keyword(1, 1, "r", TokenType::Or)
        } else if c == 'p' {
            self.check_keyword(1, 5, "ublic", TokenType::Public)
        } else if c == 't' {
            self.check_keyword(1, 3, "rue", TokenType::True)
        } else if c == 's' {
            if has_second {
                let c1 = self.source.get_char(self.start + 1);
                proof {
                    assert(lexeme[1] == c1);
                }
                if c1 == 'e' {
                    self.check_keyword(2, 2, "lf", TokenType::Selff)
                } else if c1 == 't' {
                    self.check_keyword(2, 4, "ruct", TokenType::Struct)
                } else {
                    TokenType::Identifier
                }
            } else {
                TokenType::Identifier
            }
        } else if c == 'r' {
            self.check_keyword(1, 5, "eturn", TokenType::Return)
        } else if c == 'w' {
            self.check_keyword(1, 4, "hile", TokenType::While)
        } else {
            TokenType::Identifier
        }
    }

    /// Reads the rest of an identifier token: consumes letters, digits and
    /// underscores, then classifies the lexeme.
    fn identifier_token(&mut self) -> (token: Token<'a>)
        requires
            old(self).wf(),
            old(self).spec_start() < old(self).spec_current(),
        ensures
            final(self).wf(),
            final(self).src() == old(self).src(),
            final(self).spec_start() == old(self).spec_start(),
            final(self).spec_line() == old(self).spec_line(),
            final(self).spec_current() == ident_end(old(self).src(), old(self).spec_current()),
            token.lexeme@ == old(self).src().subrange(
                old(self).spec_start() as int,
                ident_end(old(self).src(), old(self).spec_current()) as int,
            ),
            token.typee == spec_identifier_type(token.lexeme@),
            token.line == old(self).spec_line(),
    {
        loop
            invariant
                self.wf(),
                self.src() == old(self).src(),
                self.spec_start() == old(self).spec_start(),
                self.spec_line() == old(self).spec_line(),
                self.spec_start() < self.spec_current(),
                ident_end(self.src(), self.spec_current()) == ident_end(
                    old(self).src(),
                    old(self).spec_current(),
                ),
            ensures
                self.spec_current() == ident_end(old(self).src(), old(self).spec_current()),
            decreases self.src().len() - self.spec_current(),
        {
            match self.peek() {
                Some(c) => {
                    if self.is_digit(c) || self.is_alpha(c) {
                        self.advance();
                    } else {
                        break;
                    }
                },
                None => {
                    break;
                },
            }
        }
        Token::new(self.get_lexeme(), self.identifier_type(), self.line)
    }

    /// Reads the rest of a number token: the remaining digits of the whole
    /// part, and a fractional part when a dot is directly followed by a
    /// digit.
    fn number_token(&mut self) -> (token: Token<'a>)
        requires
            old(self).wf(),
        ensures
            final(self).wf(),
            final(self).src() == old(self).src(),
            final(self).spec_start() == old(self).spec_start(),
            final(self).spec_line() == old(self).spec_line(),
            final(self).spec_current() == number_end(old(self).src(), old(self).spec_current()),
            token.lexeme@ == old(self).src().subrange(
                old(self).spec_start() as int,
                number_end(old(self).src(), old(self).spec_current()) as int,
            ),
            token.typee == TokenType::Number,
            token.line == old(self).spec_line(),
    {
        loop
            invariant
                self.wf(),
                self.src() == old(self).src(),
                self.spec_start() == old(self).spec_start(),
                self.spec_line() == old(self).spec_line(),
                digits_end(self.src(), self.spec_current()) == digits_end(
                    old(self).src(),
                    old(self).spec_current(),
                ),
            ensures
                self.spec_current() == digits_end(old(self).src(), old(self).spec_current()),
            decreases self.src().len() - self.spec_current(),
        {
            match self.peek() {
                Some(c) => {
                    if self.is_digit(c) {
                        self.advance();
                    } else {
                        break;
                    }
                },
                None => {
                    break;
                },
            }
        }
        let ghost whole = self.spec_current();
        if let Some(c) = self.peek() {
            if let Some(n) = self.peek_next() {
                if c == '.' && self.is_digit(n) {
                    self.advance();
                }
                loop
                    invariant
                        self.wf(),
                        self.src() == old(self).src(),
                        self.spec_start() == old(self).spec_start(),
                        self.spec_line() == old(self).spec_line(),
                        digits_end(self.src(), self.spec_current()) == number_end(
                            old(self).src(),
                            old(self).spec_current(),
                        ),
                    ensures
                        self.spec_current() == number_end(
                            old(self).src(),
                            old(self).spec_current(),
                        ),
                    decreases self.src().len() - self.spec_current(),
                {
                    match self.peek() {
                        Some(d) => {
                            if self.is_digit(d) {
                                self.advance();
                            } else {
                                break;
                            }
                        },
                        None => {
                            break;
                        },
                    }
                }
            }
        }
        Token::new(self.get_lexeme(), TokenType::Number, self.line)
    }

    /// Reads the rest of a string token whose opening quote is already
    /// consumed: everything up to the closing quote, bumping the line
    /// counter for newlines inside, or the unterminated-string diagnostic
    /// when the source ends first.
    fn string_token(&mut self) -> (r: Result<Token<'a>, Token<'a>>)
        requires
            old(self).wf(),
        ensures
            final(self).wf(),
            final(self).src() == old(self).src(),
            final(self).spec_start() == old(self).spec_start(),
            final(self).spec_line() == line_after(
                old(self).src(),
                old(self).spec_current(),
                string_end(old(self).src(), old(self).spec_current()),
                old(self).spec_line(),
            ),
            string_end(old(self).src(), old(self).spec_current()) >= old(self).src().len() ==> (
            r matches Err(t) && t.lexeme@ == "Unterminated string"@ && t.typee == TokenType::Errorr
                && t.line == final(self).spec_line()
                && final(self).spec_current() == old(self).src().len()),
            string_end(old(self).src(), old(self).spec_current()) < old(self).src().len() ==> (
            r matches Ok(t) && t.lexeme@ == old(self).src().subrange(
                old(self).spec_start() as int,
                string_end(old(self).src(), old(self).spec_current()) + 1 as int,
            ) && t.typee == TokenType::String && t.line == final(self).spec_line()
                && final(self).spec_current() == string_end(old(self).src(), old(self).spec_current()) + 1),
    {
        let ghost close = string_end(old(self).src(), old(self).spec_current());
        proof {
            lemma_string_end_bounds(old(self).src(), old(self).spec_current());
        }
        loop
            invariant
                self.wf(),
                self.src() == old(self).src(),
                self.spec_start() == old(self).spec_start(),
                old(self).spec_current() <= self.spec_current(),
                string_end(self.src(), self.spec_current()) == close,
                self.spec_line() == line_after(
                    self.src(),
                    old(self).spec_current(),
                    self.spec_current(),
                    old(self).spec_line(),
                ),
                self.spec_current() <= close,
            ensures
                self.spec_current() == close,
                self.spec_line() == line_after(
                    self.src(),
                    old(self).spec_current(),
                    close,
                    old(self).spec_line(),
                ),
            decreases self.src().len() - self.spec_current(),
        {
            match self.peek() {
                Some(c) => {
                    if c == '"' {
                        break;
                    }
                    proof {
                        lemma_line_after_snoc(
                            self.src(),
                            old(self).spec_current(),
                            self.spec_current(),
                            old(self).spec_line(),
                        );
                    }
                    if c == '\n' {
                        self.bump_line();
                    }
                    self.advance();
                    proof {
                        lemma_string_end_bounds(self.src(), self.spec_current());
                    }
                },
                None => {
                    break;
                },
            }
        }
        if self.is_at_end() {
            return Err(Token::new("Unterminated string", TokenType::Errorr, self.line));
        }
        self.advance();
        Ok(Token::new(self.get_lexeme(), TokenType::String, self.line))
    }

    /// Reads a one- or two-character operator: the compound kind when the
    /// expected second character follows directly, the base kind otherwise.
    fn compound_token(
        &mut self,
        token_type: TokenType,
        expected: char,
        matched_type: TokenType,
    ) -> (token: Token<'a>)
        requires
            old(self).wf(),
        ensures
            final(self).wf(),
            final(self).src() == old(self).src(),
            final(self).spec_start() == old(self).spec_start(),
            final(self).spec_line() == old(self).spec_line(),
            token.line == old(self).spec_line(),
            (if old(self).spec_current() < old(self).src().len() && old(self).src()[old(
                self,
            ).spec_current() as int] == expected {
                final(self).spec_current() == old(self).spec_current() + 1 && token.typee
                    == matched_type
            } else {
                final(self).spec_current() == old(self).spec_current() && token.typee == token_type
            }),
            token.lexeme@ == old(self).src().subrange(
                old(self).spec_start() as int,
                final(self).spec_current() as int,
            ),
    {
        let p = self.peek();
        let matched = match p {
            Some(c) => c == expected,
            None => false,
        };
        if matched {
            self.advance();
            Token::new(self.get_lexeme(), matched_type, self.line)
        } else {
            Token::new(self.get_lexeme(), token_type, self.line)
        }
    }

    /// Skips what comes before a token: one whitespace character, or a whole
    /// `#` comment up to its terminating newline; exactly [`skip_ws`].
    fn skip_whitespace(&mut self)
        requires
            old(self).wf(),
        ensures
            final(self).wf(),
            final(self).src() == old(self).src(),
            final(self).spec_start() == old(self).spec_start(),
            (final(self).spec_current(), final(self).spec_line()) == skip_ws(
                old(self).src(),
                old(self).spec_current(),
                old(self).spec_line(),
            ),
    {
        loop
            invariant
                self.wf(),
                self.src() == old(self).src(),
                self.spec_start() == old(self).spec_start(),
                self.spec_line() == old(self).spec_line(),
                skip_ws(self.src(), self.spec_current(), self.spec_line()) == skip_ws(
                    old(self).src(),
                    old(self).spec_current(),
                    old(self).spec_line(),
                ),
            decreases self.src().len() - self.spec_current(),
        {
            match self.peek() {
                None => {
                    return;
                },
                Some(c) => {
                    if c == ' ' || c == '\r' || c == '\t' {
                        self.advance();
                        return;
                    } else if c == '\n' {
                        self.bump_line();
                        self.advance();
                        return;
                    } else if c == '#' {
                        let ghost at_comment = self.spec_current();
                        loop
                            invariant
                                self.wf(),
                                self.src() == old(self).src(),
                                self.spec_start() == old(self).spec_start(),
                                self.spec_line() == old(self).spec_line(),
                                at_comment <= self.spec_current(),
                                comment_end(self.src(), self.spec_current()) == comment_end(
                                    self.src(),
                                    at_comment,
                                ),
                            ensures
                                self.spec_current() == comment_end(self.src(), at_comment),
                            decreases self.src().len() - self.spec_current(),
                        {
                            match self.peek() {
                                Some(d) => {
                                    if d == '\n' {
                                        break;
                                    }
                                    self.advance();
                                },
                                None => {
                                    break;
                                },
                            }
                        }
                        proof {
                            lemma_comment_end_bounds(self.src(), at_comment + 1);
                            assert(comment_end(self.src(), at_comment) == comment_end(
                                self.src(),
                                at_comment + 1,
                            ));
                            assert(skip_ws(self.src(), at_comment, self.spec_line()) == skip_ws(
                                self.src(),
                                self.spec_current(),
                                self.spec_line(),
                            ));
                        }
                    } else {
                        return;
                    }
                },
            }
        }
    }

    /// Reads the next token; exactly [`spec_get_token`].  A malformed piece
    /// of input — an unexpected character, an unterminated string — comes
    /// back as `Err` holding the diagnostic token.
    pub fn get_token(&mut self) -> (r: Result<Token<'a>, Token<'a>>)
        requires
            old(self).wf(),
        ensures
            final(self).wf(),
            final(self).src() == old(self).src(),
            ({
                let info = spec_get_token(
                    old(self).src(),
                    old(self).spec_current(),
                    old(self).spec_line(),
                );
                &&& final(self).spec_start() == info.token_start
                &&& final(self).spec_current() == info.end
                &&& final(self).spec_line() == info.end_line
                &&& (match r {
                    Ok(t) => !info.is_err && t.lexeme@ == info.lexeme && t.typee == info.typee
                        && t.line == info.line,
                    Err(t) => info.is_err && t.lexeme@ == info.lexeme && t.typee == info.typee
                        && t.line == info.line,
                })
            }),
    {
        self.skip_whitespace();
        self.reset_start();
        match self.advance() {
            None => Ok(Token::new(self.get_lexeme(), TokenType::EOF, self.line)),
            Some(c) => {
                if self.is_alpha(c) {
                    return Ok(self.identifier_token());
                }
                if self.is_digit(c) {
                    return Ok(self.number_token());
                }
                match TokenType::try_from(c) {
                    Ok(tt) => match tt {
                        TokenType::LeftParen | TokenType::RightParen | TokenType::LeftBrace
                            | TokenType::RightBrace | TokenType::Comma | TokenType::Dot => Ok(
                            Token::new(self.get_lexeme(), tt, self.line),
                        ),
                        TokenType::Minus => Ok(
                            self.compound_token(TokenType::Minus, '=', TokenType::MinusEqual),
                        ),
                        TokenType::Plus => Ok(
                            self.compound_token(TokenType::Plus, '=', TokenType::PlusEqual),
                        ),
                        TokenType::Slash => Ok(
                            self.compound_token(TokenType::Slash, '=', TokenType::SlashEqual),
                        ),
                        TokenType::Star => Ok(
                            self.compound_token(TokenType::Star, '=', TokenType::StarEqual),
                        ),
                        TokenType::Bang => Ok(
                            self.compound_token(TokenType::Bang, '=', TokenType::BangEqual),
                        ),
                        TokenType::Equal => Ok(
                            self.compound_token(TokenType::Equal, '=', TokenType::EqualEqual),
                        ),
                        TokenType::Less => Ok(
                            self.compound_token(TokenType::Less, '=', TokenType::LessEqual),
                        ),
                        TokenType::Greater => Ok(
                            self.compound_token(TokenType::Greater, '=', TokenType::GreaterEqual),
                        ),
                        TokenType::DoubleQuote => {
                            proof {
                                lemma_string_end_bounds(self.src(), self.spec_current());
                            }
                            self.string_token()
                        },
                        _ => {
                            proof {
                                assert(false);
                            }
                            Err(Token::new("Unexpected character", TokenType::Errorr, self.line))
                        },
                    },
                    Err(_) => Err(
                        Token::new("Unexpected character", TokenType::Errorr, self.line),
                    ),
                }
            },
        }
    }
}

/// Extending the scanned range by one character bumps the line counter once
/// more exactly when that character is a newline.
proof fn lemma_line_after_snoc(src: Seq<char>, from: nat, to: nat, line: usize)
    requires
        from <= to < src.len(),
    ensures
        line_after(src, from, to + 1, line) == (if src[to as int] == '\n' {
            next_line(line_after(src, from, to, line))
        } else {
            line_after(src, from, to, line)
        }),
    decreases to - from,
{
    reveal_with_fuel(line_after, 3);
    if from < to {
        lemma_line_after_snoc(
            src,
            from + 1,
            to,
            if src[from as int] == '\n' {
                next_line(line)
            } else {
                line
            },
        );
    }
}

} // verus!
