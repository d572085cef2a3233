//! Tokenizer for the const-assignment language.
//!
//! `lex` scans the source text left to right, never backtracking, and
//! produces the flat token sequence that the parser consumes. The
//! executable scanner is proved to return exactly `lex_spec(input@)`.

use vstd::prelude::*;

verus! {

/// A single token. Tokens are immutable value types; no source position
/// is retained.
#[derive(Debug, PartialEq, Eq)]
pub enum Token {
    Fn,
    Return,
    Let,
    If,
    While,
    Struct,

    ColonColon,
    Arrow,
    Colon,
    Semicolon,
    Comma,
    Period,

    Plus,
    Hyphen,
    Star,
    Equals,
    EqualsEquals,

    ParenOpen,
    ParenClose,
    BraceOpen,
    BraceClose,
    AngleBracketOpen,
    AngleBracketClose,

    Ident(String),
    NumberLiteral(i64),
    StringLiteral(String),
}

/// The mathematical model of a token: payloads are sequences of
/// characters and unbounded integers.
pub enum SpecToken {
    Fn,
    Return,
    Let,
    If,
    While,
    Struct,

    ColonColon,
    Arrow,
    Colon,
    Semicolon,
    Comma,
    Period,

    Plus,
    Hyphen,
    Star,
    Equals,
    EqualsEquals,

    ParenOpen,
    ParenClose,
    BraceOpen,
    BraceClose,
    AngleBracketOpen,
    AngleBracketClose,

    Ident(Seq<char>),
    NumberLiteral(int),
    StringLiteral(Seq<char>),
}

impl View for Token {
    type V = SpecToken;

    open spec fn view(&self) -> SpecToken {
        match self {
            Token::Fn => SpecToken::Fn,
            Token::Return => SpecToken::Return,
            Token::Let => SpecToken::Let,
            Token::If => SpecToken::If,
            Token::While => SpecToken::While,
            Token::Struct => SpecToken::Struct,
            Token::ColonColon => SpecToken::ColonColon,
            Token::Arrow => SpecToken::Arrow,
            Token::Colon => SpecToken::Colon,
            Token::Semicolon => SpecToken::Semicolon,
            Token::Comma => SpecToken::Comma,
            Token::Period => SpecToken::Period,
            Token::Plus => SpecToken::Plus,
            Token::Hyphen => SpecToken::Hyphen,
            Token::Star => SpecToken::Star,
            Token::Equals => SpecToken::Equals,
            Token::EqualsEquals => SpecToken::EqualsEquals,
            Token::ParenOpen => SpecToken::ParenOpen,
            Token::ParenClose => SpecToken::ParenClose,
            Token::BraceOpen => SpecToken::BraceOpen,
            Token::BraceClose => SpecToken::BraceClose,
            Token::AngleBracketOpen => SpecToken::AngleBracketOpen,
            Token::AngleBracketClose => SpecToken::AngleBracketClose,
            Token::Ident(s) => SpecToken::Ident(s@),
            Token::NumberLiteral(n) => SpecToken::NumberLiteral(*n as int),
            Token::StringLiteral(s) => SpecToken::StringLiteral(s@),
        }
    }
}

impl DeepView for Token {
    type V = SpecToken;

    open spec fn deep_view(&self) -> SpecToken {
        self.view()
    }
}

impl Clone for Token {
    /// A clone is the same token.
    fn clone(&self) -> (r: Self)
        ensures
            r == *self,
    {
        match self {
            Token::Fn => Token::Fn,
            Token::Return => Token::Return,
            Token::Let => Token::Let,
            Token::If => Token::If,
            Token::While => Token::While,
            Token::Struct => Token::Struct,
            Token::ColonColon => Token::ColonColon,
            Token::Arrow => Token::Arrow,
            Token::Colon => Token::Colon,
            Token::Semicolon => Token::Semicolon,
            Token::Comma => Token::Comma,
            Token::Period => Token::Period,
            Token::Plus => Token::Plus,
            Token::Hyphen => Token::Hyphen,
            Token::Star => Token::Star,
            Token::Equals => Token::Equals,
            Token::EqualsEquals => Token::EqualsEquals,
            Token::ParenOpen => Token::ParenOpen,
            Token::ParenClose => Token::ParenClose,
            Token::BraceOpen => Token::BraceOpen,
            Token::BraceClose => Token::BraceClose,
            Token::AngleBracketOpen => Token::AngleBracketOpen,
            Token::AngleBracketClose => Token::AngleBracketClose,
            Token::Ident(s) => Token::Ident(s.clone()),
            Token::NumberLiteral(n) => Token::NumberLiteral(*n),
            Token::StringLiteral(s) => Token::StringLiteral(s.clone()),
        }
    }
}

impl Token {
    /// The identifier text, for `Ident` tokens only.
    pub fn ident(&self) -> (r: Option<String>)
        ensures
            match r {
                Some(s) => self@ == SpecToken::Ident(s@),
                None => !(self@ is Ident),
            },
    {
        match self {
            Token::Ident(ident) => Some(ident.clone()),
            _ => None,
        }
    }
}

/// A fatal scanning failure; the whole run is aborted.
#[derive(Debug, PartialEq, Eq, Clone)]
pub enum LexError {
    /// A character that begins no token.
    UnexpectedChar { c: char, pos: usize },
    /// A string literal whose closing quote is missing.
    UnterminatedString { pos: usize },
    /// A decimal literal that does not fit in an `i64`.
    NumberOutOfRange { pos: usize },
}

/// Space, tab or newline: skipped between tokens.
pub open spec fn spec_is_space(c: char) -> bool {
    c == ' ' || c == '\t' || c == '\n'
}

/// First character of an identifier or keyword.
pub open spec fn spec_is_ident_start(c: char) -> bool {
    ('a' as u32 <= c as u32 && c as u32 <= 'z' as u32)
        || ('A' as u32 <= c as u32 && c as u32 <= 'Z' as u32)
        || c == '_'
}

pub open spec fn spec_is_digit(c: char) -> bool {
    '0' as u32 <= c as u32 && c as u32 <= '9' as u32
}

/// Any character allowed after the first one of an identifier.
pub open spec fn spec_is_ident_anywhere(c: char) -> bool {
    spec_is_ident_start(c) || spec_is_digit(c)
}

pub open spec fn spec_digit_value(c: char) -> int {
    c as u32 - '0' as u32
}

/// The position right after a `//` comment: one past the first newline at
/// or after `pos`, or one past the end of the input if no newline follows.
pub open spec fn spec_line_comment_end(input: Seq<char>, pos: int) -> int
    decreases input.len() - pos,
{
    if pos < 0 || pos >= input.len() {
        pos + 1
    } else if input[pos] == '\n' {
        pos + 1
    } else {
        spec_line_comment_end(input, pos + 1)
    }
}

/// The index of the closing quote of a string literal whose content
/// starts at `pos`, if there is one.
pub open spec fn spec_string_end(input: Seq<char>, pos: int) -> Option<int>
    decreases input.len() - pos,
{
    if pos < 0 || pos >= input.len() {
        None
    } else if input[pos] == '"' {
        Some(pos)
    } else {
        spec_string_end(input, pos + 1)
    }
}

/// The first index at or after `pos` holding no identifier character.
pub open spec fn spec_ident_end(input: Seq<char>, pos: int) -> int
    decreases input.len() - pos,
{
    if pos < 0 || pos >= input.len() {
        pos
    } else if spec_is_ident_anywhere(input[pos]) {
        spec_ident_end(input, pos + 1)
    } else {
        pos
    }
}

/// The first index at or after `pos` holding no decimal digit.
pub open spec fn spec_number_end(input: Seq<char>, pos: int) -> int
    decreases input.len() - pos,
{
    if pos < 0 || pos >= input.len() {
        pos
    } else if spec_is_digit(input[pos]) {
        spec_number_end(input, pos + 1)
    } else {
        pos
    }
}

/// The value of a run of decimal digits, most significant first.
pub open spec fn spec_digits_value(s: Seq<char>) -> int
    decreases s.len(),
{
    if s.len() == 0 {
        0
    } else {
        spec_digits_value(s.drop_last()) * 10 + spec_digit_value(s.last())
    }
}

/// The token an identifier run denotes: one of the closed keyword set,
/// or a plain identifier.
pub open spec fn spec_keyword_or_ident(s: Seq<char>) -> SpecToken {
    if s == "fn"@ {
        SpecToken::Fn
    } else if s == "return"@ {
        SpecToken::Return
    } else if s == "let"@ {
        SpecToken::Let
    } else if s == "if"@ {
        SpecToken::If
    } else if s == "while"@ {
        SpecToken::While
    } else if s == "struct"@ {
        SpecToken::Struct
    } else {
        SpecToken::Ident(s)
    }
}

/// Prepend a token to the result of lexing the rest of the input.
pub open spec fn spec_lex_cons(
    t: SpecToken,
    rest: Result<Seq<SpecToken>, LexError>,
) -> Result<Seq<SpecToken>, LexError> {
    match rest {
        Ok(ts) => Ok(seq![t] + ts),
        Err(e) => Err(e),
    }
}

/// The tokens of `input` from position `pos` on. At each position, in
/// priority order: skip whitespace and `//` comments; two-character
/// tokens `::`, `->`, `==` when the following character matches;
/// single-character punctuation; a `"..."` string literal without escape
/// sequences; an identifier or keyword; a decimal integer literal.
/// Anything else is a fatal `LexError`.
pub open spec fn spec_lex_from(input: Seq<char>, pos: int) -> Result<Seq<SpecToken>, LexError>
    decreases input.len() - pos,
{
    if pos < 0 || pos >= input.len() {
        Ok(Seq::empty())
    } else {
        let c = input[pos];
        if spec_is_space(c) {
            spec_lex_from(input, pos + 1)
        } else if c == '/' && pos + 1 < input.len() && input[pos + 1] == '/' {
            let after = spec_line_comment_end(input, pos);
            if pos < after && after <= input.len() {
                spec_lex_from(input, after)
            } else {
                Ok(Seq::empty())
            }
        } else if c == ':' && pos + 1 < input.len() && input[pos + 1] == ':' {
            spec_lex_cons(SpecToken::ColonColon, spec_lex_from(input, pos + 2))
        } else if c == '-' && pos + 1 < input.len() && input[pos + 1] == '>' {
            spec_lex_cons(SpecToken::Arrow, spec_lex_from(input, pos + 2))
        } else if c == ':' {
            spec_lex_cons(SpecToken::Colon, spec_lex_from(input, pos + 1))
        } else if c == ';' {
            spec_lex_cons(SpecToken::Semicolon, spec_lex_from(input, pos + 1))
        } else if c == ',' {
            spec_lex_cons(SpecToken::Comma, spec_lex_from(input, pos + 1))
        } else if c == '.' {
            spec_lex_cons(SpecToken::Period, spec_lex_from(input, pos + 1))
        } else if c == '+' {
            spec_lex_cons(SpecToken::Plus, spec_lex_from(input, pos + 1))
        } else if c == '-' {
            spec_lex_cons(SpecToken::Hyphen, spec_lex_from(input, pos + 1))
        } else if c == '*' {
            spec_lex_cons(SpecToken::Star, spec_lex_from(input, pos + 1))
        } else if c == '=' && pos + 1 < input.len() && input[pos + 1] == '=' {
            spec_lex_cons(SpecToken::EqualsEquals, spec_lex_from(input, pos + 2))
        } else if c == '=' {
            spec_lex_cons(SpecToken::Equals, spec_lex_from(input, pos + 1))
        } else if c == '(' {
            spec_lex_cons(SpecToken::ParenOpen, spec_lex_from(input, pos + 1))
        } else if c == ')' {
            spec_lex_cons(SpecToken::ParenClose, spec_lex_from(input, pos + 1))
        } else if c == '{' {
            spec_lex_cons(SpecToken::BraceOpen, spec_lex_from(input, pos + 1))
        } else if c == '}' {
            spec_lex_cons(SpecToken::BraceClose, spec_lex_from(input, pos + 1))
        } else if c == '<' {
            spec_lex_cons(SpecToken::AngleBracketOpen, spec_lex_from(input, pos + 1))
        } else if c == '>' {
            spec_lex_cons(SpecToken::AngleBracketClose, spec_lex_from(input, pos + 1))
        } else if c == '"' {
            match spec_string_end(input, pos + 1) {
                Some(endq) => {
                    if pos < endq + 1 && endq + 1 <= input.len() {
                        spec_lex_cons(
                            SpecToken::StringLiteral(input.subrange(pos + 1, endq)),
                            spec_lex_from(input, endq + 1),
                        )
                    } else {
                        Ok(Seq::empty())
                    }
                },
                None => Err(LexError::UnterminatedString { pos: pos as usize }),
            }
        } else if spec_is_ident_start(c) {
            let end = spec_ident_end(input, pos + 1);
            let t = spec_keyword_or_ident(input.subrange(pos, end));
            if pos < end && end <= input.len() {
                spec_lex_cons(t, spec_lex_from(input, end))
            } else {
                Ok(Seq::empty())
            }
        } else if spec_is_digit(c) {
            let end = spec_number_end(input, pos + 1);
            let v = spec_digits_value(input.subrange(pos, end));
            if v > i64::MAX {
                Err(LexError::NumberOutOfRange { pos: pos as usize })
            } else if pos < end && end <= input.len() {
                spec_lex_cons(SpecToken::NumberLiteral(v), spec_lex_from(input, end))
            } else {
                Ok(Seq::empty())
            }
        } else {
            Err(LexError::UnexpectedChar { c, pos: pos as usize })
        }
    }
}

/// The token sequence of a whole source text, or the first scanning
/// failure.
pub open spec fn lex_spec(input: Seq<char>) -> Result<Seq<SpecToken>, LexError> {
    spec_lex_from(input, 0)
}

/// The value of a run of digits is never negative.
proof fn lemma_digits_value_nonneg(s: Seq<char>)
    requires
        forall|i: int| 0 <= i < s.len() ==> spec_is_digit(#[trigger] s[i]),
    ensures
        spec_digits_value(s) >= 0,
    decreases s.len(),
{
    if s.len() > 0 {
        lemma_digits_value_nonneg(s.drop_last());
    }
}

/// Extending a run of digits to the right never lowers its value.
proof fn lemma_digits_value_mono(s: Seq<char>, k: int)
    requires
        0 <= k <= s.len(),
        forall|i: int| 0 <= i < s.len() ==> spec_is_digit(#[trigger] s[i]),
    ensures
        spec_digits_value(s.subrange(0, k)) <= spec_digits_value(s),
    decreases s.len() - k,
{
    if k == s.len() {
        assert(s.subrange(0, k) =~= s);
    } else {
        lemma_digits_value_mono(s, k + 1);
        let t = s.subrange(0, k + 1);
        assert(t.drop_last() =~= s.subrange(0, k));
        lemma_digits_value_nonneg(s.subrange(0, k));
    }
}

fn is_space(c: char) -> (b: bool)
    ensures
        b == spec_is_space(c),
{
    c == ' ' || c == '\t' || c == '\n'
}

/// Whether `c` may begin an identifier or keyword.
pub fn is_ident_start(c: char) -> (b: bool)
    ensures
        b == spec_is_ident_start(c),
{
    ('a' as u32 <= c as u32 && c as u32 <= 'z' as u32) || ('A' as u32 <= c as u32 && c as u32
        <= 'Z' as u32) || c == '_'
}

fn is_digit(c: char) -> (b: bool)
    ensures
        b == spec_is_digit(c),
{
    '0' as u32 <= c as u32 && c as u32 <= '9' as u32
}

/// Whether `c` may stand anywhere in an identifier after its first
/// character.
pub fn is_ident_anywhere(c: char) -> (b: bool)
    ensures
        b == spec_is_ident_anywhere(c),
{
    is_ident_start(c) || is_digit(c)
}

/// Character-for-character string comparison.
pub(crate) fn str_eq(a: &str, b: &str) -> (r: bool)
    ensures
        r == (a@ == b@),
{
    let na = a.unicode_len();
    let nb = b.unicode_len();
    if na != nb {
        return false;
    }
    let mut i: usize = 0;
    while i < na
        invariant
            na == a@.len(),
            na == b@.len(),
            i <= na,
            forall|j: int| 0 <= j < i ==> a@[j] == b@[j],
        decreases na - i,
    {
        if a.get_char(i) != b.get_char(i) {
            return false;
        }
        i += 1;
    }
    proof {
        assert(a@ =~= b@);
    }
    true
}

/// The keyword token for an identifier run, or a plain `Ident`.
fn keyword_or_ident(s: &str) -> (t: Token)
    ensures
        t@ == spec_keyword_or_ident(s@),
{
    if str_eq(s, "fn") {
        Token::Fn
    } else if str_eq(s, "return") {
        Token::Return
    } else if str_eq(s, "let") {
        Token::Let
    } else if str_eq(s, "if") {
        Token::If
    } else if str_eq(s, "while") {
        Token::While
    } else if str_eq(s, "struct") {
        Token::Struct
    } else {
        Token::Ident(s.to_owned())
    }
}

/// Scan the source text into its token sequence, or report the first
/// scanning failure. Returns exactly what `lex_spec` describes.
pub fn lex(input: &str) -> (r: Result<Vec<Token>, LexError>)
    ensures
        match r {
            Ok(tokens) => lex_spec(input@) == Ok::<Seq<SpecToken>, LexError>(tokens.deep_view()),
            Err(e) => lex_spec(input@) == Err::<Seq<SpecToken>, LexError>(e),
        },
{
    let n = input.unicode_len();
    let mut tokens: Vec<Token> = Vec::new();
    let mut pos: usize = 0;

    proof {
        assert(tokens.deep_view() =~= Seq::<SpecToken>::empty());
    }

    while pos < n
        invariant
            n == input@.len(),
            lex_spec(input@) == (match spec_lex_from(input@, pos as int) {
                Ok(rest) => Ok::<Seq<SpecToken>, LexError>(tokens.deep_view() + rest),
                Err(e) => Err::<Seq<SpecToken>, LexError>(e),
            }),
        decreases n - pos,
    {
        let ghost pos0 = pos as int;
        let ghost toks0 = tokens.deep_view();
        let c = input.get_char(pos);
        if is_space(c) {
            pos += 1;
        } else if c == '/' && pos + 1 < n && input.get_char(pos + 1) == '/' {
            let mut cur = pos;
            while cur < n && input.get_char(cur) != '\n'
                invariant
                    n == input@.len(),
                    pos0 <= cur <= n,
                    spec_line_comment_end(input@, pos0) == spec_line_comment_end(
                        input@,
                        cur as int,
                    ),
                decreases n - cur,
            {
                cur += 1;
            }
            assert(spec_line_comment_end(input@, pos0) == cur + 1);
            if cur < n {
                pos = cur + 1;
            } else {
                pos = n;
            }
        } else if c == ':' && pos + 1 < n && input.get_char(pos + 1) == ':' {
            tokens.push(Token::ColonColon);
            pos += 2;
            proof {
                lemma_step(toks0, SpecToken::ColonColon, tokens.deep_view(), input@, pos0,
                    pos as int);
            }
        } else if c == '-' && pos + 1 < n && input.get_char(pos + 1) == '>' {
            tokens.push(Token::Arrow);
            pos += 2;
            proof {
                lemma_step(toks0, SpecToken::Arrow, tokens.deep_view(), input@, pos0, pos as int);
            }
        } else if c == ':' {
            tokens.push(Token::Colon);
            pos += 1;
            proof {
                lemma_step(toks0, SpecToken::Colon, tokens.deep_view(), input@, pos0, pos as int);
            }
        } else if c == ';' {
            tokens.push(Token::Semicolon);
            pos += 1;
            proof {
                lemma_step(toks0, SpecToken::Semicolon, tokens.deep_view(), input@, pos0,
                    pos as int);
            }
        } else if c == ',' {
            tokens.push(Token::Comma);
            pos += 1;
            proof {
                lemma_step(toks0, SpecToken::Comma, tokens.deep_view(), input@, pos0, pos as int);
            }
        } else if c == '.' {
            tokens.push(Token::Period);
            pos += 1;
            proof {
                lemma_step(toks0, SpecToken::Period, tokens.deep_view(), input@, pos0, pos as int);
            }
        } else if c == '+' {
            tokens.push(Token::Plus);
            pos += 1;
            proof {
                lemma_step(toks0, SpecToken::Plus, tokens.deep_view(), input@, pos0, pos as int);
            }
        } else if c == '-' {
            tokens.push(Token::Hyphen);
            pos += 1;
            proof {
                lemma_step(toks0, SpecToken::Hyphen, tokens.deep_view(), input@, pos0, pos as int);
            }
        } else if c == '*' {
            tokens.push(Token::Star);
            pos += 1;
            proof {
                lemma_step(toks0, SpecToken::Star, tokens.deep_view(), input@, pos0, pos as int);
            }
        } else if c == '=' && pos + 1 < n && input.get_char(pos + 1) == '=' {
            tokens.push(Token::EqualsEquals);
            pos += 2;
            proof {
                lemma_step(toks0, SpecToken::EqualsEquals, tokens.deep_view(), input@, pos0,
                    pos as int);
            }
        } else if c == '=' {
            tokens.push(Token::Equals);
            pos += 1;
            proof {
                lemma_step(toks0, SpecToken::Equals, tokens.deep_view(), input@, pos0, pos as int);
            }
        } else if c == '(' {
            tokens.push(Token::ParenOpen);
            pos += 1;
            proof {
                lemma_step(toks0, SpecToken::ParenOpen, tokens.deep_view(), input@, pos0,
                    pos as int);
            }
        } else if c == ')' {
            tokens.push(Token::ParenClose);
            pos += 1;
            proof {
                lemma_step(toks0, SpecToken::ParenClose, tokens.deep_view(), input@, pos0,
                    pos as int);
            }
        } else if c == '{' {
            tokens.push(Token::BraceOpen);
            pos += 1;
            proof {
                lemma_step(toks0, SpecToken::BraceOpen, tokens.deep_view(), input@, pos0,
                    pos as int);
            }
        } else if c == '}' {
            tokens.push(Token::BraceClose);
            pos += 1;
            proof {
                lemma_step(toks0, SpecToken::BraceClose, tokens.deep_view(), input@, pos0,
                    pos as int);
            }
        } else if c == '<' {
            tokens.push(Token::AngleBracketOpen);
            pos += 1;
            proof {
                lemma_step(toks0, SpecToken::AngleBracketOpen, tokens.deep_view(), input@, pos0,
                    pos as int);
            }
        } else if c == '>' {
            tokens.push(Token::AngleBracketClose);
            pos += 1;
            proof {
                lemma_step(toks0, SpecToken::AngleBracketClose, tokens.deep_view(), input@, pos0,
                    pos as int);
            }
        } else if c == '"' {
            let mut cur = pos + 1;
            while cur < n && input.get_char(cur) != '"'
                invariant
                    n == input@.len(),
                    pos0 + 1 <= cur <= n,
                    spec_string_end(input@, pos0 + 1) == spec_string_end(input@, cur as int),
                decreases n - cur,
            {
                cur += 1;
            }
            if cur < n {
                assert(spec_string_end(input@, pos0 + 1) == Some(cur as int));
                let text = input.substring_char(pos + 1, cur);
                tokens.push(Token::StringLiteral(text.to_owned()));
                pos = cur + 1;
                proof {
                    lemma_step(toks0, SpecToken::StringLiteral(input@.subrange(pos0 + 1,
                        cur as int)), tokens.deep_view(), input@, pos0, pos as int);
                }
            } else {
                assert(spec_string_end(input@, pos0 + 1) is None);
                return Err(LexError::UnterminatedString { pos });
            }
        } else if is_ident_start(c) {
            let mut cur = pos + 1;
            while cur < n && is_ident_anywhere(input.get_char(cur))
                invariant
                    n == input@.len(),
                    pos0 + 1 <= cur <= n,
                    spec_ident_end(input@, pos0 + 1) == spec_ident_end(input@, cur as int),
                decreases n - cur,
            {
                cur += 1;
            }
            assert(spec_ident_end(input@, pos0 + 1) == cur as int);
            let text = input.substring_char(pos, cur);
            let t = keyword_or_ident(text);
            tokens.push(t);
            pos = cur;
            proof {
                lemma_step(toks0, spec_keyword_or_ident(input@.subrange(pos0, cur as int)),
                    tokens.deep_view(), input@, pos0, pos as int);
            }
        } else if is_digit(c) {
            let mut cur = pos + 1;
            while cur < n && is_digit(input.get_char(cur))
                invariant
                    n == input@.len(),
                    pos0 + 1 <= cur <= n,
                    spec_is_digit(input@[pos0]),
                    forall|j: int| pos0 <= j < cur ==> spec_is_digit(#[trigger] input@[j]),
                    spec_number_end(input@, pos0 + 1) == spec_number_end(input@, cur as int),
                decreases n - cur,
            {
                cur += 1;
            }
            assert(spec_number_end(input@, pos0 + 1) == cur as int);
            let ghost run = input@.subrange(pos0, cur as int);
            let mut val: i64 = 0;
            let mut i = pos;
            while i < cur
                invariant
                    n == input@.len(),
                    0 <= pos0 <= i <= cur <= n,
                    pos0 < n,
                    pos as int == pos0,
                    forall|j: int| pos0 <= j < cur ==> spec_is_digit(#[trigger] input@[j]),
                    spec_number_end(input@, pos0 + 1) == cur as int,
                    run == input@.subrange(pos0, cur as int),
                    0 <= val,
                    val == spec_digits_value(input@.subrange(pos0, i as int)),
                    lex_spec(input@) == (match spec_lex_from(input@, pos0) {
                        Ok(rest) => Ok::<Seq<SpecToken>, LexError>(tokens.deep_view() + rest),
                        Err(e) => Err::<Seq<SpecToken>, LexError>(e),
                    }),
                decreases cur - i,
            {
                let c2 = input.get_char(i);
                let d = (c2 as u32 - '0' as u32) as i64;
                proof {
                    let prefix1 = input@.subrange(pos0, i + 1);
                    assert(prefix1.drop_last() =~= input@.subrange(pos0, i as int));
                    assert(spec_digits_value(prefix1) == val * 10 + d);
                }
                if val > (i64::MAX - d) / 10 {
                    proof {
                        assert(val * 10 + d > i64::MAX);
                        assert(input@.subrange(pos0, i + 1) =~= run.subrange(0, i + 1 - pos0));
                        lemma_digits_value_mono(run, i + 1 - pos0);
                    }
                    return Err(LexError::NumberOutOfRange { pos });
                }
                val = val * 10 + d;
                i += 1;
            }
            tokens.push(Token::NumberLiteral(val));
            pos = cur;
            proof {
                lemma_step(toks0, SpecToken::NumberLiteral(val as int), tokens.deep_view(),
                    input@, pos0, pos as int);
            }
        } else {
            return Err(LexError::UnexpectedChar { c, pos });
        }
    }
    proof {
        assert(tokens.deep_view() + Seq::<SpecToken>::empty() =~= tokens.deep_view());
    }
    Ok(tokens)
}

/// One scanning step: when the token at `pos0` is `t` and scanning
/// continues at `pos1`, the tokens gathered so far plus the rest of the
/// input's tokens stay the tokens of the whole input.
proof fn lemma_step(
    toks0: Seq<SpecToken>,
    t: SpecToken,
    toks1: Seq<SpecToken>,
    input: Seq<char>,
    pos0: int,
    pos1: int,
)
    requires
        toks1 =~= toks0.push(t),
        spec_lex_from(input, pos0) == spec_lex_cons(t, spec_lex_from(input, pos1)),
    ensures
        (match spec_lex_from(input, pos0) {
            Ok(rest) => Ok::<Seq<SpecToken>, LexError>(toks0 + rest),
            Err(e) => Err::<Seq<SpecToken>, LexError>(e),
        }) == (match spec_lex_from(input, pos1) {
            Ok(rest) => Ok::<Seq<SpecToken>, LexError>(toks1 + rest),
            Err(e) => Err::<Seq<SpecToken>, LexError>(e),
        }),
{
    match spec_lex_from(input, pos1) {
        Ok(rest) => {
            assert(toks0 + (seq![t] + rest) =~= toks1 + rest);
        },
        Err(e) => {},
    }
}

} // verus!
