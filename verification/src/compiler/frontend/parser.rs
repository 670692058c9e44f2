//! Lexer and recursive-descent parser for a small Rust-like function syntax
//! with refinement annotations on types.

use vstd::prelude::*;
use crate::outside::{
    char_is_alphabetic, char_is_numeric, char_is_whitespace, push_char, spec_is_alphabetic,
    spec_is_numeric, spec_is_whitespace,
};
use crate::text::{append_chars, chars_to_string, dec, str_eq, text_concat, u64_to_string};

verus! {

broadcast use vstd::string::group_string_axioms;

/// A lexical token.
#[derive(Debug, Clone, PartialEq)]
pub enum Token {
    Fn,
    Let,
    Mut,
    Return,
    If,
    Else,
    Loop,
    Break,
    Struct,
    Enum,
    LeftBrace,
    RightBrace,
    LeftParen,
    RightParen,
    LeftBracket,
    RightBracket,
    Arrow,
    Colon,
    Semicolon,
    Comma,
    Dot,
    Ampersand,
    Plus,
    Minus,
    Star,
    Slash,
    Equals,
    Question,
    Ident(String),
    IntLit(u64),
    StrLit(String),
    Eof,
}

/// A token with its text payloads as character sequences.
pub enum TokenView {
    Fn,
    Let,
    Mut,
    Return,
    If,
    Else,
    Loop,
    Break,
    Struct,
    Enum,
    LeftBrace,
    RightBrace,
    LeftParen,
    RightParen,
    LeftBracket,
    RightBracket,
    Arrow,
    Colon,
    Semicolon,
    Comma,
    Dot,
    Ampersand,
    Plus,
    Minus,
    Star,
    Slash,
    Equals,
    Question,
    Ident(Seq<char>),
    IntLit(u64),
    StrLit(Seq<char>),
    Eof,
}

impl View for Token {
    type V = TokenView;

    open spec fn view(&self) -> TokenView {
        match self {
            Token::Fn => TokenView::Fn,
            Token::Let => TokenView::Let,
            Token::Mut => TokenView::Mut,
            Token::Return => TokenView::Return,
            Token::If => TokenView::If,
            Token::Else => TokenView::Else,
            Token::Loop => TokenView::Loop,
            Token::Break => TokenView::Break,
            Token::Struct => TokenView::Struct,
            Token::Enum => TokenView::Enum,
            Token::LeftBrace => TokenView::LeftBrace,
            Token::RightBrace => TokenView::RightBrace,
            Token::LeftParen => TokenView::LeftParen,
            Token::RightParen => TokenView::RightParen,
            Token::LeftBracket => TokenView::LeftBracket,
            Token::RightBracket => TokenView::RightBracket,
            Token::Arrow => TokenView::Arrow,
            Token::Colon => TokenView::Colon,
            Token::Semicolon => TokenView::Semicolon,
            Token::Comma => TokenView::Comma,
            Token::Dot => TokenView::Dot,
            Token::Ampersand => TokenView::Ampersand,
            Token::Plus => TokenView::Plus,
            Token::Minus => TokenView::Minus,
            Token::Star => TokenView::Star,
            Token::Slash => TokenView::Slash,
            Token::Equals => TokenView::Equals,
            Token::Question => TokenView::Question,
            Token::Ident(s) => TokenView::Ident(s@),
            Token::IntLit(n) => TokenView::IntLit(*n),
            Token::StrLit(s) => TokenView::StrLit(s@),
            Token::Eof => TokenView::Eof,
        }
    }
}

/// The debug name of a token without payload (its variant name).
pub open spec fn token_name(t: TokenView) -> Seq<char> {
    match t {
        TokenView::Fn => "Fn"@,
        TokenView::Let => "Let"@,
        TokenView::Mut => "Mut"@,
        TokenView::Return => "Return"@,
        TokenView::If => "If"@,
        TokenView::Else => "Else"@,
        TokenView::Loop => "Loop"@,
        TokenView::Break => "Break"@,
        TokenView::Struct => "Struct"@,
        TokenView::Enum => "Enum"@,
        TokenView::LeftBrace => "LeftBrace"@,
        TokenView::RightBrace => "RightBrace"@,
        TokenView::LeftParen => "LeftParen"@,
        TokenView::RightParen => "RightParen"@,
        TokenView::LeftBracket => "LeftBracket"@,
        TokenView::RightBracket => "RightBracket"@,
        TokenView::Arrow => "Arrow"@,
        TokenView::Colon => "Colon"@,
        TokenView::Semicolon => "Semicolon"@,
        TokenView::Comma => "Comma"@,
        TokenView::Dot => "Dot"@,
        TokenView::Ampersand => "Ampersand"@,
        TokenView::Plus => "Plus"@,
        TokenView::Minus => "Minus"@,
        TokenView::Star => "Star"@,
        TokenView::Slash => "Slash"@,
        TokenView::Equals => "Equals"@,
        TokenView::Question => "Question"@,
        TokenView::Eof => "Eof"@,
        _ => Seq::empty(),
    }
}

/// How a token is shown in messages: keywords `fn` and `let` in source
/// form, identifiers and numbers by their text, string literals in double
/// quotes, everything else by its variant name.
pub open spec fn token_display(t: TokenView) -> Seq<char> {
    match t {
        TokenView::Fn => "fn"@,
        TokenView::Let => "let"@,
        TokenView::Ident(s) => s,
        TokenView::IntLit(n) => dec(n as nat),
        TokenView::StrLit(s) => seq!['"'] + s + seq!['"'],
        _ => token_name(t),
    }
}

impl Token {
    /// The display text of the token (see `token_display`).
    pub fn to_string(&self) -> (s: String)
        ensures
            s@ == token_display(self@),
    {
        match self {
            Token::Fn => String::from_str("fn"),
            Token::Let => String::from_str("let"),
            Token::Ident(s) => s.clone(),
            Token::IntLit(n) => u64_to_string(*n),
            Token::StrLit(s) => {
                let mut r = String::new();
                push_char(&mut r, '"');
                r.append(s.as_str());
                push_char(&mut r, '"');
                assert(r@ =~= seq!['"'] + s@ + seq!['"']);
                r
            },
            _ => self.name(),
        }
    }

    /// The variant name of a token without payload.
    fn name(&self) -> (s: String)
        ensures
            s@ == token_name(self@),
    {
        match self {
            Token::Fn => String::from_str("Fn"),
            Token::Let => String::from_str("Let"),
            Token::Mut => String::from_str("Mut"),
            Token::Return => String::from_str("Return"),
            Token::If => String::from_str("If"),
            Token::Else => String::from_str("Else"),
            Token::Loop => String::from_str("Loop"),
            Token::Break => String::from_str("Break"),
            Token::Struct => String::from_str("Struct"),
            Token::Enum => String::from_str("Enum"),
            Token::LeftBrace => String::from_str("LeftBrace"),
            Token::RightBrace => String::from_str("RightBrace"),
            Token::LeftParen => String::from_str("LeftParen"),
            Token::RightParen => String::from_str("RightParen"),
            Token::LeftBracket => String::from_str("LeftBracket"),
            Token::RightBracket => String::from_str("RightBracket"),
            Token::Arrow => String::from_str("Arrow"),
            Token::Colon => String::from_str("Colon"),
            Token::Semicolon => String::from_str("Semicolon"),
            Token::Comma => String::from_str("Comma"),
            Token::Dot => String::from_str("Dot"),
            Token::Ampersand => String::from_str("Ampersand"),
            Token::Plus => String::from_str("Plus"),
            Token::Minus => String::from_str("Minus"),
            Token::Star => String::from_str("Star"),
            Token::Slash => String::from_str("Slash"),
            Token::Equals => String::from_str("Equals"),
            Token::Question => String::from_str("Question"),
            Token::Eof => String::from_str("Eof"),
            _ => String::new(),
        }
    }

    /// A copy of the token with the same view.
    pub fn copy(&self) -> (t: Token)
        ensures
            t@ == self@,
    {
        match self {
            Token::Ident(s) => Token::Ident(s.clone()),
            Token::StrLit(s) => Token::StrLit(s.clone()),
            Token::IntLit(n) => Token::IntLit(*n),
            Token::Fn => Token::Fn,
            Token::Let => Token::Let,
            Token::Mut => Token::Mut,
            Token::Return => Token::Return,
            Token::If => Token::If,
            Token::Else => Token::Else,
            Token::Loop => Token::Loop,
            Token::Break => Token::Break,
            Token::Struct => Token::Struct,
            Token::Enum => Token::Enum,
            Token::LeftBrace => Token::LeftBrace,
            Token::RightBrace => Token::RightBrace,
            Token::LeftParen => Token::LeftParen,
            Token::RightParen => Token::RightParen,
            Token::LeftBracket => Token::LeftBracket,
            Token::RightBracket => Token::RightBracket,
            Token::Arrow => Token::Arrow,
            Token::Colon => Token::Colon,
            Token::Semicolon => Token::Semicolon,
            Token::Comma => Token::Comma,
            Token::Dot => Token::Dot,
            Token::Ampersand => Token::Ampersand,
            Token::Plus => Token::Plus,
            Token::Minus => Token::Minus,
            Token::Star => Token::Star,
            Token::Slash => Token::Slash,
            Token::Equals => Token::Equals,
            Token::Question => Token::Question,
            Token::Eof => Token::Eof,
        }
    }
}

} // verus!

verus! {

/// The character classes the lexer scans runs of.
pub enum CharClass {
    Space,
    IdentChar,
    Numeric,
    NotQuote,
}

/// Membership of a character in a class.
pub open spec fn in_class(c: char, k: CharClass) -> bool {
    match k {
        CharClass::Space => spec_is_whitespace(c),
        CharClass::IdentChar => spec_is_alphabetic(c) || spec_is_numeric(c) || c == '_',
        CharClass::Numeric => spec_is_numeric(c),
        CharClass::NotQuote => c != '"',
    }
}

/// The end of the run of characters of class `k` that starts at `pos`.
pub open spec fn run_end(s: Seq<char>, pos: int, k: CharClass) -> int
    decreases s.len() - pos,
{
    if 0 <= pos < s.len() && in_class(s[pos], k) {
        run_end(s, pos + 1, k)
    } else {
        pos
    }
}

/// A run ends at or after its start and not past the end of the input.
pub proof fn lemma_run_end_bounds(s: Seq<char>, pos: int, k: CharClass)
    requires
        0 <= pos <= s.len(),
    ensures
        pos <= run_end(s, pos, k) <= s.len(),
        run_end(s, pos, k) < s.len() ==> !in_class(s[run_end(s, pos, k)], k),
        forall|i: int| pos <= i < run_end(s, pos, k) ==> in_class(#[trigger] s[i], k),
    decreases s.len() - pos,
{
    if pos < s.len() && in_class(s[pos], k) {
        lemma_run_end_bounds(s, pos + 1, k);
    }
}

/// Why a run of numeric characters is not a `u64`.
pub enum NumberFault {
    InvalidDigit,
    Overflow,
}

/// The value of a run of decimal digits read left to right, or the first
/// fault met: a character that is not an ASCII digit, or a value above
/// `u64::MAX`.
pub open spec fn parse_decimal(s: Seq<char>) -> Result<nat, NumberFault>
    decreases s.len(),
{
    if s.len() == 0 {
        Ok(0)
    } else {
        match parse_decimal(s.drop_last()) {
            Err(f) => Err(f),
            Ok(v) => {
                let c = s.last();
                if !('0' <= c && c <= '9') {
                    Err(NumberFault::InvalidDigit)
                } else if v * 10 + (c as int - '0' as int) > u64::MAX {
                    Err(NumberFault::Overflow)
                } else {
                    Ok((v * 10 + (c as int - '0' as int)) as nat)
                }
            },
        }
    }
}

/// The message of a number fault, as the standard integer parser words it.
pub open spec fn number_fault_text(f: NumberFault) -> Seq<char> {
    match f {
        NumberFault::InvalidDigit => "invalid digit found in string"@,
        NumberFault::Overflow => "number too large to fit in target type"@,
    }
}

/// The token for a word: a keyword, or else an identifier.
pub open spec fn word_token(w: Seq<char>) -> TokenView {
    if w == "fn"@ {
        TokenView::Fn
    } else if w == "let"@ {
        TokenView::Let
    } else if w == "mut"@ {
        TokenView::Mut
    } else if w == "return"@ {
        TokenView::Return
    } else if w == "if"@ {
        TokenView::If
    } else if w == "else"@ {
        TokenView::Else
    } else if w == "loop"@ {
        TokenView::Loop
    } else if w == "break"@ {
        TokenView::Break
    } else if w == "struct"@ {
        TokenView::Struct
    } else if w == "enum"@ {
        TokenView::Enum
    } else {
        TokenView::Ident(w)
    }
}

/// The token of a one-character symbol, if `c` is one (other than `-`).
pub open spec fn symbol_token(c: char) -> Option<TokenView> {
    if c == '{' {
        Some(TokenView::LeftBrace)
    } else if c == '}' {
        Some(TokenView::RightBrace)
    } else if c == '(' {
        Some(TokenView::LeftParen)
    } else if c == ')' {
        Some(TokenView::RightParen)
    } else if c == '[' {
        Some(TokenView::LeftBracket)
    } else if c == ']' {
        Some(TokenView::RightBracket)
    } else if c == ':' {
        Some(TokenView::Colon)
    } else if c == ';' {
        Some(TokenView::Semicolon)
    } else if c == ',' {
        Some(TokenView::Comma)
    } else if c == '.' {
        Some(TokenView::Dot)
    } else if c == '&' {
        Some(TokenView::Ampersand)
    } else if c == '+' {
        Some(TokenView::Plus)
    } else if c == '*' {
        Some(TokenView::Star)
    } else if c == '/' {
        Some(TokenView::Slash)
    } else if c == '=' {
        Some(TokenView::Equals)
    } else if c == '?' {
        Some(TokenView::Question)
    } else {
        None
    }
}

/// The token that starts at `p` (a non-space character) and the position
/// after it, or the lexical error there.
pub open spec fn lex_step(s: Seq<char>, p: int) -> Result<(TokenView, int), Seq<char>> {
    let c = s[p];
    if symbol_token(c) is Some {
        Ok((symbol_token(c)->0, p + 1))
    } else if c == '-' {
        if p + 1 < s.len() && s[p + 1] == '>' {
            Ok((TokenView::Arrow, p + 2))
        } else {
            Ok((TokenView::Minus, p + 1))
        }
    } else if c == '"' {
        let e = run_end(s, p + 1, CharClass::NotQuote);
        if e >= s.len() {
            Err("Unterminated string"@)
        } else {
            Ok((TokenView::StrLit(s.subrange(p + 1, e)), e + 1))
        }
    } else if spec_is_alphabetic(c) || c == '_' {
        let e = run_end(s, p, CharClass::IdentChar);
        Ok((word_token(s.subrange(p, e)), e))
    } else if spec_is_numeric(c) {
        let e = run_end(s, p, CharClass::Numeric);
        match parse_decimal(s.subrange(p, e)) {
            Ok(n) => Ok((TokenView::IntLit(n as u64), e)),
            Err(f) => Err("Invalid number: "@ + number_fault_text(f)),
        }
    } else {
        Err("Unknown character: "@ + seq![c])
    }
}

/// The tokens of `s` from `pos` on, ending with `Eof`, or the first
/// lexical error.
pub open spec fn lex_from(s: Seq<char>, pos: int) -> Result<Seq<TokenView>, Seq<char>>
    decreases s.len() - pos,
{
    let p = run_end(s, pos, CharClass::Space);
    if p >= s.len() {
        Ok(seq![TokenView::Eof])
    } else {
        match lex_step(s, p) {
            Err(e) => Err(e),
            Ok((t, q)) => if pos < q <= s.len() {
                match lex_from(s, q) {
                    Ok(rest) => Ok(seq![t] + rest),
                    Err(e) => Err(e),
                }
            } else {
                Err(Seq::empty())
            },
        }
    }
}

/// The token views of a token vector.
pub open spec fn token_views(v: Seq<Token>) -> Seq<TokenView> {
    v.map_values(|t: Token| t@)
}

/// A fault in a prefix of a digit run is the fault of every longer prefix.
pub proof fn lemma_parse_decimal_fault_persists(t: Seq<char>, k: int, m: int)
    requires
        0 <= k <= m <= t.len(),
        parse_decimal(t.take(k)) is Err,
    ensures
        parse_decimal(t.take(m)) == parse_decimal(t.take(k)),
    decreases m - k,
{
    if m > k {
        lemma_parse_decimal_fault_persists(t, k, m - 1);
        assert(t.take(m).drop_last() =~= t.take(m - 1));
    }
}

/// A token read at a non-space position ends after it and within the input.
pub proof fn lemma_lex_step_progress(s: Seq<char>, p: int)
    requires
        0 <= p < s.len(),
    ensures
        lex_step(s, p) matches Ok((t, q)) ==> p < q <= s.len(),
{
    lemma_run_end_bounds(s, p + 1, CharClass::NotQuote);
    lemma_run_end_bounds(s, p, CharClass::IdentChar);
    lemma_run_end_bounds(s, p, CharClass::Numeric);
    if p + 1 <= s.len() {
        lemma_run_end_bounds(s, p + 1, CharClass::IdentChar);
        lemma_run_end_bounds(s, p + 1, CharClass::Numeric);
    }
}

/// Turns source text into tokens.
pub struct Lexer {
    input: Vec<char>,
    pos: usize,
}

impl Lexer {
    /// The characters of the source.
    pub closed spec fn chars(&self) -> Seq<char> {
        self.input@
    }

    /// The position of the next character to read.
    pub closed spec fn position(&self) -> int {
        self.pos as int
    }

    /// A lexer at the start of `input`.
    pub fn new(input: &str) -> (l: Lexer)
        ensures
            l.chars() == input@,
            l.position() == 0,
    {
        let mut v: Vec<char> = Vec::new();
        for c in it: input.chars()
            invariant
                it.seq() == input@,
                v@ == it.seq().take(it.index() as int),
        {
            v.push(c);
            proof {
                assert(v@ =~= it.seq().take(it.index() + 1));
            }
        }
        assert(v@ =~= input@);
        Lexer { input: v, pos: 0 }
    }

    fn in_class_exec(c: char, k: &CharClass) -> (r: bool)
        ensures
            r == in_class(c, *k),
    {
        match k {
            CharClass::Space => char_is_whitespace(c),
            CharClass::IdentChar => char_is_alphabetic(c) || char_is_numeric(c) || c == '_',
            CharClass::Numeric => char_is_numeric(c),
            CharClass::NotQuote => c != '"',
        }
    }

    fn scan(&self, start: usize, k: CharClass) -> (e: usize)
        requires
            start <= self.input@.len(),
        ensures
            e == run_end(self.input@, start as int, k),
            start <= e <= self.input@.len(),
    {
        let mut i = start;
        while i < self.input.len() && Self::in_class_exec(self.input[i], &k)
            invariant
                start <= i <= self.input@.len(),
                run_end(self.input@, start as int, k) == run_end(self.input@, i as int, k),
            decreases self.input@.len() - i,
        {
            i = i + 1;
        }
        i
    }

    fn collect(&self, from: usize, to: usize) -> (s: String)
        requires
            from <= to <= self.input@.len(),
        ensures
            s@ == self.input@.subrange(from as int, to as int),
    {
        let mut s = String::new();
        let mut i = from;
        while i < to
            invariant
                from <= i <= to <= self.input@.len(),
                s@ == self.input@.subrange(from as int, i as int),
            decreases to - i,
        {
            push_char(&mut s, self.input[i]);
            assert(s@ =~= self.input@.subrange(from as int, i + 1));
            i = i + 1;
        }
        s
    }

    fn matches_word(&self, from: usize, to: usize, w: &str) -> (r: bool)
        requires
            from <= to <= self.input@.len(),
        ensures
            r == (self.input@.subrange(from as int, to as int) == w@),
    {
        let n = w.unicode_len();
        if n != to - from {
            return false;
        }
        let mut i: usize = 0;
        while i < n
            invariant
                n == w@.len(),
                n == to - from,
                from <= to <= self.input@.len(),
                i <= n,
                forall|j: int| 0 <= j < i ==> self.input@[from + j] == w@[j],
            decreases n - i,
        {
            if self.input[from + i] != w.get_char(i) {
                assert(self.input@.subrange(from as int, to as int)[i as int] != w@[i as int]);
                return false;
            }
            i = i + 1;
        }
        assert(self.input@.subrange(from as int, to as int) =~= w@);
        true
    }

    fn read_ident(&self, from: usize, to: usize) -> (t: Token)
        requires
            from <= to <= self.input@.len(),
        ensures
            t@ == word_token(self.input@.subrange(from as int, to as int)),
    {
        if self.matches_word(from, to, "fn") {
            Token::Fn
        } else if self.matches_word(from, to, "let") {
            Token::Let
        } else if self.matches_word(from, to, "mut") {
            Token::Mut
        } else if self.matches_word(from, to, "return") {
            Token::Return
        } else if self.matches_word(from, to, "if") {
            Token::If
        } else if self.matches_word(from, to, "else") {
            Token::Else
        } else if self.matches_word(from, to, "loop") {
            Token::Loop
        } else if self.matches_word(from, to, "break") {
            Token::Break
        } else if self.matches_word(from, to, "struct") {
            Token::Struct
        } else if self.matches_word(from, to, "enum") {
            Token::Enum
        } else {
            Token::Ident(self.collect(from, to))
        }
    }

    fn read_number(&self, from: usize, to: usize) -> (r: Result<u64, NumberFault>)
        requires
            from <= to <= self.input@.len(),
        ensures
            match parse_decimal(self.input@.subrange(from as int, to as int)) {
                Ok(n) => r == Ok::<u64, NumberFault>(n as u64),
                Err(f) => r == Err::<u64, NumberFault>(f),
            },
    {
        let ghost t = self.input@.subrange(from as int, to as int);
        let mut acc: u64 = 0;
        let mut i = from;
        assert(t.take(0) =~= Seq::<char>::empty());
        while i < to
            invariant
                from <= i <= to <= self.input@.len(),
                t == self.input@.subrange(from as int, to as int),
                parse_decimal(t.take(i - from)) == Ok::<nat, NumberFault>(acc as nat),
            decreases to - i,
        {
            let c = self.input[i];
            assert(t.take(i + 1 - from).drop_last() =~= t.take(i - from));
            assert(t.take(i + 1 - from).last() == c);
            if !('0' <= c && c <= '9') {
                proof { lemma_parse_decimal_fault_persists(t, i + 1 - from, t.len() as int); }
                assert(t.take(t.len() as int) =~= t);
                return Err(NumberFault::InvalidDigit);
            }
            let d: u64 = (c as u32 - '0' as u32) as u64;
            if acc > (u64::MAX - d) / 10 {
                assert(acc * 10 + d > u64::MAX) by (nonlinear_arith)
                    requires acc > (u64::MAX - d) / 10, d <= 9;
                proof { lemma_parse_decimal_fault_persists(t, i + 1 - from, t.len() as int); }
                assert(t.take(t.len() as int) =~= t);
                return Err(NumberFault::Overflow);
            }
            assert(acc * 10 + d <= u64::MAX) by (nonlinear_arith)
                requires acc <= (u64::MAX - d) / 10, d <= 9;
            acc = acc * 10 + d;
            i = i + 1;
        }
        assert(t.take(to - from) =~= t);
        Ok(acc)
    }

    fn next_token(&mut self) -> (r: Result<Token, String>)
        requires
            old(self).pos < old(self).input@.len(),
        ensures
            final(self).input@ == old(self).input@,
            match lex_step(old(self).input@, old(self).pos as int) {
                Ok((t, q)) => r matches Ok(tok) && tok@ == t && final(self).pos == q,
                Err(e) => r matches Err(m) && m@ == e,
            },
    {
        let ghost s = self.input@;
        let n = self.input.len();
        let p = self.pos;
        let c = self.input[p];
        proof { lemma_lex_step_progress(s, p as int); }
        let sym = if c == '{' {
            Some(Token::LeftBrace)
        } else if c == '}' {
            Some(Token::RightBrace)
        } else if c == '(' {
            Some(Token::LeftParen)
        } else if c == ')' {
            Some(Token::RightParen)
        } else if c == '[' {
            Some(Token::LeftBracket)
        } else if c == ']' {
            Some(Token::RightBracket)
        } else if c == ':' {
            Some(Token::Colon)
        } else if c == ';' {
            Some(Token::Semicolon)
        } else if c == ',' {
            Some(Token::Comma)
        } else if c == '.' {
            Some(Token::Dot)
        } else if c == '&' {
            Some(Token::Ampersand)
        } else if c == '+' {
            Some(Token::Plus)
        } else if c == '*' {
            Some(Token::Star)
        } else if c == '/' {
            Some(Token::Slash)
        } else if c == '=' {
            Some(Token::Equals)
        } else if c == '?' {
            Some(Token::Question)
        } else {
            None
        };
        if let Some(t) = sym {
            self.pos = p + 1;
            return Ok(t);
        }
        if c == '-' {
            if p + 1 < self.input.len() && self.input[p + 1] == '>' {
                self.pos = p + 2;
                return Ok(Token::Arrow);
            }
            self.pos = p + 1;
            return Ok(Token::Minus);
        }
        if c == '"' {
            let e = self.scan(p + 1, CharClass::NotQuote);
            if e >= self.input.len() {
                self.pos = e;
                return Err(String::from_str("Unterminated string"));
            }
            let text = self.collect(p + 1, e);
            self.pos = e + 1;
            return Ok(Token::StrLit(text));
        }
        if char_is_alphabetic(c) || c == '_' {
            let e = self.scan(p, CharClass::IdentChar);
            let t = self.read_ident(p, e);
            self.pos = e;
            return Ok(t);
        }
        if char_is_numeric(c) {
            let e = self.scan(p, CharClass::Numeric);
            self.pos = e;
            return match self.read_number(p, e) {
                Ok(n) => Ok(Token::IntLit(n)),
                Err(NumberFault::InvalidDigit) => Err(text_concat("Invalid number: ", "invalid digit found in string")),
                Err(NumberFault::Overflow) => Err(text_concat("Invalid number: ", "number too large to fit in target type")),
            };
        }
        let mut m = String::from_str("Unknown character: ");
        push_char(&mut m, c);
        Err(m)
    }

    /// Reads the rest of the input into tokens, ending with `Eof`.
    #[verifier::loop_isolation(false)]
    pub fn tokenize(&mut self) -> (r: Result<Vec<Token>, String>)
        ensures
            final(self).chars() == old(self).chars(),
            match lex_from(old(self).chars(), old(self).position()) {
                Ok(ts) => r matches Ok(v) && token_views(v@) == ts,
                Err(e) => r matches Err(m) && m@ == e,
            },
    {
        let ghost s = self.input@;
        let mut tokens: Vec<Token> = Vec::new();
        let ghost start = self.pos as int;
        loop
            invariant
                self.input@ == s,
                self.pos <= s.len() || self.pos == start,
                lex_from(s, start) == (match lex_from(s, self.pos as int) {
                    Ok(rest) => Ok(token_views(tokens@) + rest),
                    Err(e) => Err(e),
                }),
            decreases s.len() - self.pos,
        {
            if self.pos >= self.input.len() {
                break;
            }
            let p = self.scan(self.pos, CharClass::Space);
            proof { lemma_run_end_bounds(s, self.pos as int, CharClass::Space); }
            if p >= self.input.len() {
                self.pos = p;
                break;
            }
            self.pos = p;
            let ghost before = tokens@;
            proof { lemma_lex_step_progress(s, p as int); }
            match self.next_token() {
                Ok(t) => {
                    tokens.push(t);
                    proof {
                        assert(token_views(tokens@) =~= token_views(before) + seq![t@]);
                        let q = self.pos as int;
                        assert(lex_step(s, p as int) == Ok::<(TokenView, int), Seq<char>>((t@, q)));
                        match lex_from(s, q) {
                            Ok(rest) => {
                                assert(token_views(before) + (seq![t@] + rest) =~= token_views(tokens@) + rest);
                            },
                            Err(e) => {},
                        }
                    }
                },
                Err(e) => {
                    return Err(e);
                },
            }
        }
        let ghost before = tokens@;
        tokens.push(Token::Eof);
        assert(token_views(tokens@) =~= token_views(before) + seq![TokenView::Eof]);
        Ok(tokens)
    }
}

} // verus!

verus! {

/// The kind of a parsed type.
#[derive(Debug, Clone, Copy, PartialEq, Eq, Structural)]
pub enum TypeKind {
    Unit,
    Bool,
    Usize,
    U8,
    I32,
    Str,
    Reference { mutable: bool },
}

/// A type with an optional refinement predicate (its token text).
#[derive(Debug, Clone)]
pub struct Type {
    pub kind: TypeKind,
    pub refinement: Option<String>,
}

/// A type with its refinement as a character sequence.
pub struct TypeView {
    pub kind: TypeKind,
    pub refinement: Option<Seq<char>>,
}

impl View for Type {
    type V = TypeView;

    open spec fn view(&self) -> TypeView {
        TypeView {
            kind: self.kind,
            refinement: match self.refinement {
                Some(s) => Some(s@),
                None => None,
            },
        }
    }
}

/// An expression.
#[derive(Debug)]
pub enum Expression {
    Ident(String),
    IntLit(u64),
    StrLit(String),
    Call { func: String, args: Vec<Expression> },
    BinaryOp { op: String, left: Box<Expression>, right: Box<Expression> },
}

/// An expression with text as character sequences.
pub enum ExprView {
    Ident(Seq<char>),
    IntLit(u64),
    StrLit(Seq<char>),
    Call { func: Seq<char>, args: Seq<ExprView> },
    BinaryOp { op: Seq<char>, left: Box<ExprView>, right: Box<ExprView> },
}

/// The view of an expression.
pub open spec fn expr_view(e: Expression) -> ExprView
    decreases e,
{
    match e {
        Expression::Ident(s) => ExprView::Ident(s@),
        Expression::IntLit(n) => ExprView::IntLit(n),
        Expression::StrLit(s) => ExprView::StrLit(s@),
        Expression::Call { func, args } => ExprView::Call { func: func@, args: exprs_view(args@) },
        Expression::BinaryOp { op, left, right } => ExprView::BinaryOp {
            op: op@,
            left: Box::new(expr_view(*left)),
            right: Box::new(expr_view(*right)),
        },
    }
}

/// The views of a sequence of expressions.
pub open spec fn exprs_view(s: Seq<Expression>) -> Seq<ExprView>
    decreases s,
{
    if s.len() == 0 {
        Seq::empty()
    } else {
        exprs_view(s.subrange(0, s.len() - 1)).push(expr_view(s[s.len() - 1]))
    }
}

/// A statement.
#[derive(Debug)]
pub enum Statement {
    Let { name: String, ty: Option<Type>, init: Option<Expression> },
    Return { value: Option<Expression> },
    Expression(Expression),
}

/// A statement with text as character sequences.
pub enum StmtView {
    Let { name: Seq<char>, ty: Option<TypeView>, init: Option<ExprView> },
    Return { value: Option<ExprView> },
    Expression(ExprView),
}

/// The view of an optional type.
pub open spec fn opt_type_view(t: Option<Type>) -> Option<TypeView> {
    match t {
        Some(t) => Some(t@),
        None => None,
    }
}

/// The view of an optional expression.
pub open spec fn opt_expr_view(e: Option<Expression>) -> Option<ExprView> {
    match e {
        Some(e) => Some(expr_view(e)),
        None => None,
    }
}

/// The view of a statement.
pub open spec fn stmt_view(s: Statement) -> StmtView {
    match s {
        Statement::Let { name, ty, init } => StmtView::Let {
            name: name@,
            ty: opt_type_view(ty),
            init: opt_expr_view(init),
        },
        Statement::Return { value } => StmtView::Return { value: opt_expr_view(value) },
        Statement::Expression(e) => StmtView::Expression(expr_view(e)),
    }
}

/// A parsed function.
#[derive(Debug)]
pub struct FunctionDef {
    pub name: String,
    pub params: Vec<(String, Type)>,
    pub return_type: Option<Type>,
    pub body: Vec<Statement>,
}

/// A parsed function with text as character sequences.
pub struct FunctionView {
    pub name: Seq<char>,
    pub params: Seq<(Seq<char>, TypeView)>,
    pub return_type: Option<TypeView>,
    pub body: Seq<StmtView>,
}

impl View for FunctionDef {
    type V = FunctionView;

    open spec fn view(&self) -> FunctionView {
        FunctionView {
            name: self.name@,
            params: self.params@.map_values(|p: (String, Type)| (p.0@, p.1@)),
            return_type: opt_type_view(self.return_type),
            body: self.body@.map_values(|s: Statement| stmt_view(s)),
        }
    }
}

/// The outcome of parsing from a position: a value and the position after
/// it, an error message with the position where it arose, or a position
/// from which the parser would search for a closing brace forever.
pub enum Parsed<T> {
    Done(T, int),
    Fail(Seq<char>, int),
    Stuck,
}

/// The token at `pos`, or `Eof` past the end.
pub open spec fn cur(ts: Seq<TokenView>, pos: int) -> TokenView {
    if 0 <= pos < ts.len() {
        ts[pos]
    } else {
        TokenView::Eof
    }
}

/// The tokens the parser's check recognises; any other token is never
/// reported as present.
pub open spec fn checkable(t: TokenView) -> bool {
    match t {
        TokenView::Fn | TokenView::Let | TokenView::LeftBrace | TokenView::RightBrace
        | TokenView::LeftParen | TokenView::RightParen | TokenView::Colon
        | TokenView::Semicolon | TokenView::Comma | TokenView::Arrow | TokenView::Equals
        | TokenView::RightBracket => true,
        _ => false,
    }
}

/// Whether the parser sees `t` at `pos`.
pub open spec fn checks(ts: Seq<TokenView>, pos: int, t: TokenView) -> bool {
    checkable(t) && cur(ts, pos) == t
}

/// The message for a missing token.
pub open spec fn expect_msg(t: TokenView, got: TokenView) -> Seq<char> {
    "Expected "@ + token_name(t) + ", got "@ + token_display(got)
}

/// Consumes `t` at `pos`.
pub open spec fn expect_at(ts: Seq<TokenView>, pos: int, t: TokenView) -> Parsed<()> {
    if checks(ts, pos, t) {
        Parsed::Done((), pos + 1)
    } else {
        Parsed::Fail(expect_msg(t, cur(ts, pos)), pos)
    }
}

/// An identifier at `pos`.
pub open spec fn ident_at(ts: Seq<TokenView>, pos: int) -> Parsed<Seq<char>> {
    match cur(ts, pos) {
        TokenView::Ident(s) => Parsed::Done(s, pos + 1),
        _ => Parsed::Fail("Expected identifier, got "@ + token_display(cur(ts, pos)), pos),
    }
}

/// The kind of a type at `pos`.
pub open spec fn type_kind_at(ts: Seq<TokenView>, pos: int) -> Parsed<TypeKind> {
    let fail = Parsed::Fail("Expected type, got "@ + token_display(cur(ts, pos)), pos);
    match cur(ts, pos) {
        TokenView::Ident(s) => if s == "usize"@ {
            Parsed::Done(TypeKind::Usize, pos + 1)
        } else if s == "u8"@ {
            Parsed::Done(TypeKind::U8, pos + 1)
        } else if s == "i32"@ {
            Parsed::Done(TypeKind::I32, pos + 1)
        } else if s == "str"@ {
            Parsed::Done(TypeKind::Str, pos + 1)
        } else if s == "bool"@ {
            Parsed::Done(TypeKind::Bool, pos + 1)
        } else {
            fail
        },
        TokenView::Ampersand => if cur(ts, pos + 1) == TokenView::Ident("mut"@) {
            Parsed::Done(TypeKind::Reference { mutable: true }, pos + 2)
        } else {
            Parsed::Done(TypeKind::Reference { mutable: false }, pos + 1)
        },
        _ => fail,
    }
}

/// The first position at or after `from` that holds a closing brace.
pub open spec fn brace_close(ts: Seq<TokenView>, from: int) -> Option<int>
    decreases ts.len() - from,
{
    if from < 0 || from >= ts.len() {
        None
    } else if ts[from] == TokenView::RightBrace {
        Some(from)
    } else {
        brace_close(ts, from + 1)
    }
}

/// The display texts of the tokens in `[from, to)`, each followed by a space.
pub open spec fn spaced_text(ts: Seq<TokenView>, from: int, to: int) -> Seq<char>
    decreases to - from,
{
    if to <= from {
        Seq::empty()
    } else {
        spaced_text(ts, from, to - 1) + token_display(ts[to - 1]) + " "@
    }
}

/// `s` without leading white space.
pub open spec fn trim_start(s: Seq<char>) -> Seq<char>
    decreases s.len(),
{
    if s.len() > 0 && spec_is_whitespace(s[0]) {
        trim_start(s.drop_first())
    } else {
        s
    }
}

/// `s` without trailing white space.
pub open spec fn trim_end(s: Seq<char>) -> Seq<char>
    decreases s.len(),
{
    if s.len() > 0 && spec_is_whitespace(s.last()) {
        trim_end(s.drop_last())
    } else {
        s
    }
}

/// A type, with its refinement `{ ... }` if one follows.
pub open spec fn type_at(ts: Seq<TokenView>, pos: int) -> Parsed<TypeView> {
    match type_kind_at(ts, pos) {
        Parsed::Done(k, p) => if checks(ts, p, TokenView::LeftBrace) {
            match brace_close(ts, p + 1) {
                None => Parsed::Stuck,
                Some(r) => Parsed::Done(
                    TypeView { kind: k, refinement: Some(trim_end(trim_start(spaced_text(ts, p + 1, r)))) },
                    r + 1,
                ),
            }
        } else {
            Parsed::Done(TypeView { kind: k, refinement: None }, p)
        },
        Parsed::Fail(m, at) => Parsed::Fail(m, at),
        Parsed::Stuck => Parsed::Stuck,
    }
}

/// An expression: an identifier, a call, or a literal.
pub open spec fn expr_at(ts: Seq<TokenView>, pos: int) -> Parsed<ExprView>
    decreases ts.len() - pos, 0int,
{
    match cur(ts, pos) {
        TokenView::Ident(name) => if checks(ts, pos + 1, TokenView::LeftParen) {
            if pos + 2 <= ts.len() {
                match args_from(ts, pos + 2) {
                    Parsed::Done(a, p) => if checks(ts, p, TokenView::RightParen) {
                        Parsed::Done(ExprView::Call { func: name, args: a }, p + 1)
                    } else {
                        Parsed::Fail(expect_msg(TokenView::RightParen, cur(ts, p)), p)
                    },
                    Parsed::Fail(m, at) => Parsed::Fail(m, at),
                    Parsed::Stuck => Parsed::Stuck,
                }
            } else {
                Parsed::Stuck
            }
        } else {
            Parsed::Done(ExprView::Ident(name), pos + 1)
        },
        TokenView::IntLit(n) => Parsed::Done(ExprView::IntLit(n), pos + 1),
        TokenView::StrLit(s) => Parsed::Done(ExprView::StrLit(s), pos + 1),
        _ => Parsed::Fail("Unexpected token in expression: "@ + token_display(cur(ts, pos)), pos),
    }
}

/// Call arguments up to (not including) the closing parenthesis.
pub open spec fn args_from(ts: Seq<TokenView>, pos: int) -> Parsed<Seq<ExprView>>
    decreases ts.len() - pos, 1int,
{
    if checks(ts, pos, TokenView::RightParen) {
        Parsed::Done(Seq::empty(), pos)
    } else {
        match expr_at(ts, pos) {
            Parsed::Done(e, p1) => if checks(ts, p1, TokenView::RightParen) {
                Parsed::Done(seq![e], p1)
            } else if checks(ts, p1, TokenView::Comma) {
                if pos < p1 < ts.len() {
                    match args_from(ts, p1 + 1) {
                        Parsed::Done(rest, q) => Parsed::Done(seq![e] + rest, q),
                        Parsed::Fail(m, at) => Parsed::Fail(m, at),
                        Parsed::Stuck => Parsed::Stuck,
                    }
                } else {
                    Parsed::Stuck
                }
            } else {
                Parsed::Fail(expect_msg(TokenView::Comma, cur(ts, p1)), p1)
            },
            Parsed::Fail(m, at) => Parsed::Fail(m, at),
            Parsed::Stuck => Parsed::Stuck,
        }
    }
}

} // verus!

verus! {

/// An optional type after a colon at `pos`.
pub open spec fn opt_type_at(ts: Seq<TokenView>, pos: int) -> Parsed<Option<TypeView>> {
    if checks(ts, pos, TokenView::Colon) {
        match type_at(ts, pos + 1) {
            Parsed::Done(t, p) => Parsed::Done(Some(t), p),
            Parsed::Fail(m, at) => Parsed::Fail(m, at),
            Parsed::Stuck => Parsed::Stuck,
        }
    } else {
        Parsed::Done(None, pos)
    }
}

/// An optional expression at `pos`, present when `present` holds there.
pub open spec fn opt_expr_at(ts: Seq<TokenView>, pos: int, present: bool) -> Parsed<Option<ExprView>> {
    if present {
        match expr_at(ts, pos) {
            Parsed::Done(e, p) => Parsed::Done(Some(e), p),
            Parsed::Fail(m, at) => Parsed::Fail(m, at),
            Parsed::Stuck => Parsed::Stuck,
        }
    } else {
        Parsed::Done(None, pos)
    }
}

/// A statement ending in a semicolon.
pub open spec fn statement_at(ts: Seq<TokenView>, pos: int) -> Parsed<StmtView> {
    match cur(ts, pos) {
        TokenView::Let => match ident_at(ts, pos + 1) {
            Parsed::Done(name, p2) => match opt_type_at(ts, p2) {
                Parsed::Done(ty, p3) => match opt_expr_at(ts, p3 + 1, checks(ts, p3, TokenView::Equals)) {
                    Parsed::Done(init, p4) => {
                        let p4 = if checks(ts, p3, TokenView::Equals) { p4 } else { p3 };
                        match expect_at(ts, p4, TokenView::Semicolon) {
                            Parsed::Done(_u, p5) => Parsed::Done(StmtView::Let { name, ty, init }, p5),
                            Parsed::Fail(m, at) => Parsed::Fail(m, at),
                            Parsed::Stuck => Parsed::Stuck,
                        }
                    },
                    Parsed::Fail(m, at) => Parsed::Fail(m, at),
                    Parsed::Stuck => Parsed::Stuck,
                },
                Parsed::Fail(m, at) => Parsed::Fail(m, at),
                Parsed::Stuck => Parsed::Stuck,
            },
            Parsed::Fail(m, at) => Parsed::Fail(m, at),
            Parsed::Stuck => Parsed::Stuck,
        },
        TokenView::Return => {
            let present = !checks(ts, pos + 1, TokenView::Semicolon);
            match opt_expr_at(ts, pos + 1, present) {
                Parsed::Done(value, p) => match expect_at(ts, p, TokenView::Semicolon) {
                    Parsed::Done(_u, q) => Parsed::Done(StmtView::Return { value }, q),
                    Parsed::Fail(m, at) => Parsed::Fail(m, at),
                    Parsed::Stuck => Parsed::Stuck,
                },
                Parsed::Fail(m, at) => Parsed::Fail(m, at),
                Parsed::Stuck => Parsed::Stuck,
            }
        },
        _ => match expr_at(ts, pos) {
            Parsed::Done(e, p) => match expect_at(ts, p, TokenView::Semicolon) {
                Parsed::Done(_u, q) => Parsed::Done(StmtView::Expression(e), q),
                Parsed::Fail(m, at) => Parsed::Fail(m, at),
                Parsed::Stuck => Parsed::Stuck,
            },
            Parsed::Fail(m, at) => Parsed::Fail(m, at),
            Parsed::Stuck => Parsed::Stuck,
        },
    }
}

/// Statements up to (not including) the closing brace.
pub open spec fn statements_from(ts: Seq<TokenView>, pos: int) -> Parsed<Seq<StmtView>>
    decreases ts.len() - pos,
{
    if checks(ts, pos, TokenView::RightBrace) {
        Parsed::Done(Seq::empty(), pos)
    } else {
        match statement_at(ts, pos) {
            Parsed::Done(st, p1) => if pos < p1 <= ts.len() {
                match statements_from(ts, p1) {
                    Parsed::Done(rest, q) => Parsed::Done(seq![st] + rest, q),
                    Parsed::Fail(m, at) => Parsed::Fail(m, at),
                    Parsed::Stuck => Parsed::Stuck,
                }
            } else {
                Parsed::Stuck
            },
            Parsed::Fail(m, at) => Parsed::Fail(m, at),
            Parsed::Stuck => Parsed::Stuck,
        }
    }
}

/// Parameters `name: type`, separated by commas, up to the closing
/// parenthesis.
pub open spec fn params_from(ts: Seq<TokenView>, pos: int) -> Parsed<Seq<(Seq<char>, TypeView)>>
    decreases ts.len() - pos,
{
    if checks(ts, pos, TokenView::RightParen) {
        Parsed::Done(Seq::empty(), pos)
    } else {
        match ident_at(ts, pos) {
            Parsed::Done(name, p1) => match expect_at(ts, p1, TokenView::Colon) {
                Parsed::Done(_u, p2) => match type_at(ts, p2) {
                    Parsed::Done(t, p3) => if checks(ts, p3, TokenView::RightParen) {
                        Parsed::Done(seq![(name, t)], p3)
                    } else if checks(ts, p3, TokenView::Comma) {
                        if pos < p3 < ts.len() {
                            match params_from(ts, p3 + 1) {
                                Parsed::Done(rest, q) => Parsed::Done(seq![(name, t)] + rest, q),
                                Parsed::Fail(m, at) => Parsed::Fail(m, at),
                                Parsed::Stuck => Parsed::Stuck,
                            }
                        } else {
                            Parsed::Stuck
                        }
                    } else {
                        Parsed::Fail(expect_msg(TokenView::Comma, cur(ts, p3)), p3)
                    },
                    Parsed::Fail(m, at) => Parsed::Fail(m, at),
                    Parsed::Stuck => Parsed::Stuck,
                },
                Parsed::Fail(m, at) => Parsed::Fail(m, at),
                Parsed::Stuck => Parsed::Stuck,
            },
            Parsed::Fail(m, at) => Parsed::Fail(m, at),
            Parsed::Stuck => Parsed::Stuck,
        }
    }
}

/// A function: `fn name(params) [-> type] { statements }`.
pub open spec fn function_at(ts: Seq<TokenView>, pos: int) -> Parsed<FunctionView> {
    match expect_at(ts, pos, TokenView::Fn) {
        Parsed::Done(_u, p1) => match ident_at(ts, p1) {
            Parsed::Done(name, p2) => match expect_at(ts, p2, TokenView::LeftParen) {
                Parsed::Done(_u2, p3) => match params_from(ts, p3) {
                    Parsed::Done(params, p4) => match expect_at(ts, p4, TokenView::RightParen) {
                        Parsed::Done(_u3, p5) => {
                            let ret = if checks(ts, p5, TokenView::Arrow) {
                                match type_at(ts, p5 + 1) {
                                    Parsed::Done(t, p) => Parsed::Done(Some(t), p),
                                    Parsed::Fail(m, at) => Parsed::Fail(m, at),
                                    Parsed::Stuck => Parsed::Stuck,
                                }
                            } else {
                                Parsed::Done(None, p5)
                            };
                            match ret {
                                Parsed::Done(return_type, p6) => match expect_at(ts, p6, TokenView::LeftBrace) {
                                    Parsed::Done(_u4, p7) => match statements_from(ts, p7) {
                                        Parsed::Done(body, p8) => match expect_at(ts, p8, TokenView::RightBrace) {
                                            Parsed::Done(_u5, p9) => Parsed::Done(
                                                FunctionView { name, params, return_type, body },
                                                p9,
                                            ),
                                            Parsed::Fail(m, at) => Parsed::Fail(m, at),
                                            Parsed::Stuck => Parsed::Stuck,
                                        },
                                        Parsed::Fail(m, at) => Parsed::Fail(m, at),
                                        Parsed::Stuck => Parsed::Stuck,
                                    },
                                    Parsed::Fail(m, at) => Parsed::Fail(m, at),
                                    Parsed::Stuck => Parsed::Stuck,
                                },
                                Parsed::Fail(m, at) => Parsed::Fail(m, at),
                                Parsed::Stuck => Parsed::Stuck,
                            }
                        },
                        Parsed::Fail(m, at) => Parsed::Fail(m, at),
                        Parsed::Stuck => Parsed::Stuck,
                    },
                    Parsed::Fail(m, at) => Parsed::Fail(m, at),
                    Parsed::Stuck => Parsed::Stuck,
                },
                Parsed::Fail(m, at) => Parsed::Fail(m, at),
                Parsed::Stuck => Parsed::Stuck,
            },
            Parsed::Fail(m, at) => Parsed::Fail(m, at),
            Parsed::Stuck => Parsed::Stuck,
        },
        Parsed::Fail(m, at) => Parsed::Fail(m, at),
        Parsed::Stuck => Parsed::Stuck,
    }
}

} // verus!

verus! {

/// A closing brace found from `from` lies at or after it, within the tokens.
pub proof fn lemma_brace_close(ts: Seq<TokenView>, from: int)
    ensures
        brace_close(ts, from) matches Some(r) ==> 0 <= from <= r < ts.len() && ts[r] == TokenView::RightBrace,
    decreases ts.len() - from,
{
    if 0 <= from < ts.len() && ts[from] != TokenView::RightBrace {
        lemma_brace_close(ts, from + 1);
    }
}

/// Whether an executable result agrees with a parse outcome.
pub open spec fn outcome<X, V>(r: Result<(X, usize), (String, usize)>, p: Parsed<V>, view: spec_fn(X) -> V) -> bool {
    match p {
        Parsed::Done(v, q) => r matches Ok((x, u)) && view(x) == v && u == q,
        Parsed::Fail(m, at) => r matches Err((s, u)) && s@ == m && u == at,
        Parsed::Stuck => false,
    }
}

/// `acc` followed by the parsed sequence.
pub open spec fn prepend<T>(acc: Seq<T>, p: Parsed<Seq<T>>) -> Parsed<Seq<T>> {
    match p {
        Parsed::Done(r, q) => Parsed::Done(acc + r, q),
        Parsed::Fail(m, at) => Parsed::Fail(m, at),
        Parsed::Stuck => Parsed::Stuck,
    }
}

/// `s` without leading and trailing white space.
fn trimmed(v: &Vec<char>) -> (s: String)
    ensures
        s@ == trim_end(trim_start(v@)),
{
    let n = v.len();
    let mut i: usize = 0;
    assert(v@.subrange(0, n as int) =~= v@);
    while i < n && char_is_whitespace(v[i])
        invariant
            i <= n == v@.len(),
            trim_start(v@) == trim_start(v@.subrange(i as int, n as int)),
        decreases n - i,
    {
        assert(v@.subrange(i as int, n as int).drop_first() =~= v@.subrange(i + 1, n as int));
        i = i + 1;
    }
    let mut j = n;
    while j > i && char_is_whitespace(v[j - 1])
        invariant
            i <= j <= n == v@.len(),
            trim_start(v@) == v@.subrange(i as int, n as int),
            trim_end(v@.subrange(i as int, n as int)) == trim_end(v@.subrange(i as int, j as int)),
        decreases j,
    {
        assert(v@.subrange(i as int, j as int).drop_last() =~= v@.subrange(i as int, j - 1));
        j = j - 1;
    }
    chars_to_string(v, i, j)
}

/// Turns tokens into a function syntax tree.
pub struct Parser {
    tokens: Vec<Token>,
    pos: usize,
}

impl Parser {
    /// The views of the tokens.
    pub closed spec fn token_seq(&self) -> Seq<TokenView> {
        token_views(self.tokens@)
    }

    /// The position of the next token.
    pub closed spec fn position(&self) -> int {
        self.pos as int
    }

    /// The position lies within the tokens or just past them.
    pub closed spec fn wf(&self) -> bool {
        self.pos <= self.tokens@.len()
    }

    /// A parser at the first token.
    pub fn new(tokens: Vec<Token>) -> (p: Parser)
        ensures
            p.token_seq() == token_views(tokens@),
            p.position() == 0,
            p.wf(),
    {
        Parser { tokens, pos: 0 }
    }

    fn current_token(&self, pos: usize) -> (t: Token)
        ensures
            t@ == cur(self.token_seq(), pos as int),
            self.token_seq().len() == self.tokens@.len(),
            self.tokens@.len() <= usize::MAX,
            !(t@ is Eof) ==> pos < self.tokens@.len(),
    {
        let n = self.tokens.len();
        if pos < self.tokens.len() {
            self.tokens[pos].copy()
        } else {
            Token::Eof
        }
    }

    fn check(&self, pos: usize, t: &Token) -> (r: bool)
        ensures
            r == checks(self.token_seq(), pos as int, t@),
            r ==> pos < self.tokens@.len(),
    {
        let c = self.current_token(pos);
        let r = match t {
            Token::Fn => matches!(c, Token::Fn),
            Token::Let => matches!(c, Token::Let),
            Token::LeftBrace => matches!(c, Token::LeftBrace),
            Token::RightBrace => matches!(c, Token::RightBrace),
            Token::LeftParen => matches!(c, Token::LeftParen),
            Token::RightParen => matches!(c, Token::RightParen),
            Token::Colon => matches!(c, Token::Colon),
            Token::Semicolon => matches!(c, Token::Semicolon),
            Token::Comma => matches!(c, Token::Comma),
            Token::Arrow => matches!(c, Token::Arrow),
            Token::Equals => matches!(c, Token::Equals),
            Token::RightBracket => matches!(c, Token::RightBracket),
            _ => false,
        };
        r
    }

    fn expect(&self, pos: usize, t: Token) -> (r: Result<usize, (String, usize)>)
        requires
            pos <= self.tokens@.len(),
        ensures
            match expect_at(self.token_seq(), pos as int, t@) {
                Parsed::Done(_u, q) => r == Ok::<usize, (String, usize)>(q as usize) && q <= self.tokens@.len(),
                Parsed::Fail(m, at) => r matches Err((s, u)) && s@ == m && u == at,
                Parsed::Stuck => false,
            },
            r matches Ok(q) ==> q == pos + 1 && q <= self.tokens@.len(),
            r matches Err((_m, at)) ==> at == pos,
    {
        let n = self.tokens.len();
        if self.check(pos, &t) {
            Ok(pos + 1)
        } else {
            let mut m = String::from_str("Expected ");
            let name = t.name();
            m.append(name.as_str());
            m.append(", got ");
            let got = self.current_token(pos).to_string();
            m.append(got.as_str());
            Err((m, pos))
        }
    }

    fn parse_ident(&self, pos: usize) -> (r: Result<(String, usize), (String, usize)>)
        requires
            pos <= self.tokens@.len(),
        ensures
            outcome(r, ident_at(self.token_seq(), pos as int), |s: String| s@),
            r matches Ok((_x, q)) ==> q == pos + 1 && q <= self.tokens@.len(),
            r matches Err((_m, at)) ==> at <= self.tokens@.len(),
    {
        let c = self.current_token(pos);
        match c {
            Token::Ident(s) => {
                assert(pos < self.tokens@.len());
                Ok((s, pos + 1))
            },
            _ => {
                let mut m = String::from_str("Expected identifier, got ");
                let got = c.to_string();
                m.append(got.as_str());
                Err((m, pos))
            },
        }
    }

    fn parse_type(&self, pos: usize) -> (r: Result<(Type, usize), (String, usize)>)
        requires
            pos <= self.tokens@.len(),
            !(type_at(self.token_seq(), pos as int) is Stuck),
        ensures
            outcome(r, type_at(self.token_seq(), pos as int), |t: Type| t@),
            r matches Ok((_x, q)) ==> pos < q <= self.tokens@.len(),
            r matches Err((_m, at)) ==> at <= self.tokens@.len(),
    {
        let ghost ts = self.token_seq();
        let c = self.current_token(pos);
        let fail_msg = {
            let mut m = String::from_str("Expected type, got ");
            let got = c.to_string();
            m.append(got.as_str());
            m
        };
        let (kind, p) = match &c {
            Token::Ident(s) => {
                if str_eq(s.as_str(), "usize") {
                    (TypeKind::Usize, pos + 1)
                } else if str_eq(s.as_str(), "u8") {
                    (TypeKind::U8, pos + 1)
                } else if str_eq(s.as_str(), "i32") {
                    (TypeKind::I32, pos + 1)
                } else if str_eq(s.as_str(), "str") {
                    (TypeKind::Str, pos + 1)
                } else if str_eq(s.as_str(), "bool") {
                    (TypeKind::Bool, pos + 1)
                } else {
                    return Err((fail_msg, pos));
                }
            },
            Token::Ampersand => {
                let next = self.current_token(pos + 1);
                let is_mut = match &next {
                    Token::Ident(n) => str_eq(n.as_str(), "mut"),
                    _ => false,
                };
                if is_mut {
                    assert(pos + 1 < self.tokens@.len());
                    (TypeKind::Reference { mutable: true }, pos + 2)
                } else {
                    (TypeKind::Reference { mutable: false }, pos + 1)
                }
            },
            _ => {
                return Err((fail_msg, pos));
            },
        };
        assert(type_kind_at(ts, pos as int) == Parsed::<TypeKind>::Done(kind, p as int));
        if self.check(p, &Token::LeftBrace) {
            proof { lemma_brace_close(ts, p + 1); }
            let ghost r_end = brace_close(ts, p + 1)->0;
            let mut pred: Vec<char> = Vec::new();
            let mut j = p + 1;
            while !self.check(j, &Token::RightBrace)
                invariant
                    ts == self.token_seq(),
                    ts.len() == self.tokens@.len(),
                    p + 1 <= j <= r_end < ts.len(),
                    brace_close(ts, j as int) == Some(r_end),
                    pred@ == spaced_text(ts, p + 1, j as int),
                decreases r_end - j,
            {
                let t = self.current_token(j);
                let d = t.to_string();
                let ghost before = pred@;
                append_chars(&mut pred, d.as_str());
                pred.push(' ');
                proof {
                    lemma_brace_close(ts, j + 1);
                    assert(j < r_end);
                    reveal_strlit(" ");
                    assert(pred@ =~= before + token_display(ts[j as int]) + " "@);
                }
                j = j + 1;
            }
            assert(j == r_end);
            let refinement = trimmed(&pred);
            Ok((Type { kind, refinement: Some(refinement) }, j + 1))
        } else {
            Ok((Type { kind, refinement: None }, p))
        }
    }
}

} // verus!

verus! {

impl Parser {
    fn parse_call_or_ident(&self, pos: usize) -> (r: Result<(Expression, usize), (String, usize)>)
        requires
            pos <= self.tokens@.len(),
            !(expr_at(self.token_seq(), pos as int) is Stuck),
        ensures
            outcome(r, expr_at(self.token_seq(), pos as int), |e: Expression| expr_view(e)),
            r matches Ok((_x, q)) ==> pos < q <= self.tokens@.len(),
            r matches Err((_m, at)) ==> at <= self.tokens@.len(),
        decreases self.tokens@.len() - pos, 0int,
    {
        let ghost ts = self.token_seq();
        let c = self.current_token(pos);
        match c {
            Token::Ident(name) => {
                if self.check(pos + 1, &Token::LeftParen) {
                    let (args, p) = match self.parse_args(pos + 2) {
                        Ok(x) => x,
                        Err(e) => return Err(e),
                    };
                    match self.expect(p, Token::RightParen) {
                        Ok(q) => Ok((Expression::Call { func: name, args }, q)),
                        Err(e) => Err(e),
                    }
                } else {
                    Ok((Expression::Ident(name), pos + 1))
                }
            },
            Token::IntLit(n) => Ok((Expression::IntLit(n), pos + 1)),
            Token::StrLit(s) => Ok((Expression::StrLit(s), pos + 1)),
            _ => {
                let mut m = String::from_str("Unexpected token in expression: ");
                let got = c.to_string();
                m.append(got.as_str());
                Err((m, pos))
            },
        }
    }

    fn parse_args(&self, pos: usize) -> (r: Result<(Vec<Expression>, usize), (String, usize)>)
        requires
            pos <= self.tokens@.len(),
            !(args_from(self.token_seq(), pos as int) is Stuck),
        ensures
            outcome(r, args_from(self.token_seq(), pos as int), |v: Vec<Expression>| exprs_view(v@)),
            r matches Ok((_x, q)) ==> pos <= q <= self.tokens@.len(),
            r matches Err((_m, at)) ==> at <= self.tokens@.len(),
        decreases self.tokens@.len() - pos, 1int,
    {
        let ghost ts = self.token_seq();
        let mut args: Vec<Expression> = Vec::new();
        let mut p = pos;
        loop
            invariant
                ts == self.token_seq(),
                pos <= p <= self.tokens@.len(),
                ts.len() == self.tokens@.len(),
                args_from(ts, pos as int) == prepend(exprs_view(args@), args_from(ts, p as int)),
                !(args_from(ts, p as int) is Stuck),
            decreases self.tokens@.len() - p,
        {
            if self.check(p, &Token::RightParen) {
                assert(exprs_view(args@) + Seq::<ExprView>::empty() =~= exprs_view(args@));
                return Ok((args, p));
            }
            let (e, p1) = match self.parse_call_or_ident(p) {
                Ok(x) => x,
                Err(err) => return Err(err),
            };
            let ghost ev = expr_view(e);
            let ghost before = exprs_view(args@);
            let ghost old_args = args@;
            args.push(e);
            proof {
                assert(args@.subrange(0, args@.len() - 1) =~= old_args);
                assert(exprs_view(args@) == before.push(ev));
            }
            if self.check(p1, &Token::RightParen) {
                assert(before + seq![ev] =~= exprs_view(args@) + Seq::<ExprView>::empty());
                return Ok((args, p1));
            }
            match self.expect(p1, Token::Comma) {
                Ok(q) => {
                    proof {
                        match args_from(ts, q as int) {
                            Parsed::Done(rest, _q2) => {
                                assert(before + (seq![ev] + rest) =~= exprs_view(args@) + rest);
                            },
                            _ => {},
                        }
                    }
                    p = q;
                },
                Err(err) => return Err(err),
            }
        }
    }

    fn parse_statement(&self, pos: usize) -> (r: Result<(Statement, usize), (String, usize)>)
        requires
            pos <= self.tokens@.len(),
            !(statement_at(self.token_seq(), pos as int) is Stuck),
        ensures
            outcome(r, statement_at(self.token_seq(), pos as int), |s: Statement| stmt_view(s)),
            r matches Ok((_x, q)) ==> pos < q <= self.tokens@.len(),
            r matches Err((_m, at)) ==> at <= self.tokens@.len(),
    {
        let ghost ts = self.token_seq();
        let c = self.current_token(pos);
        match c {
            Token::Let => {
                let (name, p2) = match self.parse_ident(pos + 1) {
                    Ok(x) => x,
                    Err(e) => return Err(e),
                };
                let (ty, p3) = if self.check(p2, &Token::Colon) {
                    match self.parse_type(p2 + 1) {
                        Ok((t, q)) => (Some(t), q),
                        Err(e) => return Err(e),
                    }
                } else {
                    (None, p2)
                };
                let (init, p4) = if self.check(p3, &Token::Equals) {
                    match self.parse_call_or_ident(p3 + 1) {
                        Ok((e, q)) => (Some(e), q),
                        Err(e) => return Err(e),
                    }
                } else {
                    (None, p3)
                };
                let p5 = match self.expect(p4, Token::Semicolon) {
                    Ok(q) => q,
                    Err(e) => return Err(e),
                };
                Ok((Statement::Let { name, ty, init }, p5))
            },
            Token::Return => {
                let (value, p) = if !self.check(pos + 1, &Token::Semicolon) {
                    match self.parse_call_or_ident(pos + 1) {
                        Ok((e, q)) => (Some(e), q),
                        Err(e) => return Err(e),
                    }
                } else {
                    (None, pos + 1)
                };
                let q = match self.expect(p, Token::Semicolon) {
                    Ok(q) => q,
                    Err(e) => return Err(e),
                };
                Ok((Statement::Return { value }, q))
            },
            _ => {
                let (e, p) = match self.parse_call_or_ident(pos) {
                    Ok(x) => x,
                    Err(err) => return Err(err),
                };
                let q = match self.expect(p, Token::Semicolon) {
                    Ok(q) => q,
                    Err(err) => return Err(err),
                };
                Ok((Statement::Expression(e), q))
            },
        }
    }
}

} // verus!

verus! {

impl Parser {
    fn parse_statements(&self, pos: usize) -> (r: Result<(Vec<Statement>, usize), (String, usize)>)
        requires
            pos <= self.tokens@.len(),
            !(statements_from(self.token_seq(), pos as int) is Stuck),
        ensures
            outcome(r, statements_from(self.token_seq(), pos as int),
                |v: Vec<Statement>| v@.map_values(|s: Statement| stmt_view(s))),
            r matches Ok((_x, q)) ==> pos <= q <= self.tokens@.len(),
            r matches Err((_m, at)) ==> at <= self.tokens@.len(),
    {
        let ghost ts = self.token_seq();
        let mut body: Vec<Statement> = Vec::new();
        let mut p = pos;
        loop
            invariant
                ts == self.token_seq(),
                pos <= p <= self.tokens@.len(),
                ts.len() == self.tokens@.len(),
                statements_from(ts, pos as int) == prepend(body@.map_values(|s: Statement| stmt_view(s)), statements_from(ts, p as int)),
                !(statements_from(ts, p as int) is Stuck),
            decreases self.tokens@.len() - p,
        {
            if self.check(p, &Token::RightBrace) {
                assert(body@.map_values(|s: Statement| stmt_view(s)) + Seq::<StmtView>::empty()
                    =~= body@.map_values(|s: Statement| stmt_view(s)));
                return Ok((body, p));
            }
            let (st, p1) = match self.parse_statement(p) {
                Ok(x) => x,
                Err(err) => return Err(err),
            };
            let ghost sv = stmt_view(st);
            let ghost before = body@.map_values(|s: Statement| stmt_view(s));
            body.push(st);
            proof {
                assert(body@.map_values(|s: Statement| stmt_view(s)) =~= before.push(sv));
                match statements_from(ts, p1 as int) {
                    Parsed::Done(rest, _q2) => {
                        assert(before + (seq![sv] + rest) =~= before.push(sv) + rest);
                    },
                    _ => {},
                }
            }
            p = p1;
        }
    }

    fn parse_params(&self, pos: usize) -> (r: Result<(Vec<(String, Type)>, usize), (String, usize)>)
        requires
            pos <= self.tokens@.len(),
            !(params_from(self.token_seq(), pos as int) is Stuck),
        ensures
            outcome(r, params_from(self.token_seq(), pos as int),
                |v: Vec<(String, Type)>| v@.map_values(|p: (String, Type)| (p.0@, p.1@))),
            r matches Ok((_x, q)) ==> pos <= q <= self.tokens@.len(),
            r matches Err((_m, at)) ==> at <= self.tokens@.len(),
    {
        let ghost ts = self.token_seq();
        let mut params: Vec<(String, Type)> = Vec::new();
        let mut p = pos;
        loop
            invariant
                ts == self.token_seq(),
                pos <= p <= self.tokens@.len(),
                ts.len() == self.tokens@.len(),
                params_from(ts, pos as int) == prepend(params@.map_values(|p: (String, Type)| (p.0@, p.1@)), params_from(ts, p as int)),
                !(params_from(ts, p as int) is Stuck),
            decreases self.tokens@.len() - p,
        {
            if self.check(p, &Token::RightParen) {
                assert(params@.map_values(|p: (String, Type)| (p.0@, p.1@)) + Seq::<(Seq<char>, TypeView)>::empty()
                    =~= params@.map_values(|p: (String, Type)| (p.0@, p.1@)));
                return Ok((params, p));
            }
            let (name, p1) = match self.parse_ident(p) {
                Ok(x) => x,
                Err(err) => return Err(err),
            };
            let p2 = match self.expect(p1, Token::Colon) {
                Ok(q) => q,
                Err(err) => return Err(err),
            };
            let (ty, p3) = match self.parse_type(p2) {
                Ok(x) => x,
                Err(err) => return Err(err),
            };
            let ghost pv = (name@, ty@);
            let ghost before = params@.map_values(|p: (String, Type)| (p.0@, p.1@));
            params.push((name, ty));
            assert(params@.map_values(|p: (String, Type)| (p.0@, p.1@)) =~= before.push(pv));
            if self.check(p3, &Token::RightParen) {
                assert(before + seq![pv] =~= before.push(pv) + Seq::<(Seq<char>, TypeView)>::empty());
                return Ok((params, p3));
            }
            match self.expect(p3, Token::Comma) {
                Ok(q) => {
                    proof {
                        match params_from(ts, q as int) {
                            Parsed::Done(rest, _q2) => {
                                assert(before + (seq![pv] + rest) =~= before.push(pv) + rest);
                            },
                            _ => {},
                        }
                    }
                    p = q;
                },
                Err(err) => return Err(err),
            }
        }
    }

    fn parse_function_def(&self, pos: usize) -> (r: Result<(FunctionDef, usize), (String, usize)>)
        requires
            pos <= self.tokens@.len(),
            !(function_at(self.token_seq(), pos as int) is Stuck),
        ensures
            outcome(r, function_at(self.token_seq(), pos as int), |f: FunctionDef| f@),
            r matches Ok((_x, q)) ==> q <= self.tokens@.len(),
            r matches Err((_m, at)) ==> at <= self.tokens@.len(),
    {
        let n = self.tokens.len();
        let p1 = match self.expect(pos, Token::Fn) {
            Ok(q) => q,
            Err(e) => return Err(e),
        };
        let (name, p2) = match self.parse_ident(p1) {
            Ok(x) => x,
            Err(e) => return Err(e),
        };
        let p3 = match self.expect(p2, Token::LeftParen) {
            Ok(q) => q,
            Err(e) => return Err(e),
        };
        let (params, p4) = match self.parse_params(p3) {
            Ok(x) => x,
            Err(e) => return Err(e),
        };
        let p5 = match self.expect(p4, Token::RightParen) {
            Ok(q) => q,
            Err(e) => return Err(e),
        };
        let (return_type, p6) = if self.check(p5, &Token::Arrow) {
            match self.parse_type(p5 + 1) {
                Ok((t, q)) => (Some(t), q),
                Err(e) => return Err(e),
            }
        } else {
            (None, p5)
        };
        let p7 = match self.expect(p6, Token::LeftBrace) {
            Ok(q) => q,
            Err(e) => return Err(e),
        };
        let (body, p8) = match self.parse_statements(p7) {
            Ok(x) => x,
            Err(e) => return Err(e),
        };
        let p9 = match self.expect(p8, Token::RightBrace) {
            Ok(q) => q,
            Err(e) => return Err(e),
        };
        Ok((FunctionDef { name, params, return_type, body }, p9))
    }

    /// Parses one function from the current position. On success the
    /// position moves past the function; on an error it stays where the
    /// error arose. Inputs on which the parser would search forever for the
    /// closing brace of a refinement are excluded.
    pub fn parse_function(&mut self) -> (r: Result<FunctionDef, String>)
        requires
            old(self).wf(),
            !(function_at(old(self).token_seq(), old(self).position()) is Stuck),
        ensures
            final(self).wf(),
            final(self).token_seq() == old(self).token_seq(),
            match function_at(old(self).token_seq(), old(self).position()) {
                Parsed::Done(f, q) => r matches Ok(d) && d@ == f && final(self).position() == q,
                Parsed::Fail(m, at) => r matches Err(e) && e@ == m && final(self).position() == at,
                Parsed::Stuck => false,
            },
    {
        match self.parse_function_def(self.pos) {
            Ok((f, q)) => {
                self.pos = q;
                Ok(f)
            },
            Err((m, at)) => {
                self.pos = at;
                Err(m)
            },
        }
    }
}

} // verus!

verus! {

/// The reserved words of the language.
pub open spec fn reserved_words() -> Set<Seq<char>> {
    set!["fn"@, "let"@, "mut"@, "return"@, "if"@, "else"@, "loop"@, "break"@, "struct"@, "enum"@]
}

/// How a keyword token is spelled in source, `None` for other tokens.
pub open spec fn keyword_spelling(t: TokenView) -> Option<Seq<char>> {
    match t {
        TokenView::Fn => Some("fn"@),
        TokenView::Let => Some("let"@),
        TokenView::Mut => Some("mut"@),
        TokenView::Return => Some("return"@),
        TokenView::If => Some("if"@),
        TokenView::Else => Some("else"@),
        TokenView::Loop => Some("loop"@),
        TokenView::Break => Some("break"@),
        TokenView::Struct => Some("struct"@),
        TokenView::Enum => Some("enum"@),
        _ => None,
    }
}

/// Law: words lex to the tokens they spell. A reserved word always lexes to
/// a keyword token spelled as that very word, never to an identifier; any
/// other word lexes to an identifier carrying the word.
pub proof fn lemma_words_lex_to_their_tokens(w: Seq<char>)
    ensures
        reserved_words().contains(w) ==> keyword_spelling(word_token(w)) == Some(w),
        !reserved_words().contains(w) ==> word_token(w) == TokenView::Ident(w),
{
}

} // verus!
