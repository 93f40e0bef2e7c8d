//! Splits source text into tokens.

use vstd::prelude::*;

verus! {

/// One token of the source text.
#[derive(Debug, PartialEq, Eq, Clone)]
pub enum Token {
    LeftPar,
    RightPar,
    IntegerLiteral(i64),
    StringLiteral(String),
    Symbol(String),
    Unexpected,
}

/// Why no token could be read.
#[derive(Debug, PartialEq, Eq, Clone, Copy)]
pub enum LexError {
    /// The input ended before a token was complete.
    Eof,
    /// An integer literal does not fit in 64 bits.
    IntegerOverflow,
}

/// What a token is, with its text as a sequence of characters.
pub enum TokenModel {
    LeftPar,
    RightPar,
    IntegerLiteral(int),
    StringLiteral(Seq<char>),
    Symbol(Seq<char>),
    Unexpected,
}

/// Whether the result of a read reports that the input ended.
pub fn is_eof<T>(result: &Result<T, LexError>) -> (r: bool)
    ensures
        r == (result matches Err(LexError::Eof)),
{
    match result {
        Err(LexError::Eof) => true,
        _ => false,
    }
}

/// Blank characters between tokens.
pub open spec fn is_blank(c: char) -> bool {
    c == ' ' || c == '\t' || c == '\n' || c == '\r' || c == '\x0B' || c == '\x0C'
}

/// An ASCII decimal digit.
pub open spec fn is_digit(c: char) -> bool {
    '0' <= c && c <= '9'
}

/// A character that may stand in a symbol: ASCII letters and digits and `& * - ? + < >`.
pub open spec fn is_symbol_char(c: char) -> bool {
    ||| 'a' <= c && c <= 'z'
    ||| 'A' <= c && c <= 'Z'
    ||| is_digit(c)
    ||| c == '&' || c == '*' || c == '-' || c == '?' || c == '+' || c == '<' || c == '>'
}

/// The position of the first newline at or after `pos`.
pub open spec fn newline_from(s: Seq<char>, pos: int) -> Option<int>
    decreases s.len() - pos,
{
    if pos < 0 || pos >= s.len() {
        None
    } else if s[pos] == '\n' {
        Some(pos)
    } else {
        newline_from(s, pos + 1)
    }
}

/// Where the next token starts, past blanks and `;` comments; `None` when the
/// input ends first.
pub open spec fn token_start(s: Seq<char>, pos: int) -> Option<int>
    decreases s.len() - pos,
{
    if pos < 0 || pos >= s.len() {
        None
    } else if is_blank(s[pos]) {
        token_start(s, pos + 1)
    } else if s[pos] == ';' {
        match newline_from(s, pos + 1) {
            None => None,
            Some(j) => if pos < j + 1 <= s.len() { token_start(s, j + 1) } else { None },
        }
    } else {
        Some(pos)
    }
}

/// The end of the run of digits that starts at `pos`.
pub open spec fn digits_end(s: Seq<char>, pos: int) -> int
    decreases s.len() - pos,
{
    if pos < 0 || pos >= s.len() || !is_digit(s[pos]) {
        pos
    } else {
        digits_end(s, pos + 1)
    }
}

/// The end of the run of symbol characters that starts at `pos`.
pub open spec fn symbol_end(s: Seq<char>, pos: int) -> int
    decreases s.len() - pos,
{
    if pos < 0 || pos >= s.len() || !is_symbol_char(s[pos]) {
        pos
    } else {
        symbol_end(s, pos + 1)
    }
}

/// The position of the closing quote of a string literal whose text starts at `pos`.
pub open spec fn quote_from(s: Seq<char>, pos: int) -> Option<int>
    decreases s.len() - pos,
{
    if pos < 0 || pos >= s.len() {
        None
    } else if s[pos] == '"' {
        Some(pos)
    } else {
        quote_from(s, pos + 1)
    }
}

/// The number that a run of decimal digits writes.
pub open spec fn digits_value(d: Seq<char>) -> int
    decreases d.len(),
{
    if d.len() == 0 {
        0
    } else {
        digits_value(d.drop_last()) * 10 + (d.last() as int - '0' as int)
    }
}

/// The token that starts at `start` (a position that `token_start` gave) and
/// the position just after it.
pub open spec fn token_at(s: Seq<char>, start: int) -> (Result<TokenModel, LexError>, int) {
    let c = s[start];
    if c == '(' {
        (Ok(TokenModel::LeftPar), start + 1)
    } else if c == ')' {
        (Ok(TokenModel::RightPar), start + 1)
    } else if is_digit(c) {
        let e = digits_end(s, start);
        let v = digits_value(s.subrange(start, e));
        if v <= i64::MAX {
            (Ok(TokenModel::IntegerLiteral(v)), e)
        } else {
            (Err(LexError::IntegerOverflow), e)
        }
    } else if is_symbol_char(c) {
        let e = symbol_end(s, start);
        (Ok(TokenModel::Symbol(s.subrange(start, e))), e)
    } else if c == '"' {
        match quote_from(s, start + 1) {
            None => (Err(LexError::Eof), s.len() as int),
            Some(q) => (Ok(TokenModel::StringLiteral(s.subrange(start + 1, q))), q + 1),
        }
    } else {
        (Ok(TokenModel::Unexpected), start + 1)
    }
}

/// The next token after `pos`, and where reading goes on.
pub open spec fn next_token_spec(s: Seq<char>, pos: int) -> (Result<TokenModel, LexError>, int) {
    match token_start(s, pos) {
        None => (Err(LexError::Eof), s.len() as int),
        Some(start) => token_at(s, start),
    }
}

/// What a token stands for.
pub open spec fn token_model(t: Token) -> TokenModel {
    match t {
        Token::LeftPar => TokenModel::LeftPar,
        Token::RightPar => TokenModel::RightPar,
        Token::IntegerLiteral(i) => TokenModel::IntegerLiteral(i as int),
        Token::StringLiteral(s) => TokenModel::StringLiteral(s@),
        Token::Symbol(s) => TokenModel::Symbol(s@),
        Token::Unexpected => TokenModel::Unexpected,
    }
}

/// What a read gave.
pub open spec fn lex_model(r: Result<Token, LexError>) -> Result<TokenModel, LexError> {
    match r {
        Ok(t) => Ok(token_model(t)),
        Err(e) => Err(e),
    }
}

/// Relies on `str::chars`: the characters of the text in order.
#[verifier::external_body]
fn chars_of(s: &str) -> (r: Vec<char>)
    ensures
        r@ == s@,
{
    s.chars().collect()
}

/// Relies on `String`'s `FromIterator<&char>`: the text made of these characters.
#[verifier::external_body]
pub(crate) fn string_from_chars(v: &[char]) -> (r: String)
    ensures
        r@ == v@,
{
    v.iter().collect()
}

/// A reader of tokens over a source text.
pub struct Lexer {
    pub chars: Vec<char>,
    pub pos: usize,
}

impl Lexer {
    pub open spec fn wf(&self) -> bool {
        self.pos <= self.chars@.len()
    }

    /// A lexer at the start of `r`.
    pub fn create(r: &str) -> (l: Lexer)
        ensures
            l.wf(),
            l.chars@ == r@,
            l.pos == 0,
    {
        Lexer { chars: chars_of(r), pos: 0 }
    }

    fn valid_symbol_char(c: char) -> (r: bool)
        ensures
            r == is_symbol_char(c),
    {
        ('a' <= c && c <= 'z') || ('A' <= c && c <= 'Z') || ('0' <= c && c <= '9') || c == '&'
            || c == '*' || c == '-' || c == '?' || c == '+' || c == '<' || c == '>'
    }

    /// Takes the next character, if any is left.
    fn next_char(&mut self) -> (r: Result<char, LexError>)
        requires
            old(self).wf(),
        ensures
            final(self).wf(),
            final(self).chars == old(self).chars,
            old(self).pos < old(self).chars@.len() ==> r == Ok::<char, LexError>(
                old(self).chars@[old(self).pos as int],
            ) && final(self).pos == old(self).pos + 1,
            old(self).pos >= old(self).chars@.len() ==> r == Err::<char, LexError>(LexError::Eof)
                && final(self).pos == old(self).pos,
    {
        if self.pos < self.chars.len() {
            let c = self.chars[self.pos];
            self.pos = self.pos + 1;
            Ok(c)
        } else {
            Err(LexError::Eof)
        }
    }

    /// Gives back the character just taken.
    fn unread_char(&mut self)
        requires
            old(self).wf(),
            old(self).pos > 0,
        ensures
            final(self).wf(),
            final(self).chars == old(self).chars,
            final(self).pos == old(self).pos - 1,
    {
        self.pos = self.pos - 1;
    }

    /// Skips the rest of a comment line, up to and with its newline.
    fn skip_line(&mut self) -> (r: Result<(), LexError>)
        requires
            old(self).wf(),
        ensures
            final(self).wf(),
            final(self).chars == old(self).chars,
            match newline_from(old(self).chars@, old(self).pos as int) {
                None => r == Err::<(), LexError>(LexError::Eof) && final(self).pos
                    == old(self).chars@.len(),
                Some(j) => r is Ok && final(self).pos == j + 1,
            },
    {
        let n = self.chars.len();
        while self.pos < n && self.chars[self.pos] != '\n'
            invariant
                self.wf(),
                n == self.chars@.len(),
                self.chars == old(self).chars,
                self.pos >= old(self).pos,
                newline_from(self.chars@, old(self).pos as int) == newline_from(
                    self.chars@,
                    self.pos as int,
                ),
            decreases n - self.pos,
        {
            self.pos = self.pos + 1;
        }
        if self.pos >= n {
            return Err(LexError::Eof);
        }
        self.pos = self.pos + 1;
        Ok(())
    }

    /// Moves to the start of the next token, past blanks and comments;
    /// false when the input ends first.
    fn skip_to_token(&mut self) -> (r: bool)
        requires
            old(self).wf(),
        ensures
            final(self).wf(),
            final(self).chars == old(self).chars,
            r == token_start(old(self).chars@, old(self).pos as int) is Some,
            r ==> token_start(old(self).chars@, old(self).pos as int) == Some(
                final(self).pos as int,
            ),
            r ==> final(self).pos < final(self).chars@.len(),
            final(self).pos >= old(self).pos,
    {
        let n = self.chars.len();
        while self.pos < n
            invariant
                self.wf(),
                n == self.chars@.len(),
                self.chars == old(self).chars,
                token_start(self.chars@, self.pos as int) == token_start(
                    old(self).chars@,
                    old(self).pos as int,
                ),
                self.pos >= old(self).pos,
            decreases n - self.pos,
        {
            let c = self.chars[self.pos];
            if c == ' ' || c == '\t' || c == '\n' || c == '\r' || c == '\x0B' || c == '\x0C' {
                self.pos = self.pos + 1;
            } else if c == ';' {
                let ghost p0 = self.pos as int;
                proof {
                    lemma_scan_bounds(self.chars@, p0 + 1);
                }
                self.pos = self.pos + 1;
                if self.skip_line().is_err() {
                    return false;
                }
                assert(token_start(self.chars@, p0) == token_start(self.chars@, self.pos as int));
            } else {
                return true;
            }
        }
        false
    }

    /// Reads the digits of an integer literal.
    fn read_integer_literal(&mut self) -> (r: Result<i64, LexError>)
        requires
            old(self).wf(),
        ensures
            final(self).wf(),
            final(self).chars == old(self).chars,
            final(self).pos == digits_end(old(self).chars@, old(self).pos as int),
            ({
                let v = digits_value(
                    old(self).chars@.subrange(old(self).pos as int, final(self).pos as int),
                );
                &&& v <= i64::MAX ==> r is Ok && r->Ok_0 as int == v
                &&& v > i64::MAX ==> r == Err::<i64, LexError>(LexError::IntegerOverflow)
            }),
    {
        let n = self.chars.len();
        let start = self.pos;
        let mut v: i64 = 0;
        let mut overflow = false;
        while self.pos < n && '0' <= self.chars[self.pos] && self.chars[self.pos] <= '9'
            invariant
                self.wf(),
                n == self.chars@.len(),
                self.chars == old(self).chars,
                start == old(self).pos,
                start <= self.pos,
                digits_end(self.chars@, start as int) == digits_end(self.chars@, self.pos as int),
                forall|k: int| start <= k < self.pos ==> is_digit(#[trigger] self.chars@[k]),
                !overflow ==> v as int == digits_value(
                    self.chars@.subrange(start as int, self.pos as int),
                ),
                overflow ==> digits_value(self.chars@.subrange(start as int, self.pos as int))
                    > i64::MAX,
                0 <= v,
            decreases n - self.pos,
        {
            let d = self.chars[self.pos];
            let ghost old_sub = self.chars@.subrange(start as int, self.pos as int);
            let ghost new_sub = self.chars@.subrange(start as int, self.pos + 1);
            assert(new_sub.drop_last() =~= old_sub);
            assert(new_sub.last() == d);
            proof {
                lemma_digits_value_nonneg(old_sub);
            }
            let dv: i64 = (d as u32 - '0' as u32) as i64;
            if !overflow {
                if v > 922337203685477580 || (v == 922337203685477580 && dv > 7) {
                    overflow = true;
                } else {
                    v = v * 10 + dv;
                }
            }
            self.pos = self.pos + 1;
        }
        if overflow {
            Err(LexError::IntegerOverflow)
        } else {
            Ok(v)
        }
    }

    /// Reads the characters of a symbol.
    fn read_symbol(&mut self) -> (r: String)
        requires
            old(self).wf(),
        ensures
            final(self).wf(),
            final(self).chars == old(self).chars,
            final(self).pos == symbol_end(old(self).chars@, old(self).pos as int),
            r@ == old(self).chars@.subrange(old(self).pos as int, final(self).pos as int),
    {
        let n = self.chars.len();
        let start = self.pos;
        while self.pos < n && Self::valid_symbol_char(self.chars[self.pos])
            invariant
                self.wf(),
                n == self.chars@.len(),
                self.chars == old(self).chars,
                start == old(self).pos,
                start <= self.pos,
                symbol_end(self.chars@, start as int) == symbol_end(self.chars@, self.pos as int),
            decreases n - self.pos,
        {
            self.pos = self.pos + 1;
        }
        string_from_chars(&self.chars.as_slice()[start..self.pos])
    }

    /// Reads the text of a string literal whose opening quote was just taken,
    /// and its closing quote.
    fn read_string_literal(&mut self) -> (r: Result<String, LexError>)
        requires
            old(self).wf(),
        ensures
            final(self).wf(),
            final(self).chars == old(self).chars,
            match quote_from(old(self).chars@, old(self).pos as int) {
                None => r == Err::<String, LexError>(LexError::Eof) && final(self).pos
                    == old(self).chars@.len(),
                Some(q) => r is Ok && r->Ok_0@ == old(self).chars@.subrange(old(self).pos as int, q)
                    && final(self).pos == q + 1,
            },
    {
        let n = self.chars.len();
        let start = self.pos;
        while self.pos < n && self.chars[self.pos] != '"'
            invariant
                self.wf(),
                n == self.chars@.len(),
                self.chars == old(self).chars,
                start == old(self).pos,
                start <= self.pos,
                quote_from(self.chars@, start as int) == quote_from(self.chars@, self.pos as int),
            decreases n - self.pos,
        {
            self.pos = self.pos + 1;
        }
        if self.pos >= n {
            return Err(LexError::Eof);
        }
        let s = string_from_chars(&self.chars.as_slice()[start..self.pos]);
        self.pos = self.pos + 1;
        Ok(s)
    }

    /// Reads the next token; `Eof` when the input ends first.
    pub fn next_token(&mut self) -> (r: Result<Token, LexError>)
        requires
            old(self).wf(),
        ensures
            final(self).wf(),
            final(self).chars == old(self).chars,
            (lex_model(r), final(self).pos as int) == next_token_spec(
                old(self).chars@,
                old(self).pos as int,
            ),
            r is Ok ==> final(self).pos > old(self).pos,
            final(self).pos >= old(self).pos,
    {
        if !self.skip_to_token() {
            self.pos = self.chars.len();
            return Err(LexError::Eof);
        }
        let start = self.pos;
        proof {
            lemma_scan_bounds(self.chars@, start as int);
            lemma_scan_bounds(self.chars@, start + 1);
        }
        let c = match self.next_char() {
            Ok(c) => c,
            Err(e) => return Err(e),
        };
        if c == '(' {
            Ok(Token::LeftPar)
        } else if c == ')' {
            Ok(Token::RightPar)
        } else if '0' <= c && c <= '9' {
            self.unread_char();
            match self.read_integer_literal() {
                Ok(v) => Ok(Token::IntegerLiteral(v)),
                Err(e) => Err(e),
            }
        } else if Self::valid_symbol_char(c) {
            self.unread_char();
            Ok(Token::Symbol(self.read_symbol()))
        } else if c == '"' {
            match self.read_string_literal() {
                Ok(s) => Ok(Token::StringLiteral(s)),
                Err(e) => Err(e),
            }
        } else {
            Ok(Token::Unexpected)
        }
    }
}

/// Each scan ends at or after where it starts, and a found character lies in the input.
pub proof fn lemma_scan_bounds(s: Seq<char>, p: int)
    requires
        0 <= p,
    ensures
        digits_end(s, p) >= p,
        symbol_end(s, p) >= p,
        newline_from(s, p) matches Some(j) ==> p <= j < s.len(),
        quote_from(s, p) matches Some(q) ==> p <= q < s.len(),
    decreases s.len() - p,
{
    if p < s.len() {
        lemma_scan_bounds(s, p + 1);
    }
}

/// A run of digits writes a number that is not negative.
pub proof fn lemma_digits_value_nonneg(d: Seq<char>)
    requires
        forall|k: int| 0 <= k < d.len() ==> is_digit(#[trigger] d[k]),
    ensures
        digits_value(d) >= 0,
    decreases d.len(),
{
    if d.len() > 0 {
        lemma_digits_value_nonneg(d.drop_last());
    }
}

} // verus!
