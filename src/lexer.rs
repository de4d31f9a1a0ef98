use vstd::prelude::*;

verus! {

/// A lexical token of the language.
#[derive(Debug, PartialEq, Eq, Clone)]
pub enum Token {
    OpenParen,
    CloseParen,
    IntLiteral(i64),
    StringLiteral(String),
    Id(String),
}

/// The mathematical model of a token: text is a sequence of characters.
pub enum TokenView {
    OpenParen,
    CloseParen,
    IntLiteral(i64),
    StringLiteral(Seq<char>),
    Id(Seq<char>),
}

impl View for Token {
    type V = TokenView;

    open spec fn view(&self) -> TokenView {
        match self {
            Token::OpenParen => TokenView::OpenParen,
            Token::CloseParen => TokenView::CloseParen,
            Token::IntLiteral(i) => TokenView::IntLiteral(*i),
            Token::StringLiteral(s) => TokenView::StringLiteral(s@),
            Token::Id(s) => TokenView::Id(s@),
        }
    }
}

impl Token {
    /// A copy of the token with the same model.
    pub fn duplicate(&self) -> (r: Token)
        ensures
            r@ == self@,
    {
        match self {
            Token::OpenParen => Token::OpenParen,
            Token::CloseParen => Token::CloseParen,
            Token::IntLiteral(i) => Token::IntLiteral(*i),
            Token::StringLiteral(s) => Token::StringLiteral(s.clone()),
            Token::Id(s) => Token::Id(s.clone()),
        }
    }
}

/// Why the source text could not be split into tokens.
#[derive(Debug, Clone, Copy, PartialEq, Eq, Structural)]
pub enum TokenErrorKind {
    /// A string literal has no closing quote.
    UnterminatedString,
    /// An integer literal does not fit in 64 signed bits.
    IntegerOverflow,
}

#[derive(Debug)]
pub struct TokenError {
    pub kind: TokenErrorKind,
    pub message: String,
}

impl TokenError {
    pub fn new(kind: TokenErrorKind, message: String) -> (r: TokenError)
        ensures
            r.kind == kind,
            r.message@ == message@,
    {
        TokenError { kind, message }
    }
}

/// Whether `c` has the Unicode White_Space property.
pub open spec fn is_space(c: char) -> bool {
    let u = c as int;
    ||| 0x9 <= u <= 0xD
    ||| u == 0x20
    ||| u == 0x85
    ||| u == 0xA0
    ||| u == 0x1680
    ||| 0x2000 <= u <= 0x200A
    ||| u == 0x2028
    ||| u == 0x2029
    ||| u == 0x202F
    ||| u == 0x205F
    ||| u == 0x3000
}

/// Relies on `char::is_whitespace`: true exactly for the characters with the Unicode
/// White_Space property.
#[verifier::external_body]
pub(crate) fn char_is_whitespace(c: char) -> (r: bool)
    ensures
        r == is_space(c),
{
    c.is_whitespace()
}

/// Relies on `str::chars` collected into a `Vec`: the characters of `s`, in order.
#[verifier::external_body]
pub(crate) fn chars_of(s: &str) -> (r: Vec<char>)
    ensures
        r@ == s@,
{
    s.chars().collect()
}

/// Relies on `String: FromIterator<&char>`: the string made of `cs`, in order.
#[verifier::external_body]
pub(crate) fn string_of(cs: &Vec<char>) -> (r: String)
    ensures
        r@ == cs@,
{
    cs.iter().collect()
}

pub open spec fn is_digit(c: char) -> bool {
    '0' <= c && c <= '9'
}

pub open spec fn digit_value(c: char) -> int {
    (c as int) - ('0' as int)
}

/// Characters that may continue an identifier.
pub open spec fn is_identifier_char(c: char) -> bool {
    !is_space(c) && c != '(' && c != ')'
}

/// The classes of characters over which the lexer takes maximal runs.
pub enum CharClass {
    Digit,
    Identifier,
    NotQuote,
}

pub open spec fn in_class(c: char, k: CharClass) -> bool {
    match k {
        CharClass::Digit => is_digit(c),
        CharClass::Identifier => is_identifier_char(c),
        CharClass::NotQuote => c != '"',
    }
}

/// The first position at or after `pos` that does not hold white space.
pub open spec fn skip_space(s: Seq<char>, pos: int) -> int
    decreases s.len() - pos,
{
    if 0 <= pos < s.len() && is_space(s[pos]) {
        skip_space(s, pos + 1)
    } else {
        pos
    }
}

/// The end of the maximal run of characters of class `k` that starts at `pos`.
pub open spec fn run_end(s: Seq<char>, pos: int, k: CharClass) -> int
    decreases s.len() - pos,
{
    if 0 <= pos < s.len() && in_class(s[pos], k) {
        run_end(s, pos + 1, k)
    } else {
        pos
    }
}

/// The number that a sequence of decimal digits denotes.
pub open spec fn digits_value(d: Seq<char>) -> int
    decreases d.len(),
{
    if d.len() == 0 {
        0
    } else {
        digits_value(d.drop_last()) * 10 + digit_value(d.last())
    }
}

/// One step of the lexer: the end of input, a token with the position after it, or an error.
pub enum ScanStep {
    End,
    Token(TokenView, int),
    Error(TokenErrorKind),
}

/// The token that starts at or after `pos` in `s`, after any white space.
pub open spec fn scan(s: Seq<char>, pos: int) -> ScanStep {
    let p = skip_space(s, pos);
    if p >= s.len() {
        ScanStep::End
    } else if s[p] == '(' {
        ScanStep::Token(TokenView::OpenParen, p + 1)
    } else if s[p] == ')' {
        ScanStep::Token(TokenView::CloseParen, p + 1)
    } else if s[p] == '"' {
        let q = run_end(s, p + 1, CharClass::NotQuote);
        if q >= s.len() {
            ScanStep::Error(TokenErrorKind::UnterminatedString)
        } else {
            ScanStep::Token(TokenView::StringLiteral(s.subrange(p + 1, q)), q + 1)
        }
    } else if is_digit(s[p]) {
        let q = run_end(s, p, CharClass::Digit);
        let v = digits_value(s.subrange(p, q));
        if v > i64::MAX {
            ScanStep::Error(TokenErrorKind::IntegerOverflow)
        } else {
            ScanStep::Token(TokenView::IntLiteral(v as i64), q)
        }
    } else {
        let q = run_end(s, p, CharClass::Identifier);
        ScanStep::Token(TokenView::Id(s.subrange(p, q)), q)
    }
}

pub proof fn lemma_skip_space_bounds(s: Seq<char>, pos: int)
    requires
        0 <= pos <= s.len(),
    ensures
        pos <= skip_space(s, pos) <= s.len(),
        skip_space(s, pos) < s.len() ==> !is_space(s[skip_space(s, pos)]),
    decreases s.len() - pos,
{
    if pos < s.len() && is_space(s[pos]) {
        lemma_skip_space_bounds(s, pos + 1);
    }
}

pub proof fn lemma_run_end_bounds(s: Seq<char>, pos: int, k: CharClass)
    requires
        0 <= pos <= s.len(),
    ensures
        pos <= run_end(s, pos, k) <= s.len(),
        run_end(s, pos, k) < s.len() ==> !in_class(s[run_end(s, pos, k)], k),
        forall|i: int| pos <= i < run_end(s, pos, k) ==> in_class(#[trigger] s[i], k),
    decreases s.len() - pos,
{
    if pos < s.len() && in_class(s[pos], k) {
        lemma_run_end_bounds(s, pos + 1, k);
    }
}

/// A token always lies after the position the scan started from, within the text.
pub proof fn lemma_scan_advances(s: Seq<char>, pos: int)
    requires
        0 <= pos <= s.len(),
    ensures
        scan(s, pos) matches ScanStep::Token(_, e) ==> pos < e <= s.len(),
{
    let p = skip_space(s, pos);
    lemma_skip_space_bounds(s, pos);
    if p < s.len() {
        if s[p] == '"' {
            lemma_run_end_bounds(s, p + 1, CharClass::NotQuote);
        } else if is_digit(s[p]) {
            lemma_run_end_bounds(s, p, CharClass::Digit);
        } else {
            lemma_run_end_bounds(s, p, CharClass::Identifier);
        }
    }
}

/// Each digit added at the end can only make the number larger.
proof fn lemma_digits_value_prefix(d: Seq<char>, i: int)
    requires
        0 <= i <= d.len(),
        forall|k: int| 0 <= k < d.len() ==> is_digit(#[trigger] d[k]),
    ensures
        0 <= digits_value(d.take(i)) <= digits_value(d),
    decreases d.len(),
{
    if d.len() > 0 {
        if i == d.len() {
            assert(d.take(i) =~= d);
            lemma_digits_value_prefix(d.drop_last(), d.len() - 1);
            assert(d.drop_last().take(d.len() - 1) =~= d.drop_last());
        } else {
            lemma_digits_value_prefix(d.drop_last(), i);
            assert(d.drop_last().take(i) =~= d.take(i));
            lemma_digits_value_prefix(d.drop_last(), d.len() - 1);
            assert(d.drop_last().take(d.len() - 1) =~= d.drop_last());
        }
    } else {
        assert(d.take(i) =~= d);
    }
}

/// The value of a run of digits, or `None` where it does not fit in an `i64`.
fn digits_to_i64(d: &Vec<char>) -> (r: Option<i64>)
    requires
        forall|k: int| 0 <= k < d@.len() ==> is_digit(#[trigger] d@[k]),
    ensures
        match r {
            Some(v) => digits_value(d@) <= i64::MAX && v == digits_value(d@),
            None => digits_value(d@) > i64::MAX,
        },
{
    let mut acc: i64 = 0;
    let mut i: usize = 0;
    while i < d.len()
        invariant
            0 <= i <= d@.len(),
            forall|k: int| 0 <= k < d@.len() ==> is_digit(#[trigger] d@[k]),
            acc == digits_value(d@.take(i as int)),
        decreases d@.len() - i,
    {
        let c = d[i];
        let dv: i64 = (c as u32 - '0' as u32) as i64;
        proof {
            assert(d@.take(i as int + 1).drop_last() =~= d@.take(i as int));
            assert(d@.take(i as int + 1).last() == c);
        }
        match acc.checked_mul(10) {
            Some(m) => match m.checked_add(dv) {
                Some(n) => {
                    acc = n;
                },
                None => {
                    proof {
                        lemma_digits_value_prefix(d@, i as int + 1);
                    }
                    return None;
                },
            },
            None => {
                proof {
                    lemma_digits_value_prefix(d@, i as int + 1);
                }
                return None;
            },
        }
        i = i + 1;
    }
    proof {
        assert(d@.take(i as int) =~= d@);
    }
    Some(acc)
}

/// A stream of characters read from a fixed text.
pub struct StaticCharStream {
    pub buffer: Vec<char>,
    pub curr: usize,
}

impl StaticCharStream {
    pub open spec fn wf(&self) -> bool {
        self.curr <= self.buffer@.len()
    }

    pub fn new(input: &str) -> (r: StaticCharStream)
        ensures
            r.wf(),
            r.buffer@ == input@,
            r.curr == 0,
    {
        StaticCharStream { buffer: chars_of(input), curr: 0 }
    }

    /// Takes the next character, if any.
    pub fn advance(&mut self) -> (r: Option<char>)
        requires
            old(self).wf(),
        ensures
            final(self).wf(),
            final(self).buffer@ == old(self).buffer@,
            old(self).curr < old(self).buffer@.len() ==> r == Some(old(self).buffer@[old(self).curr as int])
                && final(self).curr == old(self).curr + 1,
            old(self).curr >= old(self).buffer@.len() ==> r is None && final(self).curr == old(self).curr,
    {
        if self.curr >= self.buffer.len() {
            None
        } else {
            let c = self.buffer[self.curr];
            self.curr += 1;
            Some(c)
        }
    }

    /// The next character, if any, without taking it.
    pub fn peek(&self) -> (r: Option<char>)
        requires
            self.wf(),
        ensures
            self.curr < self.buffer@.len() ==> r == Some(self.buffer@[self.curr as int]),
            self.curr >= self.buffer@.len() ==> r is None,
    {
        if self.curr >= self.buffer.len() {
            None
        } else {
            Some(self.buffer[self.curr])
        }
    }

    fn consume_whitespace(&mut self)
        requires
            old(self).wf(),
        ensures
            final(self).wf(),
            final(self).buffer@ == old(self).buffer@,
            final(self).curr == skip_space(old(self).buffer@, old(self).curr as int),
    {
        while self.curr < self.buffer.len() && char_is_whitespace(self.buffer[self.curr])
            invariant
                self.wf(),
                self.buffer@ == old(self).buffer@,
                skip_space(self.buffer@, self.curr as int) == skip_space(
                    old(self).buffer@,
                    old(self).curr as int,
                ),
            decreases self.buffer@.len() - self.curr,
        {
            self.curr += 1;
        }
    }

    fn char_in_class(c: char, k: &CharClass) -> (r: bool)
        ensures
            r == in_class(c, *k),
    {
        match k {
            CharClass::Digit => '0' <= c && c <= '9',
            CharClass::Identifier => !char_is_whitespace(c) && c != '(' && c != ')',
            CharClass::NotQuote => c != '"',
        }
    }

    /// Takes the maximal run of characters of class `k` and returns it.
    fn consume_while(&mut self, k: CharClass) -> (r: Vec<char>)
        requires
            old(self).wf(),
        ensures
            final(self).wf(),
            final(self).buffer@ == old(self).buffer@,
            final(self).curr == run_end(old(self).buffer@, old(self).curr as int, k),
            r@ == old(self).buffer@.subrange(old(self).curr as int, final(self).curr as int),
    {
        let mut chars: Vec<char> = Vec::new();
        let start: usize = self.curr;
        while self.curr < self.buffer.len() && Self::char_in_class(self.buffer[self.curr], &k)
            invariant
                self.wf(),
                start <= self.curr,
                start == old(self).curr,
                self.buffer@ == old(self).buffer@,
                run_end(self.buffer@, self.curr as int, k) == run_end(
                    old(self).buffer@,
                    old(self).curr as int,
                    k,
                ),
                chars@ == self.buffer@.subrange(start as int, self.curr as int),
            decreases self.buffer@.len() - self.curr,
        {
            chars.push(self.buffer[self.curr]);
            self.curr += 1;
            assert(chars@ =~= self.buffer@.subrange(start as int, self.curr as int));
        }
        chars
    }
}

/// A stream of tokens read lazily from a text, holding at most one token of lookahead.
pub struct LazyTokenStream {
    pub char_stream: StaticCharStream,
    pub next_token: Option<Token>,
    /// Where the looked-ahead token starts; equal to the character position when there is none.
    pub start: Ghost<int>,
}

impl LazyTokenStream {
    /// The text being read.
    pub open spec fn source(&self) -> Seq<char> {
        self.char_stream.buffer@
    }

    /// The position of the next token not yet taken.
    pub open spec fn pos(&self) -> int {
        self.start@
    }

    pub open spec fn wf(&self) -> bool {
        &&& self.char_stream.wf()
        &&& 0 <= self.start@ <= self.char_stream.curr
        &&& match self.next_token {
            Some(t) => scan(self.source(), self.start@) == ScanStep::Token(
                t@,
                self.char_stream.curr as int,
            ),
            None => self.start@ == self.char_stream.curr,
        }
    }

    pub fn new_from_string(s: &str) -> (r: LazyTokenStream)
        ensures
            r.wf(),
            r.source() == s@,
            r.pos() == 0,
    {
        LazyTokenStream {
            char_stream: StaticCharStream::new(s),
            next_token: None,
            start: Ghost(0),
        }
    }

    /// Reads the token at the character position, moving past it.
    fn consume_token_from_input(&mut self) -> (r: Result<Option<Token>, TokenError>)
        requires
            old(self).char_stream.wf(),
        ensures
            final(self).char_stream.wf(),
            final(self).source() == old(self).source(),
            final(self).start == old(self).start,
            final(self).next_token == old(self).next_token,
            old(self).char_stream.curr <= final(self).char_stream.curr,
            match scan(old(self).source(), old(self).char_stream.curr as int) {
                ScanStep::End => r matches Ok(None) && final(self).char_stream.curr == skip_space(
                    old(self).source(),
                    old(self).char_stream.curr as int,
                ),
                ScanStep::Token(t, e) => r matches Ok(Some(tok)) && tok@ == t
                    && final(self).char_stream.curr == e,
                ScanStep::Error(k) => r matches Err(err) && err.kind == k,
            },
    {
        let ghost s = self.source();
        let ghost p0 = self.char_stream.curr as int;
        self.char_stream.consume_whitespace();
        let ghost p = self.char_stream.curr as int;
        proof {
            lemma_skip_space_bounds(s, p0);
        }
        let curr_char = match self.char_stream.peek() {
            None => {
                return Ok(None);
            },
            Some(c) => c,
        };
        if curr_char == '(' {
            self.char_stream.advance();
            Ok(Some(Token::OpenParen))
        } else if curr_char == ')' {
            self.char_stream.advance();
            Ok(Some(Token::CloseParen))
        } else if curr_char == '"' {
            match self.consume_string() {
                Ok(t) => Ok(Some(t)),
                Err(e) => Err(e),
            }
        } else if '0' <= curr_char && curr_char <= '9' {
            match self.consume_integer() {
                Ok(t) => Ok(Some(t)),
                Err(e) => Err(e),
            }
        } else {
            match self.consume_identifier() {
                Ok(t) => Ok(Some(t)),
                Err(e) => Err(e),
            }
        }
    }

    /// Reads a string literal whose opening quote is at the character position.
    fn consume_string(&mut self) -> (r: Result<Token, TokenError>)
        requires
            old(self).char_stream.wf(),
            old(self).char_stream.curr < old(self).source().len(),
            old(self).source()[old(self).char_stream.curr as int] == '"',
        ensures
            final(self).char_stream.wf(),
            final(self).source() == old(self).source(),
            final(self).start == old(self).start,
            final(self).next_token == old(self).next_token,
            old(self).char_stream.curr <= final(self).char_stream.curr,
            ({
                let s = old(self).source();
                let p = old(self).char_stream.curr as int;
                let q = run_end(s, p + 1, CharClass::NotQuote);
                if q >= s.len() {
                    r matches Err(err) && err.kind == TokenErrorKind::UnterminatedString
                } else {
                    r matches Ok(tok) && tok@ == TokenView::StringLiteral(s.subrange(p + 1, q))
                        && final(self).char_stream.curr == q + 1
                }
            }),
    {
        let ghost s = self.source();
        let ghost p = self.char_stream.curr as int;
        self.char_stream.advance();
        let literal = self.char_stream.consume_while(CharClass::NotQuote);
        proof {
            lemma_run_end_bounds(s, p + 1, CharClass::NotQuote);
        }
        match self.char_stream.advance() {
            None => Err(
                TokenError::new(
                    TokenErrorKind::UnterminatedString,
                    "Reached the end of input inside a string literal.".to_owned(),
                ),
            ),
            Some(_) => Ok(Token::StringLiteral(string_of(&literal))),
        }
    }

    /// Reads an identifier that starts at the character position.
    fn consume_identifier(&mut self) -> (r: Result<Token, TokenError>)
        requires
            old(self).char_stream.wf(),
        ensures
            final(self).char_stream.wf(),
            final(self).source() == old(self).source(),
            final(self).start == old(self).start,
            final(self).next_token == old(self).next_token,
            ({
                let s = old(self).source();
                let p = old(self).char_stream.curr as int;
                let q = run_end(s, p, CharClass::Identifier);
                &&& r matches Ok(tok) && tok@ == TokenView::Id(s.subrange(p, q))
                &&& final(self).char_stream.curr == q
                &&& p <= q
            }),
    {
        let ghost s = self.source();
        let ghost p = self.char_stream.curr as int;
        let identifier = self.char_stream.consume_while(CharClass::Identifier);
        proof {
            lemma_run_end_bounds(s, p, CharClass::Identifier);
        }
        Ok(Token::Id(string_of(&identifier)))
    }

    /// Reads an integer literal that starts at the character position.
    fn consume_integer(&mut self) -> (r: Result<Token, TokenError>)
        requires
            old(self).char_stream.wf(),
        ensures
            final(self).char_stream.wf(),
            final(self).source() == old(self).source(),
            final(self).start == old(self).start,
            final(self).next_token == old(self).next_token,
            old(self).char_stream.curr <= final(self).char_stream.curr,
            ({
                let s = old(self).source();
                let p = old(self).char_stream.curr as int;
                let q = run_end(s, p, CharClass::Digit);
                let v = digits_value(s.subrange(p, q));
                if v > i64::MAX {
                    r matches Err(err) && err.kind == TokenErrorKind::IntegerOverflow
                } else {
                    r matches Ok(tok) && tok@ == TokenView::IntLiteral(v as i64)
                        && final(self).char_stream.curr == q
                }
            }),
    {
        let ghost s = self.source();
        let ghost p = self.char_stream.curr as int;
        let digits = self.char_stream.consume_while(CharClass::Digit);
        proof {
            lemma_run_end_bounds(s, p, CharClass::Digit);
            assert forall|k: int| 0 <= k < digits@.len() implies is_digit(#[trigger] digits@[k]) by {
                assert(digits@[k] == s[p + k]);
            }
        }
        match digits_to_i64(&digits) {
            Some(v) => Ok(Token::IntLiteral(v)),
            None => Err(
                TokenError::new(
                    TokenErrorKind::IntegerOverflow,
                    "Integer literal does not fit in 64 bits.".to_owned(),
                ),
            ),
        }
    }

    /// The next token, if any, without taking it.
    pub fn peek(&mut self) -> (r: Result<Option<Token>, TokenError>)
        requires
            old(self).wf(),
        ensures
            final(self).wf(),
            final(self).source() == old(self).source(),
            match scan(old(self).source(), old(self).pos()) {
                ScanStep::End => r matches Ok(None) && final(self).pos() == skip_space(
                    old(self).source(),
                    old(self).pos(),
                ),
                ScanStep::Token(t, e) => r matches Ok(Some(tok)) && tok@ == t && final(self).pos()
                    == old(self).pos(),
                ScanStep::Error(k) => r matches Err(err) && err.kind == k,
            },
    {
        if let Some(t) = &self.next_token {
            return Ok(Some(t.duplicate()));
        }
        let r = self.consume_token_from_input();
        match r {
            Ok(Some(t)) => {
                self.next_token = Some(t.duplicate());
                Ok(Some(t))
            },
            other => {
                proof {
                    self.start = Ghost(self.char_stream.curr as int);
                }
                other
            },
        }
    }

    /// Takes the next token, if any.
    pub fn advance(&mut self) -> (r: Result<Option<Token>, TokenError>)
        requires
            old(self).wf(),
        ensures
            final(self).wf(),
            final(self).source() == old(self).source(),
            match scan(old(self).source(), old(self).pos()) {
                ScanStep::End => r matches Ok(None) && final(self).pos() == skip_space(
                    old(self).source(),
                    old(self).pos(),
                ),
                ScanStep::Token(t, e) => r matches Ok(Some(tok)) && tok@ == t && final(self).pos()
                    == e,
                ScanStep::Error(k) => r matches Err(err) && err.kind == k,
            },
    {
        let r = if let Some(t) = &self.next_token {
            Ok(Some(t.duplicate()))
        } else {
            self.consume_token_from_input()
        };
        self.next_token = None;
        proof {
            self.start = Ghost(self.char_stream.curr as int);
        }
        r
    }
}

/// All the tokens from `pos` to the end of the text, or the first error.
pub open spec fn tokens_from(s: Seq<char>, pos: int) -> Result<Seq<TokenView>, TokenErrorKind>
    decreases s.len() - pos,
{
    match scan(s, pos) {
        ScanStep::End => Ok(seq![]),
        ScanStep::Error(k) => Err(k),
        ScanStep::Token(t, e) => if pos < e <= s.len() {
            match tokens_from(s, e) {
                Ok(rest) => Ok(seq![t] + rest),
                Err(k) => Err(k),
            }
        } else {
            Ok(seq![])
        },
    }
}

/// The models of a sequence of tokens.
pub open spec fn tokens_view(v: Seq<Token>) -> Seq<TokenView> {
    Seq::new(v.len(), |i: int| v[i]@)
}

/// All the tokens of `s`, in order, or the first error.
pub fn tokenize(s: &str) -> (r: Result<Vec<Token>, TokenError>)
    ensures
        match tokens_from(s@, 0) {
            Ok(ts) => r matches Ok(v) && tokens_view(v@) == ts,
            Err(k) => r matches Err(e) && e.kind == k,
        },
{
    let mut stream = lex(s);
    let ghost src = s@;
    let mut out: Vec<Token> = Vec::new();
    loop
        invariant
            stream.wf(),
            stream.source() == src,
            src == s@,
            0 <= stream.pos() <= src.len(),
            match tokens_from(src, 0) {
                Ok(ts) => tokens_from(src, stream.pos()) matches Ok(rest) && ts == tokens_view(
                    out@,
                ) + rest,
                Err(k) => tokens_from(src, stream.pos()) == Err::<Seq<TokenView>, TokenErrorKind>(
                    k,
                ),
            },
            tokens_from(src, 0) is Err <==> tokens_from(src, stream.pos()) is Err,
        decreases src.len() - stream.pos(),
    {
        let ghost p = stream.pos();
        proof {
            lemma_scan_advances(src, p);
        }
        match stream.advance() {
            Ok(Some(t)) => {
                let ghost before = out@;
                proof {
                    if let Ok(ts) = tokens_from(src, 0) {
                        let rest = tokens_from(src, stream.pos())->Ok_0;
                        assert(tokens_view(before.push(t)) =~= tokens_view(before) + seq![t@]);
                        assert(tokens_view(before) + (seq![t@] + rest) =~= tokens_view(
                            before.push(t),
                        ) + rest);
                    }
                }
                out.push(t);
            },
            Ok(None) => {
                assert(tokens_view(out@) + seq![] =~= tokens_view(out@));
                return Ok(out);
            },
            Err(e) => {
                return Err(e);
            },
        }
    }
}

/// A token stream over `s`, positioned at its start.
pub fn lex(s: &str) -> (r: LazyTokenStream)
    ensures
        r.wf(),
        r.source() == s@,
        r.pos() == 0,
{
    LazyTokenStream::new_from_string(s)
}

} // verus!
