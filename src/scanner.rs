//! The scanner: source text to a sequence of tokens, in one left-to-right
//! pass with one and two characters of lookahead.

use vstd::prelude::*;

use crate::token::{tokens_view, Literal, LiteralView, Token, TokenType, TokenView};

verus! {

/// Whether `c` is an ASCII decimal digit.
pub open spec fn is_digit(c: char) -> bool {
    '0' <= c && c <= '9'
}

/// Whether `c` has the Unicode `Alphabetic` property.
pub uninterp spec fn alphabetic(c: char) -> bool;

/// Whether `c` has the Unicode `Alphabetic` or `Numeric` property.
pub uninterp spec fn alphanumeric(c: char) -> bool;

/// Relies on `char::is_alphabetic`: whether `c` is alphabetic in Unicode's sense.
#[verifier::external_body]
fn char_is_alphabetic(c: char) -> (r: bool)
    ensures
        r == alphabetic(c),
{
    c.is_alphabetic()
}

/// Relies on `char::is_alphanumeric`: whether `c` is alphabetic or numeric in
/// Unicode's sense.
#[verifier::external_body]
fn char_is_alphanumeric(c: char) -> (r: bool)
    ensures
        r == alphanumeric(c),
{
    c.is_alphanumeric()
}

/// The character at `i`, or `'\0'` past either end.
pub open spec fn char_at(src: Seq<char>, i: int) -> char {
    if 0 <= i < src.len() {
        src[i]
    } else {
        '\0'
    }
}

/// The end of the run of digits that starts at `i`.
pub open spec fn digits_end(src: Seq<char>, i: int) -> int
    decreases src.len() - i,
{
    if 0 <= i < src.len() && is_digit(src[i]) {
        digits_end(src, i + 1)
    } else {
        i
    }
}

/// The end of the run of alphanumeric characters that starts at `i`.
pub open spec fn alnum_end(src: Seq<char>, i: int) -> int
    decreases src.len() - i,
{
    if 0 <= i < src.len() && alphanumeric(src[i]) {
        alnum_end(src, i + 1)
    } else {
        i
    }
}

/// The position of the first newline at or after `i`, or the end of input.
pub open spec fn line_end(src: Seq<char>, i: int) -> int
    decreases src.len() - i,
{
    if 0 <= i < src.len() && src[i] != '\n' {
        line_end(src, i + 1)
    } else {
        i
    }
}

/// The position of the first `"` at or after `i`, or the end of input.
pub open spec fn quote_end(src: Seq<char>, i: int) -> int
    decreases src.len() - i,
{
    if 0 <= i < src.len() && src[i] != '"' {
        quote_end(src, i + 1)
    } else {
        i
    }
}

/// The number of newlines in `s`.
pub open spec fn newlines(s: Seq<char>) -> nat
    decreases s.len(),
{
    if s.len() == 0 {
        0
    } else {
        newlines(s.drop_last()) + if s.last() == '\n' {
            1nat
        } else {
            0nat
        }
    }
}

/// The keyword spelled by `text`, if it is one.
pub open spec fn keyword_kind(text: Seq<char>) -> Option<TokenType> {
    if text == "and"@ {
        Some(TokenType::And)
    } else if text == "class"@ {
        Some(TokenType::Class)
    } else if text == "else"@ {
        Some(TokenType::Else)
    } else if text == "false"@ {
        Some(TokenType::False)
    } else if text == "fun"@ {
        Some(TokenType::Fun)
    } else if text == "for"@ {
        Some(TokenType::For)
    } else if text == "if"@ {
        Some(TokenType::If)
    } else if text == "nil"@ {
        Some(TokenType::Nil)
    } else if text == "or"@ {
        Some(TokenType::Or)
    } else if text == "print"@ {
        Some(TokenType::Print)
    } else if text == "return"@ {
        Some(TokenType::Return)
    } else if text == "super"@ {
        Some(TokenType::Super)
    } else if text == "this"@ {
        Some(TokenType::This)
    } else if text == "true"@ {
        Some(TokenType::True)
    } else if text == "var"@ {
        Some(TokenType::Var)
    } else if text == "while"@ {
        Some(TokenType::While)
    } else {
        None
    }
}

/// What one scanning step that starts at `start` (on line `line`) yields:
/// the token it emits, if any, where the next step starts, and the line
/// the next step starts on.
pub type Step = (Option<TokenView>, int, nat);

/// A token of `kind` spanning `start..end`, with no literal.
pub open spec fn plain(src: Seq<char>, start: int, end: int, kind: TokenType, line: nat) -> Step {
    (Some(TokenView { kind, lexeme: src.subrange(start, end), literal: None, line }), end, line)
}

/// `one` for the character at `start`, or `two` where a `=` follows it.
pub open spec fn with_equal(
    src: Seq<char>,
    start: int,
    two: TokenType,
    one: TokenType,
    line: nat,
) -> Step {
    if char_at(src, start + 1) == '=' {
        plain(src, start, start + 2, two, line)
    } else {
        plain(src, start, start + 1, one, line)
    }
}

/// A string literal opened at `start`: through the next `"`, or, where
/// there is none, the rest of the input without a token.
pub open spec fn string_step(src: Seq<char>, start: int, line: nat) -> Step {
    let close = quote_end(src, start + 1);
    if close >= src.len() {
        (None, src.len() as int, line + newlines(src.subrange(start + 1, src.len() as int)))
    } else {
        let l = line + newlines(src.subrange(start + 1, close));
        (
            Some(
                TokenView {
                    kind: TokenType::String,
                    lexeme: src.subrange(start, close + 1),
                    literal: Some(LiteralView::Str(src.subrange(start + 1, close))),
                    line: l,
                },
            ),
            close + 1,
            l,
        )
    }
}

/// The end of the number literal that starts at `start`: its digits, then
/// a `.` and more digits where a digit follows the `.`.
pub open spec fn number_end(src: Seq<char>, start: int) -> int {
    let d = digits_end(src, start + 1);
    if char_at(src, d) == '.' && is_digit(char_at(src, d + 1)) {
        digits_end(src, d + 2)
    } else {
        d
    }
}

/// A number literal that starts at `start`; its literal is its own text.
pub open spec fn number_step(src: Seq<char>, start: int, line: nat) -> Step {
    let end = number_end(src, start);
    let text = src.subrange(start, end);
    (
        Some(
            TokenView {
                kind: TokenType::Number,
                lexeme: text,
                literal: Some(LiteralView::Num(text)),
                line,
            },
        ),
        end,
        line,
    )
}

/// An identifier or keyword that starts at `start`.
pub open spec fn identifier_step(src: Seq<char>, start: int, line: nat) -> Step {
    let end = alnum_end(src, start + 1);
    let text = src.subrange(start, end);
    let kind = match keyword_kind(text) {
        Some(k) => k,
        None => TokenType::Identifier,
    };
    plain(src, start, end, kind, line)
}

/// One scanning step at `start`, which lies inside the input.
pub open spec fn scan_step(src: Seq<char>, start: int, line: nat) -> Step {
    let c = src[start];
    let next = start + 1;
    if c == '(' {
        plain(src, start, next, TokenType::LeftParen, line)
    } else if c == ')' {
        plain(src, start, next, TokenType::RightParen, line)
    } else if c == '{' {
        plain(src, start, next, TokenType::LeftBrace, line)
    } else if c == '}' {
        plain(src, start, next, TokenType::RightBrace, line)
    } else if c == ',' {
        plain(src, start, next, TokenType::Comma, line)
    } else if c == '.' {
        plain(src, start, next, TokenType::Dot, line)
    } else if c == '-' {
        plain(src, start, next, TokenType::Minus, line)
    } else if c == '+' {
        plain(src, start, next, TokenType::Plus, line)
    } else if c == ';' {
        plain(src, start, next, TokenType::Semicolon, line)
    } else if c == '*' {
        plain(src, start, next, TokenType::Star, line)
    } else if c == '!' {
        with_equal(src, start, TokenType::BangEqual, TokenType::Bang, line)
    } else if c == '=' {
        with_equal(src, start, TokenType::EqualEqual, TokenType::Equal, line)
    } else if c == '<' {
        with_equal(src, start, TokenType::LessEqual, TokenType::Less, line)
    } else if c == '>' {
        with_equal(src, start, TokenType::GreaterEqual, TokenType::Greater, line)
    } else if c == '/' {
        if char_at(src, next) == '/' {
            (None, line_end(src, start + 2), line)
        } else {
            plain(src, start, next, TokenType::Slash, line)
        }
    } else if c == '"' {
        string_step(src, start, line)
    } else if is_digit(c) {
        number_step(src, start, line)
    } else if alphabetic(c) {
        identifier_step(src, start, line)
    } else if c == '\n' {
        (None, next, line + 1)
    } else {
        // Blanks, and characters that start no token, are skipped.
        (None, next, line)
    }
}

/// The tokens scanned from position `pos` on, starting on line `line`,
/// ending with the end-of-input token.
pub open spec fn scan_from(src: Seq<char>, pos: int, line: nat) -> Seq<TokenView>
    decreases src.len() - pos,
{
    if 0 <= pos < src.len() {
        let (t, end, l) = scan_step(src, pos, line);
        // Every step moves forward and stays within the input.
        let rest = if pos < end <= src.len() {
            scan_from(src, end, l)
        } else {
            Seq::empty()
        };
        match t {
            Some(tok) => seq![tok] + rest,
            None => rest,
        }
    } else {
        seq![TokenView { kind: TokenType::Eof, lexeme: Seq::empty(), literal: None, line }]
    }
}

/// The tokens of `src`.
pub open spec fn scan(src: Seq<char>) -> Seq<TokenView> {
    scan_from(src, 0, 1)
}

/// Every token sequence the scanner yields ends with the end-of-input token
/// and holds no other; each string token in it carries its literal; and its
/// line numbers never decrease, starting from the line scanning starts on.
pub proof fn lemma_scan_from_shape(src: Seq<char>, pos: int, line: nat)
    ensures
        ({
            let s = scan_from(src, pos, line);
            &&& s.len() > 0
            &&& s.last().kind == TokenType::Eof
            &&& forall|i: int| 0 <= i < s.len() - 1 ==> #[trigger] s[i].kind != TokenType::Eof
            &&& forall|i: int|
                0 <= i < s.len() && #[trigger] s[i].kind == TokenType::String
                    ==> s[i].literal is Some
            &&& forall|i: int| 0 <= i < s.len() ==> line <= #[trigger] s[i].line
            &&& forall|i: int, j: int| 0 <= i <= j < s.len() ==> #[trigger] s[i].line <= #[trigger] s[j].line
        }),
    decreases src.len() - pos,
{
    if 0 <= pos < src.len() {
        let (t, end, l) = scan_step(src, pos, line);
        lemma_step_advances(src, pos, line);
        lemma_step_line(src, pos, line);
        lemma_scan_from_shape(src, end, l);
        let rest = scan_from(src, end, l);
        if let Some(tok) = t {
            let whole = seq![tok] + rest;
            assert(whole.last() == rest.last());
            assert forall|i: int| 0 < i < whole.len() implies #[trigger] whole[i] == rest[i - 1] by {}
            assert(whole[0] == tok);
        }
    }
}

/// A scanning step emits no end-of-input token, gives a string token its
/// literal, and never moves the line back; its token stands on the line the
/// next step starts on.
proof fn lemma_step_line(src: Seq<char>, pos: int, line: nat)
    requires
        0 <= pos < src.len(),
    ensures
        ({
            let (t, end, l) = scan_step(src, pos, line);
            &&& line <= l
            &&& t matches Some(tok) ==> {
                &&& tok.kind != TokenType::Eof
                &&& tok.kind == TokenType::String ==> tok.literal is Some
                &&& line <= tok.line <= l
            }
        }),
{
}

/// Each run of characters that a scanning step skips over ends at or after
/// its start and within the input.
proof fn lemma_runs_in_bounds(src: Seq<char>, i: int)
    requires
        0 <= i <= src.len(),
    ensures
        i <= digits_end(src, i) <= src.len(),
        i <= alnum_end(src, i) <= src.len(),
        i <= line_end(src, i) <= src.len(),
        i <= quote_end(src, i) <= src.len(),
    decreases src.len() - i,
{
    if i < src.len() {
        lemma_runs_in_bounds(src, i + 1);
    }
}

/// A scanning step inside the input moves forward and stays within it.
proof fn lemma_step_advances(src: Seq<char>, pos: int, line: nat)
    requires
        0 <= pos < src.len(),
    ensures
        pos < scan_step(src, pos, line).1 <= src.len(),
{
    lemma_runs_in_bounds(src, pos + 1);
    if pos + 2 <= src.len() {
        lemma_runs_in_bounds(src, pos + 2);
    }
    let d = digits_end(src, pos + 1);
    if 0 <= d + 2 <= src.len() {
        lemma_runs_in_bounds(src, d + 2);
    }
}

/// Whether `s` is a non-empty run of digits.
pub open spec fn all_digits(s: Seq<char>) -> bool {
    s.len() > 0 && forall|i: int| 0 <= i < s.len() ==> is_digit(#[trigger] s[i])
}

/// Whether `n` is a number literal: digits, then optionally a `.` and more
/// digits.
pub open spec fn is_number_literal(n: Seq<char>) -> bool {
    ||| all_digits(n)
    ||| exists|k: int|
        0 < k < n.len() && #[trigger] n[k] == '.' && all_digits(n.subrange(0, k)) && all_digits(
            n.subrange(k + 1, n.len() as int),
        )
}

/// A run of digits from `i` to `e`, followed by the end of input or by a
/// non-digit, ends at `e`.
proof fn lemma_digits_end(src: Seq<char>, i: int, e: int)
    requires
        0 <= i <= e <= src.len(),
        forall|j: int| i <= j < e ==> is_digit(#[trigger] src[j]),
        e == src.len() || !is_digit(src[e]),
    ensures
        digits_end(src, i) == e,
    decreases e - i,
{
    if i < e {
        lemma_digits_end(src, i + 1, e);
    }
}

/// Scanning a number literal yields one number token whose literal is the
/// literal's own text, then the end of input.
pub proof fn lemma_scan_number_literal(n: Seq<char>)
    requires
        is_number_literal(n),
    ensures
        scan(n) == seq![
            TokenView {
                kind: TokenType::Number,
                lexeme: n,
                literal: Some(LiteralView::Num(n)),
                line: 1,
            },
            TokenView { kind: TokenType::Eof, lexeme: Seq::empty(), literal: None, line: 1 },
        ],
{
    if all_digits(n) {
        lemma_digits_end(n, 1, n.len() as int);
        assert(n[0] == n[0]);
    } else {
        let k = choose|k: int|
            0 < k < n.len() && #[trigger] n[k] == '.' && all_digits(n.subrange(0, k)) && all_digits(
                n.subrange(k + 1, n.len() as int),
            );
        assert forall|j: int| 1 <= j < k implies is_digit(#[trigger] n[j]) by {
            assert(n[j] == n.subrange(0, k)[j]);
        }
        lemma_digits_end(n, 1, k);
        assert forall|j: int| k + 2 <= j < n.len() implies is_digit(#[trigger] n[j]) by {
            assert(n[j] == n.subrange(k + 1, n.len() as int)[j - k - 1]);
        }
        assert(is_digit(n[k + 1])) by {
            assert(n[k + 1] == n.subrange(k + 1, n.len() as int)[0]);
        }
        assert(is_digit(n[0])) by {
            assert(n[0] == n.subrange(0, k)[0]);
        }
        lemma_digits_end(n, k + 2, n.len() as int);
    }
    assert(number_end(n, 0) == n.len());
    assert(n.subrange(0, n.len() as int) =~= n);
    assert(scan_from(n, n.len() as int, 1) == seq![
        TokenView { kind: TokenType::Eof, lexeme: Seq::empty(), literal: None, line: 1 },
    ]);
}

/// Whether `a` and `b` hold the same characters.
fn same_text(a: &str, b: &str) -> (r: bool)
    ensures
        r == (a@ == b@),
{
    let n = a.unicode_len();
    if n != b.unicode_len() {
        return false;
    }
    let mut i: usize = 0;
    while i < n
        invariant
            n == a@.len(),
            n == b@.len(),
            i <= n,
            a@.subrange(0, i as int) == b@.subrange(0, i as int),
        decreases n - i,
    {
        if a.get_char(i) != b.get_char(i) {
            return false;
        }
        assert(a@.subrange(0, i + 1) =~= a@.subrange(0, i as int).push(a@[i as int]));
        assert(b@.subrange(0, i + 1) =~= b@.subrange(0, i as int).push(b@[i as int]));
        i = i + 1;
    }
    assert(a@ =~= a@.subrange(0, n as int));
    assert(b@ =~= b@.subrange(0, n as int));
    true
}

/// The keyword spelled by `text`, if it is one.
fn keyword(text: &str) -> (r: Option<TokenType>)
    ensures
        r == keyword_kind(text@),
{
    if same_text(text, "and") {
        Some(TokenType::And)
    } else if same_text(text, "class") {
        Some(TokenType::Class)
    } else if same_text(text, "else") {
        Some(TokenType::Else)
    } else if same_text(text, "false") {
        Some(TokenType::False)
    } else if same_text(text, "fun") {
        Some(TokenType::Fun)
    } else if same_text(text, "for") {
        Some(TokenType::For)
    } else if same_text(text, "if") {
        Some(TokenType::If)
    } else if same_text(text, "nil") {
        Some(TokenType::Nil)
    } else if same_text(text, "or") {
        Some(TokenType::Or)
    } else if same_text(text, "print") {
        Some(TokenType::Print)
    } else if same_text(text, "return") {
        Some(TokenType::Return)
    } else if same_text(text, "super") {
        Some(TokenType::Super)
    } else if same_text(text, "this") {
        Some(TokenType::This)
    } else if same_text(text, "true") {
        Some(TokenType::True)
    } else if same_text(text, "var") {
        Some(TokenType::Var)
    } else if same_text(text, "while") {
        Some(TokenType::While)
    } else {
        None
    }
}

/// Whether `c` is an ASCII decimal digit.
fn digit(c: char) -> (r: bool)
    ensures
        r == is_digit(c),
{
    '0' <= c && c <= '9'
}

/// Single-use scanner over one source text.
pub struct Scanner {
    source: String,
    length: usize,
    tokens: Vec<Token>,
    start: usize,
    current: usize,
    line: usize,
}

impl Scanner {
    /// The source text.
    pub closed spec fn text(&self) -> Seq<char> {
        self.source@
    }

    /// The tokens emitted so far.
    pub closed spec fn emitted(&self) -> Seq<TokenView> {
        tokens_view(self.tokens@)
    }

    /// Where scanning resumes.
    pub closed spec fn position(&self) -> nat {
        self.current as nat
    }

    /// The line scanning resumes on.
    pub closed spec fn current_line(&self) -> nat {
        self.line as nat
    }

    /// The scanner's positions lie within its text, and the line counter
    /// cannot run past the characters read.
    pub closed spec fn wf(&self) -> bool {
        &&& self.length == self.source@.len()
        &&& self.length < usize::MAX
        &&& self.start <= self.current <= self.length
        &&& self.line <= self.current + 1
    }

    pub fn new(source: String) -> (r: Self)
        requires
            source@.len() < usize::MAX,
        ensures
            r.wf(),
            r.text() == source@,
            r.emitted() == Seq::<TokenView>::empty(),
            r.position() == 0,
            r.current_line() == 1,
    {
        let length = source.as_str().unicode_len();
        let r = Self { source, length, start: 0, current: 0, line: 1, tokens: Vec::new() };
        assert(r.emitted() =~= Seq::<TokenView>::empty());
        r
    }

    /// Scans the rest of the text and appends the end-of-input token; on a
    /// fresh scanner the result is `scan` of the whole text.
    pub fn scan_tokens(&mut self) -> (r: &Vec<Token>)
        requires
            old(self).wf(),
        ensures
            tokens_view(r@) == old(self).emitted() + scan_from(
                old(self).text(),
                old(self).position() as int,
                old(self).current_line(),
            ),
    {
        let ghost src = self.source@;
        let ghost first = self.emitted();
        let ghost goal = first + scan_from(src, self.current as int, self.line as nat);
        while !self.is_at_end()
            invariant
                self.wf(),
                self.source@ == src,
                self.emitted() + scan_from(src, self.current as int, self.line as nat) == goal,
            decreases self.length - self.current,
        {
            self.start = self.current;
            let ghost before = self.emitted();
            let ghost pos = self.current as int;
            let ghost line = self.line as nat;
            self.scan_token();
            let ghost (t, end, l) = scan_step(src, pos, line);
            assert(scan_from(src, pos, line) == match t {
                Some(tok) => seq![tok] + scan_from(src, end, l),
                None => scan_from(src, end, l),
            });
            proof {
                if let Some(tok) = t {
                    assert(before + (seq![tok] + scan_from(src, end, l)) =~= before.push(tok)
                        + scan_from(src, end, l));
                }
            }
        }
        let eof = Token::new(TokenType::Eof, String::new(), None, self.line);
        let ghost before = self.emitted();
        self.tokens.push(eof);
        assert(self.emitted() =~= before.push(eof@));
        proof {
            reveal_strlit("");
        }
        assert(eof@.lexeme =~= Seq::<char>::empty());
        &self.tokens
    }

    /// Scans the token that starts at `current`.
    fn scan_token(&mut self)
        requires
            old(self).wf(),
            old(self).start == old(self).current < old(self).length,
        ensures
            final(self).wf(),
            final(self).source@ == old(self).source@,
            ({
                let (t, end, l) = scan_step(
                    old(self).source@,
                    old(self).current as int,
                    old(self).line as nat,
                );
                &&& old(self).current < end <= final(self).length
                &&& final(self).current == end
                &&& final(self).line == l
                &&& final(self).emitted() == match t {
                    Some(tok) => old(self).emitted().push(tok),
                    None => old(self).emitted(),
                }
            }),
    {
        let c = self.advance();
        match c {
            '(' => self.add_token(TokenType::LeftParen, None),
            ')' => self.add_token(TokenType::RightParen, None),
            '{' => self.add_token(TokenType::LeftBrace, None),
            '}' => self.add_token(TokenType::RightBrace, None),
            ',' => self.add_token(TokenType::Comma, None),
            '.' => self.add_token(TokenType::Dot, None),
            '-' => self.add_token(TokenType::Minus, None),
            '+' => self.add_token(TokenType::Plus, None),
            ';' => self.add_token(TokenType::Semicolon, None),
            '*' => self.add_token(TokenType::Star, None),
            '!' => if self.match_second('=') {
                self.add_token(TokenType::BangEqual, None)
            } else {
                self.add_token(TokenType::Bang, None)
            },
            '=' => if self.match_second('=') {
                self.add_token(TokenType::EqualEqual, None)
            } else {
                self.add_token(TokenType::Equal, None)
            },
            '<' => if self.match_second('=') {
                self.add_token(TokenType::LessEqual, None)
            } else {
                self.add_token(TokenType::Less, None)
            },
            '>' => if self.match_second('=') {
                self.add_token(TokenType::GreaterEqual, None)
            } else {
                self.add_token(TokenType::Greater, None)
            },
            '/' => if self.match_second('/') {
                let ghost src = self.source@;
                let ghost from = self.current as int;
                while self.peek() != '\n' && !self.is_at_end()
                    invariant
                        self.wf(),
                        self.source@ == src,
                        self.start + 2 <= self.current,
                        from == self.start + 2,
                        line_end(src, from) == line_end(src, self.current as int),
                        self.emitted() == old(self).emitted(),
                        self.line == old(self).line,
                    decreases self.length - self.current,
                {
                    self.advance();
                }
            } else {
                self.add_token(TokenType::Slash, None)
            },
            '"' => self.string(),
            _ => {
                if digit(c) {
                    self.number();
                } else if char_is_alphabetic(c) {
                    self.identifier();
                } else if c == '\n' {
                    self.line = self.line + 1;
                }
            },
        }
    }

    /// Appends a token of `token_type` spanning `start..current`.
    fn add_token(&mut self, token_type: TokenType, literal: Option<Literal>)
        requires
            old(self).wf(),
        ensures
            final(self).wf(),
            final(self).source@ == old(self).source@,
            final(self).start == old(self).start,
            final(self).current == old(self).current,
            final(self).line == old(self).line,
            final(self).emitted() == old(self).emitted().push(
                TokenView {
                    kind: token_type,
                    lexeme: old(self).source@.subrange(
                        old(self).start as int,
                        old(self).current as int,
                    ),
                    literal: match literal {
                        Some(l) => Some(l@),
                        None => None,
                    },
                    line: old(self).line as nat,
                },
            ),
    {
        let text = self.source.as_str().substring_char(self.start, self.current).to_owned();
        let token = Token::new(token_type, text, literal, self.line);
        let ghost before = self.emitted();
        self.tokens.push(token);
        assert(self.emitted() =~= before.push(token@));
    }

    /// Scans the rest of an identifier or keyword.
    fn identifier(&mut self)
        requires
            old(self).wf(),
            old(self).start + 1 == old(self).current,
        ensures
            final(self).wf(),
            final(self).source@ == old(self).source@,
            ({
                let (t, end, l) = identifier_step(
                    old(self).source@,
                    old(self).start as int,
                    old(self).line as nat,
                );
                &&& old(self).current <= end <= final(self).length
                &&& final(self).current == end
                &&& final(self).line == l
                &&& t matches Some(tok) && final(self).emitted() == old(self).emitted().push(tok)
            }),
    {
        let ghost src = self.source@;
        while !self.is_at_end() && char_is_alphanumeric(self.peek())
            invariant
                self.wf(),
                self.source@ == src,
                self.start + 1 <= self.current,
                alnum_end(src, self.start + 1) == alnum_end(src, self.current as int),
                self.emitted() == old(self).emitted(),
                self.start == old(self).start,
                self.line == old(self).line,
            decreases self.length - self.current,
        {
            self.advance();
        }
        let text = self.source.as_str().substring_char(self.start, self.current);
        let token_type = match keyword(text) {
            Some(k) => k,
            None => TokenType::Identifier,
        };
        self.add_token(token_type, None);
    }

    /// Scans the rest of a number literal.
    fn number(&mut self)
        requires
            old(self).wf(),
            old(self).start + 1 == old(self).current,
        ensures
            final(self).wf(),
            final(self).source@ == old(self).source@,
            ({
                let (t, end, l) = number_step(
                    old(self).source@,
                    old(self).start as int,
                    old(self).line as nat,
                );
                &&& old(self).current <= end <= final(self).length
                &&& final(self).current == end
                &&& final(self).line == l
                &&& t matches Some(tok) && final(self).emitted() == old(self).emitted().push(tok)
            }),
    {
        let ghost src = self.source@;
        while digit(self.peek())
            invariant
                self.wf(),
                self.source@ == src,
                self.start + 1 <= self.current,
                digits_end(src, self.start + 1) == digits_end(src, self.current as int),
                self.emitted() == old(self).emitted(),
                self.start == old(self).start,
                self.line == old(self).line,
            decreases self.length - self.current,
        {
            self.advance();
        }
        if self.peek() == '.' && digit(self.peek_next()) {
            // The dot.
            self.advance();
            while digit(self.peek())
                invariant
                    self.wf(),
                    self.source@ == src,
                    self.start + 1 <= self.current,
                    number_end(src, self.start as int) == digits_end(src, self.current as int),
                    self.emitted() == old(self).emitted(),
                    self.start == old(self).start,
                    self.line == old(self).line,
                decreases self.length - self.current,
            {
                self.advance();
            }
        }
        let text = self.source.as_str().substring_char(self.start, self.current).to_owned();
        self.add_token(TokenType::Number, Some(Literal::Number(text)));
    }

    /// Scans the rest of a string literal; an unterminated one yields no token.
    fn string(&mut self)
        requires
            old(self).wf(),
            old(self).start + 1 == old(self).current,
        ensures
            final(self).wf(),
            final(self).source@ == old(self).source@,
            ({
                let (t, end, l) = string_step(
                    old(self).source@,
                    old(self).start as int,
                    old(self).line as nat,
                );
                &&& old(self).current <= end <= final(self).length
                &&& final(self).current == end
                &&& final(self).line == l
                &&& final(self).emitted() == match t {
                    Some(tok) => old(self).emitted().push(tok),
                    None => old(self).emitted(),
                }
            }),
    {
        let ghost src = self.source@;
        let ghost from = self.start + 1;
        while self.peek() != '"' && !self.is_at_end()
            invariant
                self.wf(),
                self.source@ == src,
                from == self.start + 1,
                from <= self.current,
                quote_end(src, from) == quote_end(src, self.current as int),
                self.line == old(self).line + newlines(src.subrange(from, self.current as int)),
                self.emitted() == old(self).emitted(),
                self.start == old(self).start,
            decreases self.length - self.current,
        {
            assert(src.subrange(from, self.current + 1).drop_last() =~= src.subrange(
                from,
                self.current as int,
            ));
            let c = self.advance();
            if c == '\n' {
                self.line = self.line + 1;
            }
        }
        if self.is_at_end() {
            return;
        }
        // The closing quote.
        self.advance();
        let value = self.source.as_str().substring_char(self.start + 1, self.current - 1).to_owned();
        self.add_token(TokenType::String, Some(Literal::String(value)));
    }

    /// Consumes and returns the character at `current`.
    fn advance(&mut self) -> (r: char)
        requires
            old(self).wf(),
            old(self).current < old(self).length,
        ensures
            final(self).wf(),
            r == old(self).source@[old(self).current as int],
            final(self).current == old(self).current + 1,
            final(self).source@ == old(self).source@,
            final(self).length == old(self).length,
            final(self).start == old(self).start,
            final(self).line == old(self).line,
            final(self).tokens@ == old(self).tokens@,
    {
        let c = self.source.as_str().get_char(self.current);
        self.current = self.current + 1;
        c
    }

    /// Consumes the character at `current` where it is `expected`.
    fn match_second(&mut self, expected: char) -> (r: bool)
        requires
            old(self).wf(),
            expected != '\0',
        ensures
            final(self).wf(),
            r == (char_at(old(self).source@, old(self).current as int) == expected),
            final(self).current == old(self).current + if r {
                1usize
            } else {
                0usize
            },
            final(self).source@ == old(self).source@,
            final(self).length == old(self).length,
            final(self).start == old(self).start,
            final(self).line == old(self).line,
            final(self).tokens@ == old(self).tokens@,
    {
        if self.is_at_end() {
            return false;
        }
        let c = self.source.as_str().get_char(self.current);
        if c != expected {
            return false;
        }
        self.current = self.current + 1;
        true
    }

    /// The character at `current`, or `'\0'` at the end.
    fn peek(&self) -> (r: char)
        requires
            self.wf(),
        ensures
            r == char_at(self.source@, self.current as int),
    {
        if self.is_at_end() {
            return '\0';
        }
        self.source.as_str().get_char(self.current)
    }

    /// The character after the one at `current`, or `'\0'` past the end.
    fn peek_next(&self) -> (r: char)
        requires
            self.wf(),
        ensures
            r == char_at(self.source@, self.current + 1),
    {
        if self.current + 1 >= self.length {
            return '\0';
        }
        self.source.as_str().get_char(self.current + 1)
    }

    fn is_at_end(&self) -> (r: bool)
        requires
            self.wf(),
        ensures
            r == (self.current >= self.length),
    {
        self.current >= self.length
    }
}

} // verus!
