use vstd::prelude::*;

use vstd::std_specs::iter::IteratorSpec;

use crate::token::{
    token_models, KindModel, Literal, LiteralModel, Token, TokenKind, TokenModel,
};

verus! {

/// What went wrong at a place in the source.
#[derive(Debug, Clone, Copy, PartialEq, Eq, Structural)]
pub enum LexErrorKind {
    /// A character that no lexical rule accepts.
    UnexpectedCharacter(char),
    /// The input ended inside a string literal.
    UnterminatedString,
}

/// A lexical error, with the line on which it was found.
#[derive(Debug, Clone, Copy, PartialEq, Eq, Structural)]
pub struct LexError {
    pub line: usize,
    pub kind: LexErrorKind,
}

pub struct LexErrorModel {
    pub line: nat,
    pub kind: LexErrorKind,
}

impl View for LexError {
    type V = LexErrorModel;

    open spec fn view(&self) -> LexErrorModel {
        LexErrorModel { line: self.line as nat, kind: self.kind }
    }
}

pub open spec fn error_models(es: Seq<LexError>) -> Seq<LexErrorModel> {
    es.map_values(|e: LexError| e@)
}

// ----------------------------------------------------------------------
// The scanner as a mathematical function of the source text
// ----------------------------------------------------------------------

pub open spec fn is_digit(c: char) -> bool {
    '0' <= c && c <= '9'
}

/// The kind of a token that is always one character long.
pub open spec fn single_kind(c: char) -> Option<TokenKind> {
    if c == '(' {
        Some(TokenKind::LeftParen)
    } else if c == ')' {
        Some(TokenKind::RightParen)
    } else if c == '{' {
        Some(TokenKind::LeftBrace)
    } else if c == '}' {
        Some(TokenKind::RightBrace)
    } else if c == ',' {
        Some(TokenKind::Comma)
    } else if c == '.' {
        Some(TokenKind::Dot)
    } else if c == '-' {
        Some(TokenKind::Minus)
    } else if c == '+' {
        Some(TokenKind::Plus)
    } else if c == ';' {
        Some(TokenKind::Semicolon)
    } else if c == '*' {
        Some(TokenKind::Star)
    } else {
        None
    }
}

/// For an operator that may be followed by `=`: its kind alone, and its kind
/// together with the `=`.
pub open spec fn pair_kinds(c: char) -> Option<(TokenKind, TokenKind)> {
    if c == '!' {
        Some((TokenKind::Bang, TokenKind::BangEqual))
    } else if c == '=' {
        Some((TokenKind::Equal, TokenKind::EqualEqual))
    } else if c == '<' {
        Some((TokenKind::Less, TokenKind::LessEqual))
    } else if c == '>' {
        Some((TokenKind::Greater, TokenKind::GreaterEqual))
    } else {
        None
    }
}

/// Whether the character after position `i` exists and is `d`.
pub open spec fn next_is(s: Seq<char>, i: int, d: char) -> bool {
    i + 1 < s.len() && s[i + 1] == d
}

/// How many digits follow one another from position `j` on.
pub open spec fn digit_run(s: Seq<char>, j: int) -> nat
    decreases s.len() - j,
{
    if 0 <= j < s.len() && is_digit(s[j]) {
        1 + digit_run(s, j + 1)
    } else {
        0
    }
}

/// How many characters from position `j` on come before the next newline.
pub open spec fn line_run(s: Seq<char>, j: int) -> nat
    decreases s.len() - j,
{
    if 0 <= j < s.len() && s[j] != '\n' {
        1 + line_run(s, j + 1)
    } else {
        0
    }
}

/// How many characters from position `j` on come before the next `"`.
pub open spec fn string_run(s: Seq<char>, j: int) -> nat
    decreases s.len() - j,
{
    if 0 <= j < s.len() && s[j] != '"' {
        1 + string_run(s, j + 1)
    } else {
        0
    }
}

/// The number of newline characters in `t`.
pub open spec fn count_newlines(t: Seq<char>) -> nat
    decreases t.len(),
{
    if t.len() == 0 {
        0
    } else {
        count_newlines(t.drop_last()) + if t.last() == '\n' {
            1nat
        } else {
            0nat
        }
    }
}

/// One step of the scanner: where the next lexeme starts, the line counter
/// after this one, and the token or the error it gives (or neither).
pub struct Step {
    pub next: int,
    pub line: nat,
    pub token: Option<TokenModel>,
    pub error: Option<LexErrorModel>,
}

pub open spec fn emit(kind: KindModel, s: Seq<char>, i: int, next: int, line: nat) -> Step {
    Step {
        next,
        line,
        token: Some(TokenModel { kind, lexeme: s.subrange(i, next), line }),
        error: None,
    }
}

pub open spec fn skip(next: int, line: nat) -> Step {
    Step { next, line, token: None, error: None }
}

pub open spec fn fail(next: int, line: nat, kind: LexErrorKind) -> Step {
    Step { next, line, token: None, error: Some(LexErrorModel { line, kind }) }
}

/// The lexeme that starts at position `i` (with `i` inside `s`), on line `line`.
pub open spec fn step(s: Seq<char>, i: int, line: nat) -> Step {
    let c = s[i];
    if single_kind(c) is Some {
        emit(KindModel::Marker(single_kind(c)->0), s, i, i + 1, line)
    } else if pair_kinds(c) is Some {
        if next_is(s, i, '=') {
            emit(KindModel::Marker((pair_kinds(c)->0).1), s, i, i + 2, line)
        } else {
            emit(KindModel::Marker((pair_kinds(c)->0).0), s, i, i + 1, line)
        }
    } else if c == '/' {
        if next_is(s, i, '/') {
            // a comment runs up to the end of the line, the newline excluded
            skip(i + 1 + line_run(s, i + 1), line)
        } else {
            emit(KindModel::Marker(TokenKind::Slash), s, i, i + 1, line)
        }
    } else if c == '"' {
        let close = i + 1 + string_run(s, i + 1);
        let body = s.subrange(i + 1, close);
        let end_line = line + count_newlines(body);
        if close < s.len() {
            Step {
                next: close + 1,
                line: end_line,
                token: Some(
                    TokenModel {
                        kind: KindModel::Literal(LiteralModel::String(body)),
                        lexeme: s.subrange(i, close + 1),
                        line,
                    },
                ),
                error: None,
            }
        } else {
            fail(close, end_line, LexErrorKind::UnterminatedString)
        }
    } else if is_digit(c) {
        let int_end = i + 1 + digit_run(s, i + 1);
        // a point after the integer part belongs to the number, digits after it or not
        let end = if int_end < s.len() && s[int_end] == '.' {
            int_end + 1 + digit_run(s, int_end + 1)
        } else {
            int_end
        };
        emit(KindModel::Literal(LiteralModel::Number(s.subrange(i, end))), s, i, end, line)
    } else if c == ' ' || c == '\r' || c == '\t' {
        skip(i + 1, line)
    } else if c == '\n' {
        skip(i + 1, line + 1)
    } else {
        fail(i + 1, line, LexErrorKind::UnexpectedCharacter(c))
    }
}

pub open spec fn opt_seq<A>(o: Option<A>) -> Seq<A> {
    match o {
        Some(a) => seq![a],
        None => Seq::empty(),
    }
}

/// What scanning from position `i` on, starting on line `line`, yields:
/// the tokens and errors in order (the end marker excluded) and the final line.
pub struct Scanned {
    pub tokens: Seq<TokenModel>,
    pub errors: Seq<LexErrorModel>,
    pub line: nat,
}

pub open spec fn scan_from(s: Seq<char>, i: int, line: nat) -> Scanned
    decreases s.len() - i,
    via scan_from_decreases
{
    if 0 <= i < s.len() {
        let st = step(s, i, line);
        let rest = scan_from(s, st.next, st.line);
        Scanned {
            tokens: opt_seq(st.token) + rest.tokens,
            errors: opt_seq(st.error) + rest.errors,
            line: rest.line,
        }
    } else {
        Scanned { tokens: Seq::empty(), errors: Seq::empty(), line }
    }
}

/// Every step consumes at least one character.
pub proof fn lemma_step_advances(s: Seq<char>, i: int, line: nat)
    requires
        0 <= i < s.len(),
    ensures
        i < step(s, i, line).next <= s.len(),
{
    lemma_run_bounds(s, i + 1);
    let int_end = i + 1 + digit_run(s, i + 1);
    lemma_run_bounds(s, int_end + 1);
}

/// A run from position `j` stays inside the text.
pub proof fn lemma_run_bounds(s: Seq<char>, j: int)
    requires
        0 <= j,
    ensures
        j + digit_run(s, j) <= s.len() || digit_run(s, j) == 0,
        j + line_run(s, j) <= s.len() || line_run(s, j) == 0,
        j + string_run(s, j) <= s.len() || string_run(s, j) == 0,
    decreases s.len() - j,
{
    if j < s.len() {
        lemma_run_bounds(s, j + 1);
    }
}

#[via_fn]
proof fn scan_from_decreases(s: Seq<char>, i: int, line: nat) {
    if 0 <= i < s.len() {
        lemma_step_advances(s, i, line);
    }
}

/// The end marker, on line `line`.
pub open spec fn end_token(line: nat) -> TokenModel {
    TokenModel { kind: KindModel::Marker(TokenKind::EndOfInput), lexeme: Seq::empty(), line }
}

/// The tokens that scanning `s` produces, end marker included.
pub open spec fn scan_tokens(s: Seq<char>) -> Seq<TokenModel> {
    let r = scan_from(s, 0, 1);
    r.tokens.push(end_token(r.line))
}

/// The errors that scanning `s` reports, in order.
pub open spec fn scan_errors(s: Seq<char>) -> Seq<LexErrorModel> {
    scan_from(s, 0, 1).errors
}

} // verus!

verus! {

// ----------------------------------------------------------------------
// The executable scanner
// ----------------------------------------------------------------------

fn is_digit_char(c: char) -> (r: bool)
    ensures
        r == is_digit(c),
{
    '0' <= c && c <= '9'
}

fn single_kind_of(c: char) -> (r: Option<TokenKind>)
    ensures
        r == single_kind(c),
{
    match c {
        '(' => Some(TokenKind::LeftParen),
        ')' => Some(TokenKind::RightParen),
        '{' => Some(TokenKind::LeftBrace),
        '}' => Some(TokenKind::RightBrace),
        ',' => Some(TokenKind::Comma),
        '.' => Some(TokenKind::Dot),
        '-' => Some(TokenKind::Minus),
        '+' => Some(TokenKind::Plus),
        ';' => Some(TokenKind::Semicolon),
        '*' => Some(TokenKind::Star),
        _ => None,
    }
}

fn pair_kinds_of(c: char) -> (r: Option<(TokenKind, TokenKind)>)
    ensures
        r == pair_kinds(c),
{
    match c {
        '!' => Some((TokenKind::Bang, TokenKind::BangEqual)),
        '=' => Some((TokenKind::Equal, TokenKind::EqualEqual)),
        '<' => Some((TokenKind::Less, TokenKind::LessEqual)),
        '>' => Some((TokenKind::Greater, TokenKind::GreaterEqual)),
        _ => None,
    }
}

pub open spec fn token_opt_model(t: Option<Token>) -> Option<TokenModel> {
    match t {
        Some(t) => Some(t@),
        None => None,
    }
}

pub open spec fn error_opt_model(e: Option<LexError>) -> Option<LexErrorModel> {
    match e {
        Some(e) => Some(e@),
        None => None,
    }
}

/// Turns source text into tokens, one pass from the first character to the last.
pub struct Scanner<'source> {
    source: &'source str,
    chars: Vec<char>,
    tokens: Vec<Token>,
    errors: Vec<LexError>,
    line: usize,
}

impl<'source> Scanner<'source> {
    /// The text being scanned.
    pub closed spec fn text(&self) -> Seq<char> {
        self.source@
    }

    /// The tokens produced so far.
    pub closed spec fn produced(&self) -> Seq<Token> {
        self.tokens@
    }

    /// The errors reported so far.
    pub closed spec fn reported(&self) -> Seq<LexError> {
        self.errors@
    }

    pub closed spec fn well_formed(&self) -> bool {
        &&& self.chars@ == self.source@
        &&& self.chars@.len() < usize::MAX
    }

    pub fn new(source: &'source str) -> (r: Self)
        requires
            source@.len() < usize::MAX,
        ensures
            r.well_formed(),
            r.text() == source@,
            r.produced().len() == 0,
            r.reported().len() == 0,
    {
        let mut chars: Vec<char> = Vec::new();
        proof {
            broadcast use vstd::string::group_string_axioms;
        }
        for c in it: source.chars()
            invariant
                chars@ == it.seq().take(it.index() as int),
        {
            chars.push(c);
        }
        assert(chars@ =~= source@);
        Scanner { source, chars, tokens: Vec::new(), errors: Vec::new(), line: 1 }
    }

    /// The position after the digits that start at `j`.
    fn digits_end(&self, j: usize) -> (k: usize)
        requires
            self.well_formed(),
            j <= self.chars@.len(),
        ensures
            k == j + digit_run(self.chars@, j as int),
            k <= self.chars@.len(),
    {
        let n = self.chars.len();
        let mut k: usize = j;
        while k < n && is_digit_char(self.chars[k])
            invariant
                j <= k <= n,
                n == self.chars@.len(),
                j + digit_run(self.chars@, j as int) == k + digit_run(self.chars@, k as int),
            decreases n - k,
        {
            k = k + 1;
        }
        k
    }

    /// The position of the first newline at or after `j`, or the end.
    fn line_end(&self, j: usize) -> (k: usize)
        requires
            self.well_formed(),
            j <= self.chars@.len(),
        ensures
            k == j + line_run(self.chars@, j as int),
            k <= self.chars@.len(),
    {
        let n = self.chars.len();
        let mut k: usize = j;
        while k < n && self.chars[k] != '\n'
            invariant
                j <= k <= n,
                n == self.chars@.len(),
                j + line_run(self.chars@, j as int) == k + line_run(self.chars@, k as int),
            decreases n - k,
        {
            k = k + 1;
        }
        k
    }

    /// The position of the first `"` at or after `j`, or the end, and the
    /// line counter after the newlines passed on the way.
    fn string_end(&self, j: usize, line: usize) -> (r: (usize, usize))
        requires
            self.well_formed(),
            j <= self.chars@.len(),
            line <= j,
        ensures
            r.0 == j + string_run(self.chars@, j as int),
            r.0 <= self.chars@.len(),
            r.1 == line + count_newlines(self.chars@.subrange(j as int, r.0 as int)),
            r.1 <= r.0,
    {
        let n = self.chars.len();
        let mut k: usize = j;
        let mut l: usize = line;
        assert(self.chars@.subrange(j as int, j as int).len() == 0);
        while k < n && self.chars[k] != '"'
            invariant
                j <= k <= n,
                n == self.chars@.len(),
                j + string_run(self.chars@, j as int) == k + string_run(self.chars@, k as int),
                l == line + count_newlines(self.chars@.subrange(j as int, k as int)),
                l <= k,
            decreases n - k,
        {
            assert(self.chars@.subrange(j as int, k + 1).drop_last() =~= self.chars@.subrange(
                j as int,
                k as int,
            ));
            if self.chars[k] == '\n' {
                l = l + 1;
            }
            k = k + 1;
        }
        (k, l)
    }

    fn token_at(&self, kind: TokenKind, start: usize, end: usize, line: usize) -> (t: Token)
        requires
            self.well_formed(),
            start <= end <= self.chars@.len(),
        ensures
            t.kind == kind,
            t.lexeme@ == self.chars@.subrange(start as int, end as int),
            t.line == line,
    {
        Token::new(kind, self.source.substring_char(start, end), line)
    }

    /// Scans the lexeme that starts at position `i`, on line `line`.
    fn lex_at(&self, i: usize, line: usize) -> (r: (usize, usize, Option<Token>, Option<LexError>))
        requires
            self.well_formed(),
            i < self.chars@.len(),
            1 <= line <= i + 1,
        ensures
            r.0 == step(self.chars@, i as int, line as nat).next,
            r.1 == step(self.chars@, i as int, line as nat).line,
            token_opt_model(r.2) == step(self.chars@, i as int, line as nat).token,
            error_opt_model(r.3) == step(self.chars@, i as int, line as nat).error,
            1 <= r.1 <= r.0 + 1,
    {
        let ghost s = self.chars@;
        let n = self.chars.len();
        let c = self.chars[i];
        if let Some(kind) = single_kind_of(c) {
            (i + 1, line, Some(self.token_at(kind, i, i + 1, line)), None)
        } else if let Some(pair) = pair_kinds_of(c) {
            if i + 1 < n && self.chars[i + 1] == '=' {
                (i + 2, line, Some(self.token_at(pair.1, i, i + 2, line)), None)
            } else {
                (i + 1, line, Some(self.token_at(pair.0, i, i + 1, line)), None)
            }
        } else if c == '/' {
            if i + 1 < n && self.chars[i + 1] == '/' {
                (self.line_end(i + 1), line, None, None)
            } else {
                (i + 1, line, Some(self.token_at(TokenKind::Slash, i, i + 1, line)), None)
            }
        } else if c == '"' {
            let (close, end_line) = self.string_end(i + 1, line);
            if close < n {
                let value = self.source.substring_char(i + 1, close).to_owned();
                let kind = TokenKind::Literal(Literal::String(value));
                (close + 1, end_line, Some(self.token_at(kind, i, close + 1, line)), None)
            } else {
                let e = LexError { line: end_line, kind: LexErrorKind::UnterminatedString };
                (close, end_line, None, Some(e))
            }
        } else if is_digit_char(c) {
            let int_end = self.digits_end(i + 1);
            let end = if int_end < n && self.chars[int_end] == '.' {
                self.digits_end(int_end + 1)
            } else {
                int_end
            };
            let text = self.source.substring_char(i, end).to_owned();
            let kind = TokenKind::Literal(Literal::Number(text));
            (end, line, Some(self.token_at(kind, i, end, line)), None)
        } else if c == ' ' || c == '\r' || c == '\t' {
            (i + 1, line, None, None)
        } else if c == '\n' {
            (i + 1, line + 1, None, None)
        } else {
            (i + 1, line, None, Some(LexError { line, kind: LexErrorKind::UnexpectedCharacter(c) }))
        }
    }

    /// Scans the whole text and returns its tokens, the end marker last.
    /// Errors do not stop the scan: they are recorded, in order, and can be
    /// read with `errors` afterwards.
    pub fn scan(&mut self) -> (r: &[Token])
        requires
            old(self).well_formed(),
        ensures
            final(self).well_formed(),
            final(self).text() == old(self).text(),
            r@ == final(self).produced(),
            token_models(r@) == scan_tokens(old(self).text()),
            error_models(final(self).reported()) == scan_errors(old(self).text()),
            r@.len() >= 1,
            r@.last().kind is EndOfInput,
            forall|k: int| 0 <= k < r@.len() - 1 ==> !(#[trigger] r@[k].kind is EndOfInput),
    {
        let ghost s = self.chars@;
        let n = self.chars.len();
        self.tokens = Vec::new();
        self.errors = Vec::new();
        self.line = 1;
        let mut i: usize = 0;
        while i < n
            invariant
                self.well_formed(),
                self.chars@ == s,
                self.source@ == s,
                n == s.len(),
                i <= n,
                1 <= self.line <= i + 1,
                scan_from(s, 0, 1).tokens == token_models(self.tokens@) + scan_from(
                    s,
                    i as int,
                    self.line as nat,
                ).tokens,
                scan_from(s, 0, 1).errors == error_models(self.errors@) + scan_from(
                    s,
                    i as int,
                    self.line as nat,
                ).errors,
                scan_from(s, 0, 1).line == scan_from(s, i as int, self.line as nat).line,
            decreases n - i,
        {
            let ghost before_tokens = self.tokens@;
            let ghost before_errors = self.errors@;
            let ghost st = step(s, i as int, self.line as nat);
            let ghost rest = scan_from(s, st.next, st.line);
            proof {
                lemma_step_advances(s, i as int, self.line as nat);
            }
            let (next, line, token, error) = self.lex_at(i, self.line);
            match token {
                Some(t) => {
                    self.tokens.push(t);
                },
                None => {},
            }
            match error {
                Some(e) => {
                    self.errors.push(e);
                },
                None => {},
            }
            assert(token_models(self.tokens@) =~= token_models(before_tokens) + opt_seq(st.token));
            assert(error_models(self.errors@) =~= error_models(before_errors) + opt_seq(st.error));
            assert(token_models(before_tokens) + (opt_seq(st.token) + rest.tokens) =~= token_models(
                self.tokens@,
            ) + rest.tokens);
            assert(error_models(before_errors) + (opt_seq(st.error) + rest.errors) =~= error_models(
                self.errors@,
            ) + rest.errors);
            i = next;
            self.line = line;
        }
        let ghost before_tokens = self.tokens@;
        self.tokens.push(Token { kind: TokenKind::EndOfInput, lexeme: String::new(), line: self.line });
        proof {
            assert(token_models(self.tokens@) =~= token_models(before_tokens).push(
                end_token(self.line as nat),
            ));
            assert(scan_from(s, 0, 1).tokens =~= token_models(before_tokens));
            assert(scan_from(s, 0, 1).errors =~= error_models(self.errors@));
            crate::laws::lemma_single_end_marker(s);
            let ts = self.tokens@;
            assert(token_models(ts) == scan_tokens(s));
            assert(token_models(ts).len() == ts.len());
            assert(ts.last()@ == token_models(ts).last());
            assert forall|k: int| 0 <= k < ts.len() - 1 implies !(#[trigger] ts[k].kind is EndOfInput) by {
                assert(ts[k]@ == token_models(ts)[k]);
                assert(!crate::laws::is_end_marker(scan_tokens(s)[k].kind));
                if ts[k].kind is EndOfInput {
                    assert(ts[k].kind@ == KindModel::Marker(TokenKind::EndOfInput));
                }
            }
        }
        self.tokens.as_slice()
    }

    /// The errors that the last scan reported, in the order they were found.
    pub fn errors(&self) -> (r: &[LexError])
        ensures
            r@ == self.reported(),
    {
        self.errors.as_slice()
    }

    /// Gives up the scanner for the tokens and the errors it holds.
    pub fn into_parts(self) -> (r: (Vec<Token>, Vec<LexError>))
        ensures
            r.0@ == self.produced(),
            r.1@ == self.reported(),
    {
        (self.tokens, self.errors)
    }
}

} // verus!
