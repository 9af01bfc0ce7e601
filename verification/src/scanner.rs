//! The scanner: reads one line of text and hands out its tokens one at a time.
//!
//! The lexical rules are stated once, as the spec function [`tokens`], and the
//! scanner is proved to deliver exactly that sequence.

use crate::text::chars_of;
use crate::token::{end_of_line, SpecToken, Token, TokenType};
use vstd::prelude::*;

verus! {

/// `c` is a decimal digit.
pub open spec fn is_digit(c: char) -> bool {
    '0' <= c && c <= '9'
}

/// `c` is an unaccented Latin letter.
pub open spec fn is_alpha(c: char) -> bool {
    ('a' <= c && c <= 'z') || ('A' <= c && c <= 'Z')
}

/// `c` may start an identifier.
pub open spec fn is_word_start(c: char) -> bool {
    is_alpha(c) || c == '_'
}

/// `c` may continue an identifier.
pub open spec fn is_word(c: char) -> bool {
    is_alpha(c) || is_digit(c) || c == '_'
}

/// `c` is skipped between tokens.
pub open spec fn is_blank(c: char) -> bool {
    c == ' ' || c == '\t'
}

/// `c` ends the line: nothing behind it is read.
pub open spec fn ends_line(c: char) -> bool {
    c == '\0' || c == '\n'
}

/// The classes of characters of which the scanner reads whole runs.
pub enum CharClass {
    Blank,
    Digit,
    Word,
}

/// `c` belongs to `class`.
pub open spec fn belongs(c: char, class: CharClass) -> bool {
    match class {
        CharClass::Blank => is_blank(c),
        CharClass::Digit => is_digit(c),
        CharClass::Word => is_word(c),
    }
}

/// The character at position `i`, or NUL where the text has none.
pub open spec fn peek(s: Seq<char>, i: int) -> char {
    if 0 <= i < s.len() {
        s[i]
    } else {
        '\0'
    }
}

/// The first position at or behind `i` whose character is not of `class`.
pub open spec fn skip(s: Seq<char>, i: int, class: CharClass) -> int
    decreases s.len() - i,
{
    if 0 <= i < s.len() && belongs(s[i], class) {
        skip(s, i + 1, class)
    } else {
        i
    }
}

/// The kind of the one-character token `c`, if it is one.
pub open spec fn symbol(c: char) -> Option<TokenType> {
    if c == '=' {
        Some(TokenType::Equal)
    } else if c == '+' {
        Some(TokenType::Add)
    } else if c == '-' {
        Some(TokenType::Sub)
    } else if c == '*' {
        Some(TokenType::Mul)
    } else if c == '/' {
        Some(TokenType::Div)
    } else if c == '%' {
        Some(TokenType::Mod)
    } else if c == '^' {
        Some(TokenType::Pow)
    } else if c == ',' {
        Some(TokenType::Comma)
    } else if c == '(' {
        Some(TokenType::OpenParen)
    } else if c == ')' {
        Some(TokenType::CloseParen)
    } else {
        None
    }
}

/// Where an exponent ends whose `e` stands just before `i`: an optional sign,
/// then as many digits as follow.
pub open spec fn exponent_end(s: Seq<char>, i: int) -> int {
    if peek(s, i) == '+' || peek(s, i) == '-' {
        skip(s, i + 1, CharClass::Digit)
    } else {
        skip(s, i, CharClass::Digit)
    }
}

/// Kind and end of a number whose decimal point stands just before `i`.
pub open spec fn fraction_end(s: Seq<char>, i: int) -> (TokenType, int) {
    let j = skip(s, i, CharClass::Digit);
    if peek(s, j) == 'e' {
        (TokenType::Exponent, exponent_end(s, j + 1))
    } else {
        (TokenType::Float, j)
    }
}

/// Kind and end of a number of which only integer digits were read before `i`.
pub open spec fn integer_end(s: Seq<char>, i: int) -> (TokenType, int) {
    let j = skip(s, i, CharClass::Digit);
    if peek(s, j) == '.' {
        fraction_end(s, j + 1)
    } else if peek(s, j) == 'e' {
        (TokenType::Exponent, exponent_end(s, j + 1))
    } else {
        (TokenType::Integer, j)
    }
}

/// Kind and end of the token that starts at position `i`, where `s[i]` is
/// neither blank nor the end of the line. The token is the longest that the
/// rules allow.
pub open spec fn scan(s: Seq<char>, i: int) -> (TokenType, int) {
    let c = peek(s, i);
    if symbol(c) is Some {
        (symbol(c)->0, i + 1)
    } else if c == '.' {
        fraction_end(s, i + 1)
    } else if is_word_start(c) {
        (TokenType::Identifier, skip(s, i + 1, CharClass::Word))
    } else if is_digit(c) {
        integer_end(s, i + 1)
    } else {
        (TokenType::Error, i + 1)
    }
}

/// The tokens of the line `s` from position `i` on, up to the end of the line.
pub open spec fn tokens(s: Seq<char>, i: int) -> Seq<SpecToken>
    decreases s.len() - i,
{
    let start = skip(s, i, CharClass::Blank);
    if 0 <= i && start < s.len() && !ends_line(s[start]) {
        let (kind, end) = scan(s, start);
        proof {
            lemma_skip_bounds(s, i, CharClass::Blank);
            lemma_scan_bounds(s, start);
        }
        seq![SpecToken { lexeme: s.subrange(start, end), token_type: kind }] + tokens(s, end)
    } else {
        Seq::empty()
    }
}

/// The tokens of the line `s`.
pub open spec fn tokenize(s: Seq<char>) -> Seq<SpecToken> {
    tokens(s, 0)
}

/// The token at the head of what is left of a line: the end-of-line token
/// where nothing is left.
pub open spec fn head(ts: Seq<SpecToken>) -> SpecToken {
    if ts.len() > 0 {
        ts[0]
    } else {
        end_of_line()
    }
}

/// What is left of a line once its head was taken.
pub open spec fn rest(ts: Seq<SpecToken>) -> Seq<SpecToken> {
    if ts.len() > 0 {
        ts.drop_first()
    } else {
        ts
    }
}

/// A run starts no earlier than `i` and ends within the text.
pub proof fn lemma_skip_bounds(s: Seq<char>, i: int, class: CharClass)
    requires
        0 <= i <= s.len(),
    ensures
        i <= skip(s, i, class) <= s.len(),
        !belongs(peek(s, skip(s, i, class)), class),
        forall|k: int| i <= k < skip(s, i, class) ==> belongs(s[k], class),
    decreases s.len() - i,
{
    if i < s.len() && belongs(s[i], class) {
        lemma_skip_bounds(s, i + 1, class);
    }
}

/// A token is not empty and ends within the text.
pub proof fn lemma_scan_bounds(s: Seq<char>, i: int)
    requires
        0 <= i < s.len(),
    ensures
        i < scan(s, i).1 <= s.len(),
        scan(s, i).0 != TokenType::EOL,
{
    lemma_skip_bounds(s, i + 1, CharClass::Digit);
    lemma_skip_bounds(s, i + 1, CharClass::Word);
    let j = skip(s, i + 1, CharClass::Digit);
    lemma_exponent_bounds(s, j + 1);
    if j < s.len() {
        lemma_skip_bounds(s, j + 1, CharClass::Digit);
        let k = skip(s, j + 1, CharClass::Digit);
        lemma_exponent_bounds(s, k + 1);
    }
}

/// An exponent ends within the text.
proof fn lemma_exponent_bounds(s: Seq<char>, i: int)
    requires
        0 <= i,
    ensures
        i <= s.len() ==> i <= exponent_end(s, i) <= s.len(),
        i > s.len() ==> exponent_end(s, i) == i,
{
    if i <= s.len() {
        lemma_skip_bounds(s, i, CharClass::Digit);
        if i < s.len() {
            lemma_skip_bounds(s, i + 1, CharClass::Digit);
        }
    }
}

/// A number ends within the text, whatever was read of it.
proof fn lemma_number_bounds(s: Seq<char>, i: int)
    requires
        0 <= i <= s.len(),
    ensures
        i <= exponent_end(s, i) <= s.len(),
        i <= fraction_end(s, i).1 <= s.len(),
        i <= integer_end(s, i).1 <= s.len(),
{
    lemma_exponent_bounds(s, i);
    lemma_skip_bounds(s, i, CharClass::Digit);
    let j = skip(s, i, CharClass::Digit);
    lemma_exponent_bounds(s, j + 1);
    if j < s.len() {
        lemma_skip_bounds(s, j + 1, CharClass::Digit);
        let k = skip(s, j + 1, CharClass::Digit);
        lemma_exponent_bounds(s, k + 1);
    }
}

/// The states of the scanner. Between two tokens it is in `Start` or, once the
/// end of the line was reached, in `Finish`.
#[derive(Copy, PartialEq, Eq, Structural)]
enum State {
    Start,
    Integer,
    Float,
    Identifier,
    Exponent,
    Finish,
}

impl Clone for State {
    fn clone(&self) -> (r: State)
        ensures
            r == *self,
    {
        *self
    }
}

/// A scanner over one line of text.
pub struct Scanner {
    chars: Vec<char>,
    char_pos: usize,
    next_char: char,
    next_state: State,
}

impl View for Scanner {
    type V = Seq<SpecToken>;

    /// The tokens that the scanner has still to deliver before the end of the line.
    closed spec fn view(&self) -> Seq<SpecToken> {
        if self.next_state == State::Finish {
            Seq::empty()
        } else {
            tokens(self.chars@, self.char_pos as int)
        }
    }
}

impl Scanner {
    /// The pending character is the one at the cursor.
    spec fn in_step(&self) -> bool {
        &&& self.char_pos <= self.chars@.len()
        &&& self.next_char == peek(self.chars@, self.char_pos as int)
    }

    /// The scanner stands between two tokens.
    pub closed spec fn wf(&self) -> bool {
        &&& self.in_step()
        &&& (self.next_state == State::Start || self.next_state == State::Finish)
    }

    /// The end of the line was delivered.
    pub closed spec fn finished(&self) -> bool {
        self.next_state == State::Finish
    }

    /// The line that the scanner reads.
    pub closed spec fn line(&self) -> Seq<char> {
        self.chars@
    }

    /// A scanner at the start of the line `s`.
    pub fn new(s: &str) -> (r: Scanner)
        ensures
            r.wf(),
            !r.finished(),
            r.line() == s@,
            r@ == tokenize(s@),
    {
        let chars = chars_of(s);
        let next_char = if chars.len() > 0 {
            chars[0]
        } else {
            '\0'
        };
        Scanner { chars, char_pos: 0, next_char, next_state: State::Start }
    }

    /// Moves the cursor to the next character, if there is one.
    fn read_next_char(&mut self)
        requires
            old(self).in_step(),
        ensures
            final(self).in_step(),
            final(self).chars == old(self).chars,
            final(self).next_state == old(self).next_state,
            final(self).char_pos == if old(self).char_pos < old(self).chars@.len() {
                old(self).char_pos + 1
            } else {
                old(self).char_pos as int
            },
    {
        if self.char_pos < self.chars.len() {
            self.char_pos += 1;
        }
        if self.char_pos < self.chars.len() {
            self.next_char = self.chars[self.char_pos];
        } else {
            self.next_char = '\0';
        }
    }

    /// Passes the pending character and every repetition of `c` that follows it.
    fn eat(&mut self, c: char)
        requires
            old(self).in_step(),
            old(self).char_pos < old(self).chars@.len(),
            c != '\0',
        ensures
            final(self).in_step(),
            final(self).chars == old(self).chars,
            final(self).next_state == old(self).next_state,
            old(self).char_pos < final(self).char_pos,
            final(self).next_char != c,
            forall|k: int| old(self).char_pos < k < final(self).char_pos ==> old(self).chars@[k] == c,
    {
        loop
            invariant_except_break
                c != '\0',
                self.in_step(),
                self.chars == old(self).chars,
                self.next_state == old(self).next_state,
                old(self).char_pos <= self.char_pos,
                self.char_pos < self.chars@.len(),
                forall|k: int| old(self).char_pos < k <= self.char_pos ==> old(self).chars@[k] == c,
            ensures
                self.in_step(),
                self.chars == old(self).chars,
                self.next_state == old(self).next_state,
                old(self).char_pos < self.char_pos,
                self.next_char != c,
                forall|k: int| old(self).char_pos < k < self.char_pos ==> old(self).chars@[k] == c,
            decreases self.chars@.len() - self.char_pos,
        {
            self.read_next_char();
            if self.next_char != c {
                break ;
            }
        }
    }

    fn is_digit(c: char) -> (r: bool)
        ensures
            r == is_digit(c),
    {
        c >= '0' && c <= '9'
    }

    fn is_alpha(c: char) -> (r: bool)
        ensures
            r == is_alpha(c),
    {
        (c >= 'a' && c <= 'z') || (c >= 'A' && c <= 'Z')
    }

    /// The kind of the one-character token `c`, if it is one.
    fn symbol(c: char) -> (r: Option<TokenType>)
        ensures
            r == symbol(c),
    {
        match c {
            '=' => Some(TokenType::Equal),
            '+' => Some(TokenType::Add),
            '-' => Some(TokenType::Sub),
            '*' => Some(TokenType::Mul),
            '/' => Some(TokenType::Div),
            '%' => Some(TokenType::Mod),
            '^' => Some(TokenType::Pow),
            ',' => Some(TokenType::Comma),
            '(' => Some(TokenType::OpenParen),
            ')' => Some(TokenType::CloseParen),
            _ => None,
        }
    }

    /// What holds while a token is being read. `all` is what the scanner had
    /// to deliver at the start of the call, `lexeme` what was read of the
    /// token so far.
    spec fn reading(&self, all: Seq<SpecToken>, lexeme: Seq<char>) -> bool {
        let s = self.chars@;
        let pos = self.char_pos as int;
        &&& self.in_step()
        &&& match self.next_state {
            State::Start => lexeme.len() == 0 && all == tokens(s, pos),
            State::Finish => lexeme.len() == 0 && all.len() == 0,
            State::Identifier => self.pending(
                all,
                lexeme,
                (TokenType::Identifier, skip(s, pos, CharClass::Word)),
            ),
            State::Integer => self.pending(all, lexeme, integer_end(s, pos)),
            State::Float => self.pending(all, lexeme, fraction_end(s, pos)),
            State::Exponent => self.pending(
                all,
                lexeme,
                (TokenType::Exponent, exponent_end(s, pos)),
            ),
        }
    }

    /// While a token is being read: `all` starts with the token of which
    /// `lexeme` was read so far, and that token will end at `goal.1` with kind
    /// `goal.0`.
    spec fn pending(&self, all: Seq<SpecToken>, lexeme: Seq<char>, goal: (TokenType, int)) -> bool {
        let s = self.chars@;
        let start = self.char_pos - lexeme.len();
        &&& 0 <= start < self.char_pos <= goal.1 <= s.len()
        &&& lexeme == s.subrange(start, self.char_pos as int)
        &&& all == seq![SpecToken { lexeme: s.subrange(start, goal.1), token_type: goal.0 }]
            + tokens(s, goal.1)
    }

    /// What holds once `token` was read, where `all` is what the scanner had
    /// to deliver before.
    spec fn delivered(&self, all: Seq<SpecToken>, token: SpecToken) -> bool {
        &&& self.wf()
        &&& token == head(all)
        &&& self@ == rest(all)
        &&& (token.token_type == TokenType::EOL) == (all.len() == 0)
        &&& self.finished() == (all.len() == 0)
    }

    /// The scanner came nearer to the end of its token than `before` was.
    spec fn nearer(&self, before: Scanner) -> bool {
        &&& before.char_pos <= self.char_pos
        &&& (before.char_pos == self.char_pos ==> before.next_state == State::Start
            && self.next_state != State::Start)
    }

    /// Adds the pending character to `lexeme` and moves on.
    fn take(&mut self, lexeme: &mut String)
        requires
            old(self).in_step(),
            old(self).char_pos < old(self).chars@.len(),
            old(lexeme)@.len() <= old(self).char_pos,
            old(lexeme)@ == old(self).chars@.subrange(
                old(self).char_pos - old(lexeme)@.len(),
                old(self).char_pos as int,
            ),
        ensures
            final(self).in_step(),
            final(self).chars == old(self).chars,
            final(self).next_state == old(self).next_state,
            final(self).char_pos == old(self).char_pos + 1,
            final(lexeme)@.len() == old(lexeme)@.len() + 1,
            final(lexeme)@ == old(self).chars@.subrange(
                old(self).char_pos - old(lexeme)@.len(),
                final(self).char_pos as int,
            ),
    {
        lexeme.push(self.next_char);
        assert(lexeme@ =~= self.chars@.subrange(
            self.char_pos - old(lexeme)@.len(),
            self.char_pos + 1,
        ));
        self.read_next_char();
    }

    /// Adds the pending run of digits to `lexeme`.
    fn take_digits(&mut self, lexeme: &mut String)
        requires
            old(self).in_step(),
            old(lexeme)@.len() <= old(self).char_pos,
            old(lexeme)@ == old(self).chars@.subrange(
                old(self).char_pos - old(lexeme)@.len(),
                old(self).char_pos as int,
            ),
        ensures
            final(self).in_step(),
            final(self).chars == old(self).chars,
            final(self).next_state == old(self).next_state,
            final(self).char_pos == skip(
                old(self).chars@,
                old(self).char_pos as int,
                CharClass::Digit,
            ),
            final(self).char_pos - final(lexeme)@.len() == old(self).char_pos - old(lexeme)@.len(),
            final(lexeme)@ == old(self).chars@.subrange(
                old(self).char_pos - old(lexeme)@.len(),
                final(self).char_pos as int,
            ),
    {
        while Self::is_digit(self.next_char)
            invariant
                self.in_step(),
                self.chars == old(self).chars,
                self.next_state == old(self).next_state,
                old(lexeme)@.len() <= old(self).char_pos <= self.char_pos,
                skip(self.chars@, self.char_pos as int, CharClass::Digit) == skip(
                    old(self).chars@,
                    old(self).char_pos as int,
                    CharClass::Digit,
                ),
                self.char_pos - lexeme@.len() == old(self).char_pos - old(lexeme)@.len(),
                lexeme@ == self.chars@.subrange(
                    self.char_pos - lexeme@.len(),
                    self.char_pos as int,
                ),
            decreases self.chars@.len() - self.char_pos,
        {
            self.take(lexeme);
        }
    }

    /// Between two tokens: skips blanks, recognises the end of the line and
    /// the one-character tokens, and tells the other tokens by their first
    /// character.
    fn at_start(&mut self, lexeme: &mut String, Ghost(all): Ghost<Seq<SpecToken>>) -> (r: Option<
        TokenType,
    >)
        requires
            old(self).next_state == State::Start,
            old(self).reading(all, old(lexeme)@),
        ensures
            match r {
                Some(kind) => final(self).delivered(
                    all,
                    (SpecToken { lexeme: final(lexeme)@, token_type: kind }),
                ),
                None => final(self).reading(all, final(lexeme)@),
            },
            final(self).chars == old(self).chars,
            r is None ==> final(self).nearer(*old(self)),
    {
        let ghost s = self.chars@;
        let ghost from = self.char_pos as int;
        let c = self.next_char;
        proof {
            lemma_skip_bounds(s, from, CharClass::Blank);
        }
        if c == '\0' || c == '\n' {
            self.next_state = State::Finish;
            None
        } else if c == '\t' || c == ' ' {
            self.eat(c);
            proof {
                lemma_skip_run(s, from, self.char_pos as int, CharClass::Blank);
            }
            None
        } else {
            proof {
                lemma_scan_bounds(s, from);
            }
            assert(lexeme@ =~= s.subrange(from, from));
            self.take(lexeme);
            assert(all.drop_first() =~= tokens(s, scan(s, from).1));
            proof {
                lemma_number_bounds(s, from + 1);
                lemma_skip_bounds(s, from + 1, CharClass::Word);
            }
            match Self::symbol(c) {
                Some(kind) => Some(kind),
                None => {
                    if c == '.' {
                        self.next_state = State::Float;
                        None
                    } else if Self::is_alpha(c) || c == '_' {
                        self.next_state = State::Identifier;
                        None
                    } else if Self::is_digit(c) {
                        self.next_state = State::Integer;
                        None
                    } else {
                        self.next_state = State::Start;
                        Some(TokenType::Error)
                    }
                },
            }
        }
    }

    /// Within an identifier: reads on while letters, digits or underscores follow.
    fn in_identifier(&mut self, lexeme: &mut String, Ghost(all): Ghost<Seq<SpecToken>>) -> (r:
        Option<TokenType>)
        requires
            old(self).next_state == State::Identifier,
            old(self).reading(all, old(lexeme)@),
        ensures
            r is Some,
            final(self).delivered(
                all,
                (SpecToken { lexeme: final(lexeme)@, token_type: r->0 }),
            ),
            final(self).chars == old(self).chars,
            r is None ==> final(self).nearer(*old(self)),
    {
        while Self::is_alpha(self.next_char) || Self::is_digit(self.next_char) || self.next_char
            == '_'
            invariant
                self.chars == old(self).chars,
                old(self).char_pos <= self.char_pos,
                self.next_state == State::Identifier,
                self.reading(all, lexeme@),
            decreases self.chars@.len() - self.char_pos,
        {
            self.take(lexeme);
            proof {
                lemma_skip_bounds(self.chars@, self.char_pos as int, CharClass::Word);
            }
        }
        self.next_state = State::Start;
        assert(all.drop_first() =~= tokens(self.chars@, self.char_pos as int));
        Some(TokenType::Identifier)
    }

    /// Within the integer digits of a number: a decimal point or an `e` makes
    /// it more than an integer.
    fn in_integer(&mut self, lexeme: &mut String, Ghost(all): Ghost<Seq<SpecToken>>) -> (r: Option<
        TokenType,
    >)
        requires
            old(self).next_state == State::Integer,
            old(self).reading(all, old(lexeme)@),
        ensures
            match r {
                Some(kind) => final(self).delivered(
                    all,
                    (SpecToken { lexeme: final(lexeme)@, token_type: kind }),
                ),
                None => final(self).reading(all, final(lexeme)@),
            },
            final(self).chars == old(self).chars,
            r is None ==> final(self).nearer(*old(self)),
    {
        proof {
            lemma_skip_bounds(self.chars@, self.char_pos as int, CharClass::Digit);
        }
        self.take_digits(lexeme);
        if self.next_char == '.' {
            self.take(lexeme);
            self.next_state = State::Float;
            proof {
                lemma_number_bounds(self.chars@, self.char_pos as int);
            }
            None
        } else if self.next_char == 'e' {
            self.take(lexeme);
            self.next_state = State::Exponent;
            proof {
                lemma_number_bounds(self.chars@, self.char_pos as int);
            }
            None
        } else {
            self.next_state = State::Start;
            assert(all.drop_first() =~= tokens(self.chars@, self.char_pos as int));
            Some(TokenType::Integer)
        }
    }

    /// Behind the decimal point of a number: an `e` makes it a number with an
    /// exponent.
    fn in_float(&mut self, lexeme: &mut String, Ghost(all): Ghost<Seq<SpecToken>>) -> (r: Option<
        TokenType,
    >)
        requires
            old(self).next_state == State::Float,
            old(self).reading(all, old(lexeme)@),
        ensures
            match r {
                Some(kind) => final(self).delivered(
                    all,
                    (SpecToken { lexeme: final(lexeme)@, token_type: kind }),
                ),
                None => final(self).reading(all, final(lexeme)@),
            },
            final(self).chars == old(self).chars,
            r is None ==> final(self).nearer(*old(self)),
    {
        proof {
            lemma_skip_bounds(self.chars@, self.char_pos as int, CharClass::Digit);
        }
        self.take_digits(lexeme);
        if self.next_char == 'e' {
            self.take(lexeme);
            self.next_state = State::Exponent;
            proof {
                lemma_number_bounds(self.chars@, self.char_pos as int);
            }
            None
        } else {
            self.next_state = State::Start;
            assert(all.drop_first() =~= tokens(self.chars@, self.char_pos as int));
            Some(TokenType::Float)
        }
    }

    /// Behind the `e` of a number: an optional sign, then digits.
    fn in_exponent(&mut self, lexeme: &mut String, Ghost(all): Ghost<Seq<SpecToken>>) -> (r:
        Option<TokenType>)
        requires
            old(self).next_state == State::Exponent,
            old(self).reading(all, old(lexeme)@),
        ensures
            r is Some,
            final(self).delivered(
                all,
                (SpecToken { lexeme: final(lexeme)@, token_type: r->0 }),
            ),
            final(self).chars == old(self).chars,
            r is None ==> final(self).nearer(*old(self)),
    {
        if self.next_char == '+' || self.next_char == '-' {
            self.take(lexeme);
        }
        proof {
            lemma_skip_bounds(self.chars@, self.char_pos as int, CharClass::Digit);
        }
        self.take_digits(lexeme);
        self.next_state = State::Start;
        assert(all.drop_first() =~= tokens(self.chars@, self.char_pos as int));
        Some(TokenType::Exponent)
    }

    /// Delivers the next token of the line. Once the line is at its end, every
    /// call delivers the end-of-line token.
    pub fn next_token(&mut self) -> (token: Token)
        requires
            old(self).wf(),
        ensures
            final(self).wf(),
            final(self).line() == old(self).line(),
            token@ == head(old(self)@),
            final(self)@ == rest(old(self)@),
            (token.token_type == TokenType::EOL) == (old(self)@.len() == 0),
            final(self).finished() == (old(self).finished() || old(self)@.len() == 0),
    {
        let mut lexeme = String::new();
        let ghost all = self@;

        loop
            invariant
                self.chars == old(self).chars,
                self.reading(all, lexeme@),
                all == old(self)@,
                old(self).finished() ==> all.len() == 0,
            decreases
                    self.chars@.len() - self.char_pos,
                    (if self.next_state == State::Start {
                        1int
                    } else {
                        0int
                    }),
        {
            let done = match self.next_state {
                State::Start => self.at_start(&mut lexeme, Ghost(all)),
                State::Identifier => self.in_identifier(&mut lexeme, Ghost(all)),
                State::Integer => self.in_integer(&mut lexeme, Ghost(all)),
                State::Float => self.in_float(&mut lexeme, Ghost(all)),
                State::Exponent => self.in_exponent(&mut lexeme, Ghost(all)),
                State::Finish => {
                    assert(lexeme@ =~= Seq::<char>::empty());
                    Some(TokenType::EOL)
                },
            };
            if let Some(kind) = done {
                return Token { lexeme, token_type: kind };
            }
        }
    }

    /// The token that `next_token` would deliver. The scanner is left as it was.
    pub fn look_ahead(&mut self) -> (token: Token)
        requires
            old(self).wf(),
        ensures
            final(self).wf(),
            final(self).line() == old(self).line(),
            final(self).finished() == old(self).finished(),
            final(self)@ == old(self)@,
            token@ == head(old(self)@),
            (token.token_type == TokenType::EOL) == (old(self)@.len() == 0),
    {
        let char_pos = self.char_pos;
        let next_char = self.next_char;
        let next_state = self.next_state.clone();

        let token = self.next_token();

        self.char_pos = char_pos;
        self.next_char = next_char;
        self.next_state = next_state;

        return token;
    }

    /// The next token, the end-of-line token included; nothing once that one
    /// was delivered.
    pub fn next(&mut self) -> (r: Option<Token>)
        requires
            old(self).wf(),
        ensures
            final(self).wf(),
            final(self).line() == old(self).line(),
            old(self).finished() ==> r is None && final(self)@ == old(self)@ && final(self).finished(),
            !old(self).finished() ==> r is Some && r->0@ == head(old(self)@) && final(self)@
                == rest(old(self)@) && final(self).finished() == (old(self)@.len() == 0),
    {
        match self.next_state {
            State::Finish => None,
            _ => Some(self.next_token()),
        }
    }
}

/// Characters of one class between two positions belong to one run.
pub proof fn lemma_skip_run(s: Seq<char>, i: int, j: int, class: CharClass)
    requires
        0 <= i <= j <= s.len(),
        forall|k: int| i <= k < j ==> belongs(s[k], class),
    ensures
        skip(s, i, class) == skip(s, j, class),
    decreases j - i,
{
    if i < j {
        lemma_skip_run(s, i + 1, j, class);
    }
}

} // verus!
