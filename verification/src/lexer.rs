//! The executable lexical scanner: turns a source string into a lazy sequence
//! of tokens, one `next_token` call at a time. Each call is proved to return
//! exactly the token that the `scan` model prescribes at the current cursor.

use crate::scan::{
    alphabetic, at_token_start, block_comment_end, decimal_value, digit_run_end, is_digit_char,
    is_letter_char, is_single_char_token, is_whitespace_char, lemma_decimal_prefix_le,
    lemma_scan_at_bounds, letter_run_end, line_comment_end, literal_scanned_from, scan_at,
    single_char_token_type, string_content_end, token_at, word_token_type,
};
use crate::token::{SpecTokenType, Token, TokenType};
use vstd::prelude::*;
use vstd::string::*;

verus! {

/// Relies on `char::is_alphabetic`: whether the character has the Unicode
/// `Alphabetic` property, a function of the character alone.
#[verifier::external_body]
fn char_is_alphabetic(c: char) -> (r: bool)
    ensures
        r == alphabetic(c),
{
    c.is_alphabetic()
}

/// Whitespace skipped between tokens.
fn is_whitespace(c: char) -> (r: bool)
    ensures
        r == is_whitespace_char(c),
{
    c == ' ' || c == '\t' || c == '\n' || c == '\r'
}

/// A decimal digit.
fn is_digit(c: char) -> (r: bool)
    ensures
        r == is_digit_char(c),
{
    '0' <= c && c <= '9'
}

/// The category of a character that scans as a token by itself, if it does.
fn single_char_type(c: char) -> (r: Option<TokenType>)
    ensures
        match r {
            Some(t) => is_single_char_token(c) && t@ == single_char_token_type(c),
            None => !is_single_char_token(c),
        },
{
    match c {
        '+' => Some(TokenType::Plus),
        '-' => Some(TokenType::Minus),
        '*' => Some(TokenType::Asterisk),
        '/' => Some(TokenType::Slash),
        '=' => Some(TokenType::Equal),
        '!' => Some(TokenType::NotEqual),
        '<' => Some(TokenType::LessThan),
        '>' => Some(TokenType::GreaterThan),
        '(' => Some(TokenType::LParen),
        ')' => Some(TokenType::RParen),
        '{' => Some(TokenType::LBrace),
        '}' => Some(TokenType::RBrace),
        ',' => Some(TokenType::Comma),
        ';' => Some(TokenType::Semicolon),
        _ => None,
    }
}

/// The scanner: an immutable character buffer and a cursor into it.
pub struct Lexer {
    text: String,
    chars: Vec<char>,
    position: usize,
}

impl Lexer {
    /// The scanner holds the source both as a string (for slicing literals)
    /// and as characters (for scanning); the two agree, and the cursor stays
    /// inside the input.
    pub closed spec fn wf(self) -> bool {
        &&& self.chars@ == self.text@
        &&& self.position <= self.chars@.len()
    }

    /// The source text being scanned.
    pub closed spec fn src(self) -> Seq<char> {
        self.text@
    }

    /// The cursor: how many characters have been consumed.
    pub closed spec fn pos(self) -> int {
        self.position as int
    }

    /// A well-formed scanner's cursor lies inside its input.
    pub proof fn lemma_wf_bounds(self)
        requires
            self.wf(),
        ensures
            0 <= self.pos() <= self.src().len(),
    {
    }

    pub fn new(input: String) -> (lexer: Lexer)
        ensures
            lexer.wf(),
            lexer.src() == input@,
            lexer.pos() == 0,
    {
        let n: usize = input.as_str().unicode_len();
        let mut chars: Vec<char> = Vec::new();
        let mut i: usize = 0;
        while i < n
            invariant
                i <= n,
                n == input@.len(),
                chars@ =~= input@.subrange(0, i as int),
            decreases n - i,
        {
            chars.push(input.as_str().get_char(i));
            i = i + 1;
        }
        assert(chars@ =~= input@);
        Lexer { text: input, chars, position: 0 }
    }

    /// Slice the source between two character positions.
    fn substring(&self, from: usize, to: usize) -> (r: String)
        requires
            self.wf(),
            from <= to <= self.src().len(),
        ensures
            r@ == self.src().subrange(from as int, to as int),
    {
        String::from_str(self.text.as_str().substring_char(from, to))
    }

    /// Move the cursor past a `//` comment: to just after the next newline,
    /// or to the end of the input.
    fn skip_comment(&mut self)
        requires
            old(self).wf(),
        ensures
            final(self).wf(),
            final(self).src() == old(self).src(),
            final(self).pos() == line_comment_end(old(self).src(), old(self).pos()),
    {
        let ghost s = self.text@;
        let ghost p0 = self.position as int;
        while self.position < self.chars.len() && self.chars[self.position] != '\n'
            invariant
                self.wf(),
                self.src() == s,
                p0 <= self.pos(),
                line_comment_end(s, p0) == line_comment_end(s, self.pos()),
            decreases s.len() - self.pos(),
        {
            self.position = self.position + 1;
        }
        if self.position < self.chars.len() {
            self.position = self.position + 1;
        }
    }

    /// Move the cursor past the first `*/` at or after it, or to the end of
    /// the input if the block comment never closes.
    fn skip_multi_line_comment(&mut self)
        requires
            old(self).wf(),
        ensures
            final(self).wf(),
            final(self).src() == old(self).src(),
            final(self).pos() == block_comment_end(old(self).src(), old(self).pos()),
    {
        let ghost s = self.text@;
        let ghost p0 = self.position as int;
        loop
            invariant_except_break
                block_comment_end(s, p0) == block_comment_end(s, self.pos()),
            invariant
                self.wf(),
                self.src() == s,
                p0 <= self.pos(),
            ensures
                self.wf(),
                self.src() == s,
                self.pos() == block_comment_end(s, p0),
            decreases s.len() - self.pos(),
        {
            if self.position >= self.chars.len() {
                break ;
            }
            if self.chars[self.position] == '*' && self.position + 1 < self.chars.len()
                && self.chars[self.position + 1] == '/' {
                self.position = self.position + 2;
                break ;
            }
            self.position = self.position + 1;
        }
    }

    /// Move the cursor over whitespace and comments, to the start of the next
    /// token or to the end of the input. The token scanned from here is the
    /// token scanned from the old cursor.
    fn skip_trivia(&mut self)
        requires
            old(self).wf(),
        ensures
            final(self).wf(),
            final(self).src() == old(self).src(),
            old(self).pos() <= final(self).pos(),
            scan_at(final(self).src(), final(self).pos()) == scan_at(old(self).src(), old(self).pos()),
            final(self).pos() == final(self).src().len() || at_token_start(final(self).src(), final(self).pos()),
    {
        let ghost s = self.text@;
        let ghost p0 = self.position as int;
        loop
            invariant
                self.wf(),
                self.src() == s,
                p0 <= self.pos(),
                scan_at(s, self.pos()) == scan_at(s, p0),
            ensures
                self.wf(),
                self.src() == s,
                p0 <= self.pos(),
                scan_at(s, self.pos()) == scan_at(s, p0),
                self.pos() == s.len() || at_token_start(s, self.pos()),
            decreases s.len() - self.pos(),
        {
            if self.position >= self.chars.len() {
                break ;
            }
            let c = self.chars[self.position];
            if is_whitespace(c) {
                self.position = self.position + 1;
            } else if c == '/' && self.position + 1 < self.chars.len() && self.chars[self.position
                + 1] == '/' {
                let ghost before = self.pos();
                self.skip_comment();
                proof {
                    assert(line_comment_end(s, before) == line_comment_end(s, before + 1));
                    assert(line_comment_end(s, before + 1) == line_comment_end(s, before + 2));
                    crate::scan::lemma_line_comment_end_bounds(s, before + 2);
                    assert(scan_at(s, before) == scan_at(s, line_comment_end(s, before + 2)));
                }
            } else if c == '/' && self.position + 1 < self.chars.len() && self.chars[self.position
                + 1] == '*' {
                let ghost before = self.pos();
                self.position = self.position + 1;
                self.skip_multi_line_comment();
                proof {
                    crate::scan::lemma_block_comment_end_bounds(s, before + 1);
                    assert(scan_at(s, before) == scan_at(s, block_comment_end(s, before + 1)));
                }
            } else {
                break ;
            }
        }
    }

    /// The value of the run of decimal digits between two positions, if it
    /// fits a 64-bit signed integer.
    fn parse_decimal(&self, from: usize, to: usize) -> (r: Option<i64>)
        requires
            self.wf(),
            from <= to <= self.src().len(),
            forall|k: int| from <= k < to ==> is_digit_char(self.src()[k]),
        ensures
            match r {
                Some(v) => v == decimal_value(self.src().subrange(from as int, to as int)),
                None => decimal_value(self.src().subrange(from as int, to as int)) > i64::MAX,
            },
    {
        let ghost w = self.src().subrange(from as int, to as int);
        proof {
            assert(forall|k: int| 0 <= k < w.len() ==> is_digit_char(w[k]));
        }
        let mut acc: u128 = 0;
        let mut i: usize = from;
        while i < to
            invariant
                self.wf(),
                from <= i <= to <= self.src().len(),
                w == self.src().subrange(from as int, to as int),
                forall|k: int| 0 <= k < w.len() ==> is_digit_char(w[k]),
                acc <= i64::MAX,
                acc == decimal_value(w.subrange(0, i - from)),
            decreases to - i,
        {
            let c = self.chars[i];
            assert(c == w[i - from]);
            let d: u128 = (c as u32 - '0' as u32) as u128;
            proof {
                assert(w.subrange(0, i + 1 - from).drop_last() =~= w.subrange(0, i - from));
                assert(w.subrange(0, i + 1 - from).last() == w[i - from]);
            }
            let next: u128 = acc * 10 + d;
            if next > i64::MAX as u128 {
                proof {
                    lemma_decimal_prefix_le(w, i + 1 - from);
                    assert(w.subrange(0, w.len() as int) =~= w);
                }
                return None;
            }
            acc = next;
            i = i + 1;
        }
        assert(w.subrange(0, w.len() as int) =~= w);
        Some(acc as i64)
    }

    /// Read a string literal: the text between the opening quote under the
    /// cursor and the next quote, or to the end of the input if none closes
    /// it. The token's literal is the content, without the quotes.
    fn read_string(&mut self) -> (t: Token)
        requires
            old(self).wf(),
            old(self).pos() < old(self).src().len(),
            old(self).src()[old(self).pos()] == '"',
        ensures
            final(self).wf(),
            final(self).src() == old(self).src(),
            ({
                let step = token_at(old(self).src(), old(self).pos());
                &&& t@.token_type == step.token_type
                &&& t@.literal == step.literal
                &&& final(self).pos() == step.end
            }),
    {
        let ghost s = self.text@;
        let n = self.chars.len();
        let start = self.position + 1;
        let mut i: usize = start;
        while i < n && self.chars[i] != '"'
            invariant
                self.wf(),
                self.src() == s,
                n == s.len(),
                start <= i <= s.len(),
                string_content_end(s, start as int) == string_content_end(s, i as int),
            decreases s.len() - i,
        {
            i = i + 1;
        }
        let content = self.substring(start, i);
        self.position = if i < n {
            i + 1
        } else {
            i
        };
        Token { token_type: TokenType::Str(content.clone()), literal: content }
    }

    /// Read the maximal run of decimal digits under the cursor: an integer
    /// token carrying its value, or an illegal-token marker if the value does
    /// not fit a 64-bit signed integer.
    fn read_number(&mut self) -> (t: Token)
        requires
            old(self).wf(),
            old(self).pos() < old(self).src().len(),
            is_digit_char(old(self).src()[old(self).pos()]),
        ensures
            final(self).wf(),
            final(self).src() == old(self).src(),
            ({
                let step = token_at(old(self).src(), old(self).pos());
                &&& t@.token_type == step.token_type
                &&& t@.literal == step.literal
                &&& final(self).pos() == step.end
            }),
    {
        let ghost s = self.text@;
        let start = self.position;
        let mut i: usize = start;
        while i < self.chars.len() && is_digit(self.chars[i])
            invariant
                self.wf(),
                self.src() == s,
                start <= i <= s.len(),
                forall|k: int| start <= k < i ==> is_digit_char(s[k]),
                digit_run_end(s, start as int) == digit_run_end(s, i as int),
            decreases s.len() - i,
        {
            i = i + 1;
        }
        let literal = self.substring(start, i);
        self.position = i;
        match self.parse_decimal(start, i) {
            Some(value) => Token { token_type: TokenType::Int(value), literal },
            None => Token { token_type: TokenType::Illegal, literal },
        }
    }

    /// A character that may begin or continue an identifier.
    fn is_letter(c: char) -> (r: bool)
        ensures
            r == is_letter_char(c),
    {
        char_is_alphabetic(c) || c == '_'
    }

    /// Classify a scanned word against the fixed keyword table; any other
    /// word is an identifier carrying its name.
    fn classify_word(word: String) -> (t: TokenType)
        ensures
            t@ == word_token_type(word@),
    {
        if word == String::from_str("let") {
            TokenType::Let
        } else if word == String::from_str("fn") {
            TokenType::Fn
        } else if word == String::from_str("if") {
            TokenType::If
        } else if word == String::from_str("else") {
            TokenType::Else
        } else if word == String::from_str("return") {
            TokenType::Return
        } else if word == String::from_str("true") {
            TokenType::True
        } else if word == String::from_str("false") {
            TokenType::False
        } else {
            TokenType::Ident(word)
        }
    }

    /// Read the maximal run of identifier characters under the cursor and
    /// classify it as a keyword or an identifier.
    fn read_identifier(&mut self) -> (t: Token)
        requires
            old(self).wf(),
            old(self).pos() < old(self).src().len(),
            is_letter_char(old(self).src()[old(self).pos()]),
            !is_single_char_token(old(self).src()[old(self).pos()]),
            old(self).src()[old(self).pos()] != '"',
            !is_digit_char(old(self).src()[old(self).pos()]),
        ensures
            final(self).wf(),
            final(self).src() == old(self).src(),
            ({
                let step = token_at(old(self).src(), old(self).pos());
                &&& t@.token_type == step.token_type
                &&& t@.literal == step.literal
                &&& final(self).pos() == step.end
            }),
    {
        let ghost s = self.text@;
        let start = self.position;
        let mut i: usize = start;
        while i < self.chars.len() && Lexer::is_letter(self.chars[i])
            invariant
                self.wf(),
                self.src() == s,
                start <= i <= s.len(),
                letter_run_end(s, start as int) == letter_run_end(s, i as int),
            decreases s.len() - i,
        {
            i = i + 1;
        }
        let literal = self.substring(start, i);
        self.position = i;
        let token_type = Lexer::classify_word(literal.clone());
        Token { token_type, literal }
    }

    /// Return the next token of the input, advancing the cursor past it: the
    /// token that the `scan` model prescribes at the current cursor. The
    /// cursor never moves backwards; the token's literal is the exact
    /// substring of the source at the position it was scanned from; and once
    /// the input is exhausted this returns the end-of-input token forever,
    /// without moving.
    pub fn next_token(&mut self) -> (t: Token)
        requires
            old(self).wf(),
        ensures
            final(self).wf(),
            final(self).src() == old(self).src(),
            ({
                let step = scan_at(old(self).src(), old(self).pos());
                &&& t@.token_type == step.token_type
                &&& t@.literal == step.literal
                &&& final(self).pos() == step.end
            }),
            old(self).pos() <= final(self).pos() <= final(self).src().len(),
            exists|start: int|
                literal_scanned_from(
                    old(self).src(),
                    old(self).pos(),
                    scan_at(old(self).src(), old(self).pos()),
                    start,
                ),
            old(self).pos() == old(self).src().len() ==> t@.token_type == SpecTokenType::EOF
                && t@.literal == Seq::<char>::empty() && final(self).pos() == old(self).pos(),
    {
        let ghost s = self.text@;
        let ghost p0 = self.position as int;
        proof {
            lemma_scan_at_bounds(s, p0);
            crate::scan::lemma_scan_literal_is_substring(s, p0);
            if p0 == s.len() {
                crate::scan::lemma_scan_at_end_is_eof(s, p0);
            }
        }
        self.skip_trivia();
        if self.position >= self.chars.len() {
            return Token { token_type: TokenType::EOF, literal: String::new() };
        }
        let c = self.chars[self.position];
        match single_char_type(c) {
            Some(token_type) => {
                let literal = self.substring(self.position, self.position + 1);
                self.position = self.position + 1;
                Token { token_type, literal }
            },
            None => {
                if c == '"' {
                    self.read_string()
                } else if is_digit(c) {
                    self.read_number()
                } else if Lexer::is_letter(c) {
                    self.read_identifier()
                } else {
                    let literal = self.substring(self.position, self.position + 1);
                    self.position = self.position + 1;
                    Token { token_type: TokenType::Illegal, literal }
                }
            },
        }
    }
}

} // verus!
