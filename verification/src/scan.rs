//! The mathematical model of lexical scanning: given the source text as a
//! character sequence and a cursor, which token comes next, which literal it
//! was scanned from, and where the cursor stands afterwards. The executable
//! scanner in `lexer` is proved to follow this model exactly.

use crate::token::SpecTokenType;
use vstd::prelude::*;

verus! {

/// Whitespace skipped between tokens: space, tab, newline, carriage return.
pub open spec fn is_whitespace_char(c: char) -> bool {
    c == ' ' || c == '\t' || c == '\n' || c == '\r'
}

/// A decimal digit.
pub open spec fn is_digit_char(c: char) -> bool {
    '0' <= c && c <= '9'
}

/// Whether a character has the Unicode `Alphabetic` property. The executable
/// scanner decides this through `char::is_alphabetic`; the result depends on
/// the character alone.
pub uninterp spec fn alphabetic(c: char) -> bool;

/// A character that may begin or continue an identifier: alphabetic or
/// underscore. Digits are not identifier characters.
pub open spec fn is_letter_char(c: char) -> bool {
    alphabetic(c) || c == '_'
}

/// The characters that scan as a token by themselves.
pub open spec fn is_single_char_token(c: char) -> bool {
    ||| c == '+'
    ||| c == '-'
    ||| c == '*'
    ||| c == '/'
    ||| c == '='
    ||| c == '!'
    ||| c == '<'
    ||| c == '>'
    ||| c == '('
    ||| c == ')'
    ||| c == '{'
    ||| c == '}'
    ||| c == ','
    ||| c == ';'
}

/// The category of a single-character token.
pub open spec fn single_char_token_type(c: char) -> SpecTokenType {
    if c == '+' {
        SpecTokenType::Plus
    } else if c == '-' {
        SpecTokenType::Minus
    } else if c == '*' {
        SpecTokenType::Asterisk
    } else if c == '/' {
        SpecTokenType::Slash
    } else if c == '=' {
        SpecTokenType::Equal
    } else if c == '!' {
        SpecTokenType::NotEqual
    } else if c == '<' {
        SpecTokenType::LessThan
    } else if c == '>' {
        SpecTokenType::GreaterThan
    } else if c == '(' {
        SpecTokenType::LParen
    } else if c == ')' {
        SpecTokenType::RParen
    } else if c == '{' {
        SpecTokenType::LBrace
    } else if c == '}' {
        SpecTokenType::RBrace
    } else if c == ',' {
        SpecTokenType::Comma
    } else {
        SpecTokenType::Semicolon
    }
}

/// The cursor position just past the newline that ends a `//` comment, or the
/// end of the input if no newline follows.
pub open spec fn line_comment_end(s: Seq<char>, pos: int) -> int
    decreases s.len() - pos,
{
    if pos < 0 || pos >= s.len() {
        s.len() as int
    } else if s[pos] == '\n' {
        pos + 1
    } else {
        line_comment_end(s, pos + 1)
    }
}

/// The cursor position just past the first `*/` at or after `pos`, or the end
/// of the input if the block comment is unterminated. The `*` that opened the
/// comment may itself begin the closing `*/`.
pub open spec fn block_comment_end(s: Seq<char>, pos: int) -> int
    decreases s.len() - pos,
{
    if pos < 0 || pos >= s.len() {
        s.len() as int
    } else if s[pos] == '*' && pos + 1 < s.len() && s[pos + 1] == '/' {
        pos + 2
    } else {
        block_comment_end(s, pos + 1)
    }
}

/// The position of the closing quote of a string literal whose content starts
/// at `pos`, or the end of the input if the string is unterminated.
pub open spec fn string_content_end(s: Seq<char>, pos: int) -> int
    decreases s.len() - pos,
{
    if pos < 0 || pos >= s.len() {
        s.len() as int
    } else if s[pos] == '"' {
        pos
    } else {
        string_content_end(s, pos + 1)
    }
}

/// The end of the maximal run of decimal digits starting at `pos`.
pub open spec fn digit_run_end(s: Seq<char>, pos: int) -> int
    decreases s.len() - pos,
{
    if pos < 0 || pos >= s.len() {
        s.len() as int
    } else if !is_digit_char(s[pos]) {
        pos
    } else {
        digit_run_end(s, pos + 1)
    }
}

/// The end of the maximal run of identifier characters starting at `pos`.
pub open spec fn letter_run_end(s: Seq<char>, pos: int) -> int
    decreases s.len() - pos,
{
    if pos < 0 || pos >= s.len() {
        s.len() as int
    } else if !is_letter_char(s[pos]) {
        pos
    } else {
        letter_run_end(s, pos + 1)
    }
}

/// The value of a sequence of decimal digits.
pub open spec fn decimal_value(s: Seq<char>) -> int
    decreases s.len(),
{
    if s.len() == 0 {
        0
    } else {
        decimal_value(s.drop_last()) * 10 + (s.last() as int - '0' as int)
    }
}

/// Classification of a scanned word against the fixed keyword table; any
/// other word is an identifier carrying its name.
pub open spec fn word_token_type(w: Seq<char>) -> SpecTokenType {
    if w == "let"@ {
        SpecTokenType::Let
    } else if w == "fn"@ {
        SpecTokenType::Fn
    } else if w == "if"@ {
        SpecTokenType::If
    } else if w == "else"@ {
        SpecTokenType::Else
    } else if w == "return"@ {
        SpecTokenType::Return
    } else if w == "true"@ {
        SpecTokenType::True
    } else if w == "false"@ {
        SpecTokenType::False
    } else {
        SpecTokenType::Ident(w)
    }
}

/// The value of a digit sequence is never negative.
pub proof fn lemma_decimal_value_nonneg(w: Seq<char>)
    requires
        forall|k: int| 0 <= k < w.len() ==> is_digit_char(w[k]),
    ensures
        decimal_value(w) >= 0,
    decreases w.len(),
{
    if w.len() > 0 {
        lemma_decimal_value_nonneg(w.drop_last());
    }
}

/// Extending a digit sequence on the right never shrinks its value.
pub proof fn lemma_decimal_prefix_le(w: Seq<char>, i: int)
    requires
        0 <= i <= w.len(),
        forall|k: int| 0 <= k < w.len() ==> is_digit_char(w[k]),
    ensures
        decimal_value(w.subrange(0, i)) <= decimal_value(w),
    decreases w.len() - i,
{
    if i < w.len() {
        lemma_decimal_value_nonneg(w.subrange(0, i));
        assert(w.subrange(0, i + 1).drop_last() =~= w.subrange(0, i));
        lemma_decimal_prefix_le(w, i + 1);
    } else {
        assert(w.subrange(0, i) =~= w);
    }
}

/// A cursor that sits neither on whitespace nor on a comment opener, with
/// input left: the next token begins exactly here.
pub open spec fn at_token_start(s: Seq<char>, pos: int) -> bool {
    &&& 0 <= pos < s.len()
    &&& !is_whitespace_char(s[pos])
    &&& !(s[pos] == '/' && pos + 1 < s.len() && (s[pos + 1] == '/' || s[pos + 1] == '*'))
}

/// One step of scanning: the token's category, the literal it was scanned
/// from, and the cursor position after it.
#[verifier::ext_equal]
pub struct ScanStep {
    pub token_type: SpecTokenType,
    pub literal: Seq<char>,
    pub end: int,
}

/// The token beginning exactly at `pos`, assuming `pos` is in range and does
/// not sit on whitespace or a comment opener.
pub open spec fn token_at(s: Seq<char>, pos: int) -> ScanStep {
    let c = s[pos];
    if is_single_char_token(c) {
        ScanStep {
            token_type: single_char_token_type(c),
            literal: s.subrange(pos, pos + 1),
            end: pos + 1,
        }
    } else if c == '"' {
        let close = string_content_end(s, pos + 1);
        ScanStep {
            token_type: SpecTokenType::Str(s.subrange(pos + 1, close)),
            literal: s.subrange(pos + 1, close),
            end: if close < s.len() {
                close + 1
            } else {
                close
            },
        }
    } else if is_digit_char(c) {
        let e = digit_run_end(s, pos);
        let lit = s.subrange(pos, e);
        ScanStep {
            token_type: if decimal_value(lit) <= i64::MAX {
                SpecTokenType::Int(decimal_value(lit) as i64)
            } else {
                SpecTokenType::Illegal
            },
            literal: lit,
            end: e,
        }
    } else if is_letter_char(c) {
        let e = letter_run_end(s, pos);
        let lit = s.subrange(pos, e);
        ScanStep { token_type: word_token_type(lit), literal: lit, end: e }
    } else {
        ScanStep {
            token_type: SpecTokenType::Illegal,
            literal: s.subrange(pos, pos + 1),
            end: pos + 1,
        }
    }
}

/// Scanning from `pos`: skip whitespace and comments, then read one token;
/// past the end of the input the result is the end-of-input token forever.
pub open spec fn scan_at(s: Seq<char>, pos: int) -> ScanStep
    decreases s.len() - pos,
{
    if pos < 0 || pos >= s.len() {
        ScanStep { token_type: SpecTokenType::EOF, literal: Seq::empty(), end: s.len() as int }
    } else if is_whitespace_char(s[pos]) {
        scan_at(s, pos + 1)
    } else if s[pos] == '/' && pos + 1 < s.len() && s[pos + 1] == '/' {
        proof {
            lemma_line_comment_end_bounds(s, pos + 2);
        }
        scan_at(s, line_comment_end(s, pos + 2))
    } else if s[pos] == '/' && pos + 1 < s.len() && s[pos + 1] == '*' {
        proof {
            lemma_block_comment_end_bounds(s, pos + 1);
        }
        scan_at(s, block_comment_end(s, pos + 1))
    } else {
        token_at(s, pos)
    }
}

pub proof fn lemma_line_comment_end_bounds(s: Seq<char>, pos: int)
    requires
        0 <= pos <= s.len(),
    ensures
        pos <= line_comment_end(s, pos) <= s.len(),
    decreases s.len() - pos,
{
    if pos < s.len() && s[pos] != '\n' {
        lemma_line_comment_end_bounds(s, pos + 1);
    }
}

pub proof fn lemma_block_comment_end_bounds(s: Seq<char>, pos: int)
    requires
        0 <= pos <= s.len(),
    ensures
        pos <= block_comment_end(s, pos) <= s.len(),
    decreases s.len() - pos,
{
    if pos < s.len() && !(s[pos] == '*' && pos + 1 < s.len() && s[pos + 1] == '/') {
        lemma_block_comment_end_bounds(s, pos + 1);
    }
}

pub proof fn lemma_string_content_end_bounds(s: Seq<char>, pos: int)
    requires
        0 <= pos <= s.len(),
    ensures
        pos <= string_content_end(s, pos) <= s.len(),
    decreases s.len() - pos,
{
    if pos < s.len() && s[pos] != '"' {
        lemma_string_content_end_bounds(s, pos + 1);
    }
}

pub proof fn lemma_digit_run_end_bounds(s: Seq<char>, pos: int)
    requires
        0 <= pos <= s.len(),
    ensures
        pos <= digit_run_end(s, pos) <= s.len(),
        forall|i: int| pos <= i < digit_run_end(s, pos) ==> is_digit_char(s[i]),
    decreases s.len() - pos,
{
    if pos < s.len() && is_digit_char(s[pos]) {
        lemma_digit_run_end_bounds(s, pos + 1);
    }
}

pub proof fn lemma_letter_run_end_bounds(s: Seq<char>, pos: int)
    requires
        0 <= pos <= s.len(),
    ensures
        pos <= letter_run_end(s, pos) <= s.len(),
    decreases s.len() - pos,
{
    if pos < s.len() && is_letter_char(s[pos]) {
        lemma_letter_run_end_bounds(s, pos + 1);
    }
}

/// The scanner's cursor never moves backwards and never leaves the input,
/// and every token other than end-of-input consumes at least one character.
pub proof fn lemma_scan_at_bounds(s: Seq<char>, pos: int)
    requires
        0 <= pos <= s.len(),
    ensures
        pos <= scan_at(s, pos).end <= s.len(),
        scan_at(s, pos).token_type != SpecTokenType::EOF ==> pos < scan_at(s, pos).end,
    decreases s.len() - pos,
{
    if pos >= s.len() {
    } else if is_whitespace_char(s[pos]) {
        lemma_scan_at_bounds(s, pos + 1);
    } else if s[pos] == '/' && pos + 1 < s.len() && s[pos + 1] == '/' {
        lemma_line_comment_end_bounds(s, pos + 2);
        lemma_scan_at_bounds(s, line_comment_end(s, pos + 2));
    } else if s[pos] == '/' && pos + 1 < s.len() && s[pos + 1] == '*' {
        lemma_block_comment_end_bounds(s, pos + 1);
        lemma_scan_at_bounds(s, block_comment_end(s, pos + 1));
    } else {
        let c = s[pos];
        if is_single_char_token(c) {
        } else if c == '"' {
            lemma_string_content_end_bounds(s, pos + 1);
        } else if is_digit_char(c) {
            lemma_digit_run_end_bounds(s, pos + 1);
        } else if is_letter_char(c) {
            lemma_letter_run_end_bounds(s, pos + 1);
        } else {
        }
    }
}

/// Wherever scanning starts, the resulting cursor lands inside the input, a
/// token other than end-of-input is scanned only from inside the input and
/// moves the cursor strictly forward, and the end-of-input token leaves the
/// cursor at the very end.
pub proof fn lemma_scan_progress(s: Seq<char>, pos: int)
    ensures
        0 <= scan_at(s, pos).end <= s.len(),
        scan_at(s, pos).token_type != SpecTokenType::EOF ==> 0 <= pos < s.len() && pos < scan_at(
            s,
            pos,
        ).end,
        scan_at(s, pos).token_type == SpecTokenType::EOF ==> scan_at(s, pos).end == s.len(),
{
    if 0 <= pos <= s.len() {
        lemma_scan_at_bounds(s, pos);
        lemma_scan_at_eof_end(s, pos);
    }
}

/// Only exhausted input scans as end-of-input, and then the cursor is left at
/// the very end.
pub proof fn lemma_scan_at_eof_end(s: Seq<char>, pos: int)
    requires
        0 <= pos <= s.len(),
    ensures
        scan_at(s, pos).token_type == SpecTokenType::EOF ==> scan_at(s, pos).end == s.len(),
    decreases s.len() - pos,
{
    if pos >= s.len() {
    } else if is_whitespace_char(s[pos]) {
        lemma_scan_at_eof_end(s, pos + 1);
    } else if s[pos] == '/' && pos + 1 < s.len() && s[pos + 1] == '/' {
        lemma_line_comment_end_bounds(s, pos + 2);
        lemma_scan_at_eof_end(s, line_comment_end(s, pos + 2));
    } else if s[pos] == '/' && pos + 1 < s.len() && s[pos + 1] == '*' {
        lemma_block_comment_end_bounds(s, pos + 1);
        lemma_scan_at_eof_end(s, block_comment_end(s, pos + 1));
    } else {
        assert(token_at(s, pos).token_type != SpecTokenType::EOF);
    }
}

/// Scanning at the end of the input yields the end-of-input token, with an
/// empty literal, without moving the cursor: after exhaustion every further
/// scan yields end-of-input again.
pub proof fn lemma_scan_at_end_is_eof(s: Seq<char>, pos: int)
    requires
        pos >= s.len(),
    ensures
        scan_at(s, pos).token_type == SpecTokenType::EOF,
        scan_at(s, pos).literal == Seq::<char>::empty(),
        scan_at(s, pos).end == s.len(),
{
}

/// The literal of a scan step is the substring of the source of the literal's
/// length that begins at `start`, and lies between the scan's start and end.
pub open spec fn literal_scanned_from(s: Seq<char>, pos: int, step: ScanStep, start: int) -> bool {
    &&& pos <= start
    &&& start + step.literal.len() <= step.end
    &&& step.literal == s.subrange(start, start + step.literal.len())
}

/// Every scanned token's literal is exactly the contiguous substring of the
/// source at the position it was scanned from.
pub proof fn lemma_scan_literal_is_substring(s: Seq<char>, pos: int)
    requires
        0 <= pos <= s.len(),
    ensures
        exists|start: int| #[trigger] literal_scanned_from(s, pos, scan_at(s, pos), start),
    decreases s.len() - pos,
{
    let step = scan_at(s, pos);
    if pos >= s.len() {
        assert(step.literal =~= s.subrange(pos, pos + step.literal.len()));
        assert(literal_scanned_from(s, pos, step, pos));
    } else if is_whitespace_char(s[pos]) {
        lemma_scan_literal_is_substring(s, pos + 1);
        let start = choose|start: int| #[trigger] literal_scanned_from(s, pos + 1, step, start);
        assert(literal_scanned_from(s, pos, step, start));
    } else if s[pos] == '/' && pos + 1 < s.len() && s[pos + 1] == '/' {
        lemma_line_comment_end_bounds(s, pos + 2);
        let rest = line_comment_end(s, pos + 2);
        lemma_scan_literal_is_substring(s, rest);
        let start = choose|start: int| #[trigger] literal_scanned_from(s, rest, step, start);
        assert(literal_scanned_from(s, pos, step, start));
    } else if s[pos] == '/' && pos + 1 < s.len() && s[pos + 1] == '*' {
        lemma_block_comment_end_bounds(s, pos + 1);
        let rest = block_comment_end(s, pos + 1);
        lemma_scan_literal_is_substring(s, rest);
        let start = choose|start: int| #[trigger] literal_scanned_from(s, rest, step, start);
        assert(literal_scanned_from(s, pos, step, start));
    } else {
        let c = s[pos];
        if is_single_char_token(c) {
            assert(literal_scanned_from(s, pos, step, pos));
        } else if c == '"' {
            lemma_string_content_end_bounds(s, pos + 1);
            assert(literal_scanned_from(s, pos, step, pos + 1));
        } else if is_digit_char(c) {
            lemma_digit_run_end_bounds(s, pos);
            assert(literal_scanned_from(s, pos, step, pos));
        } else if is_letter_char(c) {
            lemma_letter_run_end_bounds(s, pos);
            assert(literal_scanned_from(s, pos, step, pos));
        } else {
            assert(literal_scanned_from(s, pos, step, pos));
        }
    }
}

/// A character on which scanning can only produce the illegal-character
/// marker: it is outside every legal lexical class.
pub open spec fn is_illegal_char(c: char) -> bool {
    &&& !is_whitespace_char(c)
    &&& !is_single_char_token(c)
    &&& c != '"'
    &&& !is_digit_char(c)
    &&& !is_letter_char(c)
}

/// On input consisting only of characters outside the legal set, every token
/// scanned before the end of the input is the illegal-character marker and
/// consumes exactly one character, so the scan reaches the end of the input.
pub proof fn lemma_scan_all_illegal(s: Seq<char>, pos: int)
    requires
        0 <= pos < s.len(),
        forall|i: int| 0 <= i < s.len() ==> is_illegal_char(s[i]),
    ensures
        scan_at(s, pos).token_type == SpecTokenType::Illegal,
        scan_at(s, pos).end == pos + 1,
{
    assert(is_illegal_char(s[pos]));
}

} // verus!
