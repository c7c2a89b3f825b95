//! Tokenizer: drives a position-tracked cursor over the input characters and
//! produces one classified, position-annotated token per call, using the
//! keyword table and the sliding-window matcher internally.

use vstd::prelude::*;
use vstd::string::StrSliceExecFns;
use crate::ring::Ring;
use crate::token::{
    is_keyword_kind, lemma_keyword_spelling_roundtrip, lookup_keyword, spec_lookup_keyword,
    spec_spelling, span_wf, Token, TokenModel, TokenType, TokenValue, ValueModel,
};

verus! {

/// Whether the character has the Unicode "Alphabetic" property.
pub uninterp spec fn alphabetic(c: char) -> bool;

/// Relies on char::is_alphabetic: whether the character has the Unicode
/// "Alphabetic" property, a function of the character alone.
#[verifier::external_body]
fn char_is_alphabetic(c: char) -> (r: bool)
    ensures
        r == alphabetic(c),
{
    c.is_alphabetic()
}

/// Relies on String::from_iter: collecting characters yields the string
/// spelling exactly those characters, in order.
#[verifier::external_body]
fn string_from_chars(v: &Vec<char>) -> (r: String)
    ensures
        r@ == v@,
{
    v.iter().collect()
}

/// The Unicode "White_Space" characters: the ASCII space and control
/// whitespace, next-line, and the non-ASCII space separators.
pub open spec fn is_space_char(c: char) -> bool {
    let u = c as u32;
    (0x09 <= u && u <= 0x0d) || u == 0x20 || u == 0x85 || u == 0xa0 || u == 0x1680 || (0x2000 <= u
        && u <= 0x200a) || u == 0x2028 || u == 0x2029 || u == 0x202f || u == 0x205f || u == 0x3000
}

/// Executable mirror of `is_space_char`.
fn is_whitespace_char(c: char) -> (r: bool)
    ensures
        r == is_space_char(c),
{
    let u = c as u32;
    (0x09 <= u && u <= 0x0d) || u == 0x20 || u == 0x85 || u == 0xa0 || u == 0x1680 || (0x2000 <= u
        && u <= 0x200a) || u == 0x2028 || u == 0x2029 || u == 0x202f || u == 0x205f || u == 0x3000
}

/// Identifier characters: alphabetic characters and the underscore.
pub open spec fn is_letter_char(c: char) -> bool {
    alphabetic(c) || c == '_'
}

/// A character may start or continue an identifier if it is alphabetic or an
/// underscore; digits intentionally do not continue an identifier.
pub fn is_letter(ch: char) -> (r: bool)
    ensures
        r == is_letter_char(ch),
{
    char_is_alphabetic(ch) || ch == '_'
}

/// Decimal digits.
pub open spec fn is_digit_char(c: char) -> bool {
    0x30 <= (c as u32) && (c as u32) <= 0x39
}

/// Executable mirror of `is_digit_char`.
fn is_digit(c: char) -> (r: bool)
    ensures
        r == is_digit_char(c),
{
    0x30 <= (c as u32) && (c as u32) <= 0x39
}

/// Numeric value of a decimal digit character.
pub open spec fn digit_val(c: char) -> int {
    (c as u32) - 0x30
}

/// Characters that may continue a numeric literal: digits, the decimal
/// point, and the digit separator.
pub open spec fn is_number_char(c: char) -> bool {
    is_digit_char(c) || c == '.' || c == '_'
}

/// Line tracking: consuming a newline moves to the next line.
pub open spec fn adv_line(line: int, c: char) -> int {
    if c == '\n' {
        line + 1
    } else {
        line
    }
}

/// Column tracking: consuming a newline resets the column to 1; any other
/// character moves one column to the right.
pub open spec fn adv_col(col: int, c: char) -> int {
    if c == '\n' {
        1
    } else {
        col + 1
    }
}

/// The line counter after consuming the characters of `s` in `[i, j)`,
/// starting from `line`.
pub open spec fn line_after(s: Seq<char>, i: int, j: int, line: int) -> int
    decreases j - i,
{
    if i >= j {
        line
    } else {
        line_after(s, i + 1, j, adv_line(line, s[i]))
    }
}

/// The column counter after consuming the characters of `s` in `[i, j)`,
/// starting from `col`.
pub open spec fn col_after(s: Seq<char>, i: int, j: int, col: int) -> int
    decreases j - i,
{
    if i >= j {
        col
    } else {
        col_after(s, i + 1, j, adv_col(col, s[i]))
    }
}

/// Consuming one more character extends the tracked position on the right.
pub proof fn lemma_pos_extend(s: Seq<char>, i: int, j: int, line: int, col: int)
    requires
        i <= j < s.len(),
    ensures
        line_after(s, i, j + 1, line) == adv_line(line_after(s, i, j, line), s[j]),
        col_after(s, i, j + 1, col) == adv_col(col_after(s, i, j, col), s[j]),
    decreases j - i,
{
    reveal_with_fuel(line_after, 3);
    reveal_with_fuel(col_after, 3);
    if i < j {
        lemma_pos_extend(s, i + 1, j, adv_line(line, s[i]), adv_col(col, s[i]));
    }
}

/// First position at or after `i` whose character is not whitespace, or the
/// end of the input.
pub open spec fn skip_ws_end(s: Seq<char>, i: int) -> int
    decreases s.len() - i,
{
    if i < 0 || i >= s.len() {
        i
    } else if is_space_char(s[i]) {
        skip_ws_end(s, i + 1)
    } else {
        i
    }
}

/// First position at or after `i` whose character cannot continue an
/// identifier, or the end of the input.
pub open spec fn letter_end(s: Seq<char>, i: int) -> int
    decreases s.len() - i,
{
    if i < 0 || i >= s.len() {
        i
    } else if is_letter_char(s[i]) {
        letter_end(s, i + 1)
    } else {
        i
    }
}

/// First position at or after `i` whose character cannot continue a numeric
/// literal, or the end of the input.
pub open spec fn number_end(s: Seq<char>, i: int) -> int
    decreases s.len() - i,
{
    if i < 0 || i >= s.len() {
        i
    } else if is_number_char(s[i]) {
        number_end(s, i + 1)
    } else {
        i
    }
}

/// Position of the first newline at or after `i`, or the end of the input.
pub open spec fn eol_pos(s: Seq<char>, i: int) -> int
    decreases s.len() - i,
{
    if i < 0 || i >= s.len() {
        s.len() as int
    } else if s[i] == '\n' {
        i
    } else {
        eol_pos(s, i + 1)
    }
}

/// Start of the first block-comment terminator `*/` at or after `i`, or the
/// length of the input if no terminator follows.
pub open spec fn block_term(s: Seq<char>, i: int) -> int
    decreases s.len() - i,
{
    if i < 0 || i + 2 > s.len() {
        s.len() as int
    } else if s[i] == '*' && s[i + 1] == '/' {
        i
    } else {
        block_term(s, i + 1)
    }
}

/// First position in `q` at or after `k` whose character is not whitespace.
pub open spec fn ws_prefix_end(q: Seq<char>, k: int) -> int
    decreases q.len() - k,
{
    if k < 0 || k >= q.len() {
        k
    } else if is_space_char(q[k]) {
        ws_prefix_end(q, k + 1)
    } else {
        k
    }
}

/// `q` with its leading whitespace removed.
pub open spec fn trim_start_spec(q: Seq<char>) -> Seq<char> {
    q.subrange(ws_prefix_end(q, 0), q.len() as int)
}

/// The characters of `s` in `[i, j)` with digit separators removed.
pub open spec fn strip_sep(s: Seq<char>, i: int, j: int) -> Seq<char>
    decreases j - i,
{
    if i >= j {
        Seq::<char>::empty()
    } else {
        strip_sep(s, i, j - 1) + (if s[j - 1] == '_' {
            Seq::<char>::empty()
        } else {
            seq![s[j - 1]]
        })
    }
}

/// How many decimal points the characters of `s` in `[i, j)` contain.
pub open spec fn dot_count(s: Seq<char>, i: int, j: int) -> int
    decreases j - i,
{
    if i >= j {
        0
    } else {
        dot_count(s, i, j - 1) + (if s[j - 1] == '.' {
            1int
        } else {
            0int
        })
    }
}

/// The decimal digits among the characters of `s` in `[i, j)`, in order.
pub open spec fn digits_of(s: Seq<char>, i: int, j: int) -> Seq<char>
    decreases j - i,
{
    if i >= j {
        Seq::<char>::empty()
    } else {
        digits_of(s, i, j - 1) + (if is_digit_char(s[j - 1]) {
            seq![s[j - 1]]
        } else {
            Seq::<char>::empty()
        })
    }
}

/// The value of a sequence of decimal digit characters, most significant
/// first.
pub open spec fn num_val(q: Seq<char>) -> int
    decreases q.len(),
{
    if q.len() == 0 {
        0
    } else {
        num_val(q.drop_last()) * 10 + digit_val(q.last())
    }
}

/// A digit sequence gathered by `digits_of` holds only digits, so its value
/// is never negative.
pub proof fn lemma_digits_of_nonneg(s: Seq<char>, i: int, j: int)
    ensures
        num_val(digits_of(s, i, j)) >= 0,
    decreases j - i,
{
    if i < j {
        lemma_digits_of_nonneg(s, i, j - 1);
        let q = digits_of(s, i, j);
        if is_digit_char(s[j - 1]) {
            assert(q.drop_last() =~= digits_of(s, i, j - 1));
        } else {
            assert(q =~= digits_of(s, i, j - 1));
        }
    }
}

/// Whether position `p` holds character `c`.
pub open spec fn peek_is(s: Seq<char>, p: int, c: char) -> bool {
    0 <= p < s.len() && s[p] == c
}

/// The characters that begin an operator, punctuation, or directive token.
pub open spec fn is_op_char(c: char) -> bool {
    c == '=' || c == '+' || c == '-' || c == '*' || c == '%' || c == '&' || c == '|' || c == '^'
        || c == '<' || c == '>' || c == '!' || c == ';' || c == ':' || c == ',' || c == '{' || c
        == '}' || c == '(' || c == ')' || c == '[' || c == ']' || c == '.' || c == '#'
}

/// Greedy operator scan: the kind of the operator token starting at `j` and
/// the position just past it.  Each operator extends to the longest matching
/// compound using at most two characters of lookahead.
pub open spec fn op_kind_end(s: Seq<char>, j: int) -> (TokenType, int) {
    let c = s[j];
    if c == '=' {
        if peek_is(s, j + 1, '=') {
            (TokenType::Equal, j + 2)
        } else {
            (TokenType::Assign, j + 1)
        }
    } else if c == '+' {
        if peek_is(s, j + 1, '=') {
            (TokenType::PlusAssign, j + 2)
        } else if peek_is(s, j + 1, '+') {
            (TokenType::PlusPlus, j + 2)
        } else {
            (TokenType::Plus, j + 1)
        }
    } else if c == '-' {
        if peek_is(s, j + 1, '=') {
            (TokenType::MinusAssign, j + 2)
        } else if peek_is(s, j + 1, '-') {
            (TokenType::MinusMinus, j + 2)
        } else {
            (TokenType::Minus, j + 1)
        }
    } else if c == '*' {
        if peek_is(s, j + 1, '=') {
            (TokenType::AsteriskAssign, j + 2)
        } else {
            (TokenType::Asterisk, j + 1)
        }
    } else if c == '%' {
        if peek_is(s, j + 1, '=') {
            (TokenType::PercentAssign, j + 2)
        } else {
            (TokenType::Percent, j + 1)
        }
    } else if c == '&' {
        if peek_is(s, j + 1, '&') {
            (TokenType::And, j + 2)
        } else if peek_is(s, j + 1, '=') {
            (TokenType::BitAndAssign, j + 2)
        } else {
            (TokenType::BitAnd, j + 1)
        }
    } else if c == '|' {
        if peek_is(s, j + 1, '|') {
            (TokenType::Or, j + 2)
        } else if peek_is(s, j + 1, '=') {
            (TokenType::BitOrAssign, j + 2)
        } else {
            (TokenType::BitOr, j + 1)
        }
    } else if c == '^' {
        if peek_is(s, j + 1, '=') {
            (TokenType::BitXorAssign, j + 2)
        } else {
            (TokenType::BitXor, j + 1)
        }
    } else if c == '<' {
        if peek_is(s, j + 1, '=') {
            (TokenType::LowerThanEqual, j + 2)
        } else if peek_is(s, j + 1, '<') {
            if peek_is(s, j + 2, '=') {
                (TokenType::BitLeftAssign, j + 3)
            } else {
                (TokenType::BitLeft, j + 2)
            }
        } else {
            (TokenType::LowerThan, j + 1)
        }
    } else if c == '>' {
        if peek_is(s, j + 1, '=') {
            (TokenType::GreaterThanEqual, j + 2)
        } else if peek_is(s, j + 1, '>') {
            if peek_is(s, j + 2, '=') {
                (TokenType::BitRightAssign, j + 3)
            } else {
                (TokenType::BitRight, j + 2)
            }
        } else {
            (TokenType::GreaterThan, j + 1)
        }
    } else if c == '!' {
        if peek_is(s, j + 1, '=') {
            (TokenType::NotEqual, j + 2)
        } else {
            (TokenType::Bang, j + 1)
        }
    } else if c == ';' {
        (TokenType::Semicolon, j + 1)
    } else if c == ':' {
        (TokenType::Colon, j + 1)
    } else if c == ',' {
        (TokenType::Comma, j + 1)
    } else if c == '{' {
        (TokenType::LeftBrace, j + 1)
    } else if c == '}' {
        (TokenType::RightBrace, j + 1)
    } else if c == '(' {
        (TokenType::LeftBracket, j + 1)
    } else if c == ')' {
        (TokenType::RightBracket, j + 1)
    } else if c == '[' {
        (TokenType::LeftSquare, j + 1)
    } else if c == ']' {
        (TokenType::RightSquare, j + 1)
    } else if c == '.' {
        if peek_is(s, j + 1, '.') {
            if peek_is(s, j + 2, '.') {
                (TokenType::Elipsis, j + 3)
            } else {
                (TokenType::Range, j + 2)
            }
        } else {
            (TokenType::Illegal, j + 1)
        }
    } else if c == '#' {
        (TokenType::Directive, j + 1)
    } else {
        (TokenType::Illegal, j + 1)
    }
}

/// Spec-level result of scanning one token: the token produced, the position
/// just past it, and the line and column counters there.
pub ghost struct LexStep {
    pub tok: TokenModel,
    pub end: int,
    pub line: int,
    pub col: int,
}

/// Assemble the step for a token that occupies `[j, e)`, started at line `l1`
/// and column `c1`.
pub open spec fn finish_step(
    s: Seq<char>,
    j: int,
    e: int,
    l1: int,
    c1: int,
    kind: TokenType,
    value: Option<ValueModel>,
) -> LexStep {
    let l2 = line_after(s, j, e, l1);
    let c2 = col_after(s, j, e, c1);
    LexStep {
        tok: TokenModel {
            kind: kind,
            value: value,
            line_start: l1,
            line_end: l2,
            column_start: c1,
            column_end: c2,
        },
        end: e,
        line: l2,
        col: c2,
    }
}

/// An identifier starting at `j`: the longest run of letters, looked up in
/// the keyword table; a hit yields the keyword kind with no payload, a miss a
/// `Symbol` token carrying the text.
pub open spec fn symbol_step(s: Seq<char>, j: int, l1: int, c1: int) -> LexStep {
    let e = letter_end(s, j + 1);
    let text = s.subrange(j, e);
    match spec_lookup_keyword(text) {
        Some(k) => finish_step(s, j, e, l1, c1, k, None),
        None => finish_step(s, j, e, l1, c1, TokenType::Symbol, Some(ValueModel::Text(text))),
    }
}

/// A numeric literal starting at `j`: digits with embedded separators and
/// decimal points.  No decimal point yields an integer if its value fits a
/// signed 32-bit integer, and an `Illegal` token carrying the scanned text if
/// it does not; one decimal point yields a floating literal carrying its
/// text; more than one is malformed and yields an `Illegal` token carrying
/// the text.
pub open spec fn number_step(s: Seq<char>, j: int, l1: int, c1: int) -> LexStep {
    let e = number_end(s, j + 1);
    let dc = dot_count(s, j, e);
    let text = strip_sep(s, j, e);
    let v = num_val(digits_of(s, j, e));
    if dc == 0 {
        if v <= i32::MAX {
            finish_step(s, j, e, l1, c1, TokenType::Integer, Some(ValueModel::Int(v)))
        } else {
            finish_step(s, j, e, l1, c1, TokenType::Illegal, Some(ValueModel::Text(text)))
        }
    } else if dc == 1 {
        finish_step(s, j, e, l1, c1, TokenType::Float, Some(ValueModel::Float(text)))
    } else {
        finish_step(s, j, e, l1, c1, TokenType::Illegal, Some(ValueModel::Text(text)))
    }
}

/// A line comment whose first `/` sits at `j`: the text runs to (and not
/// including) the next newline or the end of the input, is left-trimmed, and
/// the newline itself is consumed.
pub open spec fn line_comment_step(s: Seq<char>, j: int, l1: int, c1: int) -> LexStep {
    let t = eol_pos(s, j + 2);
    let e = if t < s.len() {
        t + 1
    } else {
        t
    };
    finish_step(
        s,
        j,
        e,
        l1,
        c1,
        TokenType::Comment,
        Some(ValueModel::Text(trim_start_spec(s.subrange(j + 2, t)))),
    )
}

/// A block comment whose `/` sits at `j`: consumed through the first `*/`
/// after the opener, or to the end of the input when unterminated.  The
/// stored text ends one character before the terminator (the sliding-window
/// scan never accumulates that character) and is left-trimmed.
pub open spec fn block_comment_step(s: Seq<char>, j: int, l1: int, c1: int) -> LexStep {
    let t = block_term(s, j + 2);
    let e = if t == s.len() {
        t
    } else {
        t + 2
    };
    let raw = if t == s.len() {
        s.subrange(j + 2, t)
    } else {
        s.subrange(
            j + 2,
            if t - 1 >= j + 2 {
                t - 1
            } else {
                j + 2
            },
        )
    };
    finish_step(s, j, e, l1, c1, TokenType::Comment, Some(ValueModel::Text(trim_start_spec(raw))))
}

/// One step of the tokenizer: skip whitespace, then scan a single token
/// starting from position `i` with the counters at line `line`, column
/// `col`.  At the end of the input the step produces the `End` marker.
pub open spec fn spec_next_token(s: Seq<char>, i: int, line: int, col: int) -> LexStep {
    let j = skip_ws_end(s, i);
    let l1 = line_after(s, i, j, line);
    let c1 = col_after(s, i, j, col);
    if j >= s.len() {
        LexStep {
            tok: TokenModel {
                kind: TokenType::End,
                value: None,
                line_start: l1,
                line_end: l1,
                column_start: c1,
                column_end: c1,
            },
            end: j,
            line: l1,
            col: c1,
        }
    } else {
        let c = s[j];
        if c == '/' {
            if peek_is(s, j + 1, '=') {
                finish_step(s, j, j + 2, l1, c1, TokenType::SlashAssign, None)
            } else if peek_is(s, j + 1, '/') {
                line_comment_step(s, j, l1, c1)
            } else if peek_is(s, j + 1, '*') {
                block_comment_step(s, j, l1, c1)
            } else {
                finish_step(s, j, j + 1, l1, c1, TokenType::Slash, None)
            }
        } else if is_op_char(c) {
            let ke = op_kind_end(s, j);
            finish_step(s, j, ke.1, l1, c1, ke.0, None)
        } else if is_letter_char(c) {
            symbol_step(s, j, l1, c1)
        } else if is_digit_char(c) {
            number_step(s, j, l1, c1)
        } else {
            finish_step(s, j, j + 1, l1, c1, TokenType::Illegal, None)
        }
    }
}

/// The whole token sequence scanned from position `i`: one token per step
/// until the step produces the `End` marker, which is not included.
pub open spec fn spec_tokens(s: Seq<char>, i: int, line: int, col: int) -> Seq<TokenModel>
    decreases s.len() - i,
{
    let st = spec_next_token(s, i, line, col);
    if st.tok.kind == TokenType::End || st.end <= i || st.end > s.len() {
        Seq::<TokenModel>::empty()
    } else {
        seq![st.tok] + spec_tokens(s, st.end, st.line, st.col)
    }
}

/// The operator, punctuation and directive kinds: every kind whose canonical
/// spelling is source punctuation rather than a reserved word or a pattern
/// name.
pub open spec fn is_operator_kind(t: TokenType) -> bool {
    ||| t == TokenType::Equal
    ||| t == TokenType::Assign
    ||| t == TokenType::Plus
    ||| t == TokenType::PlusPlus
    ||| t == TokenType::PlusAssign
    ||| t == TokenType::Minus
    ||| t == TokenType::MinusMinus
    ||| t == TokenType::MinusAssign
    ||| t == TokenType::Asterisk
    ||| t == TokenType::AsteriskAssign
    ||| t == TokenType::Slash
    ||| t == TokenType::SlashAssign
    ||| t == TokenType::Percent
    ||| t == TokenType::PercentAssign
    ||| t == TokenType::And
    ||| t == TokenType::BitAnd
    ||| t == TokenType::BitAndAssign
    ||| t == TokenType::Or
    ||| t == TokenType::BitOr
    ||| t == TokenType::BitOrAssign
    ||| t == TokenType::BitXor
    ||| t == TokenType::BitXorAssign
    ||| t == TokenType::LowerThan
    ||| t == TokenType::LowerThanEqual
    ||| t == TokenType::BitLeft
    ||| t == TokenType::BitLeftAssign
    ||| t == TokenType::GreaterThan
    ||| t == TokenType::GreaterThanEqual
    ||| t == TokenType::BitRight
    ||| t == TokenType::BitRightAssign
    ||| t == TokenType::NotEqual
    ||| t == TokenType::Bang
    ||| t == TokenType::Colon
    ||| t == TokenType::Semicolon
    ||| t == TokenType::Comma
    ||| t == TokenType::LeftBrace
    ||| t == TokenType::RightBrace
    ||| t == TokenType::LeftBracket
    ||| t == TokenType::RightBracket
    ||| t == TokenType::LeftSquare
    ||| t == TokenType::RightSquare
    ||| t == TokenType::Elipsis
    ||| t == TokenType::Range
    ||| t == TokenType::Directive
}

/// A scan that consumed the whole input in one step produced the only token.
proof fn lemma_single_token(s: Seq<char>)
    requires
        1 <= s.len(),
        spec_next_token(s, 0, 1, 1).end == s.len(),
        spec_next_token(s, 0, 1, 1).tok.kind != TokenType::End,
    ensures
        spec_tokens(s, 0, 1, 1) =~= seq![spec_next_token(s, 0, 1, 1).tok],
{
    let st = spec_next_token(s, 0, 1, 1);
    assert(skip_ws_end(s, s.len() as int) == s.len());
    assert(spec_next_token(s, st.end, st.line, st.col).tok.kind == TokenType::End);
    assert(spec_tokens(s, st.end, st.line, st.col) =~= Seq::<TokenModel>::empty());
    assert(spec_tokens(s, 0, 1, 1) =~= seq![st.tok] + Seq::<TokenModel>::empty());
}

/// Law of retokenization for operators: scanning the canonical spelling of
/// any operator, punctuation or directive kind on its own yields a single
/// token of exactly that kind, with no payload.
#[verifier::rlimit(100)]
pub proof fn lemma_retokenize_operator(k: TokenType)
    requires
        is_operator_kind(k),
    ensures
        spec_tokens(spec_spelling(k), 0, 1, 1).len() == 1,
        spec_tokens(spec_spelling(k), 0, 1, 1)[0].kind == k,
        spec_tokens(spec_spelling(k), 0, 1, 1)[0].value is None,
{
    match k {
        TokenType::Equal => {
            reveal_strlit("==");
            let s = "=="@;
            assert(s.len() == 2 && s[0] == '=' && s[1] == '=');
            assert(spec_next_token(s, 0, 1, 1).tok.kind == TokenType::Equal && spec_next_token(
                s,
                0,
                1,
                1,
            ).tok.value is None && spec_next_token(s, 0, 1, 1).end == s.len());
            lemma_single_token(s);
        },
        TokenType::Assign => {
            reveal_strlit("=");
            let s = "="@;
            assert(s.len() == 1 && s[0] == '=');
            assert(spec_next_token(s, 0, 1, 1).tok.kind == TokenType::Assign && spec_next_token(
                s,
                0,
                1,
                1,
            ).tok.value is None && spec_next_token(s, 0, 1, 1).end == s.len());
            lemma_single_token(s);
        },
        TokenType::Plus => {
            reveal_strlit("+");
            let s = "+"@;
            assert(s.len() == 1 && s[0] == '+');
            assert(spec_next_token(s, 0, 1, 1).tok.kind == TokenType::Plus && spec_next_token(
                s,
                0,
                1,
                1,
            ).tok.value is None && spec_next_token(s, 0, 1, 1).end == s.len());
            lemma_single_token(s);
        },
        TokenType::PlusPlus => {
            reveal_strlit("++");
            let s = "++"@;
            assert(s.len() == 2 && s[0] == '+' && s[1] == '+');
            assert(spec_next_token(s, 0, 1, 1).tok.kind == TokenType::PlusPlus && spec_next_token(
                s,
                0,
                1,
                1,
            ).tok.value is None && spec_next_token(s, 0, 1, 1).end == s.len());
            lemma_single_token(s);
        },
        TokenType::PlusAssign => {
            reveal_strlit("+=");
            let s = "+="@;
            assert(s.len() == 2 && s[0] == '+' && s[1] == '=');
            assert(spec_next_token(s, 0, 1, 1).tok.kind == TokenType::PlusAssign && spec_next_token(
                s,
                0,
                1,
                1,
            ).tok.value is None && spec_next_token(s, 0, 1, 1).end == s.len());
            lemma_single_token(s);
        },
        TokenType::Minus => {
            reveal_strlit("-");
            let s = "-"@;
            assert(s.len() == 1 && s[0] == '-');
            assert(spec_next_token(s, 0, 1, 1).tok.kind == TokenType::Minus && spec_next_token(
                s,
                0,
                1,
                1,
            ).tok.value is None && spec_next_token(s, 0, 1, 1).end == s.len());
            lemma_single_token(s);
        },
        TokenType::MinusMinus => {
            reveal_strlit("--");
            let s = "--"@;
            assert(s.len() == 2 && s[0] == '-' && s[1] == '-');
            assert(spec_next_token(s, 0, 1, 1).tok.kind == TokenType::MinusMinus && spec_next_token(
                s,
                0,
                1,
                1,
            ).tok.value is None && spec_next_token(s, 0, 1, 1).end == s.len());
            lemma_single_token(s);
        },
        TokenType::MinusAssign => {
            reveal_strlit("-=");
            let s = "-="@;
            assert(s.len() == 2 && s[0] == '-' && s[1] == '=');
            assert(spec_next_token(s, 0, 1, 1).tok.kind == TokenType::MinusAssign && spec_next_token(
                s,
                0,
                1,
                1,
            ).tok.value is None && spec_next_token(s, 0, 1, 1).end == s.len());
            lemma_single_token(s);
        },
        TokenType::Asterisk => {
            reveal_strlit("*");
            let s = "*"@;
            assert(s.len() == 1 && s[0] == '*');
            assert(spec_next_token(s, 0, 1, 1).tok.kind == TokenType::Asterisk && spec_next_token(
                s,
                0,
                1,
                1,
            ).tok.value is None && spec_next_token(s, 0, 1, 1).end == s.len());
            lemma_single_token(s);
        },
        TokenType::AsteriskAssign => {
            reveal_strlit("*=");
            let s = "*="@;
            assert(s.len() == 2 && s[0] == '*' && s[1] == '=');
            assert(spec_next_token(s, 0, 1, 1).tok.kind == TokenType::AsteriskAssign && spec_next_token(
                s,
                0,
                1,
                1,
            ).tok.value is None && spec_next_token(s, 0, 1, 1).end == s.len());
            lemma_single_token(s);
        },
        TokenType::Slash => {
            reveal_strlit("/");
            let s = "/"@;
            assert(s.len() == 1 && s[0] == '/');
            assert(spec_next_token(s, 0, 1, 1).tok.kind == TokenType::Slash && spec_next_token(
                s,
                0,
                1,
                1,
            ).tok.value is None && spec_next_token(s, 0, 1, 1).end == s.len());
            lemma_single_token(s);
        },
        TokenType::SlashAssign => {
            reveal_strlit("/=");
            let s = "/="@;
            assert(s.len() == 2 && s[0] == '/' && s[1] == '=');
            assert(spec_next_token(s, 0, 1, 1).tok.kind == TokenType::SlashAssign && spec_next_token(
                s,
                0,
                1,
                1,
            ).tok.value is None && spec_next_token(s, 0, 1, 1).end == s.len());
            lemma_single_token(s);
        },
        TokenType::Percent => {
            reveal_strlit("%");
            let s = "%"@;
            assert(s.len() == 1 && s[0] == '%');
            assert(spec_next_token(s, 0, 1, 1).tok.kind == TokenType::Percent && spec_next_token(
                s,
                0,
                1,
                1,
            ).tok.value is None && spec_next_token(s, 0, 1, 1).end == s.len());
            lemma_single_token(s);
        },
        TokenType::PercentAssign => {
            reveal_strlit("%=");
            let s = "%="@;
            assert(s.len() == 2 && s[0] == '%' && s[1] == '=');
            assert(spec_next_token(s, 0, 1, 1).tok.kind == TokenType::PercentAssign && spec_next_token(
                s,
                0,
                1,
                1,
            ).tok.value is None && spec_next_token(s, 0, 1, 1).end == s.len());
            lemma_single_token(s);
        },
        TokenType::And => {
            reveal_strlit("&&");
            let s = "&&"@;
            assert(s.len() == 2 && s[0] == '&' && s[1] == '&');
            assert(spec_next_token(s, 0, 1, 1).tok.kind == TokenType::And && spec_next_token(
                s,
                0,
                1,
                1,
            ).tok.value is None && spec_next_token(s, 0, 1, 1).end == s.len());
            lemma_single_token(s);
        },
        TokenType::BitAnd => {
            reveal_strlit("&");
            let s = "&"@;
            assert(s.len() == 1 && s[0] == '&');
            assert(spec_next_token(s, 0, 1, 1).tok.kind == TokenType::BitAnd && spec_next_token(
                s,
                0,
                1,
                1,
            ).tok.value is None && spec_next_token(s, 0, 1, 1).end == s.len());
            lemma_single_token(s);
        },
        TokenType::BitAndAssign => {
            reveal_strlit("&=");
            let s = "&="@;
            assert(s.len() == 2 && s[0] == '&' && s[1] == '=');
            assert(spec_next_token(s, 0, 1, 1).tok.kind == TokenType::BitAndAssign && spec_next_token(
                s,
                0,
                1,
                1,
            ).tok.value is None && spec_next_token(s, 0, 1, 1).end == s.len());
            lemma_single_token(s);
        },
        TokenType::Or => {
            reveal_strlit("||");
            let s = "||"@;
            assert(s.len() == 2 && s[0] == '|' && s[1] == '|');
            assert(spec_next_token(s, 0, 1, 1).tok.kind == TokenType::Or && spec_next_token(
                s,
                0,
                1,
                1,
            ).tok.value is None && spec_next_token(s, 0, 1, 1).end == s.len());
            lemma_single_token(s);
        },
        TokenType::BitOr => {
            reveal_strlit("|");
            let s = "|"@;
            assert(s.len() == 1 && s[0] == '|');
            assert(spec_next_token(s, 0, 1, 1).tok.kind == TokenType::BitOr && spec_next_token(
                s,
                0,
                1,
                1,
            ).tok.value is None && spec_next_token(s, 0, 1, 1).end == s.len());
            lemma_single_token(s);
        },
        TokenType::BitOrAssign => {
            reveal_strlit("|=");
            let s = "|="@;
            assert(s.len() == 2 && s[0] == '|' && s[1] == '=');
            assert(spec_next_token(s, 0, 1, 1).tok.kind == TokenType::BitOrAssign && spec_next_token(
                s,
                0,
                1,
                1,
            ).tok.value is None && spec_next_token(s, 0, 1, 1).end == s.len());
            lemma_single_token(s);
        },
        TokenType::BitXor => {
            reveal_strlit("^");
            let s = "^"@;
            assert(s.len() == 1 && s[0] == '^');
            assert(spec_next_token(s, 0, 1, 1).tok.kind == TokenType::BitXor && spec_next_token(
                s,
                0,
                1,
                1,
            ).tok.value is None && spec_next_token(s, 0, 1, 1).end == s.len());
            lemma_single_token(s);
        },
        TokenType::BitXorAssign => {
            reveal_strlit("^=");
            let s = "^="@;
            assert(s.len() == 2 && s[0] == '^' && s[1] == '=');
            assert(spec_next_token(s, 0, 1, 1).tok.kind == TokenType::BitXorAssign && spec_next_token(
                s,
                0,
                1,
                1,
            ).tok.value is None && spec_next_token(s, 0, 1, 1).end == s.len());
            lemma_single_token(s);
        },
        TokenType::LowerThan => {
            reveal_strlit("<");
            let s = "<"@;
            assert(s.len() == 1 && s[0] == '<');
            assert(spec_next_token(s, 0, 1, 1).tok.kind == TokenType::LowerThan && spec_next_token(
                s,
                0,
                1,
                1,
            ).tok.value is None && spec_next_token(s, 0, 1, 1).end == s.len());
            lemma_single_token(s);
        },
        TokenType::LowerThanEqual => {
            reveal_strlit("<=");
            let s = "<="@;
            assert(s.len() == 2 && s[0] == '<' && s[1] == '=');
            assert(spec_next_token(s, 0, 1, 1).tok.kind == TokenType::LowerThanEqual && spec_next_token(
                s,
                0,
                1,
                1,
            ).tok.value is None && spec_next_token(s, 0, 1, 1).end == s.len());
            lemma_single_token(s);
        },
        TokenType::BitLeft => {
            reveal_strlit("<<");
            let s = "<<"@;
            assert(s.len() == 2 && s[0] == '<' && s[1] == '<');
            assert(spec_next_token(s, 0, 1, 1).tok.kind == TokenType::BitLeft && spec_next_token(
                s,
                0,
                1,
                1,
            ).tok.value is None && spec_next_token(s, 0, 1, 1).end == s.len());
            lemma_single_token(s);
        },
        TokenType::BitLeftAssign => {
            reveal_strlit("<<=");
            let s = "<<="@;
            assert(s.len() == 3 && s[0] == '<' && s[1] == '<' && s[2] == '=');
            assert(spec_next_token(s, 0, 1, 1).tok.kind == TokenType::BitLeftAssign && spec_next_token(
                s,
                0,
                1,
                1,
            ).tok.value is None && spec_next_token(s, 0, 1, 1).end == s.len());
            lemma_single_token(s);
        },
        TokenType::GreaterThan => {
            reveal_strlit(">");
            let s = ">"@;
            assert(s.len() == 1 && s[0] == '>');
            assert(spec_next_token(s, 0, 1, 1).tok.kind == TokenType::GreaterThan && spec_next_token(
                s,
                0,
                1,
                1,
            ).tok.value is None && spec_next_token(s, 0, 1, 1).end == s.len());
            lemma_single_token(s);
        },
        TokenType::GreaterThanEqual => {
            reveal_strlit(">=");
            let s = ">="@;
            assert(s.len() == 2 && s[0] == '>' && s[1] == '=');
            assert(spec_next_token(s, 0, 1, 1).tok.kind == TokenType::GreaterThanEqual && spec_next_token(
                s,
                0,
                1,
                1,
            ).tok.value is None && spec_next_token(s, 0, 1, 1).end == s.len());
            lemma_single_token(s);
        },
        TokenType::BitRight => {
            reveal_strlit(">>");
            let s = ">>"@;
            assert(s.len() == 2 && s[0] == '>' && s[1] == '>');
            assert(spec_next_token(s, 0, 1, 1).tok.kind == TokenType::BitRight && spec_next_token(
                s,
                0,
                1,
                1,
            ).tok.value is None && spec_next_token(s, 0, 1, 1).end == s.len());
            lemma_single_token(s);
        },
        TokenType::BitRightAssign => {
            reveal_strlit(">>=");
            let s = ">>="@;
            assert(s.len() == 3 && s[0] == '>' && s[1] == '>' && s[2] == '=');
            assert(spec_next_token(s, 0, 1, 1).tok.kind == TokenType::BitRightAssign && spec_next_token(
                s,
                0,
                1,
                1,
            ).tok.value is None && spec_next_token(s, 0, 1, 1).end == s.len());
            lemma_single_token(s);
        },
        TokenType::NotEqual => {
            reveal_strlit("!=");
            let s = "!="@;
            assert(s.len() == 2 && s[0] == '!' && s[1] == '=');
            assert(spec_next_token(s, 0, 1, 1).tok.kind == TokenType::NotEqual && spec_next_token(
                s,
                0,
                1,
                1,
            ).tok.value is None && spec_next_token(s, 0, 1, 1).end == s.len());
            lemma_single_token(s);
        },
        TokenType::Bang => {
            reveal_strlit("!");
            let s = "!"@;
            assert(s.len() == 1 && s[0] == '!');
            assert(spec_next_token(s, 0, 1, 1).tok.kind == TokenType::Bang && spec_next_token(
                s,
                0,
                1,
                1,
            ).tok.value is None && spec_next_token(s, 0, 1, 1).end == s.len());
            lemma_single_token(s);
        },
        TokenType::Colon => {
            reveal_strlit(":");
            let s = ":"@;
            assert(s.len() == 1 && s[0] == ':');
            assert(spec_next_token(s, 0, 1, 1).tok.kind == TokenType::Colon && spec_next_token(
                s,
                0,
                1,
                1,
            ).tok.value is None && spec_next_token(s, 0, 1, 1).end == s.len());
            lemma_single_token(s);
        },
        TokenType::Semicolon => {
            reveal_strlit(";");
            let s = ";"@;
            assert(s.len() == 1 && s[0] == ';');
            assert(spec_next_token(s, 0, 1, 1).tok.kind == TokenType::Semicolon && spec_next_token(
                s,
                0,
                1,
                1,
            ).tok.value is None && spec_next_token(s, 0, 1, 1).end == s.len());
            lemma_single_token(s);
        },
        TokenType::Comma => {
            reveal_strlit(",");
            let s = ","@;
            assert(s.len() == 1 && s[0] == ',');
            assert(spec_next_token(s, 0, 1, 1).tok.kind == TokenType::Comma && spec_next_token(
                s,
                0,
                1,
                1,
            ).tok.value is None && spec_next_token(s, 0, 1, 1).end == s.len());
            lemma_single_token(s);
        },
        TokenType::LeftBrace => {
            reveal_strlit("{");
            let s = "{"@;
            assert(s.len() == 1 && s[0] == '{');
            assert(spec_next_token(s, 0, 1, 1).tok.kind == TokenType::LeftBrace && spec_next_token(
                s,
                0,
                1,
                1,
            ).tok.value is None && spec_next_token(s, 0, 1, 1).end == s.len());
            lemma_single_token(s);
        },
        TokenType::RightBrace => {
            reveal_strlit("}");
            let s = "}"@;
            assert(s.len() == 1 && s[0] == '}');
            assert(spec_next_token(s, 0, 1, 1).tok.kind == TokenType::RightBrace && spec_next_token(
                s,
                0,
                1,
                1,
            ).tok.value is None && spec_next_token(s, 0, 1, 1).end == s.len());
            lemma_single_token(s);
        },
        TokenType::LeftBracket => {
            reveal_strlit("(");
            let s = "("@;
            assert(s.len() == 1 && s[0] == '(');
            assert(spec_next_token(s, 0, 1, 1).tok.kind == TokenType::LeftBracket && spec_next_token(
                s,
                0,
                1,
                1,
            ).tok.value is None && spec_next_token(s, 0, 1, 1).end == s.len());
            lemma_single_token(s);
        },
        TokenType::RightBracket => {
            reveal_strlit(")");
            let s = ")"@;
            assert(s.len() == 1 && s[0] == ')');
            assert(spec_next_token(s, 0, 1, 1).tok.kind == TokenType::RightBracket && spec_next_token(
                s,
                0,
                1,
                1,
            ).tok.value is None && spec_next_token(s, 0, 1, 1).end == s.len());
            lemma_single_token(s);
        },
        TokenType::LeftSquare => {
            reveal_strlit("[");
            let s = "["@;
            assert(s.len() == 1 && s[0] == '[');
            assert(spec_next_token(s, 0, 1, 1).tok.kind == TokenType::LeftSquare && spec_next_token(
                s,
                0,
                1,
                1,
            ).tok.value is None && spec_next_token(s, 0, 1, 1).end == s.len());
            lemma_single_token(s);
        },
        TokenType::RightSquare => {
            reveal_strlit("]");
            let s = "]"@;
            assert(s.len() == 1 && s[0] == ']');
            assert(spec_next_token(s, 0, 1, 1).tok.kind == TokenType::RightSquare && spec_next_token(
                s,
                0,
                1,
                1,
            ).tok.value is None && spec_next_token(s, 0, 1, 1).end == s.len());
            lemma_single_token(s);
        },
        TokenType::Elipsis => {
            reveal_strlit("...");
            let s = "..."@;
            assert(s.len() == 3 && s[0] == '.' && s[1] == '.' && s[2] == '.');
            assert(spec_next_token(s, 0, 1, 1).tok.kind == TokenType::Elipsis && spec_next_token(
                s,
                0,
                1,
                1,
            ).tok.value is None && spec_next_token(s, 0, 1, 1).end == s.len());
            lemma_single_token(s);
        },
        TokenType::Range => {
            reveal_strlit("..");
            let s = ".."@;
            assert(s.len() == 2 && s[0] == '.' && s[1] == '.');
            assert(spec_next_token(s, 0, 1, 1).tok.kind == TokenType::Range && spec_next_token(
                s,
                0,
                1,
                1,
            ).tok.value is None && spec_next_token(s, 0, 1, 1).end == s.len());
            lemma_single_token(s);
        },
        TokenType::Directive => {
            reveal_strlit("#");
            let s = "#"@;
            assert(s.len() == 1 && s[0] == '#');
            assert(spec_next_token(s, 0, 1, 1).tok.kind == TokenType::Directive && spec_next_token(
                s,
                0,
                1,
                1,
            ).tok.value is None && spec_next_token(s, 0, 1, 1).end == s.len());
            lemma_single_token(s);
        },
        _ => {},
    }
}

/// A run of identifier characters scans to the end of the input.
pub proof fn lemma_letter_scan_complete(s: Seq<char>, i: int)
    requires
        0 <= i <= s.len(),
        forall|k: int| i <= k < s.len() ==> is_letter_char(#[trigger] s[k]),
    ensures
        letter_end(s, i) == s.len(),
    decreases s.len() - i,
{
    if i < s.len() {
        lemma_letter_scan_complete(s, i + 1);
    }
}

/// A run of numeric-literal characters scans to the end of the input.
pub proof fn lemma_number_scan_complete(s: Seq<char>, i: int)
    requires
        0 <= i <= s.len(),
        forall|k: int| i <= k < s.len() ==> is_number_char(#[trigger] s[k]),
    ensures
        number_end(s, i) == s.len(),
    decreases s.len() - i,
{
    if i < s.len() {
        lemma_number_scan_complete(s, i + 1);
    }
}

/// Without separators, stripping them changes nothing.
pub proof fn lemma_no_sep_strip(s: Seq<char>, i: int, j: int)
    requires
        0 <= i <= j <= s.len(),
        forall|k: int| i <= k < j ==> #[trigger] s[k] != '_',
    ensures
        strip_sep(s, i, j) =~= s.subrange(i, j),
    decreases j - i,
{
    if i < j {
        lemma_no_sep_strip(s, i, j - 1);
        assert(strip_sep(s, i, j) =~= s.subrange(i, j));
    }
}

/// A pure digit run: every character counts as a digit and none as a
/// decimal point.
pub proof fn lemma_digit_run(s: Seq<char>, i: int, j: int)
    requires
        0 <= i <= j <= s.len(),
        forall|k: int| i <= k < j ==> is_digit_char(#[trigger] s[k]),
    ensures
        digits_of(s, i, j) =~= s.subrange(i, j),
        dot_count(s, i, j) == 0,
    decreases j - i,
{
    if i < j {
        lemma_digit_run(s, i, j - 1);
        assert(digits_of(s, i, j) =~= s.subrange(i, j));
    }
}

/// Law of retokenization for identifiers: scanning the text payload of an
/// identifier token on its own yields a single token of the same kind with
/// the same payload.  The text is a non-empty run of identifier characters
/// that is not a reserved word and contains no whitespace or operator
/// characters.
pub proof fn lemma_retokenize_symbol(s: Seq<char>)
    requires
        1 <= s.len(),
        forall|k: int|
            0 <= k < s.len() ==> is_letter_char(#[trigger] s[k]) && !is_space_char(s[k])
                && !is_op_char(s[k]) && s[k] != '/',
        spec_lookup_keyword(s) is None,
    ensures
        spec_tokens(s, 0, 1, 1).len() == 1,
        spec_tokens(s, 0, 1, 1)[0].kind == TokenType::Symbol,
        spec_tokens(s, 0, 1, 1)[0].value == Some(ValueModel::Text(s)),
{
    assert(skip_ws_end(s, 0) == 0);
    lemma_letter_scan_complete(s, 1);
    let st = spec_next_token(s, 0, 1, 1);
    assert(s.subrange(0, s.len() as int) =~= s);
    assert(st.tok.kind == TokenType::Symbol && st.tok.value == Some(ValueModel::Text(s))
        && st.end == s.len());
    assert(skip_ws_end(s, s.len() as int) == s.len());
    assert(spec_next_token(s, st.end, st.line, st.col).tok.kind == TokenType::End);
    assert(spec_tokens(s, st.end, st.line, st.col) =~= Seq::<TokenModel>::empty());
    assert(spec_tokens(s, 0, 1, 1) =~= seq![st.tok] + Seq::<TokenModel>::empty());
}

/// Law of retokenization for keywords: scanning a reserved spelling on its
/// own yields a single token of that keyword's kind, with no payload.  The
/// spelling is a non-empty run of identifier characters containing no
/// whitespace or operator characters.
pub proof fn lemma_retokenize_keyword(s: Seq<char>, k: TokenType)
    requires
        1 <= s.len(),
        forall|j: int|
            0 <= j < s.len() ==> is_letter_char(#[trigger] s[j]) && !is_space_char(s[j])
                && !is_op_char(s[j]) && s[j] != '/',
        spec_lookup_keyword(s) == Some(k),
    ensures
        spec_tokens(s, 0, 1, 1).len() == 1,
        spec_tokens(s, 0, 1, 1)[0].kind == k,
        spec_tokens(s, 0, 1, 1)[0].value is None,
{
    assert(skip_ws_end(s, 0) == 0);
    lemma_letter_scan_complete(s, 1);
    let st = spec_next_token(s, 0, 1, 1);
    assert(s.subrange(0, s.len() as int) =~= s);
    assert(st.tok.kind == k && st.tok.value is None && st.end == s.len());
    assert(skip_ws_end(s, s.len() as int) == s.len());
    assert(spec_next_token(s, st.end, st.line, st.col).tok.kind == TokenType::End);
    assert(spec_tokens(s, st.end, st.line, st.col) =~= Seq::<TokenModel>::empty());
    assert(spec_tokens(s, 0, 1, 1) =~= seq![st.tok] + Seq::<TokenModel>::empty());
}

/// Law of retokenization for integer literals: scanning a non-empty pure
/// digit run whose value fits a signed 32-bit integer yields a single
/// integer token carrying exactly that value.
pub proof fn lemma_retokenize_integer(s: Seq<char>)
    requires
        1 <= s.len(),
        forall|k: int|
            0 <= k < s.len() ==> is_digit_char(#[trigger] s[k]) && !is_letter_char(s[k]),
        num_val(s) <= i32::MAX,
    ensures
        spec_tokens(s, 0, 1, 1).len() == 1,
        spec_tokens(s, 0, 1, 1)[0].kind == TokenType::Integer,
        spec_tokens(s, 0, 1, 1)[0].value == Some(ValueModel::Int(num_val(s))),
{
    assert(!is_space_char(s[0]) && !is_op_char(s[0]) && s[0] != '/');
    assert(skip_ws_end(s, 0) == 0);
    lemma_number_scan_complete(s, 1);
    lemma_digit_run(s, 0, s.len() as int);
    let st = spec_next_token(s, 0, 1, 1);
    assert(digits_of(s, 0, s.len() as int) == s.subrange(0, s.len() as int));
    assert(s.subrange(0, s.len() as int) =~= s);
    assert(st.tok.kind == TokenType::Integer && st.tok.value == Some(
        ValueModel::Int(num_val(s)),
    ) && st.end == s.len());
    assert(skip_ws_end(s, s.len() as int) == s.len());
    assert(spec_next_token(s, st.end, st.line, st.col).tok.kind == TokenType::End);
    assert(spec_tokens(s, st.end, st.line, st.col) =~= Seq::<TokenModel>::empty());
    assert(spec_tokens(s, 0, 1, 1) =~= seq![st.tok] + Seq::<TokenModel>::empty());
}

/// Law of retokenization for floating literals: scanning a digit-led run of
/// digits with exactly one decimal point yields a single floating literal
/// token carrying exactly that text.
pub proof fn lemma_retokenize_float(s: Seq<char>)
    requires
        1 <= s.len(),
        is_digit_char(s[0]),
        forall|k: int|
            0 <= k < s.len() ==> (is_digit_char(#[trigger] s[k]) || s[k] == '.')
                && !is_letter_char(s[k]),
        dot_count(s, 0, s.len() as int) == 1,
    ensures
        spec_tokens(s, 0, 1, 1).len() == 1,
        spec_tokens(s, 0, 1, 1)[0].kind == TokenType::Float,
        spec_tokens(s, 0, 1, 1)[0].value == Some(ValueModel::Float(s)),
{
    assert(!is_space_char(s[0]) && !is_op_char(s[0]) && s[0] != '/');
    assert(skip_ws_end(s, 0) == 0);
    lemma_number_scan_complete(s, 1);
    lemma_no_sep_strip(s, 0, s.len() as int);
    let st = spec_next_token(s, 0, 1, 1);
    assert(strip_sep(s, 0, s.len() as int) == s.subrange(0, s.len() as int));
    assert(s.subrange(0, s.len() as int) =~= s);
    assert(st.tok.kind == TokenType::Float && st.tok.value == Some(ValueModel::Float(s))
        && st.end == s.len());
    assert(skip_ws_end(s, s.len() as int) == s.len());
    assert(spec_next_token(s, st.end, st.line, st.col).tok.kind == TokenType::End);
    assert(spec_tokens(s, st.end, st.line, st.col) =~= Seq::<TokenModel>::empty());
    assert(spec_tokens(s, 0, 1, 1) =~= seq![st.tok] + Seq::<TokenModel>::empty());
}

/// Identifier-shaped text: every character continues an identifier and none
/// is whitespace, an operator character, or a slash.
pub open spec fn word_shaped(s: Seq<char>) -> bool {
    forall|j: int|
        0 <= j < s.len() ==> is_letter_char(#[trigger] s[j]) && !is_space_char(s[j])
            && !is_op_char(s[j]) && s[j] != '/'
}

/// The canonical spellings of `kinds`, each preceded by a single space.
pub open spec fn joined_spellings(kinds: Seq<TokenType>) -> Seq<char>
    decreases kinds.len(),
{
    if kinds.len() == 0 {
        Seq::<char>::empty()
    } else {
        seq![' '] + spec_spelling(kinds[0]) + joined_spellings(kinds.drop_first())
    }
}

/// A run of identifier characters closed off by the end of the input or a
/// non-identifier character scans exactly to that close.
pub proof fn lemma_letter_run_until(s: Seq<char>, i: int, e: int)
    requires
        0 <= i <= e <= s.len(),
        forall|j: int| i <= j < e ==> is_letter_char(#[trigger] s[j]),
        e == s.len() || !is_letter_char(s[e]),
    ensures
        letter_end(s, i) == e,
    decreases e - i,
{
    if i < e {
        lemma_letter_run_until(s, i + 1, e);
    }
}

/// No keyword spelling is empty.
proof fn lemma_keyword_spelling_nonempty(k: TokenType)
    requires
        is_keyword_kind(k),
    ensures
        spec_spelling(k).len() >= 1,
{
    match k {
        TokenType::Const => {
            reveal_strlit("const");
            assert(spec_spelling(TokenType::Const).len() == 5);
        },
        TokenType::New => {
            reveal_strlit("new");
            assert(spec_spelling(TokenType::New).len() == 3);
        },
        TokenType::Static => {
            reveal_strlit("static");
            assert(spec_spelling(TokenType::Static).len() == 6);
        },
        TokenType::Stock => {
            reveal_strlit("stock");
            assert(spec_spelling(TokenType::Stock).len() == 5);
        },
        TokenType::Forward => {
            reveal_strlit("forward");
            assert(spec_spelling(TokenType::Forward).len() == 7);
        },
        TokenType::Public => {
            reveal_strlit("public");
            assert(spec_spelling(TokenType::Public).len() == 6);
        },
        TokenType::Native => {
            reveal_strlit("native");
            assert(spec_spelling(TokenType::Native).len() == 6);
        },
        TokenType::Operator => {
            reveal_strlit("operator");
            assert(spec_spelling(TokenType::Operator).len() == 8);
        },
        TokenType::Char => {
            reveal_strlit("char");
            assert(spec_spelling(TokenType::Char).len() == 4);
        },
        TokenType::Enum => {
            reveal_strlit("enum");
            assert(spec_spelling(TokenType::Enum).len() == 4);
        },
        TokenType::State => {
            reveal_strlit("state");
            assert(spec_spelling(TokenType::State).len() == 5);
        },
        TokenType::If => {
            reveal_strlit("if");
            assert(spec_spelling(TokenType::If).len() == 2);
        },
        TokenType::Else => {
            reveal_strlit("else");
            assert(spec_spelling(TokenType::Else).len() == 4);
        },
        TokenType::Switch => {
            reveal_strlit("switch");
            assert(spec_spelling(TokenType::Switch).len() == 6);
        },
        TokenType::Case => {
            reveal_strlit("case");
            assert(spec_spelling(TokenType::Case).len() == 4);
        },
        TokenType::Default => {
            reveal_strlit("default");
            assert(spec_spelling(TokenType::Default).len() == 7);
        },
        TokenType::For => {
            reveal_strlit("for");
            assert(spec_spelling(TokenType::For).len() == 3);
        },
        TokenType::While => {
            reveal_strlit("while");
            assert(spec_spelling(TokenType::While).len() == 5);
        },
        TokenType::Do => {
            reveal_strlit("do");
            assert(spec_spelling(TokenType::Do).len() == 2);
        },
        TokenType::Break => {
            reveal_strlit("break");
            assert(spec_spelling(TokenType::Break).len() == 5);
        },
        TokenType::Continue => {
            reveal_strlit("continue");
            assert(spec_spelling(TokenType::Continue).len() == 8);
        },
        TokenType::Goto => {
            reveal_strlit("goto");
            assert(spec_spelling(TokenType::Goto).len() == 4);
        },
        TokenType::Return => {
            reveal_strlit("return");
            assert(spec_spelling(TokenType::Return).len() == 6);
        },
        TokenType::Sizeof => {
            reveal_strlit("sizeof");
            assert(spec_spelling(TokenType::Sizeof).len() == 6);
        },
        TokenType::Tagof => {
            reveal_strlit("tagof");
            assert(spec_spelling(TokenType::Tagof).len() == 5);
        },
        TokenType::Emit => {
            reveal_strlit("__emit");
            assert(spec_spelling(TokenType::Emit).len() == 6);
        },
        _ => {},
    }
}

/// One operator token in context: a space, then the canonical spelling of an
/// operator kind, then a space or the end of the input, scans to exactly
/// that kind.
#[verifier::rlimit(100)]
proof fn lemma_op_token_step(s: Seq<char>, p: int, l: int, c: int, k: TokenType)
    requires
        is_operator_kind(k),
        0 <= p,
        p + 1 + spec_spelling(k).len() <= s.len(),
        s[p] == ' ',
        s.subrange(p + 1, p + 1 + spec_spelling(k).len() as int) =~= spec_spelling(k),
        p + 1 + spec_spelling(k).len() == s.len() || s[p + 1 + spec_spelling(k).len() as int]
            == ' ',
    ensures
        spec_next_token(s, p, l, c).tok.kind == k,
        spec_next_token(s, p, l, c).tok.value is None,
        spec_next_token(s, p, l, c).end == p + 1 + spec_spelling(k).len(),
{
    reveal_with_fuel(skip_ws_end, 3);
    match k {
        TokenType::Equal => {
            reveal_strlit("==");
            assert(spec_spelling(TokenType::Equal).len() == 2);
            assert(s.subrange(p + 1, p + 1 + 2)[0] == s[p + 1 + 0]);
            assert(s[p + 1 + 0] == '=');
            assert(s.subrange(p + 1, p + 1 + 2)[1] == s[p + 1 + 1]);
            assert(s[p + 1 + 1] == '=');
            assert(!is_space_char(s[p + 1]));
            assert(skip_ws_end(s, p) == p + 1);
            assert(spec_next_token(s, p, l, c).tok.kind == TokenType::Equal && spec_next_token(
                s,
                p,
                l,
                c,
            ).tok.value is None && spec_next_token(s, p, l, c).end == p + 1 + 2);
        },
        TokenType::Assign => {
            reveal_strlit("=");
            assert(spec_spelling(TokenType::Assign).len() == 1);
            assert(s.subrange(p + 1, p + 1 + 1)[0] == s[p + 1 + 0]);
            assert(s[p + 1 + 0] == '=');
            assert(!is_space_char(s[p + 1]));
            assert(skip_ws_end(s, p) == p + 1);
            assert(spec_next_token(s, p, l, c).tok.kind == TokenType::Assign && spec_next_token(
                s,
                p,
                l,
                c,
            ).tok.value is None && spec_next_token(s, p, l, c).end == p + 1 + 1);
        },
        TokenType::Plus => {
            reveal_strlit("+");
            assert(spec_spelling(TokenType::Plus).len() == 1);
            assert(s.subrange(p + 1, p + 1 + 1)[0] == s[p + 1 + 0]);
            assert(s[p + 1 + 0] == '+');
            assert(!is_space_char(s[p + 1]));
            assert(skip_ws_end(s, p) == p + 1);
            assert(spec_next_token(s, p, l, c).tok.kind == TokenType::Plus && spec_next_token(
                s,
                p,
                l,
                c,
            ).tok.value is None && spec_next_token(s, p, l, c).end == p + 1 + 1);
        },
        TokenType::PlusPlus => {
            reveal_strlit("++");
            assert(spec_spelling(TokenType::PlusPlus).len() == 2);
            assert(s.subrange(p + 1, p + 1 + 2)[0] == s[p + 1 + 0]);
            assert(s[p + 1 + 0] == '+');
            assert(s.subrange(p + 1, p + 1 + 2)[1] == s[p + 1 + 1]);
            assert(s[p + 1 + 1] == '+');
            assert(!is_space_char(s[p + 1]));
            assert(skip_ws_end(s, p) == p + 1);
            assert(spec_next_token(s, p, l, c).tok.kind == TokenType::PlusPlus && spec_next_token(
                s,
                p,
                l,
                c,
            ).tok.value is None && spec_next_token(s, p, l, c).end == p + 1 + 2);
        },
        TokenType::PlusAssign => {
            reveal_strlit("+=");
            assert(spec_spelling(TokenType::PlusAssign).len() == 2);
            assert(s.subrange(p + 1, p + 1 + 2)[0] == s[p + 1 + 0]);
            assert(s[p + 1 + 0] == '+');
            assert(s.subrange(p + 1, p + 1 + 2)[1] == s[p + 1 + 1]);
            assert(s[p + 1 + 1] == '=');
            assert(!is_space_char(s[p + 1]));
            assert(skip_ws_end(s, p) == p + 1);
            assert(spec_next_token(s, p, l, c).tok.kind == TokenType::PlusAssign && spec_next_token(
                s,
                p,
                l,
                c,
            ).tok.value is None && spec_next_token(s, p, l, c).end == p + 1 + 2);
        },
        TokenType::Minus => {
            reveal_strlit("-");
            assert(spec_spelling(TokenType::Minus).len() == 1);
            assert(s.subrange(p + 1, p + 1 + 1)[0] == s[p + 1 + 0]);
            assert(s[p + 1 + 0] == '-');
            assert(!is_space_char(s[p + 1]));
            assert(skip_ws_end(s, p) == p + 1);
            assert(spec_next_token(s, p, l, c).tok.kind == TokenType::Minus && spec_next_token(
                s,
                p,
                l,
                c,
            ).tok.value is None && spec_next_token(s, p, l, c).end == p + 1 + 1);
        },
        TokenType::MinusMinus => {
            reveal_strlit("--");
            assert(spec_spelling(TokenType::MinusMinus).len() == 2);
            assert(s.subrange(p + 1, p + 1 + 2)[0] == s[p + 1 + 0]);
            assert(s[p + 1 + 0] == '-');
            assert(s.subrange(p + 1, p + 1 + 2)[1] == s[p + 1 + 1]);
            assert(s[p + 1 + 1] == '-');
            assert(!is_space_char(s[p + 1]));
            assert(skip_ws_end(s, p) == p + 1);
            assert(spec_next_token(s, p, l, c).tok.kind == TokenType::MinusMinus && spec_next_token(
                s,
                p,
                l,
                c,
            ).tok.value is None && spec_next_token(s, p, l, c).end == p + 1 + 2);
        },
        TokenType::MinusAssign => {
            reveal_strlit("-=");
            assert(spec_spelling(TokenType::MinusAssign).len() == 2);
            assert(s.subrange(p + 1, p + 1 + 2)[0] == s[p + 1 + 0]);
            assert(s[p + 1 + 0] == '-');
            assert(s.subrange(p + 1, p + 1 + 2)[1] == s[p + 1 + 1]);
            assert(s[p + 1 + 1] == '=');
            assert(!is_space_char(s[p + 1]));
            assert(skip_ws_end(s, p) == p + 1);
            assert(spec_next_token(s, p, l, c).tok.kind == TokenType::MinusAssign && spec_next_token(
                s,
                p,
                l,
                c,
            ).tok.value is None && spec_next_token(s, p, l, c).end == p + 1 + 2);
        },
        TokenType::Asterisk => {
            reveal_strlit("*");
            assert(spec_spelling(TokenType::Asterisk).len() == 1);
            assert(s.subrange(p + 1, p + 1 + 1)[0] == s[p + 1 + 0]);
            assert(s[p + 1 + 0] == '*');
            assert(!is_space_char(s[p + 1]));
            assert(skip_ws_end(s, p) == p + 1);
            assert(spec_next_token(s, p, l, c).tok.kind == TokenType::Asterisk && spec_next_token(
                s,
                p,
                l,
                c,
            ).tok.value is None && spec_next_token(s, p, l, c).end == p + 1 + 1);
        },
        TokenType::AsteriskAssign => {
            reveal_strlit("*=");
            assert(spec_spelling(TokenType::AsteriskAssign).len() == 2);
            assert(s.subrange(p + 1, p + 1 + 2)[0] == s[p + 1 + 0]);
            assert(s[p + 1 + 0] == '*');
            assert(s.subrange(p + 1, p + 1 + 2)[1] == s[p + 1 + 1]);
            assert(s[p + 1 + 1] == '=');
            assert(!is_space_char(s[p + 1]));
            assert(skip_ws_end(s, p) == p + 1);
            assert(spec_next_token(s, p, l, c).tok.kind == TokenType::AsteriskAssign && spec_next_token(
                s,
                p,
                l,
                c,
            ).tok.value is None && spec_next_token(s, p, l, c).end == p + 1 + 2);
        },
        TokenType::Slash => {
            reveal_strlit("/");
            assert(spec_spelling(TokenType::Slash).len() == 1);
            assert(s.subrange(p + 1, p + 1 + 1)[0] == s[p + 1 + 0]);
            assert(s[p + 1 + 0] == '/');
            assert(!is_space_char(s[p + 1]));
            assert(skip_ws_end(s, p) == p + 1);
            assert(spec_next_token(s, p, l, c).tok.kind == TokenType::Slash && spec_next_token(
                s,
                p,
                l,
                c,
            ).tok.value is None && spec_next_token(s, p, l, c).end == p + 1 + 1);
        },
        TokenType::SlashAssign => {
            reveal_strlit("/=");
            assert(spec_spelling(TokenType::SlashAssign).len() == 2);
            assert(s.subrange(p + 1, p + 1 + 2)[0] == s[p + 1 + 0]);
            assert(s[p + 1 + 0] == '/');
            assert(s.subrange(p + 1, p + 1 + 2)[1] == s[p + 1 + 1]);
            assert(s[p + 1 + 1] == '=');
            assert(!is_space_char(s[p + 1]));
            assert(skip_ws_end(s, p) == p + 1);
            assert(spec_next_token(s, p, l, c).tok.kind == TokenType::SlashAssign && spec_next_token(
                s,
                p,
                l,
                c,
            ).tok.value is None && spec_next_token(s, p, l, c).end == p + 1 + 2);
        },
        TokenType::Percent => {
            reveal_strlit("%");
            assert(spec_spelling(TokenType::Percent).len() == 1);
            assert(s.subrange(p + 1, p + 1 + 1)[0] == s[p + 1 + 0]);
            assert(s[p + 1 + 0] == '%');
            assert(!is_space_char(s[p + 1]));
            assert(skip_ws_end(s, p) == p + 1);
            assert(spec_next_token(s, p, l, c).tok.kind == TokenType::Percent && spec_next_token(
                s,
                p,
                l,
                c,
            ).tok.value is None && spec_next_token(s, p, l, c).end == p + 1 + 1);
        },
        TokenType::PercentAssign => {
            reveal_strlit("%=");
            assert(spec_spelling(TokenType::PercentAssign).len() == 2);
            assert(s.subrange(p + 1, p + 1 + 2)[0] == s[p + 1 + 0]);
            assert(s[p + 1 + 0] == '%');
            assert(s.subrange(p + 1, p + 1 + 2)[1] == s[p + 1 + 1]);
            assert(s[p + 1 + 1] == '=');
            assert(!is_space_char(s[p + 1]));
            assert(skip_ws_end(s, p) == p + 1);
            assert(spec_next_token(s, p, l, c).tok.kind == TokenType::PercentAssign && spec_next_token(
                s,
                p,
                l,
                c,
            ).tok.value is None && spec_next_token(s, p, l, c).end == p + 1 + 2);
        },
        TokenType::And => {
            reveal_strlit("&&");
            assert(spec_spelling(TokenType::And).len() == 2);
            assert(s.subrange(p + 1, p + 1 + 2)[0] == s[p + 1 + 0]);
            assert(s[p + 1 + 0] == '&');
            assert(s.subrange(p + 1, p + 1 + 2)[1] == s[p + 1 + 1]);
            assert(s[p + 1 + 1] == '&');
            assert(!is_space_char(s[p + 1]));
            assert(skip_ws_end(s, p) == p + 1);
            assert(spec_next_token(s, p, l, c).tok.kind == TokenType::And && spec_next_token(
                s,
                p,
                l,
                c,
            ).tok.value is None && spec_next_token(s, p, l, c).end == p + 1 + 2);
        },
        TokenType::BitAnd => {
            reveal_strlit("&");
            assert(spec_spelling(TokenType::BitAnd).len() == 1);
            assert(s.subrange(p + 1, p + 1 + 1)[0] == s[p + 1 + 0]);
            assert(s[p + 1 + 0] == '&');
            assert(!is_space_char(s[p + 1]));
            assert(skip_ws_end(s, p) == p + 1);
            assert(spec_next_token(s, p, l, c).tok.kind == TokenType::BitAnd && spec_next_token(
                s,
                p,
                l,
                c,
            ).tok.value is None && spec_next_token(s, p, l, c).end == p + 1 + 1);
        },
        TokenType::BitAndAssign => {
            reveal_strlit("&=");
            assert(spec_spelling(TokenType::BitAndAssign).len() == 2);
            assert(s.subrange(p + 1, p + 1 + 2)[0] == s[p + 1 + 0]);
            assert(s[p + 1 + 0] == '&');
            assert(s.subrange(p + 1, p + 1 + 2)[1] == s[p + 1 + 1]);
            assert(s[p + 1 + 1] == '=');
            assert(!is_space_char(s[p + 1]));
            assert(skip_ws_end(s, p) == p + 1);
            assert(spec_next_token(s, p, l, c).tok.kind == TokenType::BitAndAssign && spec_next_token(
                s,
                p,
                l,
                c,
            ).tok.value is None && spec_next_token(s, p, l, c).end == p + 1 + 2);
        },
        TokenType::Or => {
            reveal_strlit("||");
            assert(spec_spelling(TokenType::Or).len() == 2);
            assert(s.subrange(p + 1, p + 1 + 2)[0] == s[p + 1 + 0]);
            assert(s[p + 1 + 0] == '|');
            assert(s.subrange(p + 1, p + 1 + 2)[1] == s[p + 1 + 1]);
            assert(s[p + 1 + 1] == '|');
            assert(!is_space_char(s[p + 1]));
            assert(skip_ws_end(s, p) == p + 1);
            assert(spec_next_token(s, p, l, c).tok.kind == TokenType::Or && spec_next_token(
                s,
                p,
                l,
                c,
            ).tok.value is None && spec_next_token(s, p, l, c).end == p + 1 + 2);
        },
        TokenType::BitOr => {
            reveal_strlit("|");
            assert(spec_spelling(TokenType::BitOr).len() == 1);
            assert(s.subrange(p + 1, p + 1 + 1)[0] == s[p + 1 + 0]);
            assert(s[p + 1 + 0] == '|');
            assert(!is_space_char(s[p + 1]));
            assert(skip_ws_end(s, p) == p + 1);
            assert(spec_next_token(s, p, l, c).tok.kind == TokenType::BitOr && spec_next_token(
                s,
                p,
                l,
                c,
            ).tok.value is None && spec_next_token(s, p, l, c).end == p + 1 + 1);
        },
        TokenType::BitOrAssign => {
            reveal_strlit("|=");
            assert(spec_spelling(TokenType::BitOrAssign).len() == 2);
            assert(s.subrange(p + 1, p + 1 + 2)[0] == s[p + 1 + 0]);
            assert(s[p + 1 + 0] == '|');
            assert(s.subrange(p + 1, p + 1 + 2)[1] == s[p + 1 + 1]);
            assert(s[p + 1 + 1] == '=');
            assert(!is_space_char(s[p + 1]));
            assert(skip_ws_end(s, p) == p + 1);
            assert(spec_next_token(s, p, l, c).tok.kind == TokenType::BitOrAssign && spec_next_token(
                s,
                p,
                l,
                c,
            ).tok.value is None && spec_next_token(s, p, l, c).end == p + 1 + 2);
        },
        TokenType::BitXor => {
            reveal_strlit("^");
            assert(spec_spelling(TokenType::BitXor).len() == 1);
            assert(s.subrange(p + 1, p + 1 + 1)[0] == s[p + 1 + 0]);
            assert(s[p + 1 + 0] == '^');
            assert(!is_space_char(s[p + 1]));
            assert(skip_ws_end(s, p) == p + 1);
            assert(spec_next_token(s, p, l, c).tok.kind == TokenType::BitXor && spec_next_token(
                s,
                p,
                l,
                c,
            ).tok.value is None && spec_next_token(s, p, l, c).end == p + 1 + 1);
        },
        TokenType::BitXorAssign => {
            reveal_strlit("^=");
            assert(spec_spelling(TokenType::BitXorAssign).len() == 2);
            assert(s.subrange(p + 1, p + 1 + 2)[0] == s[p + 1 + 0]);
            assert(s[p + 1 + 0] == '^');
            assert(s.subrange(p + 1, p + 1 + 2)[1] == s[p + 1 + 1]);
            assert(s[p + 1 + 1] == '=');
            assert(!is_space_char(s[p + 1]));
            assert(skip_ws_end(s, p) == p + 1);
            assert(spec_next_token(s, p, l, c).tok.kind == TokenType::BitXorAssign && spec_next_token(
                s,
                p,
                l,
                c,
            ).tok.value is None && spec_next_token(s, p, l, c).end == p + 1 + 2);
        },
        TokenType::LowerThan => {
            reveal_strlit("<");
            assert(spec_spelling(TokenType::LowerThan).len() == 1);
            assert(s.subrange(p + 1, p + 1 + 1)[0] == s[p + 1 + 0]);
            assert(s[p + 1 + 0] == '<');
            assert(!is_space_char(s[p + 1]));
            assert(skip_ws_end(s, p) == p + 1);
            assert(spec_next_token(s, p, l, c).tok.kind == TokenType::LowerThan && spec_next_token(
                s,
                p,
                l,
                c,
            ).tok.value is None && spec_next_token(s, p, l, c).end == p + 1 + 1);
        },
        TokenType::LowerThanEqual => {
            reveal_strlit("<=");
            assert(spec_spelling(TokenType::LowerThanEqual).len() == 2);
            assert(s.subrange(p + 1, p + 1 + 2)[0] == s[p + 1 + 0]);
            assert(s[p + 1 + 0] == '<');
            assert(s.subrange(p + 1, p + 1 + 2)[1] == s[p + 1 + 1]);
            assert(s[p + 1 + 1] == '=');
            assert(!is_space_char(s[p + 1]));
            assert(skip_ws_end(s, p) == p + 1);
            assert(spec_next_token(s, p, l, c).tok.kind == TokenType::LowerThanEqual && spec_next_token(
                s,
                p,
                l,
                c,
            ).tok.value is None && spec_next_token(s, p, l, c).end == p + 1 + 2);
        },
        TokenType::BitLeft => {
            reveal_strlit("<<");
            assert(spec_spelling(TokenType::BitLeft).len() == 2);
            assert(s.subrange(p + 1, p + 1 + 2)[0] == s[p + 1 + 0]);
            assert(s[p + 1 + 0] == '<');
            assert(s.subrange(p + 1, p + 1 + 2)[1] == s[p + 1 + 1]);
            assert(s[p + 1 + 1] == '<');
            assert(!is_space_char(s[p + 1]));
            assert(skip_ws_end(s, p) == p + 1);
            assert(spec_next_token(s, p, l, c).tok.kind == TokenType::BitLeft && spec_next_token(
                s,
                p,
                l,
                c,
            ).tok.value is None && spec_next_token(s, p, l, c).end == p + 1 + 2);
        },
        TokenType::BitLeftAssign => {
            reveal_strlit("<<=");
            assert(spec_spelling(TokenType::BitLeftAssign).len() == 3);
            assert(s.subrange(p + 1, p + 1 + 3)[0] == s[p + 1 + 0]);
            assert(s[p + 1 + 0] == '<');
            assert(s.subrange(p + 1, p + 1 + 3)[1] == s[p + 1 + 1]);
            assert(s[p + 1 + 1] == '<');
            assert(s.subrange(p + 1, p + 1 + 3)[2] == s[p + 1 + 2]);
            assert(s[p + 1 + 2] == '=');
            assert(!is_space_char(s[p + 1]));
            assert(skip_ws_end(s, p) == p + 1);
            assert(spec_next_token(s, p, l, c).tok.kind == TokenType::BitLeftAssign && spec_next_token(
                s,
                p,
                l,
                c,
            ).tok.value is None && spec_next_token(s, p, l, c).end == p + 1 + 3);
        },
        TokenType::GreaterThan => {
            reveal_strlit(">");
            assert(spec_spelling(TokenType::GreaterThan).len() == 1);
            assert(s.subrange(p + 1, p + 1 + 1)[0] == s[p + 1 + 0]);
            assert(s[p + 1 + 0] == '>');
            assert(!is_space_char(s[p + 1]));
            assert(skip_ws_end(s, p) == p + 1);
            assert(spec_next_token(s, p, l, c).tok.kind == TokenType::GreaterThan && spec_next_token(
                s,
                p,
                l,
                c,
            ).tok.value is None && spec_next_token(s, p, l, c).end == p + 1 + 1);
        },
        TokenType::GreaterThanEqual => {
            reveal_strlit(">=");
            assert(spec_spelling(TokenType::GreaterThanEqual).len() == 2);
            assert(s.subrange(p + 1, p + 1 + 2)[0] == s[p + 1 + 0]);
            assert(s[p + 1 + 0] == '>');
            assert(s.subrange(p + 1, p + 1 + 2)[1] == s[p + 1 + 1]);
            assert(s[p + 1 + 1] == '=');
            assert(!is_space_char(s[p + 1]));
            assert(skip_ws_end(s, p) == p + 1);
            assert(spec_next_token(s, p, l, c).tok.kind == TokenType::GreaterThanEqual && spec_next_token(
                s,
                p,
                l,
                c,
            ).tok.value is None && spec_next_token(s, p, l, c).end == p + 1 + 2);
        },
        TokenType::BitRight => {
            reveal_strlit(">>");
            assert(spec_spelling(TokenType::BitRight).len() == 2);
            assert(s.subrange(p + 1, p + 1 + 2)[0] == s[p + 1 + 0]);
            assert(s[p + 1 + 0] == '>');
            assert(s.subrange(p + 1, p + 1 + 2)[1] == s[p + 1 + 1]);
            assert(s[p + 1 + 1] == '>');
            assert(!is_space_char(s[p + 1]));
            assert(skip_ws_end(s, p) == p + 1);
            assert(spec_next_token(s, p, l, c).tok.kind == TokenType::BitRight && spec_next_token(
                s,
                p,
                l,
                c,
            ).tok.value is None && spec_next_token(s, p, l, c).end == p + 1 + 2);
        },
        TokenType::BitRightAssign => {
            reveal_strlit(">>=");
            assert(spec_spelling(TokenType::BitRightAssign).len() == 3);
            assert(s.subrange(p + 1, p + 1 + 3)[0] == s[p + 1 + 0]);
            assert(s[p + 1 + 0] == '>');
            assert(s.subrange(p + 1, p + 1 + 3)[1] == s[p + 1 + 1]);
            assert(s[p + 1 + 1] == '>');
            assert(s.subrange(p + 1, p + 1 + 3)[2] == s[p + 1 + 2]);
            assert(s[p + 1 + 2] == '=');
            assert(!is_space_char(s[p + 1]));
            assert(skip_ws_end(s, p) == p + 1);
            assert(spec_next_token(s, p, l, c).tok.kind == TokenType::BitRightAssign && spec_next_token(
                s,
                p,
                l,
                c,
            ).tok.value is None && spec_next_token(s, p, l, c).end == p + 1 + 3);
        },
        TokenType::NotEqual => {
            reveal_strlit("!=");
            assert(spec_spelling(TokenType::NotEqual).len() == 2);
            assert(s.subrange(p + 1, p + 1 + 2)[0] == s[p + 1 + 0]);
            assert(s[p + 1 + 0] == '!');
            assert(s.subrange(p + 1, p + 1 + 2)[1] == s[p + 1 + 1]);
            assert(s[p + 1 + 1] == '=');
            assert(!is_space_char(s[p + 1]));
            assert(skip_ws_end(s, p) == p + 1);
            assert(spec_next_token(s, p, l, c).tok.kind == TokenType::NotEqual && spec_next_token(
                s,
                p,
                l,
                c,
            ).tok.value is None && spec_next_token(s, p, l, c).end == p + 1 + 2);
        },
        TokenType::Bang => {
            reveal_strlit("!");
            assert(spec_spelling(TokenType::Bang).len() == 1);
            assert(s.subrange(p + 1, p + 1 + 1)[0] == s[p + 1 + 0]);
            assert(s[p + 1 + 0] == '!');
            assert(!is_space_char(s[p + 1]));
            assert(skip_ws_end(s, p) == p + 1);
            assert(spec_next_token(s, p, l, c).tok.kind == TokenType::Bang && spec_next_token(
                s,
                p,
                l,
                c,
            ).tok.value is None && spec_next_token(s, p, l, c).end == p + 1 + 1);
        },
        TokenType::Colon => {
            reveal_strlit(":");
            assert(spec_spelling(TokenType::Colon).len() == 1);
            assert(s.subrange(p + 1, p + 1 + 1)[0] == s[p + 1 + 0]);
            assert(s[p + 1 + 0] == ':');
            assert(!is_space_char(s[p + 1]));
            assert(skip_ws_end(s, p) == p + 1);
            assert(spec_next_token(s, p, l, c).tok.kind == TokenType::Colon && spec_next_token(
                s,
                p,
                l,
                c,
            ).tok.value is None && spec_next_token(s, p, l, c).end == p + 1 + 1);
        },
        TokenType::Semicolon => {
            reveal_strlit(";");
            assert(spec_spelling(TokenType::Semicolon).len() == 1);
            assert(s.subrange(p + 1, p + 1 + 1)[0] == s[p + 1 + 0]);
            assert(s[p + 1 + 0] == ';');
            assert(!is_space_char(s[p + 1]));
            assert(skip_ws_end(s, p) == p + 1);
            assert(spec_next_token(s, p, l, c).tok.kind == TokenType::Semicolon && spec_next_token(
                s,
                p,
                l,
                c,
            ).tok.value is None && spec_next_token(s, p, l, c).end == p + 1 + 1);
        },
        TokenType::Comma => {
            reveal_strlit(",");
            assert(spec_spelling(TokenType::Comma).len() == 1);
            assert(s.subrange(p + 1, p + 1 + 1)[0] == s[p + 1 + 0]);
            assert(s[p + 1 + 0] == ',');
            assert(!is_space_char(s[p + 1]));
            assert(skip_ws_end(s, p) == p + 1);
            assert(spec_next_token(s, p, l, c).tok.kind == TokenType::Comma && spec_next_token(
                s,
                p,
                l,
                c,
            ).tok.value is None && spec_next_token(s, p, l, c).end == p + 1 + 1);
        },
        TokenType::LeftBrace => {
            reveal_strlit("{");
            assert(spec_spelling(TokenType::LeftBrace).len() == 1);
            assert(s.subrange(p + 1, p + 1 + 1)[0] == s[p + 1 + 0]);
            assert(s[p + 1 + 0] == '{');
            assert(!is_space_char(s[p + 1]));
            assert(skip_ws_end(s, p) == p + 1);
            assert(spec_next_token(s, p, l, c).tok.kind == TokenType::LeftBrace && spec_next_token(
                s,
                p,
                l,
                c,
            ).tok.value is None && spec_next_token(s, p, l, c).end == p + 1 + 1);
        },
        TokenType::RightBrace => {
            reveal_strlit("}");
            assert(spec_spelling(TokenType::RightBrace).len() == 1);
            assert(s.subrange(p + 1, p + 1 + 1)[0] == s[p + 1 + 0]);
            assert(s[p + 1 + 0] == '}');
            assert(!is_space_char(s[p + 1]));
            assert(skip_ws_end(s, p) == p + 1);
            assert(spec_next_token(s, p, l, c).tok.kind == TokenType::RightBrace && spec_next_token(
                s,
                p,
                l,
                c,
            ).tok.value is None && spec_next_token(s, p, l, c).end == p + 1 + 1);
        },
        TokenType::LeftBracket => {
            reveal_strlit("(");
            assert(spec_spelling(TokenType::LeftBracket).len() == 1);
            assert(s.subrange(p + 1, p + 1 + 1)[0] == s[p + 1 + 0]);
            assert(s[p + 1 + 0] == '(');
            assert(!is_space_char(s[p + 1]));
            assert(skip_ws_end(s, p) == p + 1);
            assert(spec_next_token(s, p, l, c).tok.kind == TokenType::LeftBracket && spec_next_token(
                s,
                p,
                l,
                c,
            ).tok.value is None && spec_next_token(s, p, l, c).end == p + 1 + 1);
        },
        TokenType::RightBracket => {
            reveal_strlit(")");
            assert(spec_spelling(TokenType::RightBracket).len() == 1);
            assert(s.subrange(p + 1, p + 1 + 1)[0] == s[p + 1 + 0]);
            assert(s[p + 1 + 0] == ')');
            assert(!is_space_char(s[p + 1]));
            assert(skip_ws_end(s, p) == p + 1);
            assert(spec_next_token(s, p, l, c).tok.kind == TokenType::RightBracket && spec_next_token(
                s,
                p,
                l,
                c,
            ).tok.value is None && spec_next_token(s, p, l, c).end == p + 1 + 1);
        },
        TokenType::LeftSquare => {
            reveal_strlit("[");
            assert(spec_spelling(TokenType::LeftSquare).len() == 1);
            assert(s.subrange(p + 1, p + 1 + 1)[0] == s[p + 1 + 0]);
            assert(s[p + 1 + 0] == '[');
            assert(!is_space_char(s[p + 1]));
            assert(skip_ws_end(s, p) == p + 1);
            assert(spec_next_token(s, p, l, c).tok.kind == TokenType::LeftSquare && spec_next_token(
                s,
                p,
                l,
                c,
            ).tok.value is None && spec_next_token(s, p, l, c).end == p + 1 + 1);
        },
        TokenType::RightSquare => {
            reveal_strlit("]");
            assert(spec_spelling(TokenType::RightSquare).len() == 1);
            assert(s.subrange(p + 1, p + 1 + 1)[0] == s[p + 1 + 0]);
            assert(s[p + 1 + 0] == ']');
            assert(!is_space_char(s[p + 1]));
            assert(skip_ws_end(s, p) == p + 1);
            assert(spec_next_token(s, p, l, c).tok.kind == TokenType::RightSquare && spec_next_token(
                s,
                p,
                l,
                c,
            ).tok.value is None && spec_next_token(s, p, l, c).end == p + 1 + 1);
        },
        TokenType::Elipsis => {
            reveal_strlit("...");
            assert(spec_spelling(TokenType::Elipsis).len() == 3);
            assert(s.subrange(p + 1, p + 1 + 3)[0] == s[p + 1 + 0]);
            assert(s[p + 1 + 0] == '.');
            assert(s.subrange(p + 1, p + 1 + 3)[1] == s[p + 1 + 1]);
            assert(s[p + 1 + 1] == '.');
            assert(s.subrange(p + 1, p + 1 + 3)[2] == s[p + 1 + 2]);
            assert(s[p + 1 + 2] == '.');
            assert(!is_space_char(s[p + 1]));
            assert(skip_ws_end(s, p) == p + 1);
            assert(spec_next_token(s, p, l, c).tok.kind == TokenType::Elipsis && spec_next_token(
                s,
                p,
                l,
                c,
            ).tok.value is None && spec_next_token(s, p, l, c).end == p + 1 + 3);
        },
        TokenType::Range => {
            reveal_strlit("..");
            assert(spec_spelling(TokenType::Range).len() == 2);
            assert(s.subrange(p + 1, p + 1 + 2)[0] == s[p + 1 + 0]);
            assert(s[p + 1 + 0] == '.');
            assert(s.subrange(p + 1, p + 1 + 2)[1] == s[p + 1 + 1]);
            assert(s[p + 1 + 1] == '.');
            assert(!is_space_char(s[p + 1]));
            assert(skip_ws_end(s, p) == p + 1);
            assert(spec_next_token(s, p, l, c).tok.kind == TokenType::Range && spec_next_token(
                s,
                p,
                l,
                c,
            ).tok.value is None && spec_next_token(s, p, l, c).end == p + 1 + 2);
        },
        TokenType::Directive => {
            reveal_strlit("#");
            assert(spec_spelling(TokenType::Directive).len() == 1);
            assert(s.subrange(p + 1, p + 1 + 1)[0] == s[p + 1 + 0]);
            assert(s[p + 1 + 0] == '#');
            assert(!is_space_char(s[p + 1]));
            assert(skip_ws_end(s, p) == p + 1);
            assert(spec_next_token(s, p, l, c).tok.kind == TokenType::Directive && spec_next_token(
                s,
                p,
                l,
                c,
            ).tok.value is None && spec_next_token(s, p, l, c).end == p + 1 + 1);
        },
        _ => {},
    }
}

/// One keyword token in context: a space, then a reserved spelling made of
/// identifier characters, then a space or the end of the input, scans to
/// exactly that keyword's kind.
proof fn lemma_kw_token_step(s: Seq<char>, p: int, l: int, c: int, k: TokenType)
    requires
        is_keyword_kind(k),
        word_shaped(spec_spelling(k)),
        !is_letter_char(' '),
        0 <= p,
        p + 1 + spec_spelling(k).len() <= s.len(),
        s[p] == ' ',
        s.subrange(p + 1, p + 1 + spec_spelling(k).len() as int) =~= spec_spelling(k),
        p + 1 + spec_spelling(k).len() == s.len() || s[p + 1 + spec_spelling(k).len() as int]
            == ' ',
    ensures
        spec_next_token(s, p, l, c).tok.kind == k,
        spec_next_token(s, p, l, c).tok.value is None,
        spec_next_token(s, p, l, c).end == p + 1 + spec_spelling(k).len(),
{
    reveal_with_fuel(skip_ws_end, 3);
    lemma_keyword_spelling_nonempty(k);
    let m = spec_spelling(k).len() as int;
    assert forall|j: int| p + 1 <= j < p + 1 + m implies is_letter_char(s[j]) && !is_space_char(
        s[j],
    ) && !is_op_char(s[j]) && s[j] != '/' by {
        assert(s.subrange(p + 1, p + 1 + m)[j - p - 1] == s[j]);
    }
    assert(skip_ws_end(s, p) == p + 1);
    lemma_letter_run_until(s, p + 2, p + 1 + m);
    assert(s.subrange(p + 1, p + 1 + m) == spec_spelling(k));
    lemma_keyword_spelling_roundtrip(k);
    assert(spec_next_token(s, p, l, c).tok.kind == k && spec_next_token(s, p, l, c).tok.value
        is None && spec_next_token(s, p, l, c).end == p + 1 + m);
}

/// Law of the spelling round trip: the canonical spellings of any finite
/// sequence of keyword and operator kinds, space-separated, form a valid
/// re-tokenizable fragment that scans back to exactly those kinds, in order,
/// with no `Illegal` token and no `End` marker among them.  Keyword
/// spellings are identifier-shaped text, a fact of Unicode taken as a
/// hypothesis because the alphabet predicate is uninterpreted.
pub proof fn lemma_spellings_retokenize(
    s: Seq<char>,
    i: int,
    l: int,
    c: int,
    kinds: Seq<TokenType>,
)
    requires
        0 <= i <= s.len(),
        s.subrange(i, s.len() as int) =~= joined_spellings(kinds),
        forall|j: int|
            0 <= j < kinds.len() ==> is_keyword_kind(#[trigger] kinds[j]) || is_operator_kind(
                kinds[j],
            ),
        forall|j: int|
            0 <= j < kinds.len() && is_keyword_kind(#[trigger] kinds[j]) ==> word_shaped(
                spec_spelling(kinds[j]),
            ),
        !is_letter_char(' '),
    ensures
        spec_tokens(s, i, l, c).len() == kinds.len(),
        forall|j: int|
            0 <= j < kinds.len() ==> spec_tokens(s, i, l, c)[j].kind == #[trigger] kinds[j],
    decreases kinds.len(),
{
    if kinds.len() == 0 {
        assert(i == s.len());
        assert(spec_tokens(s, i, l, c) =~= Seq::<TokenModel>::empty());
    } else {
        let k0 = kinds[0];
        let m = spec_spelling(k0).len() as int;
        let rest = kinds.drop_first();
        let restj = joined_spellings(rest);
        assert(joined_spellings(kinds) == seq![' '] + spec_spelling(k0) + restj);
        assert(s.subrange(i, s.len() as int) == joined_spellings(kinds));
        assert(s.subrange(i, s.len() as int).len() == s.len() - i);
        assert(s.len() - i == 1 + m + restj.len());
        assert(s.subrange(i, s.len() as int)[0] == ' ');
        assert(s[i] == ' ');
        assert forall|j: int| 0 <= j < m implies s.subrange(i + 1, i + 1 + m)[j]
            == spec_spelling(k0)[j] by {
            assert(s.subrange(i, s.len() as int)[1 + j] == s[i + 1 + j]);
            assert(s.subrange(i + 1, i + 1 + m)[j] == s[i + 1 + j]);
        }
        assert(s.subrange(i + 1, i + 1 + m) =~= spec_spelling(k0));
        assert forall|j: int| 0 <= j < restj.len() implies s.subrange(
            i + 1 + m,
            s.len() as int,
        )[j] == restj[j] by {
            assert(s.subrange(i, s.len() as int)[1 + m + j] == s[i + 1 + m + j]);
            assert(s.subrange(i + 1 + m, s.len() as int)[j] == s[i + 1 + m + j]);
        }
        assert(s.subrange(i + 1 + m, s.len() as int) =~= restj);
        if rest.len() > 0 {
            assert(restj[0] == ' ');
            assert(s.subrange(i + 1 + m, s.len() as int)[0] == s[i + 1 + m]);
            assert(s[i + 1 + m] == ' ');
        } else {
            assert(i + 1 + m == s.len());
        }
        if is_operator_kind(k0) {
            lemma_op_token_step(s, i, l, c, k0);
        } else {
            lemma_kw_token_step(s, i, l, c, k0);
        }
        let st = spec_next_token(s, i, l, c);
        assert(st.tok.kind != TokenType::End);
        assert(forall|j: int| 0 <= j < rest.len() ==> #[trigger] rest[j] == kinds[j + 1]);
        lemma_spellings_retokenize(s, i + 1 + m, st.line, st.col, rest);
        assert(spec_tokens(s, i, l, c) =~= seq![st.tok] + spec_tokens(
            s,
            i + 1 + m,
            st.line,
            st.col,
        ));
        assert forall|j: int| 0 <= j < kinds.len() implies spec_tokens(s, i, l, c)[j].kind
            == kinds[j] by {
            if j == 0 {
                assert(spec_tokens(s, i, l, c)[0] == st.tok);
            } else {
                assert(spec_tokens(s, i, l, c)[j] == spec_tokens(
                    s,
                    i + 1 + m,
                    st.line,
                    st.col,
                )[j - 1]);
                assert(spec_tokens(s, i + 1 + m, st.line, st.col)[j - 1].kind == rest[j - 1]);
                assert(rest[j - 1] == kinds[j]);
            }
        }
    }
}

/// The spec-level pictures of a sequence of tokens.
pub open spec fn models_of(ts: Seq<Token>) -> Seq<TokenModel> {
    ts.map_values(|t: Token| t@)
}

/// Copy `v` without its leading whitespace.
fn trim_start_chars(v: &Vec<char>) -> (r: Vec<char>)
    ensures
        r@ == trim_start_spec(v@),
{
    let mut k: usize = 0;
    loop
        invariant_except_break
            0 <= k <= v@.len(),
            ws_prefix_end(v@, 0) == ws_prefix_end(v@, k as int),
        ensures
            0 <= k <= v@.len(),
            k == ws_prefix_end(v@, 0),
        decreases v@.len() - k,
    {
        if k >= v.len() {
            break ;
        }
        if !is_whitespace_char(v[k]) {
            break ;
        }
        k = k + 1;
    }
    let mut r: Vec<char> = Vec::new();
    let mut m: usize = k;
    while m < v.len()
        invariant
            k <= m <= v@.len(),
            k == ws_prefix_end(v@, 0),
            r@ =~= v@.subrange(k as int, m as int),
        decreases v@.len() - m,
    {
        r.push(v[m]);
        m = m + 1;
    }
    proof {
        assert(r@ =~= trim_start_spec(v@));
    }
    r
}

/// Position-tracked cursor and tokenizer over an in-memory character
/// sequence.  Lines and columns are 1-based; the "initial" counters snapshot
/// the position where the token being scanned started.
pub struct Lexer {
    chars: Vec<char>,
    pos: usize,
    initial_line: i32,
    current_line: i32,
    initial_column: i32,
    current_column: i32,
}

impl Lexer {
    /// The input characters.
    pub closed spec fn input(&self) -> Seq<char> {
        self.chars@
    }

    /// The cursor position: how many characters have been consumed.
    pub closed spec fn spec_pos(&self) -> int {
        self.pos as int
    }

    /// The current line counter.
    pub closed spec fn spec_line(&self) -> int {
        self.current_line as int
    }

    /// The current column counter.
    pub closed spec fn spec_col(&self) -> int {
        self.current_column as int
    }

    /// The line where the token being scanned started.
    pub closed spec fn spec_initial_line(&self) -> int {
        self.initial_line as int
    }

    /// The column where the token being scanned started.
    pub closed spec fn spec_initial_col(&self) -> int {
        self.initial_column as int
    }

    /// The cursor never passes the end of the input, and the counters stay
    /// small enough that advancing once per remaining character cannot
    /// overflow them.
    pub closed spec fn wf(&self) -> bool {
        &&& self.pos <= self.chars@.len()
        &&& 1 <= self.current_line
        &&& 1 <= self.current_column
        &&& self.current_line + (self.chars@.len() - self.pos) <= i32::MAX
        &&& self.current_column + (self.chars@.len() - self.pos) <= i32::MAX
        &&& 1 <= self.initial_line <= i32::MAX
        &&& 1 <= self.initial_column <= i32::MAX
        &&& self.initial_line <= self.current_line
        &&& (self.initial_line == self.current_line ==> self.initial_column
            <= self.current_column)
    }

    /// A fresh tokenizer over the given text, positioned at line 1, column 1.
    /// The input must be short enough for the position counters.
    pub fn new(input: &str) -> (r: Lexer)
        requires
            input@.len() < i32::MAX,
        ensures
            r.wf(),
            r.input() == input@,
            r.spec_pos() == 0,
            r.spec_line() == 1,
            r.spec_col() == 1,
    {
        let n = input.unicode_len();
        let mut chars: Vec<char> = Vec::new();
        let mut i: usize = 0;
        while i < n
            invariant
                n == input@.len(),
                0 <= i <= n,
                chars@ =~= input@.subrange(0, i as int),
            decreases n - i,
        {
            chars.push(input.get_char(i));
            i = i + 1;
        }
        proof {
            assert(chars@ =~= input@);
        }
        Lexer {
            chars,
            pos: 0,
            initial_line: 1,
            current_line: 1,
            initial_column: 1,
            current_column: 1,
        }
    }

    /// Consume and return the next character, advancing the line counter on a
    /// newline and the column counter otherwise; `None` at the end of input.
    fn read_char(&mut self) -> (r: Option<char>)
        requires
            old(self).wf(),
        ensures
            final(self).wf(),
            final(self).input() == old(self).input(),
            final(self).spec_initial_line() == old(self).spec_initial_line(),
            final(self).spec_initial_col() == old(self).spec_initial_col(),
            old(self).spec_pos() < old(self).input().len() ==> {
                &&& r == Some(old(self).input()[old(self).spec_pos()])
                &&& final(self).spec_pos() == old(self).spec_pos() + 1
                &&& final(self).spec_line() == adv_line(
                    old(self).spec_line(),
                    old(self).input()[old(self).spec_pos()],
                )
                &&& final(self).spec_col() == adv_col(
                    old(self).spec_col(),
                    old(self).input()[old(self).spec_pos()],
                )
            },
            old(self).spec_pos() >= old(self).input().len() ==> {
                &&& r is None
                &&& final(self).spec_pos() == old(self).spec_pos()
                &&& final(self).spec_line() == old(self).spec_line()
                &&& final(self).spec_col() == old(self).spec_col()
            },
    {
        if self.pos >= self.chars.len() {
            return None;
        }
        let next = self.chars[self.pos];
        self.pos = self.pos + 1;
        if next == '\n' {
            self.current_line = self.current_line + 1;
            self.current_column = 1;
        } else {
            self.current_column = self.current_column + 1;
        }
        Some(next)
    }

    /// Look at the next character without consuming it.
    fn peek_char(&self) -> (r: Option<char>)
        ensures
            r == (if self.spec_pos() < self.input().len() {
                Some(self.input()[self.spec_pos()])
            } else {
                None::<char>
            }),
    {
        if self.pos < self.chars.len() {
            Some(self.chars[self.pos])
        } else {
            None
        }
    }

    /// Whether the next character can start or continue an identifier.
    fn peek_is_letter(&self) -> (r: bool)
        ensures
            r == (self.spec_pos() < self.input().len() && is_letter_char(
                self.input()[self.spec_pos()],
            )),
    {
        match self.peek_char() {
            Some(ch) => is_letter(ch),
            None => false,
        }
    }

    /// Consume the next character exactly when it equals `ch`; report whether
    /// it did.
    fn peek_char_eq_consume(&mut self, ch: char) -> (r: bool)
        requires
            old(self).wf(),
        ensures
            final(self).wf(),
            final(self).input() == old(self).input(),
            final(self).spec_initial_line() == old(self).spec_initial_line(),
            final(self).spec_initial_col() == old(self).spec_initial_col(),
            r == peek_is(old(self).input(), old(self).spec_pos(), ch),
            r ==> {
                &&& final(self).spec_pos() == old(self).spec_pos() + 1
                &&& final(self).spec_line() == adv_line(old(self).spec_line(), ch)
                &&& final(self).spec_col() == adv_col(old(self).spec_col(), ch)
            },
            !r ==> {
                &&& final(self).spec_pos() == old(self).spec_pos()
                &&& final(self).spec_line() == old(self).spec_line()
                &&& final(self).spec_col() == old(self).spec_col()
            },
    {
        match self.peek_char() {
            Some(peek_ch) => {
                if peek_ch == ch {
                    self.read_char();
                    true
                } else {
                    false
                }
            },
            None => false,
        }
    }

    /// Skip all whitespace characters before the next token; they advance the
    /// counters but produce nothing.
    fn skip_whitespace(&mut self)
        requires
            old(self).wf(),
        ensures
            final(self).wf(),
            final(self).input() == old(self).input(),
            final(self).spec_initial_line() == old(self).spec_initial_line(),
            final(self).spec_initial_col() == old(self).spec_initial_col(),
            final(self).spec_pos() == skip_ws_end(old(self).input(), old(self).spec_pos()),
            old(self).spec_pos() <= final(self).spec_pos(),
            final(self).spec_line() == line_after(
                old(self).input(),
                old(self).spec_pos(),
                final(self).spec_pos(),
                old(self).spec_line(),
            ),
            final(self).spec_col() == col_after(
                old(self).input(),
                old(self).spec_pos(),
                final(self).spec_pos(),
                old(self).spec_col(),
            ),
    {
        let ghost s = self.input();
        let ghost i0 = self.spec_pos();
        let ghost l0 = self.spec_line();
        let ghost c0 = self.spec_col();
        loop
            invariant
                self.wf(),
                self.input() == s,
                self.spec_initial_line() == old(self).spec_initial_line(),
                self.spec_initial_col() == old(self).spec_initial_col(),
                i0 <= self.spec_pos() <= s.len(),
                skip_ws_end(s, i0) == skip_ws_end(s, self.spec_pos()),
                self.spec_line() == line_after(s, i0, self.spec_pos(), l0),
                self.spec_col() == col_after(s, i0, self.spec_pos(), c0),
            ensures
                self.wf(),
                self.input() == s,
                self.spec_initial_line() == old(self).spec_initial_line(),
                self.spec_initial_col() == old(self).spec_initial_col(),
                self.spec_pos() == skip_ws_end(s, i0),
                self.spec_line() == line_after(s, i0, self.spec_pos(), l0),
                self.spec_col() == col_after(s, i0, self.spec_pos(), c0),
            decreases s.len() - self.spec_pos(),
        {
            let c = match self.peek_char() {
                Some(c) => c,
                None => {
                    break ;
                },
            };
            if !is_whitespace_char(c) {
                break ;
            }
            proof {
                lemma_pos_extend(s, i0, self.spec_pos(), l0, c0);
            }
            self.read_char();
        }
    }

    /// Consume characters through the next newline, or to the end of the
    /// input, and hand back everything before the newline.
    fn read_until_eol(&mut self) -> (r: Vec<char>)
        requires
            old(self).wf(),
        ensures
            final(self).wf(),
            final(self).input() == old(self).input(),
            final(self).spec_initial_line() == old(self).spec_initial_line(),
            final(self).spec_initial_col() == old(self).spec_initial_col(),
            ({
                let s = old(self).input();
                let t = eol_pos(s, old(self).spec_pos());
                &&& r@ == s.subrange(old(self).spec_pos(), t)
                &&& final(self).spec_pos() == (if t < s.len() {
                    t + 1
                } else {
                    t
                })
                &&& old(self).spec_pos() <= final(self).spec_pos()
                &&& final(self).spec_line() == line_after(
                    s,
                    old(self).spec_pos(),
                    final(self).spec_pos(),
                    old(self).spec_line(),
                )
                &&& final(self).spec_col() == col_after(
                    s,
                    old(self).spec_pos(),
                    final(self).spec_pos(),
                    old(self).spec_col(),
                )
            }),
    {
        let ghost s = self.input();
        let ghost i0 = self.spec_pos();
        let ghost l0 = self.spec_line();
        let ghost c0 = self.spec_col();
        let mut line: Vec<char> = Vec::new();
        loop
            invariant_except_break
                self.wf(),
                self.input() == s,
                self.spec_initial_line() == old(self).spec_initial_line(),
                self.spec_initial_col() == old(self).spec_initial_col(),
                0 <= i0 <= self.spec_pos() <= s.len(),
                eol_pos(s, i0) == eol_pos(s, self.spec_pos()),
                line@ == s.subrange(i0, self.spec_pos()),
                self.spec_line() == line_after(s, i0, self.spec_pos(), l0),
                self.spec_col() == col_after(s, i0, self.spec_pos(), c0),
            ensures
                self.wf(),
                self.input() == s,
                self.spec_initial_line() == old(self).spec_initial_line(),
                self.spec_initial_col() == old(self).spec_initial_col(),
                i0 <= self.spec_pos(),
                line@ == s.subrange(i0, eol_pos(s, i0)),
                self.spec_pos() == (if eol_pos(s, i0) < s.len() {
                    eol_pos(s, i0) + 1
                } else {
                    eol_pos(s, i0)
                }),
                self.spec_line() == line_after(s, i0, self.spec_pos(), l0),
                self.spec_col() == col_after(s, i0, self.spec_pos(), c0),
            decreases s.len() - self.spec_pos(),
        {
            let ghost p = self.spec_pos();
            let c = match self.read_char() {
                Some(c) => c,
                None => {
                    break ;
                },
            };
            proof {
                lemma_pos_extend(s, i0, p, l0, c0);
            }
            if c == '\n' {
                break ;
            }
            line.push(c);
            proof {
                assert(line@ =~= s.subrange(i0, self.spec_pos()));
            }
        }
        line
    }

    /// Consume characters through the first block-comment terminator `*/`,
    /// watching for it with the sliding-window matcher, or to the end of the
    /// input when no terminator follows.  Hands back the accumulated text,
    /// which stops one character before the terminator.
    fn read_string_until(&mut self) -> (r: Vec<char>)
        requires
            old(self).wf(),
        ensures
            final(self).wf(),
            final(self).input() == old(self).input(),
            final(self).spec_initial_line() == old(self).spec_initial_line(),
            final(self).spec_initial_col() == old(self).spec_initial_col(),
            ({
                let s = old(self).input();
                let b = old(self).spec_pos();
                let t = block_term(s, b);
                &&& final(self).spec_pos() == (if t == s.len() {
                    t
                } else {
                    t + 2
                })
                &&& old(self).spec_pos() <= final(self).spec_pos()
                &&& r@ == (if t == s.len() {
                    s.subrange(b, t)
                } else {
                    s.subrange(
                        b,
                        if t - 1 >= b {
                            t - 1
                        } else {
                            b
                        },
                    )
                })
                &&& final(self).spec_line() == line_after(s, b, final(self).spec_pos(), old(self).spec_line())
                &&& final(self).spec_col() == col_after(s, b, final(self).spec_pos(), old(self).spec_col())
            }),
    {
        let ghost s = self.input();
        let ghost b0 = self.spec_pos();
        let ghost l0 = self.spec_line();
        let ghost c0 = self.spec_col();
        let mut result: Vec<char> = Vec::new();
        let mut recent: Ring<char> = Ring::new(2);
        loop
            invariant_except_break
                self.wf(),
                self.input() == s,
                self.spec_initial_line() == old(self).spec_initial_line(),
                self.spec_initial_col() == old(self).spec_initial_col(),
                0 <= b0 <= self.spec_pos() <= s.len(),
                recent.wf(),
                recent.spec_capacity() == 2,
                recent@ == s.subrange(
                    if self.spec_pos() - 2 > b0 {
                        self.spec_pos() - 2
                    } else {
                        b0
                    },
                    self.spec_pos(),
                ),
                result@ == s.subrange(b0, self.spec_pos()),
                block_term(s, b0) == block_term(
                    s,
                    if self.spec_pos() > b0 {
                        self.spec_pos() - 1
                    } else {
                        b0
                    },
                ),
                self.spec_line() == line_after(s, b0, self.spec_pos(), l0),
                self.spec_col() == col_after(s, b0, self.spec_pos(), c0),
            ensures
                self.wf(),
                self.input() == s,
                self.spec_initial_line() == old(self).spec_initial_line(),
                self.spec_initial_col() == old(self).spec_initial_col(),
                b0 <= self.spec_pos(),
                ({
                    let t = block_term(s, b0);
                    &&& self.spec_pos() == (if t == s.len() {
                        t
                    } else {
                        t + 2
                    })
                    &&& result@ == (if t == s.len() {
                        s.subrange(b0, t)
                    } else {
                        s.subrange(
                            b0,
                            if t - 1 >= b0 {
                                t - 1
                            } else {
                                b0
                            },
                        )
                    })
                    &&& self.spec_line() == line_after(s, b0, self.spec_pos(), l0)
                    &&& self.spec_col() == col_after(s, b0, self.spec_pos(), c0)
                }),
            decreases s.len() - self.spec_pos(),
        {
            let ghost p = self.spec_pos();
            let ghost win = recent@;
            let c = match self.read_char() {
                Some(c) => c,
                None => {
                    proof {
                        if p == b0 {
                            assert(block_term(s, b0) == s.len());
                        } else {
                            assert(block_term(s, p - 1) == s.len());
                        }
                        assert(result@ =~= s.subrange(b0, s.len() as int));
                    }
                    break ;
                },
            };
            proof {
                lemma_pos_extend(s, b0, p, l0, c0);
            }
            recent.insert(c);
            proof {
                let lo = if p + 1 - 2 > b0 {
                    p + 1 - 2
                } else {
                    b0
                };
                if win.len() < 2 {
                    assert(recent@ =~= s.subrange(lo, p + 1));
                } else {
                    assert(recent@ =~= s.subrange(lo, p + 1));
                }
            }
            let w = recent.unroll();
            if w.len() == 2 && w[0] == '*' && w[1] == '/' {
                proof {
                    assert(s[p - 1] == '*' && s[p] == '/');
                    assert(block_term(s, p - 1) == p - 1);
                    assert(block_term(s, b0) == p - 1);
                }
                if result.len() >= 2 {
                    result.pop();
                    result.pop();
                    proof {
                        let t = block_term(s, b0);
                        assert(result@ =~= s.subrange(b0, t - 1));
                    }
                } else {
                    result.clear();
                    proof {
                        let t = block_term(s, b0);
                        assert(t - 1 < b0);
                        assert(result@ =~= s.subrange(b0, b0));
                    }
                }
                break ;
            }
            result.push(c);
            proof {
                assert(result@ =~= s.subrange(b0, self.spec_pos()));
                if p > b0 {
                    assert(!(s[p - 1] == '*' && s[p] == '/'));
                    assert(block_term(s, p - 1) == block_term(s, p));
                } else {
                    assert(block_term(s, b0) == block_term(s, p));
                }
            }
        }
        result
    }

    /// Scan an identifier whose first character, already consumed, is
    /// `first`: letters are gathered greedily, then the spelling is looked up
    /// in the keyword table.
    fn read_symbol(&mut self, first: char) -> (r: Token)
        requires
            old(self).wf(),
            old(self).spec_pos() >= 1,
            old(self).input()[old(self).spec_pos() - 1] == first,
            old(self).spec_line() == adv_line(old(self).spec_initial_line(), first),
            old(self).spec_col() == adv_col(old(self).spec_initial_col(), first),
        ensures
            final(self).wf(),
            final(self).input() == old(self).input(),
            ({
                let st = symbol_step(
                    old(self).input(),
                    old(self).spec_pos() - 1,
                    old(self).spec_initial_line(),
                    old(self).spec_initial_col(),
                );
                &&& r@ == st.tok
                &&& span_wf(r@)
                &&& old(self).spec_pos() <= final(self).spec_pos()
                &&& final(self).spec_pos() == st.end
                &&& final(self).spec_line() == st.line
                &&& final(self).spec_col() == st.col
            }),
    {
        let ghost s = self.input();
        let ghost b = self.spec_pos() - 1;
        let ghost l1 = self.spec_initial_line();
        let ghost c1 = self.spec_initial_col();
        let mut ident: Vec<char> = Vec::new();
        ident.push(first);
        proof {
            assert(ident@ =~= s.subrange(b, b + 1));
            lemma_pos_extend(s, b, b, l1, c1);
        }
        loop
            invariant_except_break
                self.wf(),
                self.input() == s,
                self.spec_initial_line() == l1,
                self.spec_initial_col() == c1,
                0 <= b,
                b + 1 <= self.spec_pos() <= s.len(),
                letter_end(s, b + 1) == letter_end(s, self.spec_pos()),
                ident@ == s.subrange(b, self.spec_pos()),
                self.spec_line() == line_after(s, b, self.spec_pos(), l1),
                self.spec_col() == col_after(s, b, self.spec_pos(), c1),
            ensures
                self.wf(),
                self.input() == s,
                self.spec_initial_line() == l1,
                self.spec_initial_col() == c1,
                b + 1 <= self.spec_pos(),
                self.spec_pos() == letter_end(s, b + 1),
                ident@ == s.subrange(b, self.spec_pos()),
                self.spec_line() == line_after(s, b, self.spec_pos(), l1),
                self.spec_col() == col_after(s, b, self.spec_pos(), c1),
            decreases s.len() - self.spec_pos(),
        {
            if !self.peek_is_letter() {
                break ;
            }
            let c = match self.peek_char() {
                Some(c) => c,
                None => {
                    break ;
                },
            };
            proof {
                lemma_pos_extend(s, b, self.spec_pos(), l1, c1);
            }
            self.read_char();
            ident.push(c);
            proof {
                assert(ident@ =~= s.subrange(b, self.spec_pos()));
            }
        }
        let text = string_from_chars(&ident);
        let (kw, v) = match lookup_keyword(text.as_str()) {
            Some(v) => (v, None),
            None => (TokenType::Symbol, Some(TokenValue::String(text))),
        };
        self.gen_token(kw, v)
    }

    /// Scan a numeric literal whose first digit, already consumed, is
    /// `first`: digits continue greedily, digit separators are skipped, and
    /// decimal points are recorded to tell integers from floating literals.
    fn read_number(&mut self, first: char) -> (r: Token)
        requires
            old(self).wf(),
            old(self).spec_pos() >= 1,
            old(self).input()[old(self).spec_pos() - 1] == first,
            is_digit_char(first),
            old(self).spec_line() == adv_line(old(self).spec_initial_line(), first),
            old(self).spec_col() == adv_col(old(self).spec_initial_col(), first),
        ensures
            final(self).wf(),
            final(self).input() == old(self).input(),
            ({
                let st = number_step(
                    old(self).input(),
                    old(self).spec_pos() - 1,
                    old(self).spec_initial_line(),
                    old(self).spec_initial_col(),
                );
                &&& r@ == st.tok
                &&& span_wf(r@)
                &&& old(self).spec_pos() <= final(self).spec_pos()
                &&& final(self).spec_pos() == st.end
                &&& final(self).spec_line() == st.line
                &&& final(self).spec_col() == st.col
            }),
    {
        let ghost s = self.input();
        let ghost b = self.spec_pos() - 1;
        let ghost l1 = self.spec_initial_line();
        let ghost c1 = self.spec_initial_col();
        let mut text: Vec<char> = Vec::new();
        text.push(first);
        let mut val: i64 = ((first as u32) - 0x30) as i64;
        let mut dots: usize = 0;
        let mut overflow: bool = false;
        proof {
            reveal_with_fuel(strip_sep, 3);
            reveal_with_fuel(digits_of, 3);
            reveal_with_fuel(dot_count, 3);
            reveal_with_fuel(num_val, 3);
            assert(text@ =~= strip_sep(s, b, b + 1));
            assert(digits_of(s, b, b + 1) =~= seq![first]);
            assert(digits_of(s, b, b + 1).drop_last() =~= Seq::<char>::empty());
            lemma_pos_extend(s, b, b, l1, c1);
        }
        loop
            invariant_except_break
                self.wf(),
                self.input() == s,
                self.spec_initial_line() == l1,
                self.spec_initial_col() == c1,
                0 <= b,
                b + 1 <= self.spec_pos() <= s.len(),
                number_end(s, b + 1) == number_end(s, self.spec_pos()),
                text@ == strip_sep(s, b, self.spec_pos()),
                dots == dot_count(s, b, self.spec_pos()),
                dots <= self.spec_pos() - b - 1,
                overflow <==> num_val(digits_of(s, b, self.spec_pos())) > i32::MAX,
                !overflow ==> val == num_val(digits_of(s, b, self.spec_pos())),
                0 <= val <= i32::MAX,
                self.spec_line() == line_after(s, b, self.spec_pos(), l1),
                self.spec_col() == col_after(s, b, self.spec_pos(), c1),
            ensures
                self.wf(),
                self.input() == s,
                self.spec_initial_line() == l1,
                self.spec_initial_col() == c1,
                b + 1 <= self.spec_pos(),
                self.spec_pos() == number_end(s, b + 1),
                text@ == strip_sep(s, b, self.spec_pos()),
                dots == dot_count(s, b, self.spec_pos()),
                overflow <==> num_val(digits_of(s, b, self.spec_pos())) > i32::MAX,
                !overflow ==> val == num_val(digits_of(s, b, self.spec_pos())),
                0 <= val <= i32::MAX,
                self.spec_line() == line_after(s, b, self.spec_pos(), l1),
                self.spec_col() == col_after(s, b, self.spec_pos(), c1),
            decreases s.len() - self.spec_pos(),
        {
            let ghost p = self.spec_pos();
            let c = match self.peek_char() {
                Some(c) => c,
                None => {
                    break ;
                },
            };
            if !(is_digit(c) || c == '.' || c == '_') {
                break ;
            }
            proof {
                lemma_pos_extend(s, b, p, l1, c1);
                lemma_digits_of_nonneg(s, b, p);
            }
            self.read_char();
            if c == '_' {
                proof {
                    assert(text@ =~= strip_sep(s, b, p + 1));
                    assert(digits_of(s, b, p + 1) =~= digits_of(s, b, p));
                }
            } else if c == '.' {
                text.push(c);
                dots = dots + 1;
                proof {
                    assert(text@ =~= strip_sep(s, b, p + 1));
                    assert(digits_of(s, b, p + 1) =~= digits_of(s, b, p));
                }
            } else {
                text.push(c);
                let d: i64 = ((c as u32) - 0x30) as i64;
                proof {
                    let q = digits_of(s, b, p);
                    let q2 = digits_of(s, b, p + 1);
                    assert(text@ =~= strip_sep(s, b, p + 1));
                    assert(q2 =~= q.push(c));
                    assert(q2.drop_last() =~= q);
                    assert(num_val(q2) == num_val(q) * 10 + digit_val(c));
                }
                if !overflow {
                    let nv = val * 10 + d;
                    if nv > (i32::MAX as i64) {
                        overflow = true;
                    } else {
                        val = nv;
                    }
                } else {
                    proof {
                        let q = digits_of(s, b, p);
                        assert(num_val(q) * 10 >= num_val(q));
                    }
                }
            }
        }
        let payload_text = string_from_chars(&text);
        if dots == 0 {
            if overflow {
                self.gen_token(TokenType::Illegal, Some(TokenValue::String(payload_text)))
            } else {
                self.gen_token(TokenType::Integer, Some(TokenValue::Integer(val as i32)))
            }
        } else if dots == 1 {
            self.gen_token(TokenType::Float, Some(TokenValue::Float(payload_text)))
        } else {
            self.gen_token(TokenType::Illegal, Some(TokenValue::String(payload_text)))
        }
    }

    /// Assemble a token of the given kind and payload spanning from the
    /// snapshot position to the current position.
    fn gen_token(&self, t: TokenType, v: Option<TokenValue>) -> (r: Token)
        requires
            self.wf(),
        ensures
            span_wf(r@),
            r@ == (TokenModel {
                kind: t,
                value: match v {
                    Some(x) => Some(x@),
                    None => None::<ValueModel>,
                },
                line_start: self.spec_initial_line(),
                line_end: self.spec_line(),
                column_start: self.spec_initial_col(),
                column_end: self.spec_col(),
            }),
    {
        Token {
            token_type: t,
            value: v,
            line_start: self.initial_line,
            line_end: self.current_line,
            column_start: self.initial_column,
            column_end: self.current_column,
        }
    }

    /// Produce the next token: skip whitespace, snapshot the start position,
    /// then dispatch on the next character.  Every call yields a token;
    /// unrecognized characters yield an `Illegal` token, and the end of the
    /// input yields the `End` marker.
    #[verifier::rlimit(100)]
    pub fn next_token(&mut self) -> (r: Token)
        requires
            old(self).wf(),
        ensures
            final(self).wf(),
            final(self).input() == old(self).input(),
            ({
                let st = spec_next_token(
                    old(self).input(),
                    old(self).spec_pos(),
                    old(self).spec_line(),
                    old(self).spec_col(),
                );
                &&& r@ == st.tok
                &&& span_wf(r@)
                &&& final(self).spec_pos() == st.end
                &&& final(self).spec_line() == st.line
                &&& final(self).spec_col() == st.col
            }),
            r.token_type != TokenType::End ==> old(self).spec_pos() < final(self).spec_pos(),
            final(self).spec_pos() <= old(self).input().len(),
    {
        proof {
            reveal_with_fuel(line_after, 5);
            reveal_with_fuel(col_after, 5);
        }
        self.skip_whitespace();
        self.initial_line = self.current_line;
        self.initial_column = self.current_column;
        let ghost s = self.input();
        let ghost j = self.spec_pos();
        let ghost l1 = self.spec_line();
        let ghost c1 = self.spec_col();
        let c = match self.read_char() {
            Some(c) => c,
            None => {
                return self.gen_token(TokenType::End, None);
            },
        };
        if c == '=' {
            if self.peek_char_eq_consume('=') {
                return self.gen_token(TokenType::Equal, None);
            } else {
                return self.gen_token(TokenType::Assign, None);
            }
        } else if c == '+' {
            if self.peek_char_eq_consume('=') {
                return self.gen_token(TokenType::PlusAssign, None);
            } else if self.peek_char_eq_consume('+') {
                return self.gen_token(TokenType::PlusPlus, None);
            } else {
                return self.gen_token(TokenType::Plus, None);
            }
        } else if c == '-' {
            if self.peek_char_eq_consume('=') {
                return self.gen_token(TokenType::MinusAssign, None);
            } else if self.peek_char_eq_consume('-') {
                return self.gen_token(TokenType::MinusMinus, None);
            } else {
                return self.gen_token(TokenType::Minus, None);
            }
        } else if c == '*' {
            if self.peek_char_eq_consume('=') {
                return self.gen_token(TokenType::AsteriskAssign, None);
            } else {
                return self.gen_token(TokenType::Asterisk, None);
            }
        } else if c == '/' {
            if self.peek_char_eq_consume('=') {
                return self.gen_token(TokenType::SlashAssign, None);
            } else if self.peek_char_eq_consume('/') {
                let rest = self.read_until_eol();
                let trimmed = trim_start_chars(&rest);
                return self.gen_token(
                    TokenType::Comment,
                    Some(TokenValue::String(string_from_chars(&trimmed))),
                );
            } else if self.peek_char_eq_consume('*') {
                let rest = self.read_string_until();
                let trimmed = trim_start_chars(&rest);
                return self.gen_token(
                    TokenType::Comment,
                    Some(TokenValue::String(string_from_chars(&trimmed))),
                );
            } else {
                return self.gen_token(TokenType::Slash, None);
            }
        } else if c == '%' {
            if self.peek_char_eq_consume('=') {
                return self.gen_token(TokenType::PercentAssign, None);
            } else {
                return self.gen_token(TokenType::Percent, None);
            }
        } else if c == '&' {
            if self.peek_char_eq_consume('&') {
                return self.gen_token(TokenType::And, None);
            } else if self.peek_char_eq_consume('=') {
                return self.gen_token(TokenType::BitAndAssign, None);
            } else {
                return self.gen_token(TokenType::BitAnd, None);
            }
        } else if c == '|' {
            if self.peek_char_eq_consume('|') {
                return self.gen_token(TokenType::Or, None);
            } else if self.peek_char_eq_consume('=') {
                return self.gen_token(TokenType::BitOrAssign, None);
            } else {
                return self.gen_token(TokenType::BitOr, None);
            }
        } else if c == '^' {
            if self.peek_char_eq_consume('=') {
                return self.gen_token(TokenType::BitXorAssign, None);
            } else {
                return self.gen_token(TokenType::BitXor, None);
            }
        } else if c == '<' {
            if self.peek_char_eq_consume('=') {
                return self.gen_token(TokenType::LowerThanEqual, None);
            } else if self.peek_char_eq_consume('<') {
                if self.peek_char_eq_consume('=') {
                    return self.gen_token(TokenType::BitLeftAssign, None);
                } else {
                    return self.gen_token(TokenType::BitLeft, None);
                }
            } else {
                return self.gen_token(TokenType::LowerThan, None);
            }
        } else if c == '>' {
            if self.peek_char_eq_consume('=') {
                return self.gen_token(TokenType::GreaterThanEqual, None);
            } else if self.peek_char_eq_consume('>') {
                if self.peek_char_eq_consume('=') {
                    return self.gen_token(TokenType::BitRightAssign, None);
                } else {
                    return self.gen_token(TokenType::BitRight, None);
                }
            } else {
                return self.gen_token(TokenType::GreaterThan, None);
            }
        } else if c == '!' {
            if self.peek_char_eq_consume('=') {
                return self.gen_token(TokenType::NotEqual, None);
            } else {
                return self.gen_token(TokenType::Bang, None);
            }
        } else if c == ';' {
            return self.gen_token(TokenType::Semicolon, None);
        } else if c == ':' {
            return self.gen_token(TokenType::Colon, None);
        } else if c == ',' {
            return self.gen_token(TokenType::Comma, None);
        } else if c == '{' {
            return self.gen_token(TokenType::LeftBrace, None);
        } else if c == '}' {
            return self.gen_token(TokenType::RightBrace, None);
        } else if c == '(' {
            return self.gen_token(TokenType::LeftBracket, None);
        } else if c == ')' {
            return self.gen_token(TokenType::RightBracket, None);
        } else if c == '[' {
            return self.gen_token(TokenType::LeftSquare, None);
        } else if c == ']' {
            return self.gen_token(TokenType::RightSquare, None);
        } else if c == '.' {
            if self.peek_char_eq_consume('.') {
                if self.peek_char_eq_consume('.') {
                    return self.gen_token(TokenType::Elipsis, None);
                } else {
                    return self.gen_token(TokenType::Range, None);
                }
            } else {
                return self.gen_token(TokenType::Illegal, None);
            }
        } else if c == '#' {
            return self.gen_token(TokenType::Directive, None);
        } else if is_letter(c) {
            return self.read_symbol(c);
        } else if is_digit(c) {
            return self.read_number(c);
        } else {
            return self.gen_token(TokenType::Illegal, None);
        }
    }

    /// Tokenize the whole remaining input: one token per `next_token` call,
    /// stopping at (and not including) the `End` marker.
    pub fn lex(&mut self) -> (r: Vec<Token>)
        requires
            old(self).wf(),
        ensures
            final(self).wf(),
            final(self).input() == old(self).input(),
            models_of(r@) == spec_tokens(
                old(self).input(),
                old(self).spec_pos(),
                old(self).spec_line(),
                old(self).spec_col(),
            ),
            forall|i: int| 0 <= i < r@.len() ==> span_wf(#[trigger] r@[i]@),
    {
        let ghost s = self.input();
        let ghost i0 = self.spec_pos();
        let ghost l0 = self.spec_line();
        let ghost c0 = self.spec_col();
        let mut tokens: Vec<Token> = Vec::new();
        proof {
            assert(models_of(tokens@) =~= Seq::<TokenModel>::empty());
            assert(spec_tokens(s, i0, l0, c0) =~= models_of(tokens@) + spec_tokens(
                s,
                i0,
                l0,
                c0,
            ));
        }
        loop
            invariant_except_break
                self.wf(),
                self.input() == s,
                spec_tokens(s, i0, l0, c0) == models_of(tokens@) + spec_tokens(
                    s,
                    self.spec_pos(),
                    self.spec_line(),
                    self.spec_col(),
                ),
                forall|i: int| 0 <= i < tokens@.len() ==> span_wf(#[trigger] tokens@[i]@),
            ensures
                self.wf(),
                self.input() == s,
                models_of(tokens@) == spec_tokens(s, i0, l0, c0),
                forall|i: int| 0 <= i < tokens@.len() ==> span_wf(#[trigger] tokens@[i]@),
            decreases s.len() - self.spec_pos(),
        {
            let ghost pp = self.spec_pos();
            let ghost pl = self.spec_line();
            let ghost pc = self.spec_col();
            let ghost before = tokens@;
            let tok = self.next_token();
            if tok.token_type == TokenType::End {
                proof {
                    assert(spec_tokens(s, pp, pl, pc) =~= Seq::<TokenModel>::empty());
                    assert(models_of(tokens@) + spec_tokens(s, pp, pl, pc) =~= models_of(
                        tokens@,
                    ));
                }
                break ;
            }
            tokens.push(tok);
            proof {
                assert(spec_tokens(s, pp, pl, pc) =~= seq![tok@] + spec_tokens(
                    s,
                    self.spec_pos(),
                    self.spec_line(),
                    self.spec_col(),
                ));
                assert(models_of(tokens@) =~= models_of(before) + seq![tok@]);
                assert(models_of(before) + (seq![tok@] + spec_tokens(
                    s,
                    self.spec_pos(),
                    self.spec_line(),
                    self.spec_col(),
                )) =~= (models_of(before) + seq![tok@]) + spec_tokens(
                    s,
                    self.spec_pos(),
                    self.spec_line(),
                    self.spec_col(),
                ));
            }
        }
        tokens
    }
}

} // verus!

