//! The attribute grammar of handler declarations:
//! `key = value, key = value, ...` with a trailing comma allowed, where a
//! value is a string literal, an integer literal (decimal, or hexadecimal,
//! octal or binary behind `0x`, `0o`, `0b`; optionally negated), `true`
//! or `false`, or a plain path; any other expression is read whole, up to
//! the next comma outside brackets, and no attribute takes it. A key is an
//! identifier. Whitespace and comments may stand between tokens.
use vstd::prelude::*;
use vstd::string::StringExecFns;

use crate::text::{char_from_code, is_scalar, push_char};

verus! {

// ── Characters ────────────────────────────────────────────────────────────

/// Whitespace between tokens: the space, the ASCII controls from tab to
/// carriage return, the other Unicode white space characters, and the
/// left-to-right and right-to-left marks.
pub open spec fn is_ws(c: char) -> bool {
    let n = c as u32;
    ||| n == 0x20
    ||| 0x09 <= n <= 0x0D
    ||| n == 0x85
    ||| n == 0xA0
    ||| n == 0x1680
    ||| 0x2000 <= n <= 0x200A
    ||| n == 0x200E
    ||| n == 0x200F
    ||| n == 0x2028
    ||| n == 0x2029
    ||| n == 0x202F
    ||| n == 0x205F
    ||| n == 0x3000
}

/// The whitespace a line continuation in a string literal skips.
pub open spec fn is_line_space(c: char) -> bool {
    c == ' ' || c == '\t' || c == '\n' || c == '\r'
}

/// An ASCII decimal digit.
pub open spec fn is_digit(c: char) -> bool {
    '0' <= c && c <= '9'
}

/// A character that can start an identifier.
pub open spec fn is_ident_start(c: char) -> bool {
    ('a' <= c && c <= 'z') || ('A' <= c && c <= 'Z') || c == '_'
}

/// A character that can continue an identifier.
pub open spec fn is_ident_continue(c: char) -> bool {
    is_ident_start(c) || is_digit(c)
}

/// A letter that is a hexadecimal digit.
pub open spec fn is_hex_letter(c: char) -> bool {
    ('a' <= c && c <= 'f') || ('A' <= c && c <= 'F')
}

/// The value of a decimal digit or a hexadecimal letter.
pub open spec fn digit_value(c: char) -> nat {
    if is_digit(c) {
        (c as nat - '0' as nat) as nat
    } else if 'a' <= c && c <= 'f' {
        (c as nat - 'a' as nat + 10) as nat
    } else {
        (c as nat - 'A' as nat + 10) as nat
    }
}

/// A digit of the given radix.
pub open spec fn is_radix_digit(c: char, radix: nat) -> bool {
    (is_digit(c) || is_hex_letter(c)) && digit_value(c) < radix
}

/// A character of the digit run of an integer literal in the given radix.
pub open spec fn is_digit_or_sep(c: char, radix: nat) -> bool {
    is_radix_digit(c, radix) || c == '_'
}

/// The radix of the integer literal starting at `i`: a leading `0x`, `0o`
/// or `0b` gives 16, 8 or 2, anything else 10.
pub open spec fn radix_at(s: Seq<char>, i: int) -> nat {
    if 0 <= i && i + 1 < s.len() && s[i] == '0' {
        if s[i + 1] == 'x' {
            16
        } else if s[i + 1] == 'o' {
            8
        } else if s[i + 1] == 'b' {
            2
        } else {
            10
        }
    } else {
        10
    }
}

/// Whether `s` holds `c` at `i`.
pub open spec fn char_at(s: Seq<char>, i: int, c: char) -> bool {
    0 <= i < s.len() && s[i] == c
}

/// Whether a line comment starts at `i`: `//`, but not a doc comment
/// (`///` other than `////`, or `//!`).
pub open spec fn line_comment_at(s: Seq<char>, i: int) -> bool {
    &&& char_at(s, i, '/')
    &&& char_at(s, i + 1, '/')
    &&& (!char_at(s, i + 2, '/') || char_at(s, i + 3, '/'))
    &&& !char_at(s, i + 2, '!')
}

/// Whether a block comment starts at `i`: `/*`, but not a doc comment
/// (`/**` other than `/***` and the empty `/**/`, or `/*!`).
pub open spec fn block_comment_at(s: Seq<char>, i: int) -> bool {
    &&& char_at(s, i, '/')
    &&& char_at(s, i + 1, '*')
    &&& ((char_at(s, i + 2, '*') && char_at(s, i + 3, '/')) || ((!char_at(s, i + 2, '*')
        || char_at(s, i + 3, '*')) && !char_at(s, i + 2, '!')))
}

/// The position of the first line feed at or after `i`, or the end.
pub open spec fn line_end(s: Seq<char>, i: int) -> int
    decreases s.len() - i,
{
    if 0 <= i < s.len() && s[i] != '\n' {
        line_end(s, i + 1)
    } else {
        i
    }
}

/// The position after the block comment whose body goes on at `i`, `depth`
/// comments being open; comments nest. `None` where it is not closed.
pub open spec fn block_end(s: Seq<char>, i: int, depth: nat) -> Option<int>
    decreases s.len() - i,
{
    if i < 0 || i + 1 >= s.len() {
        None
    } else if s[i] == '/' && s[i + 1] == '*' {
        block_end(s, i + 2, depth + 1)
    } else if s[i] == '*' && s[i + 1] == '/' {
        if depth <= 1 {
            Some(i + 2)
        } else {
            block_end(s, i + 2, (depth - 1) as nat)
        }
    } else {
        block_end(s, i + 1, depth)
    }
}

/// A line ends at or after where it is looked for, and not past the end.
pub proof fn lemma_line_end_after(s: Seq<char>, i: int)
    requires
        0 <= i <= s.len(),
    ensures
        i <= line_end(s, i) <= s.len(),
    decreases s.len() - i,
{
    if i < s.len() && s[i] != '\n' {
        lemma_line_end_after(s, i + 1);
    }
}

/// A block comment ends after where its body goes on, and not past the end.
pub proof fn lemma_block_end_after(s: Seq<char>, i: int, depth: nat)
    ensures
        block_end(s, i, depth) matches Some(j) ==> i < j <= s.len(),
    decreases s.len() - i,
{
    if 0 <= i && i + 1 < s.len() {
        lemma_block_end_after(s, i + 2, depth + 1);
        lemma_block_end_after(s, i + 2, (depth - 1) as nat);
        lemma_block_end_after(s, i + 1, depth);
    }
}

/// The first position at or after `i` where `s` has neither whitespace nor
/// a comment; an unclosed block comment stops the skipping.
pub open spec fn skip_ws(s: Seq<char>, i: int) -> int
    decreases s.len() - i,
{
    if i < 0 || i >= s.len() {
        i
    } else if is_ws(s[i]) {
        skip_ws(s, i + 1)
    } else if line_comment_at(s, i) {
        proof {
            lemma_line_end_after(s, i + 2);
        }
        skip_ws(s, line_end(s, i + 2))
    } else if block_comment_at(s, i) {
        proof {
            lemma_block_end_after(s, i + 2, 1);
        }
        match block_end(s, i + 2, 1) {
            Some(j) => skip_ws(s, j),
            None => i,
        }
    } else {
        i
    }
}

/// The first position at or after `i` where `s` has no line space.
pub open spec fn skip_line_space(s: Seq<char>, i: int) -> int
    decreases s.len() - i,
{
    if 0 <= i < s.len() && is_line_space(s[i]) {
        skip_line_space(s, i + 1)
    } else {
        i
    }
}

/// The end of the identifier characters starting at `i`.
pub open spec fn ident_end(s: Seq<char>, i: int) -> int
    decreases s.len() - i,
{
    if 0 <= i < s.len() && is_ident_continue(s[i]) {
        ident_end(s, i + 1)
    } else {
        i
    }
}

/// The end of the digits and separators of the given radix starting at `i`.
pub open spec fn digits_end(s: Seq<char>, i: int, radix: nat) -> int
    decreases s.len() - i,
{
    if 0 <= i < s.len() && is_digit_or_sep(s[i], radix) {
        digits_end(s, i + 1, radix)
    } else {
        i
    }
}

/// The number that the digits of `s[i..j]` spell in the given radix,
/// separators skipped.
pub open spec fn digits_value(s: Seq<char>, i: int, j: int, radix: nat) -> nat
    decreases j - i,
{
    if j <= i {
        0
    } else {
        let v = digits_value(s, i, j - 1, radix);
        if s[j - 1] == '_' {
            v
        } else {
            v * radix + digit_value(s[j - 1])
        }
    }
}

/// The first position at or after `i` that is not a digit separator.
pub open spec fn skip_seps(s: Seq<char>, i: int) -> int
    decreases s.len() - i,
{
    if 0 <= i < s.len() && s[i] == '_' {
        skip_seps(s, i + 1)
    } else {
        i
    }
}

/// Whether `s[i..j]` holds a digit, not only separators.
pub open spec fn has_digit(s: Seq<char>, i: int, j: int) -> bool {
    exists|k: int| i <= k < j && s[k] != '_'
}

/// Whether the decimal digits ending at `j` go on as a fraction: a `.`
/// followed by neither another `.` nor an identifier.
pub open spec fn starts_fraction(s: Seq<char>, j: int) -> bool {
    &&& 0 <= j < s.len()
    &&& s[j] == '.'
    &&& !(j + 1 < s.len() && (s[j + 1] == '.' || is_ident_start(s[j + 1])))
}

/// Whether the decimal digits ending at `j` go on with an exponent: `e` or
/// `E`, then separators and a digit.
pub open spec fn starts_exponent(s: Seq<char>, j: int) -> bool {
    &&& 0 <= j < s.len()
    &&& (s[j] == 'e' || s[j] == 'E')
    &&& skip_seps(s, j + 1) < s.len()
    &&& is_digit(s[skip_seps(s, j + 1)])
}

/// The number literal whose first character, a decimal digit, is at `i`,
/// and the position after it (its suffix included): an integer with its
/// value, or a floating-point literal, which no attribute takes (`Other`);
/// `None` where a radix prefix has no digit after it, or where the digits run
/// into a decimal digit too large for the radix.
pub open spec fn number_at(s: Seq<char>, i: int) -> Option<(ValueSpec, int)> {
    let radix = radix_at(s, i);
    let start = if radix == 10 {
        i
    } else {
        i + 2
    };
    let j = digits_end(s, start, radix);
    if !has_digit(s, start, j) || (j < s.len() && is_digit(s[j])) {
        None
    } else if radix == 10 && starts_fraction(s, j) {
        Some((ValueSpec::Other, ident_end(s, digits_end(s, j + 1, 10))))
    } else if radix == 10 && starts_exponent(s, j) {
        Some((ValueSpec::Other, ident_end(s, j)))
    } else {
        Some((ValueSpec::Int(digits_value(s, start, j, radix)), ident_end(s, j)))
    }
}

/// The character an escape `\e` stands for, if `e` is a supported escape.
pub open spec fn escaped(e: char) -> Option<char> {
    if e == 'n' {
        Some('\n')
    } else if e == 't' {
        Some('\t')
    } else if e == 'r' {
        Some('\r')
    } else if e == '0' {
        Some('\0')
    } else if e == '\\' {
        Some('\\')
    } else if e == '"' {
        Some('"')
    } else if e == '\'' {
        Some('\'')
    } else {
        None
    }
}

/// The value of the two hexadecimal digits at `i`, if two are there.
pub open spec fn hex_pair(s: Seq<char>, i: int) -> Option<nat> {
    if 0 <= i && i + 1 < s.len() && is_radix_digit(s[i], 16) && is_radix_digit(s[i + 1], 16) {
        Some(digit_value(s[i]) * 16 + digit_value(s[i + 1]))
    } else {
        None
    }
}

/// The code of a `\u{...}` escape whose digits start at `i`, `code` and
/// `count` holding the value and the number of the digits read so far, and
/// the position after the closing brace: one to six hexadecimal digits, with
/// separators after the first.
pub open spec fn unicode_code(s: Seq<char>, i: int, code: nat, count: nat) -> Option<(nat, int)>
    decreases s.len() - i,
{
    if i < 0 || i >= s.len() {
        None
    } else if is_radix_digit(s[i], 16) {
        if count >= 6 {
            None
        } else {
            unicode_code(s, i + 1, code * 16 + digit_value(s[i]), count + 1)
        }
    } else if s[i] == '_' && count > 0 {
        unicode_code(s, i + 1, code, count)
    } else if s[i] == '}' && count > 0 {
        Some((code, i + 1))
    } else {
        None
    }
}

/// A `\u{...}` escape ends after its digits, and not past the end.
pub proof fn lemma_unicode_code_after(s: Seq<char>, i: int, code: nat, count: nat)
    ensures
        unicode_code(s, i, code, count) matches Some((_, j)) ==> i < j <= s.len(),
    decreases s.len() - i,
{
    if 0 <= i < s.len() {
        lemma_unicode_code_after(s, i + 1, code * 16 + digit_value(s[i]), count + 1);
        lemma_unicode_code_after(s, i + 1, code, count);
    }
}

/// Skipping line space moves forward, and not past the end.
pub proof fn lemma_skip_line_space_after(s: Seq<char>, i: int)
    requires
        i <= s.len(),
    ensures
        i <= skip_line_space(s, i) <= s.len(),
    decreases s.len() - i,
{
    if 0 <= i < s.len() && is_line_space(s[i]) {
        lemma_skip_line_space_after(s, i + 1);
    }
}

/// The contents of a string literal whose body starts at `i`, `acc` holding
/// what was read so far, and the position after its closing quote; `None`
/// for an unterminated literal, a malformed escape or a carriage return
/// without a line feed.
pub open spec fn string_body(s: Seq<char>, i: int, acc: Seq<char>) -> Option<(Seq<char>, int)>
    decreases s.len() - i,
{
    if i < 0 || i >= s.len() {
        None
    } else if s[i] == '"' {
        Some((acc, i + 1))
    } else if s[i] == '\\' {
        if i + 1 >= s.len() {
            None
        } else if s[i + 1] == 'x' {
            match hex_pair(s, i + 2) {
                Some(v) => if v <= 0x7F {
                    string_body(s, i + 4, acc.push(v as char))
                } else {
                    None
                },
                None => None,
            }
        } else if s[i + 1] == 'u' {
            if i + 2 < s.len() && s[i + 2] == '{' {
                proof {
                    lemma_unicode_code_after(s, i + 3, 0, 0);
                }
                match unicode_code(s, i + 3, 0, 0) {
                    Some((v, j)) => if is_scalar(v) {
                        string_body(s, j, acc.push(v as char))
                    } else {
                        None
                    },
                    None => None,
                }
            } else {
                None
            }
        } else if s[i + 1] == '\n' {
            proof {
                lemma_skip_line_space_after(s, i + 2);
            }
            string_body(s, skip_line_space(s, i + 2), acc)
        } else if s[i + 1] == '\r' {
            if i + 2 < s.len() && s[i + 2] == '\n' {
                proof {
                    lemma_skip_line_space_after(s, i + 3);
                }
                string_body(s, skip_line_space(s, i + 3), acc)
            } else {
                None
            }
        } else {
            match escaped(s[i + 1]) {
                Some(c) => string_body(s, i + 2, acc.push(c)),
                None => None,
            }
        }
    } else if s[i] == '\r' {
        if i + 1 < s.len() && s[i + 1] == '\n' {
            string_body(s, i + 2, acc.push('\n'))
        } else {
            None
        }
    } else {
        string_body(s, i + 1, acc.push(s[i]))
    }
}

/// The number of `#` from `i` on.
pub open spec fn pounds_from(s: Seq<char>, i: int) -> nat
    decreases s.len() - i,
{
    if 0 <= i < s.len() && s[i] == '#' {
        1 + pounds_from(s, i + 1)
    } else {
        0
    }
}

/// Whether `n` pounds follow from `i` on.
pub open spec fn pounds_at(s: Seq<char>, i: int, n: nat) -> bool {
    0 <= i && i + n <= s.len() && forall|k: int| i <= k < i + n ==> s[k] == '#'
}

/// The position of the quote that, followed by `n` pounds, closes a raw
/// string whose body goes on at `i`; `None` where none does, or where a
/// carriage return comes without a line feed.
pub open spec fn raw_close(s: Seq<char>, i: int, n: nat) -> Option<int>
    decreases s.len() - i,
{
    if i < 0 || i >= s.len() {
        None
    } else if s[i] == '"' && pounds_at(s, i + 1, n) {
        Some(i)
    } else if s[i] == '\r' && !(i + 1 < s.len() && s[i + 1] == '\n') {
        None
    } else {
        raw_close(s, i + 1, n)
    }
}

/// Whether a raw string starts at `i`: `r`, at most 255 pounds, a quote.
pub open spec fn raw_opening(s: Seq<char>, i: int) -> bool {
    let n = pounds_from(s, i + 1);
    &&& 0 <= i < s.len()
    &&& s[i] == 'r'
    &&& n <= 255
    &&& i + 1 + n < s.len()
    &&& s[i + 1 + n] == '"'
}

/// The contents of the raw string that opens at `i`, and the position after
/// its closing pounds; `None` where it is not closed.
pub open spec fn raw_string_at(s: Seq<char>, i: int) -> Option<(Seq<char>, int)> {
    let n = pounds_from(s, i + 1);
    let body = i + 2 + n;
    match raw_close(s, body, n) {
        Some(c) => Some((s.subrange(body, c), c + 1 + n)),
        None => None,
    }
}

// ── Values and pairs ──────────────────────────────────────────────────────

/// An attribute value.
pub enum ValueSpec {
    /// An integer literal.
    Int(nat),
    /// A negated integer literal.
    NegInt(nat),
    /// A string literal.
    Str(Seq<char>),
    /// `true` or `false`.
    Bool(bool),
    /// Any other expression the grammar reads: a plain path or a
    /// floating-point literal, or either negated.
    Other,
}

/// Skipping whitespace and comments moves forward, and not past the end.
pub proof fn lemma_skip_ws_bounds(s: Seq<char>, i: int)
    requires
        i <= s.len(),
    ensures
        i <= skip_ws(s, i) <= s.len(),
    decreases s.len() - i,
{
    if 0 <= i < s.len() {
        if is_ws(s[i]) {
            lemma_skip_ws_bounds(s, i + 1);
        } else if line_comment_at(s, i) {
            lemma_line_end_after(s, i + 2);
            lemma_skip_ws_bounds(s, line_end(s, i + 2));
        } else if block_comment_at(s, i) {
            lemma_block_end_after(s, i + 2, 1);
            if let Some(j) = block_end(s, i + 2, 1) {
                lemma_skip_ws_bounds(s, j);
            }
        }
    }
}

/// An identifier's characters end at or after where they start, and not
/// past the end.
pub proof fn lemma_ident_end_bounds(s: Seq<char>, i: int)
    requires
        0 <= i <= s.len(),
    ensures
        i <= ident_end(s, i) <= s.len(),
    decreases s.len() - i,
{
    if i < s.len() && is_ident_continue(s[i]) {
        lemma_ident_end_bounds(s, i + 1);
    }
}

/// Whether `c`, after a complete operand, continues it into a larger
/// expression: an operator, a call, an index, a field, a method call, a
/// range or a path separator.
pub open spec fn continues_expr(c: char) -> bool {
    ||| c == '(' || c == '[' || c == '.' || c == '?' || c == ':'
    ||| c == '+' || c == '-' || c == '*' || c == '/' || c == '%'
    ||| c == '&' || c == '|' || c == '^' || c == '<' || c == '>' || c == '=' || c == '!'
}

/// Whether `c` opens an expression that is no literal and no path: a
/// group, an array, a block, a reference, a dereference, a negation or a
/// closure.
pub open spec fn opens_expr(c: char) -> bool {
    c == '(' || c == '[' || c == '{' || c == '&' || c == '*' || c == '!' || c == '|'
}

/// The end of the expression text from `i` on, `depth` brackets being open:
/// the first comma outside brackets, or the end; `None` where a closing
/// bracket has no opening one, or an opening one is not closed.
pub open spec fn run_end(s: Seq<char>, i: int, depth: nat) -> Option<int>
    decreases s.len() - i,
{
    if i < 0 {
        None
    } else if i >= s.len() {
        if depth == 0 {
            Some(i)
        } else {
            None
        }
    } else if s[i] == ',' && depth == 0 {
        Some(i)
    } else if s[i] == '(' || s[i] == '[' || s[i] == '{' {
        run_end(s, i + 1, depth + 1)
    } else if s[i] == ')' || s[i] == ']' || s[i] == '}' {
        if depth == 0 {
            None
        } else {
            run_end(s, i + 1, (depth - 1) as nat)
        }
    } else {
        run_end(s, i + 1, depth)
    }
}

/// An expression's text ends at or after where it starts, and not past the
/// end.
pub proof fn lemma_run_end_bounds(s: Seq<char>, i: int, depth: nat)
    requires
        i <= s.len(),
    ensures
        run_end(s, i, depth) matches Some(e) ==> i <= e <= s.len(),
    decreases s.len() - i,
{
    if 0 <= i < s.len() {
        lemma_run_end_bounds(s, i + 1, depth + 1);
        lemma_run_end_bounds(s, i + 1, (depth - 1) as nat);
        lemma_run_end_bounds(s, i + 1, depth);
    }
}

/// The value starting at `i` and the position after it: an operand, or,
/// where an operator or the like continues it or it opens with a bracket or
/// a prefix operator, any other expression (`Other`) running to the next
/// comma outside brackets; `None` where no value starts there.
pub open spec fn value_at(s: Seq<char>, i: int) -> Option<(ValueSpec, int)> {
    match operand_at(s, i) {
        None => None,
        Some((v, j)) => {
            let q = skip_ws(s, j);
            if 0 <= q < s.len() && continues_expr(s[q]) {
                match run_end(s, q, 0) {
                    Some(e) => Some((ValueSpec::Other, e)),
                    None => None,
                }
            } else {
                Some((v, j))
            }
        },
    }
}

/// The operand starting at `i` and the position after it; `None` where no
/// operand starts there.
pub open spec fn operand_at(s: Seq<char>, i: int) -> Option<(ValueSpec, int)> {
    if i < 0 || i >= s.len() {
        None
    } else if s[i] == '"' {
        match string_body(s, i + 1, Seq::empty()) {
            Some((t, j)) => Some((ValueSpec::Str(t), j)),
            None => None,
        }
    } else if raw_opening(s, i) {
        match raw_string_at(s, i) {
            Some((t, j)) => Some((ValueSpec::Str(t), j)),
            None => None,
        }
    } else if is_digit(s[i]) {
        number_at(s, i)
    } else if s[i] == '-' {
        let k = skip_ws(s, i + 1);
        if k < s.len() && is_digit(s[k]) {
            match number_at(s, k) {
                Some((ValueSpec::Int(n), j)) => Some((ValueSpec::NegInt(n), j)),
                Some((_, j)) => Some((ValueSpec::Other, j)),
                None => None,
            }
        } else if k < s.len() && is_ident_start(s[k]) {
            Some((ValueSpec::Other, ident_end(s, k)))
        } else if k < s.len() && opens_expr(s[k]) {
            match run_end(s, k, 0) {
                Some(e) => Some((ValueSpec::Other, e)),
                None => None,
            }
        } else {
            None
        }
    } else if opens_expr(s[i]) {
        match run_end(s, i, 0) {
            Some(e) => Some((ValueSpec::Other, e)),
            None => None,
        }
    } else if is_ident_start(s[i]) {
        let j = ident_end(s, i);
        let word = s.subrange(i, j);
        if word == "true"@ {
            Some((ValueSpec::Bool(true), j))
        } else if word == "false"@ {
            Some((ValueSpec::Bool(false), j))
        } else {
            Some((ValueSpec::Other, j))
        }
    } else {
        None
    }
}

/// The `key = value` pairs from position `i` on, after those in `acc`, or
/// the syntax error met.
pub open spec fn pairs_from(s: Seq<char>, i: int, acc: Seq<(Seq<char>, ValueSpec)>) -> Result<
    Seq<(Seq<char>, ValueSpec)>,
    Seq<char>,
>
    decreases s.len() - i,
{
    let i0 = skip_ws(s, i);
    if i0 < 0 || i0 >= s.len() {
        Ok(acc)
    } else if !is_ident_start(s[i0]) {
        Err("expected identifier"@)
    } else {
        match path_end(s, ident_end(s, i0)) {
            None => Err("expected identifier"@),
            Some(j) => {
        let key = s.subrange(i0, j);
        let k = skip_ws(s, j);
        if k >= s.len() || s[k] != '=' {
            Err("expected `=`"@)
        } else {
            match value_at(s, skip_ws(s, k + 1)) {
                None => Err("expected expression"@),
                Some((v, n)) => {
                    let p = skip_ws(s, n);
                    let acc2 = acc.push((key, v));
                    if p >= s.len() {
                        Ok(acc2)
                    } else if s[p] == ',' {
                        if p + 1 > i {
                            pairs_from(s, p + 1, acc2)
                        } else {
                            Err("expected `,`"@)
                        }
                    } else {
                        Err("expected `,`"@)
                    }
                },
            }
        }
            },
        }
    }
}

/// The end of the path whose first segment ends at `j`: further segments
/// follow `::`; `None` where a `::` has no identifier after it.
pub open spec fn path_end(s: Seq<char>, j: int) -> Option<int>
    decreases s.len() - j,
{
    let k = skip_ws(s, j);
    if 0 <= j <= s.len() && char_at(s, k, ':') && char_at(s, k + 1, ':') {
        proof {
            lemma_skip_ws_bounds(s, j);
            lemma_skip_ws_bounds(s, k + 2);
        }
        let m = skip_ws(s, k + 2);
        if 0 <= m < s.len() && is_ident_start(s[m]) {
            proof {
                lemma_ident_end_bounds(s, m + 1);
            }
            path_end(s, ident_end(s, m))
        } else {
            None
        }
    } else {
        Some(j)
    }
}

// ── Scanning, executable ──────────────────────────────────────────────────

/// The characters of `s`.
pub fn chars_of(s: &str) -> (r: Vec<char>)
    ensures
        r@ == s@,
{
    let n = s.unicode_len();
    let mut out: Vec<char> = Vec::new();
    let mut i: usize = 0;
    while i < n
        invariant
            n == s@.len(),
            i <= n,
            out@ == s@.take(i as int),
        decreases n - i,
    {
        let c = s.get_char(i);
        out.push(c);
        proof {
            assert(out@ =~= s@.take(i + 1));
        }
        i = i + 1;
    }
    proof {
        assert(s@.take(n as int) =~= s@);
    }
    out
}

fn char_is_ws(c: char) -> (r: bool)
    ensures
        r == is_ws(c),
{
    let n = c as u32;
    n == 0x20 || (0x09 <= n && n <= 0x0D) || n == 0x85 || n == 0xA0 || n == 0x1680 || (0x2000 <= n
        && n <= 0x200A) || n == 0x200E || n == 0x200F || n == 0x2028 || n == 0x2029 || n == 0x202F
        || n == 0x205F || n == 0x3000
}

fn char_is_digit(c: char) -> (r: bool)
    ensures
        r == is_digit(c),
{
    '0' <= c && c <= '9'
}

fn char_is_ident_start(c: char) -> (r: bool)
    ensures
        r == is_ident_start(c),
{
    ('a' <= c && c <= 'z') || ('A' <= c && c <= 'Z') || c == '_'
}

fn char_is_ident_continue(c: char) -> (r: bool)
    ensures
        r == is_ident_continue(c),
{
    char_is_ident_start(c) || char_is_digit(c)
}

/// Whether `s` holds `c` at `i`.
fn has_char_at(s: &Vec<char>, i: usize, c: char) -> (r: bool)
    ensures
        r == char_at(s@, i as int, c),
{
    i < s.len() && s[i] == c
}

/// The position after the block comment whose body goes on at `i`.
fn scan_block_end(s: &Vec<char>, i: usize) -> (r: Option<usize>)
    requires
        i <= s@.len(),
    ensures
        r matches Some(j) ==> block_end(s@, i as int, 1) == Some(j as int) && i < j <= s@.len(),
        r is None ==> block_end(s@, i as int, 1) is None,
{
    let mut k = i;
    let mut depth: usize = 1;
    proof {
        lemma_block_end_after(s@, i as int, 1);
    }
    while k < s.len() && s.len() - k > 1
        invariant
            i <= k <= s@.len(),
            1 <= depth <= k - i + 1,
            block_end(s@, i as int, 1) == block_end(s@, k as int, depth as nat),
            block_end(s@, i as int, 1) matches Some(j) ==> i < j <= s@.len(),
        decreases s@.len() - k,
    {
        if s[k] == '/' && s[k + 1] == '*' {
            depth = depth + 1;
            k = k + 2;
        } else if s[k] == '*' && s[k + 1] == '/' {
            if depth <= 1 {
                return Some(k + 2);
            }
            depth = depth - 1;
            k = k + 2;
        } else {
            k = k + 1;
        }
    }
    None
}

fn scan_ws(s: &Vec<char>, i: usize) -> (r: usize)
    requires
        i <= s@.len(),
    ensures
        r == skip_ws(s@, i as int),
        i <= r <= s@.len(),
{
    let mut k = i;
    loop
        invariant
            i <= k <= s@.len(),
            skip_ws(s@, i as int) == skip_ws(s@, k as int),
        decreases s@.len() - k,
    {
        if k >= s.len() {
            return k;
        }
        if char_is_ws(s[k]) {
            k = k + 1;
        } else if has_char_at(s, k, '/') && has_char_at(s, k + 1, '/') && (!has_char_at(s, k + 2, '/')
            || has_char_at(s, k + 3, '/')) && !has_char_at(s, k + 2, '!') {
            let mut m = k + 2;
            while m < s.len() && s[m] != '\n'
                invariant
                    k + 2 <= m <= s@.len(),
                    line_end(s@, k + 2) == line_end(s@, m as int),
                decreases s@.len() - m,
            {
                m = m + 1;
            }
            k = m;
        } else if has_char_at(s, k, '/') && has_char_at(s, k + 1, '*') && ((has_char_at(s, k + 2, '*')
            && has_char_at(s, k + 3, '/')) || ((!has_char_at(s, k + 2, '*') || has_char_at(
            s,
            k + 3,
            '*',
        )) && !has_char_at(s, k + 2, '!'))) {
            match scan_block_end(s, k + 2) {
                Some(j) => {
                    k = j;
                },
                None => {
                    return k;
                },
            }
        } else {
            return k;
        }
    }
}

/// Scans the line space from `i` on.
fn scan_line_space(s: &Vec<char>, i: usize) -> (r: usize)
    requires
        i <= s@.len(),
    ensures
        r == skip_line_space(s@, i as int),
        i <= r <= s@.len(),
{
    let mut k = i;
    while k < s.len() && (s[k] == ' ' || s[k] == '\t' || s[k] == '\n' || s[k] == '\r')
        invariant
            i <= k <= s@.len(),
            skip_line_space(s@, i as int) == skip_line_space(s@, k as int),
        decreases s@.len() - k,
    {
        k = k + 1;
    }
    k
}

fn scan_ident(s: &Vec<char>, i: usize) -> (r: usize)
    requires
        i <= s@.len(),
    ensures
        r == ident_end(s@, i as int),
        i <= r <= s@.len(),
{
    let mut k = i;
    while k < s.len() && char_is_ident_continue(s[k])
        invariant
            i <= k <= s@.len(),
            ident_end(s@, i as int) == ident_end(s@, k as int),
        decreases s@.len() - k,
    {
        k = k + 1;
    }
    k
}

/// The value of `c` as a digit of `radix`, if it is one.
fn radix_digit(c: char, radix: u64) -> (r: Option<u64>)
    requires
        2 <= radix <= 16,
    ensures
        r matches Some(d) ==> is_radix_digit(c, radix as nat) && d == digit_value(c),
        r is None ==> !is_radix_digit(c, radix as nat),
{
    let d: u64 = if '0' <= c && c <= '9' {
        (c as u32 - '0' as u32) as u64
    } else if 'a' <= c && c <= 'f' {
        (c as u32 - 'a' as u32 + 10) as u64
    } else if 'A' <= c && c <= 'F' {
        (c as u32 - 'A' as u32 + 10) as u64
    } else {
        return None;
    };
    if d < radix {
        Some(d)
    } else {
        None
    }
}

/// Scans the digit run of `radix` at `i`: its end, its value (`None` where
/// it exceeds `u64::MAX`), and whether it holds a digit.
fn scan_digits(s: &Vec<char>, i: usize, radix: u64) -> (r: (usize, Option<u64>, bool))
    requires
        i <= s@.len(),
        2 <= radix <= 16,
    ensures
        r.0 == digits_end(s@, i as int, radix as nat),
        i <= r.0 <= s@.len(),
        r.1 matches Some(v) ==> v == digits_value(s@, i as int, r.0 as int, radix as nat),
        r.1 is None ==> digits_value(s@, i as int, r.0 as int, radix as nat) > u64::MAX,
        r.2 == has_digit(s@, i as int, r.0 as int),
{
    let ghost rd = radix as nat;
    let mut k = i;
    let mut value: Option<u64> = Some(0);
    let mut seen = false;
    proof {
        assert(digits_value(s@, i as int, i as int, rd) == 0);
    }
    loop
        invariant
            i <= k <= s@.len(),
            2 <= radix <= 16,
            rd == radix as nat,
            digits_end(s@, i as int, rd) == digits_end(s@, k as int, rd),
            value matches Some(v) ==> v == digits_value(s@, i as int, k as int, rd),
            value is None ==> digits_value(s@, i as int, k as int, rd) > u64::MAX,
            seen == has_digit(s@, i as int, k as int),
        ensures
            k == digits_end(s@, i as int, rd),
            i <= k <= s@.len(),
            value matches Some(v) ==> v == digits_value(s@, i as int, k as int, rd),
            value is None ==> digits_value(s@, i as int, k as int, rd) > u64::MAX,
            seen == has_digit(s@, i as int, k as int),
        decreases s@.len() - k,
    {
        if k >= s.len() {
            break;
        }
        let c = s[k];
        if c == '_' {
            proof {
                assert(has_digit(s@, i as int, k + 1) == has_digit(s@, i as int, k as int)) by {
                    if has_digit(s@, i as int, k + 1) {
                        let w = choose|w: int| i <= w < k + 1 && s@[w] != '_';
                        assert(i <= w < k);
                    }
                }
            }
            k = k + 1;
        } else {
            match radix_digit(c, radix) {
                None => {
                    break;
                },
                Some(d) => {
                    value = match value {
                        Some(v) => match v.checked_mul(radix) {
                            Some(t) => t.checked_add(d),
                            None => None,
                        },
                        None => None,
                    };
                    proof {
                        let prev = digits_value(s@, i as int, k as int, rd);
                        assert(digits_value(s@, i as int, k + 1, rd) == prev * rd + d);
                        if value is None {
                            assert(prev * rd + d > u64::MAX) by (nonlinear_arith)
                                requires
                                    rd >= 2,
                                    prev > u64::MAX || prev * rd > u64::MAX || prev * rd + d
                                        > u64::MAX,
                            ;
                        }
                        assert(s@[k as int] != '_');
                        assert(has_digit(s@, i as int, k + 1));
                    }
                    seen = true;
                    k = k + 1;
                },
            }
        }
    }
    (k, value, seen)
}

/// Scans the separators from `i` on.
fn scan_seps(s: &Vec<char>, i: usize) -> (r: usize)
    requires
        i <= s@.len(),
    ensures
        r == skip_seps(s@, i as int),
        i <= r <= s@.len(),
{
    let mut k = i;
    while k < s.len() && s[k] == '_'
        invariant
            i <= k <= s@.len(),
            skip_seps(s@, i as int) == skip_seps(s@, k as int),
        decreases s@.len() - k,
    {
        k = k + 1;
    }
    k
}

/// Scans the number literal whose first character, a decimal digit, is at
/// `i`.
fn scan_number(s: &Vec<char>, i: usize) -> (r: Option<(AttrValue, usize)>)
    requires
        i < s@.len(),
        is_digit(s@[i as int]),
    ensures
        r matches Some((v, j)) ==> number_at(s@, i as int) matches Some((sv, e)) && e == j && i < j
            <= s@.len() && value_rel(v, sv) && (v is Int || v is Other),
        r is None ==> number_at(s@, i as int) is None,
{
    let mut radix: u64 = 10;
    if s[i] == '0' && s.len() - i > 1 {
        let p = s[i + 1];
        if p == 'x' {
            radix = 16;
        } else if p == 'o' {
            radix = 8;
        } else if p == 'b' {
            radix = 2;
        }
    }
    assert(radix == radix_at(s@, i as int));
    let start = if radix == 10 {
        i
    } else {
        i + 2
    };
    let (j, v, seen) = scan_digits(s, start, radix);
    if !seen || (j < s.len() && char_is_digit(s[j])) {
        return None;
    }
    if radix == 10 && j < s.len() && s[j] == '.' {
        let fraction = if s.len() - j > 1 {
            let n = s[j + 1];
            !(n == '.' || char_is_ident_start(n))
        } else {
            true
        };
        if fraction {
            let (f, _, _) = scan_digits(s, j + 1, 10);
            let end = scan_ident(s, f);
            return Some((AttrValue::Other, end));
        }
    }
    if radix == 10 && j < s.len() && (s[j] == 'e' || s[j] == 'E') {
        let m = scan_seps(s, j + 1);
        if m < s.len() && char_is_digit(s[m]) {
            let end = scan_ident(s, j);
            return Some((AttrValue::Other, end));
        }
    }
    let end = scan_ident(s, j);
    Some((AttrValue::Int(v), end))
}

/// An attribute value as read.
#[derive(Debug)]
pub enum AttrValue {
    /// An integer literal; `None` where it exceeds `u64::MAX`.
    Int(Option<u64>),
    /// A negated integer literal; `None` where it exceeds `u64::MAX`.
    NegInt(Option<u64>),
    /// A string literal's contents.
    Str(String),
    /// `true` or `false`.
    Bool(bool),
    /// Any other expression the grammar reads: a plain path or a
    /// floating-point literal, or either negated.
    Other,
}

/// Whether the read value `v` stands for `spec`.
pub open spec fn value_rel(v: AttrValue, spec: ValueSpec) -> bool {
    match v {
        AttrValue::Int(Some(n)) => spec == ValueSpec::Int(n as nat),
        AttrValue::Int(None) => spec is Int && spec->Int_0 > u64::MAX,
        AttrValue::NegInt(Some(n)) => spec == ValueSpec::NegInt(n as nat),
        AttrValue::NegInt(None) => spec is NegInt && spec->NegInt_0 > u64::MAX,
        AttrValue::Str(t) => spec == ValueSpec::Str(t@),
        AttrValue::Bool(b) => spec == ValueSpec::Bool(b),
        AttrValue::Other => spec is Other,
    }
}

/// The value of the two hexadecimal digits at `i`, if two are there.
fn scan_hex_pair(s: &Vec<char>, i: usize) -> (r: Option<u32>)
    requires
        i <= s@.len(),
    ensures
        r matches Some(v) ==> hex_pair(s@, i as int) == Some(v as nat),
        r is None ==> hex_pair(s@, i as int) is None,
{
    if s.len() - i < 2 {
        return None;
    }
    match (radix_digit(s[i], 16), radix_digit(s[i + 1], 16)) {
        (Some(a), Some(b)) => Some((a * 16 + b) as u32),
        _ => None,
    }
}

/// The bound below which a number of `count` hexadecimal digits stays.
spec fn hex_bound(count: nat) -> nat
    decreases count,
{
    if count == 0 {
        1
    } else {
        16 * hex_bound((count - 1) as nat)
    }
}

/// Scans the digits of a `\u{...}` escape, starting at `i`.
fn scan_unicode(s: &Vec<char>, i: usize) -> (r: Option<(u32, usize)>)
    requires
        i <= s@.len(),
    ensures
        r matches Some((v, j)) ==> unicode_code(s@, i as int, 0, 0) == Some((v as nat, j as int))
            && i < j <= s@.len(),
        r is None ==> unicode_code(s@, i as int, 0, 0) is None,
{
    let mut k = i;
    let mut code: u32 = 0;
    let mut count: u32 = 0;
    proof {
        reveal_with_fuel(hex_bound, 7);
        lemma_unicode_code_after(s@, i as int, 0, 0);
    }
    loop
        invariant
            i <= k <= s@.len(),
            count <= 6,
            code < hex_bound(count as nat),
            hex_bound(6) == 0x1000000,
            unicode_code(s@, i as int, 0, 0) == unicode_code(s@, k as int, code as nat, count as nat),
            unicode_code(s@, i as int, 0, 0) matches Some((_, j)) ==> i < j <= s@.len(),
        decreases s@.len() - k,
    {
        if k >= s.len() {
            return None;
        }
        let c = s[k];
        match radix_digit(c, 16) {
            Some(d) => {
                if count >= 6 {
                    return None;
                }
                proof {
                    reveal_with_fuel(hex_bound, 7);
                    assert(hex_bound((count + 1) as nat) == 16 * hex_bound(count as nat));
                    assert(hex_bound(count as nat) <= 0x100000) by {
                        reveal_with_fuel(hex_bound, 7);
                    }
                }
                code = code * 16 + d as u32;
                count = count + 1;
                k = k + 1;
            },
            None => {
                if c == '_' && count > 0 {
                    k = k + 1;
                } else if c == '}' && count > 0 {
                    return Some((code, k + 1));
                } else {
                    return None;
                }
            },
        }
    }
}

/// Scans the body of a string literal starting at `i`: its contents and the
/// position after the closing quote.
fn scan_string(s: &Vec<char>, i: usize) -> (r: Option<(String, usize)>)
    requires
        i <= s@.len(),
    ensures
        r matches Some((t, j)) ==> string_body(s@, i as int, Seq::empty()) == Some((t@, j as int))
            && i < j <= s@.len(),
        r is None ==> string_body(s@, i as int, Seq::empty()) is None,
{
    let mut out = String::new();
    let mut k = i;
    proof {
        assert(out@ =~= Seq::<char>::empty());
    }
    loop
        invariant
            i <= k <= s@.len(),
            string_body(s@, i as int, Seq::empty()) == string_body(s@, k as int, out@),
        decreases s@.len() - k,
    {
        if k >= s.len() {
            return None;
        }
        let c = s[k];
        if c == '"' {
            return Some((out, k + 1));
        } else if c == '\\' {
            if s.len() - k < 2 {
                return None;
            }
            let e = s[k + 1];
            if e == 'x' {
                match scan_hex_pair(s, k + 2) {
                    Some(v) => {
                        if v > 0x7F {
                            return None;
                        }
                        match char_from_code(v) {
                            Some(ch) => {
                                push_char(&mut out, ch);
                                k = k + 4;
                            },
                            None => {
                                return None;
                            },
                        }
                    },
                    None => {
                        return None;
                    },
                }
            } else if e == 'u' {
                if s.len() - k < 3 || s[k + 2] != '{' {
                    return None;
                }
                match scan_unicode(s, k + 3) {
                    Some((v, j)) => match char_from_code(v) {
                        Some(ch) => {
                            push_char(&mut out, ch);
                            k = j;
                        },
                        None => {
                            return None;
                        },
                    },
                    None => {
                        return None;
                    },
                }
            } else if e == '\n' {
                proof {
                    lemma_skip_line_space_after(s@, k + 2);
                }
                k = scan_line_space(s, k + 2);
            } else if e == '\r' {
                if s.len() - k < 3 || s[k + 2] != '\n' {
                    return None;
                }
                proof {
                    lemma_skip_line_space_after(s@, k + 3);
                }
                k = scan_line_space(s, k + 3);
            } else {
                let mapped = if e == 'n' {
                    Some('\n')
                } else if e == 't' {
                    Some('\t')
                } else if e == 'r' {
                    Some('\r')
                } else if e == '0' {
                    Some('\0')
                } else if e == '\\' {
                    Some('\\')
                } else if e == '"' {
                    Some('"')
                } else if e == '\'' {
                    Some('\'')
                } else {
                    None
                };
                proof {
                    assert(mapped == escaped(e));
                }
                match mapped {
                    Some(m) => {
                        push_char(&mut out, m);
                        k = k + 2;
                    },
                    None => {
                        return None;
                    },
                }
            }
        } else if c == '\r' {
            if s.len() - k < 2 || s[k + 1] != '\n' {
                return None;
            }
            push_char(&mut out, '\n');
            k = k + 2;
        } else {
            push_char(&mut out, c);
            k = k + 1;
        }
    }
}

/// Whether a raw string opens at `i`.
fn scan_raw_opening(s: &Vec<char>, i: usize) -> (r: bool)
    requires
        i <= s@.len(),
    ensures
        r == raw_opening(s@, i as int),
{
    if i >= s.len() || s[i] != 'r' {
        return false;
    }
    let mut k = i + 1;
    while k < s.len() && s[k] == '#'
        invariant
            i + 1 <= k <= s@.len(),
            pounds_from(s@, i + 1) == (k - (i + 1)) + pounds_from(s@, k as int),
        decreases s@.len() - k,
    {
        k = k + 1;
    }
    let n = k - (i + 1);
    n <= 255 && k < s.len() && s[k] == '"'
}

/// Whether `n` pounds follow from `i` on.
fn scan_pounds_at(s: &Vec<char>, i: usize, n: usize) -> (r: bool)
    requires
        i <= s@.len(),
    ensures
        r == pounds_at(s@, i as int, n as nat),
{
    if s.len() - i < n {
        return false;
    }
    let mut k: usize = 0;
    while k < n
        invariant
            k <= n,
            i + n <= s.len(),
            forall|m: int| i <= m < i + k ==> s@[m] == '#',
        decreases n - k,
    {
        if s[i + k] != '#' {
            return false;
        }
        k = k + 1;
    }
    true
}

/// Scans the raw string that opens at `i`: its contents and the position
/// after its closing pounds.
fn scan_raw_string(s: &Vec<char>, i: usize) -> (r: Option<(String, usize)>)
    requires
        raw_opening(s@, i as int),
    ensures
        r matches Some((t, j)) ==> raw_string_at(s@, i as int) == Some((t@, j as int)) && i < j
            <= s@.len(),
        r is None ==> raw_string_at(s@, i as int) is None,
{
    let len = s.len();
    assert(i < len);
    let mut k = i + 1;
    while k < s.len() && s[k] == '#'
        invariant
            i + 1 <= k <= s@.len(),
            pounds_from(s@, i + 1) == (k - (i + 1)) + pounds_from(s@, k as int),
        decreases s@.len() - k,
    {
        k = k + 1;
    }
    let n = k - (i + 1);
    let body = k + 1;
    let ghost gn = n as nat;
    let mut c = body;
    loop
        invariant
            body <= c <= s@.len(),
            gn == pounds_from(s@, i + 1),
            n == gn,
            body == i + 2 + gn,
            raw_close(s@, body as int, gn) == raw_close(s@, c as int, gn),
        decreases s@.len() - c,
    {
        if c >= s.len() {
            return None;
        }
        if s[c] == '"' && scan_pounds_at(s, c + 1, n) {
            let t = subrange_string(s, body, c);
            return Some((t, c + 1 + n));
        }
        if s[c] == '\r' && !(s.len() - c > 1 && s[c + 1] == '\n') {
            return None;
        }
        c = c + 1;
    }
}

fn subrange_string(s: &Vec<char>, i: usize, j: usize) -> (r: String)
    requires
        i <= j <= s@.len(),
    ensures
        r@ == s@.subrange(i as int, j as int),
{
    let mut out = String::new();
    let mut k = i;
    proof {
        assert(out@ =~= s@.subrange(i as int, i as int));
    }
    while k < j
        invariant
            i <= k <= j,
            j <= s@.len(),
            out@ == s@.subrange(i as int, k as int),
        decreases j - k,
    {
        push_char(&mut out, s[k]);
        proof {
            assert(out@ =~= s@.subrange(i as int, k + 1));
        }
        k = k + 1;
    }
    out
}

/// Whether `c` continues an expression; see [`continues_expr`].
fn char_continues_expr(c: char) -> (r: bool)
    ensures
        r == continues_expr(c),
{
    c == '(' || c == '[' || c == '.' || c == '?' || c == ':' || c == '+' || c == '-' || c == '*' || c
        == '/' || c == '%' || c == '&' || c == '|' || c == '^' || c == '<' || c == '>' || c == '='
        || c == '!'
}

/// Whether `c` opens an expression; see [`opens_expr`].
fn char_opens_expr(c: char) -> (r: bool)
    ensures
        r == opens_expr(c),
{
    c == '(' || c == '[' || c == '{' || c == '&' || c == '*' || c == '!' || c == '|'
}

/// Scans the expression text from `i` on; see [`run_end`].
fn scan_run(s: &Vec<char>, i: usize) -> (r: Option<usize>)
    requires
        i <= s@.len(),
    ensures
        r matches Some(e) ==> run_end(s@, i as int, 0) == Some(e as int) && i <= e <= s@.len(),
        r is None ==> run_end(s@, i as int, 0) is None,
{
    let mut k = i;
    let mut depth: usize = 0;
    proof {
        lemma_run_end_bounds(s@, i as int, 0);
    }
    loop
        invariant
            i <= k <= s@.len(),
            depth <= k - i,
            run_end(s@, i as int, 0) == run_end(s@, k as int, depth as nat),
            run_end(s@, i as int, 0) matches Some(e) ==> i <= e <= s@.len(),
        decreases s@.len() - k,
    {
        if k >= s.len() {
            if depth == 0 {
                return Some(k);
            } else {
                return None;
            }
        }
        let c = s[k];
        if c == ',' && depth == 0 {
            return Some(k);
        } else if c == '(' || c == '[' || c == '{' {
            depth = depth + 1;
        } else if c == ')' || c == ']' || c == '}' {
            if depth == 0 {
                return None;
            }
            depth = depth - 1;
        }
        k = k + 1;
    }
}

/// Scans the value starting at `i`; see [`value_at`].
fn scan_value(s: &Vec<char>, i: usize) -> (r: Option<(AttrValue, usize)>)
    requires
        i <= s@.len(),
    ensures
        r matches Some((v, j)) ==> value_at(s@, i as int) matches Some((sv, sj)) && value_rel(v, sv)
            && sj == j && i <= j <= s@.len(),
        r is None ==> value_at(s@, i as int) is None,
{
    match scan_operand(s, i) {
        None => None,
        Some((v, j)) => {
            let q = scan_ws(s, j);
            if q < s.len() && char_continues_expr(s[q]) {
                match scan_run(s, q) {
                    Some(e) => Some((AttrValue::Other, e)),
                    None => None,
                }
            } else {
                Some((v, j))
            }
        },
    }
}

/// Scans the operand starting at `i`; see [`operand_at`].
fn scan_operand(s: &Vec<char>, i: usize) -> (r: Option<(AttrValue, usize)>)
    requires
        i <= s@.len(),
    ensures
        r matches Some((v, j)) ==> operand_at(s@, i as int) matches Some((sv, sj)) && value_rel(v, sv)
            && sj == j && i <= j <= s@.len(),
        r is None ==> operand_at(s@, i as int) is None,
{
    if i >= s.len() {
        return None;
    }
    let c = s[i];
    if c == '"' {
        match scan_string(s, i + 1) {
            Some((t, j)) => Some((AttrValue::Str(t), j)),
            None => None,
        }
    } else if scan_raw_opening(s, i) {
        match scan_raw_string(s, i) {
            Some((t, j)) => Some((AttrValue::Str(t), j)),
            None => None,
        }
    } else if char_is_digit(c) {
        scan_number(s, i)
    } else if c == '-' {
        let k = scan_ws(s, i + 1);
        if k < s.len() && char_is_digit(s[k]) {
            match scan_number(s, k) {
                Some((AttrValue::Int(v), end)) => Some((AttrValue::NegInt(v), end)),
                Some((_, end)) => Some((AttrValue::Other, end)),
                None => None,
            }
        } else if k < s.len() && char_is_ident_start(s[k]) {
            let end = scan_ident(s, k);
            Some((AttrValue::Other, end))
        } else if k < s.len() && char_opens_expr(s[k]) {
            match scan_run(s, k) {
                Some(e) => Some((AttrValue::Other, e)),
                None => None,
            }
        } else {
            None
        }
    } else if char_opens_expr(c) {
        match scan_run(s, i) {
            Some(e) => Some((AttrValue::Other, e)),
            None => None,
        }
    } else if char_is_ident_start(c) {
        let j = scan_ident(s, i);
        let word = subrange_string(s, i, j);
        let t = String::from_str("true");
        let f = String::from_str("false");
        if word == t {
            Some((AttrValue::Bool(true), j))
        } else if word == f {
            Some((AttrValue::Bool(false), j))
        } else {
            Some((AttrValue::Other, j))
        }
    } else {
        None
    }
}

/// Scans the path whose first segment ends at `j`; see [`path_end`].
fn scan_path(s: &Vec<char>, j: usize) -> (r: Option<usize>)
    requires
        j <= s@.len(),
    ensures
        r matches Some(e) ==> path_end(s@, j as int) == Some(e as int) && j <= e <= s@.len(),
        r is None ==> path_end(s@, j as int) is None,
{
    let mut p = j;
    loop
        invariant
            j <= p <= s@.len(),
            path_end(s@, j as int) == path_end(s@, p as int),
        decreases s@.len() - p,
    {
        let k = scan_ws(s, p);
        if k < s.len() && s.len() - k > 1 && s[k] == ':' && s[k + 1] == ':' {
            let m = scan_ws(s, k + 2);
            if m < s.len() && char_is_ident_start(s[m]) {
                proof {
                    lemma_ident_end_bounds(s@, m + 1);
                }
                p = scan_ident(s, m);
            } else {
                return None;
            }
        } else {
            return Some(p);
        }
    }
}

/// The `key = value` pairs of `s`, or the syntax error met.
pub fn scan_pairs(s: &Vec<char>) -> (r: Result<Vec<(String, AttrValue)>, String>)
    ensures
        r matches Ok(ps) ==> pairs_from(s@, 0, Seq::empty()) matches Ok(sp) && sp.len()
            == ps@.len() && forall|k: int|
            0 <= k < sp.len() ==> sp[k].0 == (#[trigger] ps@[k]).0@ && value_rel(ps@[k].1, sp[k].1),
        r matches Err(e) ==> pairs_from(s@, 0, Seq::empty()) == Err::<
            Seq<(Seq<char>, ValueSpec)>,
            Seq<char>,
        >(e@),
{
    let mut out: Vec<(String, AttrValue)> = Vec::new();
    let ghost mut acc: Seq<(Seq<char>, ValueSpec)> = Seq::empty();
    let mut i: usize = 0;
    loop
        invariant
            i <= s@.len(),
            pairs_from(s@, 0, Seq::empty()) == pairs_from(s@, i as int, acc),
            acc.len() == out@.len(),
            forall|k: int|
                0 <= k < acc.len() ==> acc[k].0 == (#[trigger] out@[k]).0@ && value_rel(
                    out@[k].1,
                    acc[k].1,
                ),
        decreases s@.len() - i,
    {
        let ghost acc_before = acc;
        let i0 = scan_ws(s, i);
        if i0 >= s.len() {
            return Ok(out);
        }
        if !char_is_ident_start(s[i0]) {
            return Err(String::from_str("expected identifier"));
        }
        let j0 = scan_ident(s, i0);
        let j = match scan_path(s, j0) {
            Some(j) => j,
            None => {
                return Err(String::from_str("expected identifier"));
            },
        };
        let key = subrange_string(s, i0, j);
        let k = scan_ws(s, j);
        if k >= s.len() || s[k] != '=' {
            return Err(String::from_str("expected `=`"));
        }
        let m = scan_ws(s, k + 1);
        match scan_value(s, m) {
            None => {
                return Err(String::from_str("expected expression"));
            },
            Some((v, n)) => {
                let p = scan_ws(s, n);
                let ghost found = value_at(s@, m as int)->0;
                let ghost sv = found.0;
                let ghost acc2 = acc.push((key@, sv));
                out.push((key, v));
                proof {
                    acc = acc2;
                    assert forall|q: int| 0 <= q < acc.len() implies acc[q].0 == (
                    #[trigger] out@[q]).0@ && value_rel(out@[q].1, acc[q].1) by {
                        if q < acc.len() - 1 {
                        }
                    }
                }
                if p >= s.len() {
                    return Ok(out);
                } else if s[p] == ',' {
                    proof {
                        assert(pairs_from(s@, i as int, acc_before) == pairs_from(s@, p + 1, acc));
                    }
                    i = p + 1;
                } else {
                    return Err(String::from_str("expected `,`"));
                }
            },
        }
    }
}


// ── Interpretation ────────────────────────────────────────────────────────

/// Attributes as read, with strings as character sequences.
pub struct AttrsView {
    /// `retries`.
    pub retries: Option<usize>,
    /// `retry_strategy`.
    pub retry_strategy: Option<Seq<char>>,
    /// `retry_base_ms`.
    pub retry_base_ms: Option<u64>,
    /// `retry_max_ms`.
    pub retry_max_ms: Option<u64>,
    /// `dead_letter`.
    pub dead_letter: Option<bool>,
    /// `priority`.
    pub priority: Option<i32>,
    /// `name`.
    pub name: Option<Seq<char>>,
}

/// No attribute set.
pub open spec fn no_attrs() -> AttrsView {
    AttrsView {
        retries: None,
        retry_strategy: None,
        retry_base_ms: None,
        retry_max_ms: None,
        dead_letter: None,
        priority: None,
        name: None,
    }
}

/// The error for an integer that does not fit its attribute.
pub open spec fn too_large() -> Seq<char> {
    "number too large to fit in target type"@
}

/// The error for a repeated attribute.
pub open spec fn duplicate(key: Seq<char>) -> Seq<char> {
    "duplicate attribute `"@ + key + "`"@
}

/// The error for an attribute that is not known.
pub open spec fn unknown(key: Seq<char>) -> Seq<char> {
    "unknown attribute `"@ + key
        + "`, expected one of: retries, retry_strategy, retry_base_ms, retry_max_ms, dead_letter, priority, name"@
}

/// The error for an unknown retry strategy.
pub open spec fn bad_strategy() -> Seq<char> {
    "expected one of: \"fixed\", \"exponential\", \"exponential_jitter\""@
}

/// The retry strategies the grammar accepts.
pub open spec fn known_strategy(t: Seq<char>) -> bool {
    t == "fixed"@ || t == "exponential"@ || t == "exponential_jitter"@
}

/// Applies one `key = value` pair to the attributes read so far.
pub open spec fn apply_pair(acc: AttrsView, key: Seq<char>, v: ValueSpec) -> Result<
    AttrsView,
    Seq<char>,
> {
    if key.contains(':') {
        Err("expected identifier"@)
    } else if key == "retries"@ {
        if acc.retries is Some {
            Err(duplicate(key))
        } else {
            match v {
                ValueSpec::Int(n) => if n <= usize::MAX {
                    Ok(AttrsView { retries: Some(n as usize), ..acc })
                } else {
                    Err(too_large())
                },
                _ => Err("expected integer"@),
            }
        }
    } else if key == "retry_strategy"@ {
        if acc.retry_strategy is Some {
            Err(duplicate(key))
        } else {
            match v {
                ValueSpec::Str(t) => if known_strategy(t) {
                    Ok(AttrsView { retry_strategy: Some(t), ..acc })
                } else {
                    Err(bad_strategy())
                },
                _ => Err("expected string literal"@),
            }
        }
    } else if key == "retry_base_ms"@ {
        if acc.retry_base_ms is Some {
            Err(duplicate(key))
        } else {
            match v {
                ValueSpec::Int(n) => if n <= u64::MAX {
                    Ok(AttrsView { retry_base_ms: Some(n as u64), ..acc })
                } else {
                    Err(too_large())
                },
                _ => Err("expected integer"@),
            }
        }
    } else if key == "retry_max_ms"@ {
        if acc.retry_max_ms is Some {
            Err(duplicate(key))
        } else {
            match v {
                ValueSpec::Int(n) => if n <= u64::MAX {
                    Ok(AttrsView { retry_max_ms: Some(n as u64), ..acc })
                } else {
                    Err(too_large())
                },
                _ => Err("expected integer"@),
            }
        }
    } else if key == "dead_letter"@ {
        if acc.dead_letter is Some {
            Err(duplicate(key))
        } else {
            match v {
                ValueSpec::Bool(b) => Ok(AttrsView { dead_letter: Some(b), ..acc }),
                _ => Err("expected bool"@),
            }
        }
    } else if key == "priority"@ {
        if acc.priority is Some {
            Err(duplicate(key))
        } else {
            match v {
                ValueSpec::Int(n) => if n <= i32::MAX {
                    Ok(AttrsView { priority: Some(n as i32), ..acc })
                } else {
                    Err(too_large())
                },
                ValueSpec::NegInt(n) => if n <= i32::MAX {
                    Ok(AttrsView { priority: Some((-n) as i32), ..acc })
                } else {
                    Err(too_large())
                },
                _ => Err("expected integer"@),
            }
        }
    } else if key == "name"@ {
        if acc.name is Some {
            Err(duplicate(key))
        } else {
            match v {
                ValueSpec::Str(t) => Ok(AttrsView { name: Some(t), ..acc }),
                _ => Err("expected string literal"@),
            }
        }
    } else {
        Err(unknown(key))
    }
}

/// Applies the pairs in order, stopping at the first error.
pub open spec fn interpret(
    pairs: Seq<(Seq<char>, ValueSpec)>,
    acc: AttrsView,
) -> Result<AttrsView, Seq<char>>
    decreases pairs.len(),
{
    if pairs.len() == 0 {
        Ok(acc)
    } else {
        match apply_pair(acc, pairs[0].0, pairs[0].1) {
            Err(e) => Err(e),
            Ok(a) => interpret(pairs.drop_first(), a),
        }
    }
}

/// The attributes that `s` declares, or the error in it.
pub open spec fn parse_spec(s: Seq<char>) -> Result<AttrsView, Seq<char>> {
    match pairs_from(s, 0, Seq::empty()) {
        Err(e) => Err(e),
        Ok(ps) => interpret(ps, no_attrs()),
    }
}

/// Whether `k` names an attribute of the grammar.
pub open spec fn known_key(k: Seq<char>) -> bool {
    ||| k == "retries"@
    ||| k == "retry_strategy"@
    ||| k == "retry_base_ms"@
    ||| k == "retry_max_ms"@
    ||| k == "dead_letter"@
    ||| k == "priority"@
    ||| k == "name"@
}

/// Whether the attribute named `k` is set in `a`.
pub open spec fn key_set(a: AttrsView, k: Seq<char>) -> bool {
    if k == "retries"@ {
        a.retries is Some
    } else if k == "retry_strategy"@ {
        a.retry_strategy is Some
    } else if k == "retry_base_ms"@ {
        a.retry_base_ms is Some
    } else if k == "retry_max_ms"@ {
        a.retry_max_ms is Some
    } else if k == "dead_letter"@ {
        a.dead_letter is Some
    } else if k == "priority"@ {
        a.priority is Some
    } else if k == "name"@ {
        a.name is Some
    } else {
        false
    }
}

/// Whether some pair of `ps` names `k`.
pub open spec fn key_listed(ps: Seq<(Seq<char>, ValueSpec)>, k: Seq<char>) -> bool {
    exists|i: int| 0 <= i < ps.len() && ps[i].0 == k
}

/// A pair that applies names a known attribute not set before, sets it,
/// and leaves every other attribute as it was.
proof fn lemma_apply_pair(acc: AttrsView, key: Seq<char>, v: ValueSpec)
    requires
        apply_pair(acc, key, v) is Ok,
    ensures
        known_key(key),
        !key_set(acc, key),
        key_set(apply_pair(acc, key, v)->Ok_0, key),
        forall|k: Seq<char>| k != key ==> key_set(apply_pair(acc, key, v)->Ok_0, k) == key_set(acc, k),
{
    reveal_strlit("retries");
    reveal_strlit("retry_strategy");
    reveal_strlit("retry_base_ms");
    reveal_strlit("retry_max_ms");
    reveal_strlit("dead_letter");
    reveal_strlit("priority");
    reveal_strlit("name");
}

/// Applying pairs in order from `acc` succeeds only where every pair names
/// a known attribute, none twice and none set in `acc`; the attributes set
/// after are those set in `acc` and those the pairs name.
proof fn lemma_interpret(ps: Seq<(Seq<char>, ValueSpec)>, acc: AttrsView)
    requires
        interpret(ps, acc) is Ok,
    ensures
        forall|i: int| 0 <= i < ps.len() ==> known_key(#[trigger] ps[i].0),
        forall|i: int, j: int| 0 <= i < j < ps.len() ==> ps[i].0 != ps[j].0,
        forall|i: int| 0 <= i < ps.len() ==> !key_set(acc, #[trigger] ps[i].0),
        forall|k: Seq<char>|
            #[trigger] key_set(interpret(ps, acc)->Ok_0, k) <==> (key_set(acc, k) || key_listed(ps, k)),
    decreases ps.len(),
{
    if ps.len() > 0 {
        let a1 = apply_pair(acc, ps[0].0, ps[0].1)->Ok_0;
        let rest = ps.drop_first();
        lemma_apply_pair(acc, ps[0].0, ps[0].1);
        lemma_interpret(rest, a1);
        assert forall|i: int| 0 <= i < ps.len() implies known_key(#[trigger] ps[i].0) by {
            if i > 0 {
                assert(ps[i] == rest[i - 1]);
            }
        }
        assert forall|i: int| 0 <= i < ps.len() implies !key_set(acc, #[trigger] ps[i].0) by {
            if i > 0 {
                assert(ps[i] == rest[i - 1]);
                assert(!key_set(a1, rest[i - 1].0));
            }
        }
        assert forall|i: int, j: int| 0 <= i < j < ps.len() implies ps[i].0 != ps[j].0 by {
            assert(ps[j] == rest[j - 1]);
            assert(!key_set(a1, rest[j - 1].0));
            if i > 0 {
                assert(ps[i] == rest[i - 1]);
            }
        }
        assert forall|k: Seq<char>|
            #[trigger] key_set(interpret(ps, acc)->Ok_0, k) <==> (key_set(acc, k) || key_listed(ps, k)) by {
            if key_listed(rest, k) {
                let i = choose|i: int| 0 <= i < rest.len() && rest[i].0 == k;
                assert(ps[i + 1] == rest[i]);
            }
            if key_listed(ps, k) {
                let i = choose|i: int| 0 <= i < ps.len() && ps[i].0 == k;
                if i > 0 {
                    assert(ps[i] == rest[i - 1]);
                }
            }
        }
    }
}

/// The attribute grammar as a whole: a list that parses names only known
/// attributes, none of them twice, and the attributes it sets are exactly
/// those it names.
pub proof fn law_attribute_list(s: Seq<char>)
    requires
        parse_spec(s) is Ok,
    ensures
        pairs_from(s, 0, Seq::empty()) is Ok,
        forall|i: int|
            0 <= i < pairs_from(s, 0, Seq::empty())->Ok_0.len() ==> known_key(
                #[trigger] pairs_from(s, 0, Seq::empty())->Ok_0[i].0,
            ),
        forall|i: int, j: int|
            0 <= i < j < pairs_from(s, 0, Seq::empty())->Ok_0.len() ==> pairs_from(
                s,
                0,
                Seq::empty(),
            )->Ok_0[i].0 != pairs_from(s, 0, Seq::empty())->Ok_0[j].0,
        forall|k: Seq<char>|
            #[trigger] key_set(parse_spec(s)->Ok_0, k) <==> key_listed(
                pairs_from(s, 0, Seq::empty())->Ok_0,
                k,
            ),
{
    let ps = pairs_from(s, 0, Seq::empty())->Ok_0;
    lemma_interpret(ps, no_attrs());
    reveal_strlit("retries");
    reveal_strlit("retry_strategy");
    reveal_strlit("retry_base_ms");
    reveal_strlit("retry_max_ms");
    reveal_strlit("dead_letter");
    reveal_strlit("priority");
    reveal_strlit("name");
    assert forall|k: Seq<char>| !key_set(no_attrs(), k) by {}
}

/// Parsed handler attributes.
#[derive(Debug)]
pub struct HandlerAttrs {
    /// Number of retries.
    pub retries: Option<usize>,
    /// Retry strategy: `fixed`, `exponential` or `exponential_jitter`.
    pub retry_strategy: Option<String>,
    /// Base (or fixed) delay in milliseconds.
    pub retry_base_ms: Option<u64>,
    /// Maximum delay in milliseconds.
    pub retry_max_ms: Option<u64>,
    /// Whether to emit dead letters.
    pub dead_letter: Option<bool>,
    /// Sync lane priority.
    pub priority: Option<i32>,
    /// Listener name; empty opts out of automatic naming.
    pub name: Option<String>,
}

/// The character sequence of an optional string.
pub open spec fn opt_view(s: Option<String>) -> Option<Seq<char>> {
    match s {
        Some(t) => Some(t@),
        None => None,
    }
}

impl View for HandlerAttrs {
    type V = AttrsView;

    open spec fn view(&self) -> AttrsView {
        AttrsView {
            retries: self.retries,
            retry_strategy: opt_view(self.retry_strategy),
            retry_base_ms: self.retry_base_ms,
            retry_max_ms: self.retry_max_ms,
            dead_letter: self.dead_letter,
            priority: self.priority,
            name: opt_view(self.name),
        }
    }
}

pub(crate) fn str_is(key: &String, lit: &str) -> (r: bool)
    ensures
        r == (key@ == lit@),
{
    let l = String::from_str(lit);
    *key == l
}

fn duplicate_error(key: &String) -> (r: String)
    ensures
        r@ == duplicate(key@),
{
    let mut e = String::from_str("duplicate attribute `");
    e.append(key.as_str());
    e.append("`");
    e
}

/// Whether `key` holds a `:`, as a path of several segments does.
fn has_colon(key: &String) -> (r: bool)
    ensures
        r == key@.contains(':'),
{
    let t = key.as_str();
    let n = t.unicode_len();
    let mut i: usize = 0;
    while i < n
        invariant
            t@ == key@,
            n == key@.len(),
            i <= n,
            forall|k: int| 0 <= k < i ==> key@[k] != ':',
        decreases n - i,
    {
        if t.get_char(i) == ':' {
            return true;
        }
        i = i + 1;
    }
    false
}

/// Applies one pair to `acc`.
fn apply_pair_exec(acc: &mut HandlerAttrs, key: &String, v: AttrValue) -> (r:
    Result<(), String>)
    ensures
        forall|sv: ValueSpec|
            value_rel(v, sv) ==> match apply_pair(old(acc)@, key@, sv) {
                Ok(a) => r is Ok && final(acc)@ == a,
                Err(e) => r matches Err(m) && m@ == e,
            },
{
    if has_colon(key) {
        return Err(String::from_str("expected identifier"));
    }
    if str_is(key, "retries") {
        if acc.retries.is_some() {
            return Err(duplicate_error(key));
        }
        match v {
            AttrValue::Int(Some(n)) => {
                if n <= usize::MAX as u64 {
                    acc.retries = Some(n as usize);
                    Ok(())
                } else {
                    Err(String::from_str("number too large to fit in target type"))
                }
            },
            AttrValue::Int(None) => Err(String::from_str("number too large to fit in target type")),
            _ => Err(String::from_str("expected integer")),
        }
    } else if str_is(key, "retry_strategy") {
        if acc.retry_strategy.is_some() {
            return Err(duplicate_error(key));
        }
        match v {
            AttrValue::Str(t) => {
                if str_is(&t, "fixed") || str_is(&t, "exponential") || str_is(
                    &t,
                    "exponential_jitter",
                ) {
                    acc.retry_strategy = Some(t);
                    Ok(())
                } else {
                    Err(
                        String::from_str(
                            "expected one of: \"fixed\", \"exponential\", \"exponential_jitter\"",
                        ),
                    )
                }
            },
            _ => Err(String::from_str("expected string literal")),
        }
    } else if str_is(key, "retry_base_ms") {
        if acc.retry_base_ms.is_some() {
            return Err(duplicate_error(key));
        }
        match v {
            AttrValue::Int(Some(n)) => {
                acc.retry_base_ms = Some(n);
                Ok(())
            },
            AttrValue::Int(None) => Err(String::from_str("number too large to fit in target type")),
            _ => Err(String::from_str("expected integer")),
        }
    } else if str_is(key, "retry_max_ms") {
        if acc.retry_max_ms.is_some() {
            return Err(duplicate_error(key));
        }
        match v {
            AttrValue::Int(Some(n)) => {
                acc.retry_max_ms = Some(n);
                Ok(())
            },
            AttrValue::Int(None) => Err(String::from_str("number too large to fit in target type")),
            _ => Err(String::from_str("expected integer")),
        }
    } else if str_is(key, "dead_letter") {
        if acc.dead_letter.is_some() {
            return Err(duplicate_error(key));
        }
        match v {
            AttrValue::Bool(b) => {
                acc.dead_letter = Some(b);
                Ok(())
            },
            _ => Err(String::from_str("expected bool")),
        }
    } else if str_is(key, "priority") {
        if acc.priority.is_some() {
            return Err(duplicate_error(key));
        }
        match v {
            AttrValue::Int(Some(n)) => {
                if n <= 0x7fff_ffff {
                    acc.priority = Some(n as i32);
                    Ok(())
                } else {
                    Err(String::from_str("number too large to fit in target type"))
                }
            },
            AttrValue::NegInt(Some(n)) => {
                if n <= 0x7fff_ffff {
                    let p: i32 = n as i32;
                    acc.priority = Some(-p);
                    Ok(())
                } else {
                    Err(String::from_str("number too large to fit in target type"))
                }
            },
            AttrValue::Int(None) => Err(String::from_str("number too large to fit in target type")),
            AttrValue::NegInt(None) => Err(
                String::from_str("number too large to fit in target type"),
            ),
            _ => Err(String::from_str("expected integer")),
        }
    } else if str_is(key, "name") {
        if acc.name.is_some() {
            return Err(duplicate_error(key));
        }
        match v {
            AttrValue::Str(t) => {
                acc.name = Some(t);
                Ok(())
            },
            _ => Err(String::from_str("expected string literal")),
        }
    } else {
        let mut e = String::from_str("unknown attribute `");
        e.append(key.as_str());
        e.append(
            "`, expected one of: retries, retry_strategy, retry_base_ms, retry_max_ms, dead_letter, priority, name",
        );
        Err(e)
    }
}

/// Parses an attribute list.
fn parse_text(input: &str) -> (r: Result<HandlerAttrs, String>)
    ensures
        match parse_spec(input@) {
            Ok(a) => r matches Ok(h) && h@ == a,
            Err(e) => r matches Err(m) && m@ == e,
        },
{
    let chars = chars_of(input);
    let pairs = match scan_pairs(&chars) {
        Ok(ps) => ps,
        Err(e) => {
            return Err(e);
        },
    };
    let ghost sp = pairs_from(chars@, 0, Seq::empty())->Ok_0;
    let mut acc = HandlerAttrs {
        retries: None,
        retry_strategy: None,
        retry_base_ms: None,
        retry_max_ms: None,
        dead_letter: None,
        priority: None,
        name: None,
    };
    let mut pairs = pairs;
    let n = pairs.len();
    let mut k: usize = 0;
    proof {
        assert(sp.skip(0) =~= sp);
    }
    while k < n
        invariant
            chars@ == input@,
            pairs_from(chars@, 0, Seq::empty()) == Ok::<Seq<(Seq<char>, ValueSpec)>, Seq<char>>(sp),
            n == sp.len(),
            k <= n,
            pairs@.len() == n - k,
            forall|q: int|
                0 <= q < pairs@.len() ==> sp[k + q].0 == (#[trigger] pairs@[q]).0@ && value_rel(
                    pairs@[q].1,
                    sp[k + q].1,
                ),
            interpret(sp, no_attrs()) == interpret(sp.skip(k as int), acc@),
        decreases n - k,
    {
        let ghost before = pairs@;
        let (key, v) = pairs.remove(0);
        proof {
            assert(key@ == sp[k as int].0 && value_rel(v, sp[k as int].1)) by {
                assert(before[0] == (key, v));
            }
            assert forall|q: int| 0 <= q < pairs@.len() implies sp[k + 1 + q].0 == (
            #[trigger] pairs@[q]).0@ && value_rel(pairs@[q].1, sp[k + 1 + q].1) by {
                assert(pairs@[q] == before[q + 1]);
            }
            assert(sp.skip(k as int)[0] == sp[k as int]);
            assert(sp.skip(k as int).drop_first() =~= sp.skip(k + 1));
        }
        let ghost acc_before = acc@;
        let ghost sv = sp[k as int].1;
        proof {
            assert(value_rel(v, sv));
        }
        match apply_pair_exec(&mut acc, &key, v) {
            Ok(()) => {},
            Err(e) => {
                proof {
                    assert(apply_pair(acc_before, key@, sv) is Err);
                    assert(interpret(sp.skip(k as int), acc_before) == Err::<
                        AttrsView,
                        Seq<char>,
                    >(e@));
                }
                return Err(e);
            },
        }
        k = k + 1;
    }
    Ok(acc)
}

impl HandlerAttrs {
    /// Parses the attributes of a handler declaration.
    pub fn parse(input: &str) -> (r: Result<HandlerAttrs, String>)
        ensures
            match parse_spec(input@) {
                Ok(a) => r matches Ok(h) && h@ == a,
                Err(e) => r matches Err(m) && m@ == e,
            },
    {
        parse_text(input)
    }

    /// Whether any subscription-policy attribute is set.
    pub fn has_subscription_policy(&self) -> (r: bool)
        ensures
            r == (self.retries is Some || self.retry_strategy is Some || self.retry_base_ms is Some
                || self.retry_max_ms is Some || self.dead_letter is Some || self.priority is Some),
    {
        self.retries.is_some() || self.retry_strategy.is_some() || self.retry_base_ms.is_some()
            || self.retry_max_ms.is_some() || self.dead_letter.is_some() || self.priority.is_some()
    }

    /// Whether any retry-strategy attribute is set (`retries` and
    /// `dead_letter` excluded).
    pub fn has_retry_strategy_attrs(&self) -> (r: bool)
        ensures
            r == (self.retry_strategy is Some || self.retry_base_ms is Some || self.retry_max_ms is Some),
    {
        self.retry_strategy.is_some() || self.retry_base_ms.is_some() || self.retry_max_ms.is_some()
    }
}

/// Parsed listener attributes: the attributes of a handler, read by the
/// same grammar.
#[derive(Debug)]
pub struct ListenerAttrs {
    /// Number of retries.
    pub retries: Option<usize>,
    /// Retry strategy: `fixed`, `exponential` or `exponential_jitter`.
    pub retry_strategy: Option<String>,
    /// Base (or fixed) delay in milliseconds.
    pub retry_base_ms: Option<u64>,
    /// Maximum delay in milliseconds.
    pub retry_max_ms: Option<u64>,
    /// Whether to emit dead letters.
    pub dead_letter: Option<bool>,
    /// Sync-lane priority (sync listeners only).
    pub priority: Option<i32>,
    /// Listener name; empty opts out of automatic naming.
    pub name: Option<String>,
}

impl View for ListenerAttrs {
    type V = AttrsView;

    open spec fn view(&self) -> AttrsView {
        AttrsView {
            retries: self.retries,
            retry_strategy: opt_view(self.retry_strategy),
            retry_base_ms: self.retry_base_ms,
            retry_max_ms: self.retry_max_ms,
            dead_letter: self.dead_letter,
            priority: self.priority,
            name: opt_view(self.name),
        }
    }
}

impl ListenerAttrs {
    /// Parses the attributes of a listener declaration.
    pub fn parse(input: &str) -> (r: Result<ListenerAttrs, String>)
        ensures
            match parse_spec(input@) {
                Ok(a) => r matches Ok(l) && l@ == a,
                Err(e) => r matches Err(m) && m@ == e,
            },
    {
        match parse_text(input) {
            Ok(h) => Ok(
                ListenerAttrs {
                    retries: h.retries,
                    retry_strategy: h.retry_strategy,
                    retry_base_ms: h.retry_base_ms,
                    retry_max_ms: h.retry_max_ms,
                    dead_letter: h.dead_letter,
                    priority: h.priority,
                    name: h.name,
                },
            ),
            Err(e) => Err(e),
        }
    }

    /// Whether any policy attribute is set: a retry attribute,
    /// `dead_letter` or `priority`; the name does not count.
    pub fn has_failure_policy(&self) -> (r: bool)
        ensures
            r == (self.retries is Some || self.retry_strategy is Some || self.retry_base_ms is Some
                || self.retry_max_ms is Some || self.dead_letter is Some || self.priority is Some),
    {
        self.retries.is_some() || self.retry_strategy.is_some() || self.retry_base_ms.is_some()
            || self.retry_max_ms.is_some() || self.dead_letter.is_some() || self.priority.is_some()
    }

    /// Whether any retry-strategy attribute is set (`retries` and
    /// `dead_letter` excluded).
    pub fn has_retry_strategy_attrs(&self) -> (r: bool)
        ensures
            r == (self.retry_strategy is Some || self.retry_base_ms is Some || self.retry_max_ms is Some),
    {
        self.retry_strategy.is_some() || self.retry_base_ms.is_some() || self.retry_max_ms.is_some()
    }
}

} // verus!
