use vstd::prelude::*;

verus! {

/// `code` is a Unicode scalar value: a code point that is not a surrogate.
pub open spec fn is_scalar_value(code: u32) -> bool {
    code < 0xD800 || (0xE000 <= code && code <= 0x10FFFF)
}

/// The character that a cell holding `v` prints as: the scalar value that
/// its bits read as unsigned name, or the null character when they name
/// none.
pub open spec fn char_of_cell(v: i32) -> char {
    if is_scalar_value(v as u32) {
        (v as u32) as char
    } else {
        '\0'
    }
}

/// Relies on `char::from_u32`: `Some` of the character with that code
/// exactly when the code is a Unicode scalar value.
#[verifier::external_body]
fn char_from_code(code: u32) -> (r: Option<char>)
    ensures
        r is Some <==> is_scalar_value(code),
        r is Some ==> r->0 == code as char,
{
    char::from_u32(code)
}

/// The character that a cell holding `value` prints as.
pub fn cell_char(value: i32) -> (c: char)
    ensures
        c == char_of_cell(value),
{
    match char_from_code(value as u32) {
        Some(c) => c,
        None => '\0',
    }
}

/// `c` is an ASCII decimal digit.
pub open spec fn is_digit(c: char) -> bool {
    '0' as int <= c as int && c as int <= '9' as int
}

/// The value of a run of decimal digits, most significant first.
pub open spec fn digits_value(s: Seq<char>) -> int
    decreases s.len(),
{
    if s.len() == 0 {
        0
    } else {
        digits_value(s.drop_last()) * 10 + (s.last() as int - '0' as int)
    }
}

/// `s` is a non-empty run of decimal digits.
pub open spec fn is_digits(s: Seq<char>) -> bool {
    s.len() > 0 && forall|i: int| 0 <= i < s.len() ==> is_digit(#[trigger] s[i])
}

/// `s` is an integer in decimal: an optional `+` or `-` and then digits.
pub open spec fn is_decimal(s: Seq<char>) -> bool {
    if s.len() > 0 && (s[0] == '+' || s[0] == '-') {
        is_digits(s.drop_first())
    } else {
        is_digits(s)
    }
}

/// The integer that a decimal text `s` writes.
pub open spec fn decimal_value(s: Seq<char>) -> int {
    if s.len() > 0 && s[0] == '-' {
        -digits_value(s.drop_first())
    } else if s.len() > 0 && s[0] == '+' {
        digits_value(s.drop_first())
    } else {
        digits_value(s)
    }
}

/// `s` writes an integer in decimal that an `i32` can hold.
pub open spec fn is_i32_decimal(s: Seq<char>) -> bool {
    is_decimal(s) && i32::MIN <= decimal_value(s) <= i32::MAX
}

/// The value that a text stores into a cell: the integer it writes when an
/// `i32` can hold it, and zero for any other text.
pub open spec fn cell_value_of_text(s: Seq<char>) -> i32 {
    if is_i32_decimal(s) {
        decimal_value(s) as i32
    } else {
        0
    }
}

/// Relies on `i32`'s `FromStr`: an optional sign and then only ASCII digits,
/// in range, parse to their value; any other text is an error.
#[verifier::external_body]
fn parse_i32(text: &str) -> (r: Option<i32>)
    ensures
        r is Some <==> is_i32_decimal(text@),
        r is Some ==> r->0 == decimal_value(text@),
{
    text.parse::<i32>().ok()
}

/// What `str::trim` leaves of a text.
pub uninterp spec fn trimmed(s: Seq<char>) -> Seq<char>;

/// Relies on `str::trim`: the text without its leading and trailing
/// whitespace, a function of the text alone.
#[verifier::external_body]
fn trim(text: &str) -> (r: &str)
    ensures
        r@ == trimmed(text@),
{
    text.trim()
}

/// The value that a text stores into a cell: the integer it writes, or zero
/// when it writes none that an `i32` can hold.
pub fn cell_value_from_text(text: &str) -> (v: i32)
    ensures
        v == cell_value_of_text(text@),
{
    match parse_i32(text) {
        Some(v) => v,
        None => 0,
    }
}

/// The value that a line of input stores into a cell: the line is trimmed of
/// surrounding whitespace and then read as by `cell_value_from_text`.
pub fn cell_value_from_line(line: &str) -> (v: i32)
    ensures
        v == cell_value_of_text(trimmed(line@)),
{
    cell_value_from_text(trim(line))
}

} // verus!
