use vstd::prelude::*;
use vstd::string::StrSliceExecFns;
use crate::grammar::{
    float_literal, identifier, integer_literal, keyword, literal_at, rest, skip_spaces,
    string_literal, symbol, value, word_at,
};
use crate::keyword::{COMMA, FALSE, TRUE};
use crate::query::{ErrorModel, QueryParsingError, Value};
use crate::text::{
    collect, decimal, digit_value, is_digit, lemma_decimal_grows, lemma_run_content, letters_match,
    same_letter, scan, CharClass,
};

verus! {

/// Passes over whitespace: spaces, tabs, carriage returns and line feeds.
/// Every lexical rule does so before and behind what it reads.
pub fn ws(input: &[char], pos: usize) -> (end: usize)
    requires
        pos <= input@.len(),
    ensures
        end as int == skip_spaces(input@, pos as int),
        pos <= end <= input@.len(),
{
    scan(input, pos, CharClass::Space)
}

/// Where `literal` ends if it stands at `start`.
pub fn literal_end(input: &[char], start: usize, literal: &str) -> (end: Option<usize>)
    requires
        start <= input@.len(),
    ensures
        end is Some <==> literal_at(input@, start as int, literal@),
        end matches Some(end) ==> end == start + literal@.len(),
{
    let length = literal.unicode_len();
    let total = input.len();
    if length > total - start {
        return None;
    }
    let mut i: usize = 0;
    while i < length
        invariant
            i <= length,
            length == literal@.len(),
            total == input@.len(),
            start + length <= total,
            forall|j: int| 0 <= j < i ==> input@[start + j] == #[trigger] literal@[j],
        decreases length - i,
    {
        if input[start + i] != literal.get_char(i) {
            assert(input@[start + i] != literal@[i as int]);
            return None;
        }
        i = i + 1;
    }
    Some(start + length)
}

/// Where `word` ends if it stands at `start` in any case of its letters.
pub fn word_end(input: &[char], start: usize, word: &str) -> (end: Option<usize>)
    requires
        start <= input@.len(),
    ensures
        end is Some <==> word_at(input@, start as int, word@),
        end matches Some(end) ==> end == start + word@.len(),
{
    let length = word.unicode_len();
    let total = input.len();
    if length > total - start {
        return None;
    }
    let mut i: usize = 0;
    while i < length
        invariant
            i <= length,
            length == word@.len(),
            total == input@.len(),
            start + length <= total,
            forall|j: int| 0 <= j < i ==> same_letter(input@[start + j], #[trigger] word@[j]),
        decreases length - i,
    {
        if !letters_match(input[start + i], word.get_char(i)) {
            assert(!same_letter(input@[start + i], word@[i as int]));
            return None;
        }
        i = i + 1;
    }
    Some(start + length)
}

/// Reads a punctuation mark or an operator and the whitespace around it.
pub fn parse_symbol(input: &[char], pos: usize, literal: &str) -> (found: Option<usize>)
    requires
        pos <= input@.len(),
    ensures
        match found {
            Some(end) => symbol(input@, pos as int, literal@) == Some(end as int) && pos <= end
                <= input@.len() && (literal@.len() > 0 ==> pos < end),
            None => symbol(input@, pos as int, literal@) is None,
        },
{
    let start = ws(input, pos);
    match literal_end(input, start, literal) {
        Some(end) => Some(ws(input, end)),
        None => None,
    }
}

/// Reads a keyword in any case and the whitespace around it.
pub fn parse_keyword(input: &[char], pos: usize, word: &str) -> (found: Option<usize>)
    requires
        pos <= input@.len(),
    ensures
        match found {
            Some(end) => keyword(input@, pos as int, word@) == Some(end as int) && pos <= end
                <= input@.len() && (word@.len() > 0 ==> pos < end),
            None => keyword(input@, pos as int, word@) is None,
        },
{
    let start = ws(input, pos);
    match word_end(input, start, word) {
        Some(end) => Some(ws(input, end)),
        None => None,
    }
}

/// Reads a comma and the whitespace around it.
pub fn parse_comma(input: &[char], pos: usize) -> (found: Option<usize>)
    requires
        pos <= input@.len(),
    ensures
        match found {
            Some(end) => symbol(input@, pos as int, COMMA@) == Some(end as int) && pos < end
                <= input@.len(),
            None => symbol(input@, pos as int, COMMA@) is None,
        },
{
    proof {
        reveal_strlit(",");
    }
    parse_symbol(input, pos, COMMA)
}

/// Reads a name and the whitespace around it.
pub fn parse_identifier(input: &[char], pos: usize) -> (found: Option<(String, usize)>)
    requires
        pos <= input@.len(),
    ensures
        match found {
            Some((name, end)) => identifier(input@, pos as int) == Some((name@, end as int))
                && pos < end <= input@.len(),
            None => identifier(input@, pos as int) is None,
        },
{
    let start = ws(input, pos);
    let end = scan(input, start, CharClass::Name);
    if start < end {
        Some((collect(input, start, end), ws(input, end)))
    } else {
        None
    }
}

/// Reads a floating-point literal and the whitespace around it.
pub fn parse_float(input: &[char], pos: usize) -> (found: Option<(Value, usize)>)
    requires
        pos <= input@.len(),
    ensures
        match found {
            Some((Value::Float(text), end)) => float_literal(input@, pos as int) == Some(
                (text@, end as int),
            ) && pos < end <= input@.len(),
            Some(_) => false,
            None => float_literal(input@, pos as int) is None,
        },
{
    let start = ws(input, pos);
    let digits = if start < input.len() && input[start] == '-' {
        start + 1
    } else {
        start
    };
    let dot = scan(input, digits, CharClass::Digit);
    if digits == dot || dot == input.len() || input[dot] != '.' {
        return None;
    }
    let end = scan(input, dot + 1, CharClass::Digit);
    if dot + 1 == end {
        return None;
    }
    Some((Value::Float(collect(input, start, end)), ws(input, end)))
}

/// The number that the digits from `from` up to `to` spell, where it is at
/// most 2<sup>63</sup>.
fn parse_magnitude(input: &[char], from: usize, to: usize) -> (found: Option<u64>)
    requires
        from <= to <= input@.len(),
        forall|i: int| from <= i < to ==> is_digit(#[trigger] input@[i]),
    ensures
        match found {
            Some(magnitude) => magnitude as int == decimal(input@.subrange(from as int, to as int))
                && magnitude <= 0x8000_0000_0000_0000,
            None => decimal(input@.subrange(from as int, to as int)) > 0x8000_0000_0000_0000,
        },
{
    let ghost digits = input@.subrange(from as int, to as int);
    let mut magnitude: u64 = 0;
    let mut i: usize = from;
    assert(digits.take(0) =~= Seq::<char>::empty());
    while i < to
        invariant
            from <= i <= to <= input@.len(),
            digits == input@.subrange(from as int, to as int),
            forall|j: int| 0 <= j < digits.len() ==> is_digit(#[trigger] digits[j]),
            magnitude as int == decimal(digits.take(i - from)),
            magnitude <= 0x8000_0000_0000_0000,
        decreases to - i,
    {
        proof {
            assert(digits[i - from] == input@[i as int]);
            assert(is_digit(digits[i - from]));
        }
        let digit: u64 = (input[i] as u32 - '0' as u32) as u64;
        proof {
            assert(digit as int == digit_value(digits[i - from]));
            assert(digits.take(i - from + 1).drop_last() =~= digits.take(i - from));
            assert(digits.take(i - from + 1).last() == digits[i - from]);
            lemma_decimal_grows(digits, i - from + 1);
        }
        if magnitude > 922337203685477580 || magnitude * 10 + digit > 0x8000_0000_0000_0000 {
            return None;
        }
        magnitude = magnitude * 10 + digit;
        i = i + 1;
    }
    assert(digits.take(to - from) =~= digits);
    Some(magnitude)
}

/// Reads an integer literal and the whitespace around it.
pub fn parse_integer(input: &[char], pos: usize) -> (found: Option<(Value, usize)>)
    requires
        pos <= input@.len(),
    ensures
        match found {
            Some((Value::Integer(number), end)) => integer_literal(input@, pos as int) == Some(
                (number, end as int),
            ) && pos < end <= input@.len(),
            Some(_) => false,
            None => integer_literal(input@, pos as int) is None,
        },
{
    let start = ws(input, pos);
    let negative = start < input.len() && input[start] == '-';
    let digits = if start < input.len() && (input[start] == '-' || input[start] == '+') {
        start + 1
    } else {
        start
    };
    let end = scan(input, digits, CharClass::Digit);
    if digits == end {
        return None;
    }
    proof {
        lemma_run_content(input@, digits as int, CharClass::Digit);
    }
    match parse_magnitude(input, digits, end) {
        None => None,
        Some(magnitude) => {
            if negative {
                let number: i64 = if magnitude == 0x8000_0000_0000_0000 {
                    i64::MIN
                } else {
                    -(magnitude as i64)
                };
                Some((Value::Integer(number), ws(input, end)))
            } else if magnitude <= 0x7fff_ffff_ffff_ffff {
                Some((Value::Integer(magnitude as i64), ws(input, end)))
            } else {
                None
            }
        },
    }
}

/// Reads a string literal and the whitespace around it.
pub fn parse_string(input: &[char], pos: usize) -> (found: Option<(Value, usize)>)
    requires
        pos <= input@.len(),
    ensures
        match found {
            Some((Value::String(text), end)) => string_literal(input@, pos as int) == Some(
                (text@, end as int),
            ) && pos < end <= input@.len(),
            Some(_) => false,
            None => string_literal(input@, pos as int) is None,
        },
{
    let start = ws(input, pos);
    if start == input.len() || input[start] != '\'' {
        return None;
    }
    let end = scan(input, start + 1, CharClass::Quoted);
    if start + 1 == end || end == input.len() {
        return None;
    }
    Some((Value::String(collect(input, start + 1, end)), ws(input, end + 1)))
}

/// Reads a literal: the first that matches of a floating-point literal, an
/// integer literal, `FALSE`, `TRUE` and a string literal.
pub fn parse_value(input: &[char], pos: usize) -> (found: Option<(Value, usize)>)
    requires
        pos <= input@.len(),
    ensures
        match found {
            Some((literal, end)) => value(input@, pos as int) == Some((literal@, end as int))
                && pos < end <= input@.len(),
            None => value(input@, pos as int) is None,
        },
{
    proof {
        reveal_strlit("FALSE");
        reveal_strlit("TRUE");
    }
    if let Some(found) = parse_float(input, pos) {
        return Some(found);
    }
    if let Some(found) = parse_integer(input, pos) {
        return Some(found);
    }
    if let Some(end) = parse_keyword(input, pos, FALSE) {
        return Some((Value::Bool(false), end));
    }
    if let Some(end) = parse_keyword(input, pos, TRUE) {
        return Some((Value::Bool(true), end));
    }
    parse_string(input, pos)
}

/// The error of a rule that did not match at `pos`: what was expected there,
/// and the input from there on.
pub fn syntax_error(expected: &str, input: &[char], pos: usize) -> (error: QueryParsingError)
    requires
        pos <= input@.len(),
    ensures
        error@ == ErrorModel::QuerySyntaxError(expected@, rest(input@, pos as int)),
{
    QueryParsingError::QuerySyntaxError(expected.to_owned(), collect(input, pos, input.len()))
}

} // verus!
