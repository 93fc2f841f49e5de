use vstd::prelude::*;
use crate::grammar::{
    column_type, comparator, float_literal, identifier, integer_literal, keyword, skip_spaces,
    string_literal, symbol, value,
};
use crate::keyword::{
    BOOL, DOUBLE, EQUALS, FALSE, FLOAT, GREATER, GREATER_OR_EQUALS, INT, LESS, LESS_OR_EQUALS, LONG,
    NOT_EQUALS, TEXT, TIMESTAMP, TRUE, UUID,
};
use crate::text::{
    is_digit, is_name_char, lemma_run_bounds, lemma_run_content, run_end, same_letter, CharClass,
};

verus! {

/// A keyword that is read ends within the text, at or after where it was
/// looked for.
pub proof fn lemma_keyword_within(s: Seq<char>, pos: int, word: Seq<char>)
    requires
        0 <= pos <= s.len(),
    ensures
        keyword(s, pos, word) matches Some(end) ==> pos <= end <= s.len() && (word.len() > 0
            ==> pos < end),
{
    lemma_run_bounds(s, pos, CharClass::Space);
    let start = skip_spaces(s, pos);
    if keyword(s, pos, word) is Some {
        lemma_run_bounds(s, start + word.len(), CharClass::Space);
    }
}

/// A mark that is read ends within the text, at or after where it was looked
/// for.
pub proof fn lemma_symbol_within(s: Seq<char>, pos: int, mark: Seq<char>)
    requires
        0 <= pos <= s.len(),
    ensures
        symbol(s, pos, mark) matches Some(end) ==> pos <= end <= s.len() && (mark.len() > 0
            ==> pos < end),
{
    lemma_run_bounds(s, pos, CharClass::Space);
    let start = skip_spaces(s, pos);
    if symbol(s, pos, mark) is Some {
        lemma_run_bounds(s, start + mark.len(), CharClass::Space);
    }
}

/// A name that is read is not empty, starts with a name character and ends
/// within the text, after where it was looked for.
pub proof fn lemma_identifier_within(s: Seq<char>, pos: int)
    requires
        0 <= pos <= s.len(),
    ensures
        identifier(s, pos) matches Some((name, end)) ==> {
            &&& pos < end <= s.len()
            &&& skip_spaces(s, pos) < s.len()
            &&& is_name_char(s[skip_spaces(s, pos)])
            &&& name.len() > 0
        },
        identifier(s, pos) is None ==> skip_spaces(s, pos) == s.len() || !is_name_char(
            s[skip_spaces(s, pos)],
        ),
{
    lemma_run_bounds(s, pos, CharClass::Space);
    let start = skip_spaces(s, pos);
    lemma_run_bounds(s, start, CharClass::Name);
    lemma_run_content(s, start, CharClass::Name);
    let end = run_end(s, start, CharClass::Name);
    lemma_run_bounds(s, end, CharClass::Space);
}

/// What the first character of a literal can be.
pub open spec fn starts_literal(c: char) -> bool {
    is_digit(c) || c == '-' || c == '+' || c == '\'' || c == 't' || c == 'T' || c
        == 'f' || c == 'F'
}

/// A literal that is read starts with a digit, a sign, a quote or the first
/// letter of `TRUE` or `FALSE`, and ends within the text, after where it was
/// looked for.
pub proof fn lemma_value_within(s: Seq<char>, pos: int)
    requires
        0 <= pos <= s.len(),
    ensures
        value(s, pos) matches Some((_, end)) ==> {
            &&& pos < end <= s.len()
            &&& skip_spaces(s, pos) < s.len()
            &&& starts_literal(s[skip_spaces(s, pos)])
        },
{
    reveal_strlit("FALSE");
    reveal_strlit("TRUE");
    lemma_run_bounds(s, pos, CharClass::Space);
    let start = skip_spaces(s, pos);
    if float_literal(s, pos) is Some {
        let digits = if s[start] == '-' {
            start + 1
        } else {
            start
        };
        lemma_run_bounds(s, digits, CharClass::Digit);
        lemma_run_content(s, digits, CharClass::Digit);
        let dot = run_end(s, digits, CharClass::Digit);
        lemma_run_bounds(s, dot + 1, CharClass::Digit);
        let end = run_end(s, dot + 1, CharClass::Digit);
        lemma_run_bounds(s, end, CharClass::Space);
    } else if integer_literal(s, pos) is Some {
        let digits = if start < s.len() && (s[start] == '-' || s[start] == '+') {
            start + 1
        } else {
            start
        };
        lemma_run_bounds(s, digits, CharClass::Digit);
        lemma_run_content(s, digits, CharClass::Digit);
        let end = run_end(s, digits, CharClass::Digit);
        lemma_run_bounds(s, end, CharClass::Space);
    } else if keyword(s, pos, FALSE@) is Some {
        lemma_keyword_within(s, pos, FALSE@);
        assert(same_letter(s[start + 0], FALSE@[0]));
    } else if keyword(s, pos, TRUE@) is Some {
        lemma_keyword_within(s, pos, TRUE@);
        assert(same_letter(s[start + 0], TRUE@[0]));
    } else if string_literal(s, pos) is Some {
        lemma_run_bounds(s, start + 1, CharClass::Quoted);
        let end = run_end(s, start + 1, CharClass::Quoted);
        lemma_run_bounds(s, end + 1, CharClass::Space);
    }
}

/// A comparison operator that is read ends within the text, after where it
/// was looked for.
pub proof fn lemma_comparator_within(s: Seq<char>, pos: int)
    requires
        0 <= pos <= s.len(),
    ensures
        comparator(s, pos) matches Some((_, end)) ==> pos < end <= s.len(),
{
    reveal_strlit(">=");
    reveal_strlit("<=");
    reveal_strlit(">");
    reveal_strlit("<");
    reveal_strlit("=");
    reveal_strlit("!=");
    lemma_symbol_within(s, pos, GREATER_OR_EQUALS@);
    lemma_symbol_within(s, pos, LESS_OR_EQUALS@);
    lemma_symbol_within(s, pos, GREATER@);
    lemma_symbol_within(s, pos, LESS@);
    lemma_symbol_within(s, pos, EQUALS@);
    lemma_symbol_within(s, pos, NOT_EQUALS@);
}

/// A column type that is read ends within the text, after where it was
/// looked for.
pub proof fn lemma_column_type_within(s: Seq<char>, pos: int)
    requires
        0 <= pos <= s.len(),
    ensures
        column_type(s, pos) matches Some((_, end)) ==> pos < end <= s.len(),
{
    reveal_strlit("UUID");
    reveal_strlit("INT");
    reveal_strlit("LONG");
    reveal_strlit("FLOAT");
    reveal_strlit("DOUBLE");
    reveal_strlit("TIMESTAMP");
    reveal_strlit("TEXT");
    reveal_strlit("BOOL");
    lemma_keyword_within(s, pos, UUID@);
    lemma_keyword_within(s, pos, INT@);
    lemma_keyword_within(s, pos, LONG@);
    lemma_keyword_within(s, pos, FLOAT@);
    lemma_keyword_within(s, pos, DOUBLE@);
    lemma_keyword_within(s, pos, TIMESTAMP@);
    lemma_keyword_within(s, pos, TEXT@);
    lemma_keyword_within(s, pos, BOOL@);
}

/// Every rule for a name, an operator, a type or a literal ends within the
/// text, after where it started.
pub proof fn lemma_rules_within(s: Seq<char>, pos: int)
    requires
        0 <= pos <= s.len(),
    ensures
        identifier(s, pos) matches Some((_, end)) ==> pos < end <= s.len(),
        comparator(s, pos) matches Some((_, end)) ==> pos < end <= s.len(),
        column_type(s, pos) matches Some((_, end)) ==> pos < end <= s.len(),
        value(s, pos) matches Some((_, end)) ==> pos < end <= s.len(),
{
    lemma_identifier_within(s, pos);
    lemma_comparator_within(s, pos);
    lemma_column_type_within(s, pos);
    lemma_value_within(s, pos);
}

} // verus!
