use vstd::prelude::*;
use crate::grammar::{
    and_rule, assignment_rule, column_rule, comma_rule, comparator, condition_rule, identifier,
    identifier_rule, keyword, literal_at, parenthesized, select_columns, skip_spaces, symbol,
    value_rule, where_clause,
};
use crate::keyword::{AND, CLOSE, COMMA, EQUALS, OPEN, STAR, WHERE};
use crate::lexical::{
    lemma_identifier_within, lemma_keyword_within, lemma_rules_within, lemma_symbol_within,
};
use crate::query::{ColumnModel, ConditionModel, ValueModel};
use crate::syntax::{
    assignment_tokens, column_tokens, comma, condition_tokens, group, name_tokens, names,
    projection_tokens, value_tokens, where_tokens, word,
};
use crate::text::{lemma_run_bounds, same_letter, CharClass};
use crate::token::{
    item_reads, lemma_list_reads, lemma_read_concat, lemma_read_first, lemma_read_one,
    lemma_reads_within, list_stops, list_tokens, read_all, read_token, separator_reads, Token,
};

verus! {

/// A keyword that is read starts, after the whitespace, with its first
/// letter in either case.
pub proof fn lemma_keyword_first(s: Seq<char>, pos: int, word: Seq<char>)
    requires
        0 <= pos <= s.len(),
        word.len() > 0,
        keyword(s, pos, word) is Some,
    ensures
        skip_spaces(s, pos) < s.len(),
        same_letter(s[skip_spaces(s, pos)], word[0]),
{
    lemma_run_bounds(s, pos, CharClass::Space);
    assert(same_letter(s[skip_spaces(s, pos) + 0], word[0]));
}

/// A mark that is read starts, after the whitespace, with its first
/// character.
pub proof fn lemma_symbol_first(s: Seq<char>, pos: int, mark: Seq<char>)
    requires
        0 <= pos <= s.len(),
        mark.len() > 0,
        symbol(s, pos, mark) is Some,
    ensures
        skip_spaces(s, pos) < s.len(),
        s[skip_spaces(s, pos)] == mark[0],
{
    lemma_run_bounds(s, pos, CharClass::Space);
    assert(s[skip_spaces(s, pos) + 0] == mark[0]);
}

/// No keyword is read where the text ends or goes on with another letter
/// than its first.
pub proof fn lemma_keyword_absent(s: Seq<char>, pos: int, word: Seq<char>)
    requires
        0 <= pos <= s.len(),
        word.len() > 0,
        skip_spaces(s, pos) == s.len() || !same_letter(s[skip_spaces(s, pos)], word[0]),
    ensures
        keyword(s, pos, word) is None,
{
    lemma_run_bounds(s, pos, CharClass::Space);
    if keyword(s, pos, word) is Some {
        assert(same_letter(s[skip_spaces(s, pos) + 0], word[0]));
    }
}

/// No mark is read where the text ends or goes on with another character
/// than its first.
pub proof fn lemma_symbol_absent(s: Seq<char>, pos: int, mark: Seq<char>)
    requires
        0 <= pos <= s.len(),
        mark.len() > 0,
        skip_spaces(s, pos) == s.len() || s[skip_spaces(s, pos)] != mark[0],
    ensures
        symbol(s, pos, mark) is None,
{
    lemma_run_bounds(s, pos, CharClass::Space);
    if symbol(s, pos, mark) is Some {
        assert(s[skip_spaces(s, pos) + 0] == mark[0]);
    }
}

/// Where a keyword is read, no keyword is read that differs from it in some
/// letter.
pub proof fn lemma_keyword_differs(
    s: Seq<char>,
    pos: int,
    word: Seq<char>,
    other: Seq<char>,
    at: int,
)
    requires
        keyword(s, pos, word) is Some,
        0 <= at < word.len(),
        at < other.len(),
        !same_letter(word[at], other[at]),
    ensures
        keyword(s, pos, other) is None,
{
    let start = skip_spaces(s, pos);
    assert(same_letter(s[start + at], word[at]));
    if keyword(s, pos, other) is Some {
        assert(same_letter(s[start + at], other[at]));
    }
}

/// The rule for names reads a name where its token is read.
pub proof fn lemma_names_read(s: Seq<char>)
    ensures
        item_reads(identifier_rule(), name_tokens(), s),
{
    assert forall|pos: int, x: Seq<char>|
        0 <= pos <= s.len() && (#[trigger] read_all(s, pos, name_tokens()(x))) is Some implies {
        let end = read_all(s, pos, name_tokens()(x))->0;
        identifier_rule()(s, pos) == Some((x, end)) && pos < end <= s.len()
    } by {
        lemma_read_one(s, pos, Token::Name(x));
        lemma_rules_within(s, pos);
    }
}

/// The rule for literals reads a literal where its token is read.
pub proof fn lemma_values_read(s: Seq<char>)
    ensures
        item_reads(value_rule(), value_tokens(), s),
{
    assert forall|pos: int, x: ValueModel|
        0 <= pos <= s.len() && (#[trigger] read_all(s, pos, value_tokens()(x))) is Some implies {
        let end = read_all(s, pos, value_tokens()(x))->0;
        value_rule()(s, pos) == Some((x, end)) && pos < end <= s.len()
    } by {
        lemma_read_one(s, pos, Token::Literal(x));
        lemma_rules_within(s, pos);
    }
}

/// The rule for conditions reads a condition where its tokens are read.
pub proof fn lemma_conditions_read(s: Seq<char>)
    ensures
        item_reads(condition_rule(), condition_tokens(), s),
{
    assert forall|pos: int, x: ConditionModel|
        0 <= pos <= s.len() && (#[trigger] read_all(s, pos, condition_tokens()(x)))
            is Some implies {
        let end = read_all(s, pos, condition_tokens()(x))->0;
        condition_rule()(s, pos) == Some((x, end)) && pos < end <= s.len()
    } by {
        let second = seq![Token::Comparison(x.operator), Token::Literal(x.value)];
        assert(condition_tokens()(x) =~= seq![Token::Name(x.column)] + second);
        lemma_read_first(s, pos, Token::Name(x.column), second);
        lemma_rules_within(s, pos);
        let after_column = (identifier(s, pos)->0).1;
        assert(second =~= seq![Token::Comparison(x.operator)] + seq![Token::Literal(x.value)]);
        lemma_read_first(
            s,
            after_column,
            Token::Comparison(x.operator),
            seq![Token::Literal(x.value)],
        );
        lemma_rules_within(s, after_column);
        let after_operator = (comparator(s, after_column)->0).1;
        lemma_read_one(s, after_operator, Token::Literal(x.value));
        lemma_rules_within(s, after_operator);
    }
}

/// The rule for assignments reads an assignment where its tokens are read.
pub proof fn lemma_assignments_read(s: Seq<char>)
    ensures
        item_reads(assignment_rule(), assignment_tokens(), s),
{
    assert forall|pos: int, x: (Seq<char>, ValueModel)|
        0 <= pos <= s.len() && (#[trigger] read_all(s, pos, assignment_tokens()(x)))
            is Some implies {
        let end = read_all(s, pos, assignment_tokens()(x))->0;
        assignment_rule()(s, pos) == Some((x, end)) && pos < end <= s.len()
    } by {
        let second = seq![Token::Mark(EQUALS@), Token::Literal(x.1)];
        assert(assignment_tokens()(x) =~= seq![Token::Name(x.0)] + second);
        lemma_read_first(s, pos, Token::Name(x.0), second);
        lemma_rules_within(s, pos);
        let after_column = (identifier(s, pos)->0).1;
        assert(second =~= seq![Token::Mark(EQUALS@)] + seq![Token::Literal(x.1)]);
        lemma_read_first(s, after_column, Token::Mark(EQUALS@), seq![Token::Literal(x.1)]);
        lemma_symbol_within(s, after_column, EQUALS@);
        let after_equals = symbol(s, after_column, EQUALS@)->0;
        lemma_read_one(s, after_equals, Token::Literal(x.1));
        lemma_rules_within(s, after_equals);
    }
}

/// The rule for column definitions reads a column where its tokens are read.
pub proof fn lemma_columns_read(s: Seq<char>)
    ensures
        item_reads(column_rule(), column_tokens(), s),
{
    assert forall|pos: int, x: ColumnModel|
        0 <= pos <= s.len() && (#[trigger] read_all(s, pos, column_tokens()(x))) is Some implies {
        let end = read_all(s, pos, column_tokens()(x))->0;
        column_rule()(s, pos) == Some((x, end)) && pos < end <= s.len()
    } by {
        assert(column_tokens()(x) =~= seq![Token::Name(x.name)] + seq![
            Token::Type(x.column_type),
        ]);
        lemma_read_first(s, pos, Token::Name(x.name), seq![Token::Type(x.column_type)]);
        lemma_rules_within(s, pos);
        let after_name = (identifier(s, pos)->0).1;
        lemma_read_one(s, after_name, Token::Type(x.column_type));
        lemma_rules_within(s, after_name);
    }
}

/// The rule for a comma reads just the comma.
pub proof fn lemma_comma_reads(s: Seq<char>)
    ensures
        separator_reads(comma_rule(), comma(), s),
{
    assert forall|pos: int| 0 <= pos <= s.len() implies {
        &&& #[trigger] comma_rule()(s, pos) == read_token(s, pos, comma())
        &&& comma_rule()(s, pos) matches Some(end) ==> pos <= end <= s.len()
    } by {
        lemma_symbol_within(s, pos, COMMA@);
    }
}

/// The rule for `AND` reads just that keyword.
pub proof fn lemma_and_reads(s: Seq<char>)
    ensures
        separator_reads(and_rule(), word(AND@), s),
{
    assert forall|pos: int| 0 <= pos <= s.len() implies {
        &&& #[trigger] and_rule()(s, pos) == read_token(s, pos, word(AND@))
        &&& and_rule()(s, pos) matches Some(end) ==> pos <= end <= s.len()
    } by {
        lemma_keyword_within(s, pos, AND@);
    }
}

/// No comma is read where a keyword, a closing parenthesis or the end of the
/// text stands.
pub open spec fn no_comma_at(s: Seq<char>, pos: int) -> bool {
    skip_spaces(s, pos) == s.len() || s[skip_spaces(s, pos)] != ','
}

/// Where no comma stands, a list with commas cannot go on.
pub proof fn lemma_comma_list_stops<T>(
    item: spec_fn(Seq<char>, int) -> Option<(T, int)>,
    s: Seq<char>,
    pos: int,
)
    requires
        0 <= pos <= s.len(),
        no_comma_at(s, pos),
    ensures
        list_stops(item, comma_rule(), s, pos),
{
    reveal_strlit(",");
    lemma_symbol_absent(s, pos, COMMA@);
}

/// The statement cannot go on at `end`: neither `WHERE`, nor `AND`, nor a
/// comma is read there.
pub open spec fn quiet(s: Seq<char>, end: int) -> bool {
    &&& keyword(s, end, WHERE@) is None
    &&& keyword(s, end, AND@) is None
    &&& symbol(s, end, COMMA@) is None
}

/// The text starts with just these tokens, with any whitespace around them.
/// They end at `end`, and the statement cannot go on there.
pub open spec fn reads_up_to(s: Seq<char>, tokens: Seq<Token>, end: int) -> bool {
    &&& read_all(s, 0, tokens) == Some(end)
    &&& quiet(s, end)
}

/// Where the statement cannot go on, no comma stands.
pub proof fn lemma_quiet_has_no_comma(s: Seq<char>, end: int)
    requires
        0 <= end <= s.len(),
        quiet(s, end),
    ensures
        no_comma_at(s, end),
{
    reveal_strlit(",");
    lemma_run_bounds(s, end, CharClass::Space);
    let start = skip_spaces(s, end);
    if start < s.len() && s[start] == ',' {
        assert forall|i: int| 0 <= i < COMMA@.len() implies s[start + i]
            == #[trigger] COMMA@[i] by {}
        assert(literal_at(s, start, COMMA@));
    }
}

/// The columns of a `SELECT` are read where their tokens are read and no
/// comma follows.
pub proof fn lemma_projection_reads(s: Seq<char>, pos: int, columns: Seq<Seq<char>>, end: int)
    requires
        0 <= pos <= s.len(),
        read_all(s, pos, projection_tokens(columns)) == Some(end),
        no_comma_at(s, end),
    ensures
        select_columns(s, pos) == Some((columns, end)),
        pos <= end <= s.len(),
{
    reveal_strlit("*");
    lemma_reads_within(s, pos, projection_tokens(columns));
    if columns.len() == 0 {
        lemma_read_one(s, pos, Token::Mark(STAR@));
        assert(columns =~= Seq::empty());
    } else {
        lemma_names_read(s);
        lemma_comma_reads(s);
        lemma_comma_list_stops(identifier_rule(), s, end);
        lemma_list_reads(
            identifier_rule(),
            comma_rule(),
            name_tokens(),
            comma(),
            s,
            pos,
            columns,
            end,
        );
        lemma_identifier_within(s, pos);
        lemma_symbol_absent(s, pos, STAR@);
    }
}

/// The conditions of a statement are read where their tokens are read and
/// the statement cannot go on behind them.
pub proof fn lemma_where_reads(s: Seq<char>, pos: int, conditions: Seq<ConditionModel>, end: int)
    requires
        0 <= pos <= s.len(),
        read_all(s, pos, where_tokens(conditions)) == Some(end),
        quiet(s, end),
    ensures
        where_clause(s, pos) matches Some((found, _)) && found == conditions,
{
    reveal_strlit("WHERE");
    reveal_strlit("AND");
    if conditions.len() == 0 {
        assert(pos == end);
        assert(conditions =~= Seq::empty());
    } else {
        let list = list_tokens(conditions, condition_tokens(), word(AND@));
        lemma_read_first(s, pos, word(WHERE@), list);
        lemma_keyword_within(s, pos, WHERE@);
        let after_where = keyword(s, pos, WHERE@)->0;
        lemma_conditions_read(s);
        lemma_and_reads(s);
        assert(and_rule()(s, end) is None);
        lemma_list_reads(
            condition_rule(),
            and_rule(),
            condition_tokens(),
            word(AND@),
            s,
            after_where,
            conditions,
            end,
        );
    }
}

/// A list in parentheses is read where its tokens are read.
pub proof fn lemma_group_reads<T>(
    item: spec_fn(Seq<char>, int) -> Option<(T, int)>,
    item_tokens: spec_fn(T) -> Seq<Token>,
    s: Seq<char>,
    pos: int,
    items: Seq<T>,
    end: int,
)
    requires
        0 <= pos <= s.len(),
        items.len() > 0,
        read_all(s, pos, group(items, item_tokens)) == Some(end),
        item_reads(item, item_tokens, s),
    ensures
        parenthesized(item, s, pos) == Some((items, end)),
        pos < end <= s.len(),
{
    reveal_strlit("(");
    reveal_strlit(")");
    reveal_strlit(",");
    let list = list_tokens(items, item_tokens, comma());
    let close = seq![Token::Mark(CLOSE@)];
    lemma_read_first(s, pos, Token::Mark(OPEN@), list + close);
    lemma_symbol_within(s, pos, OPEN@);
    let after_open = symbol(s, pos, OPEN@)->0;
    lemma_read_concat(s, after_open, list, close);
    lemma_reads_within(s, after_open, list);
    let after_list = read_all(s, after_open, list)->0;
    lemma_read_one(s, after_list, Token::Mark(CLOSE@));
    lemma_symbol_within(s, after_list, CLOSE@);
    lemma_symbol_first(s, after_list, CLOSE@);
    lemma_comma_reads(s);
    lemma_comma_list_stops(item, s, after_list);
    lemma_list_reads(item, comma_rule(), item_tokens, comma(), s, after_open, items, after_list);
}

} // verus!
