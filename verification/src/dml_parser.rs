use vstd::prelude::*;
use crate::common_parser::{
    parse_comma, parse_identifier, parse_keyword, parse_symbol, parse_value, syntax_error,
};
use crate::grammar::{
    and_rule, assignment, assignment_rule, comma_rule, comparator, condition, condition_rule,
    delete_statement, delete_target, identifier_rule, insert_statement, list_of, list_rest,
    parenthesized, select_columns, select_statement, update_statement, value_rule, where_clause,
};
use crate::keyword::{
    AND, CLOSE, DELETE, EQUALS, FROM, GREATER, GREATER_OR_EQUALS, INSERT_INTO, LESS,
    LESS_OR_EQUALS, NOT_EQUALS, OPEN, SELECT, SET, STAR, UPDATE, VALUES, WHERE,
};
use crate::message::{
    DELETE_COLUMNS, DELETE_FROM, DELETE_KEYWORD, FROM_KEYWORD, INSERT_COLUMNS, INSERT_KEYWORD,
    PARSING_TABLE_NAME, SELECT_COLUMNS, SELECT_KEYWORD, SET_KEYWORD, TABLE_NAME, UPDATE_KEYWORD,
    VALUES_KEYWORD, VALUE_LIST, WHERE_CONDITION,
};
use crate::query::{
    lemma_models_push, models_of, outcome, Condition, DataManipulationQuery, DeleteQuery,
    InsertQuery, Operator, Query, QueryParsingError, SelectQuery, UpdateQuery, Value,
};

verus! {

/// Reads a comparison operator: the first that matches of `>=`, `<=`, `>`,
/// `<`, `=` and `!=`.
pub fn parse_comparator(input: &[char], pos: usize) -> (found: Option<(Operator, usize)>)
    requires
        pos <= input@.len(),
    ensures
        match found {
            Some((operator, end)) => comparator(input@, pos as int) == Some(
                (operator, end as int),
            ) && pos <= end <= input@.len(),
            None => comparator(input@, pos as int) is None,
        },
{
    if let Some(end) = parse_symbol(input, pos, GREATER_OR_EQUALS) {
        return Some((Operator::GreaterOrEquals, end));
    }
    if let Some(end) = parse_symbol(input, pos, LESS_OR_EQUALS) {
        return Some((Operator::LessOrEquals, end));
    }
    if let Some(end) = parse_symbol(input, pos, GREATER) {
        return Some((Operator::Greater, end));
    }
    if let Some(end) = parse_symbol(input, pos, LESS) {
        return Some((Operator::Less, end));
    }
    if let Some(end) = parse_symbol(input, pos, EQUALS) {
        return Some((Operator::Equals, end));
    }
    if let Some(end) = parse_symbol(input, pos, NOT_EQUALS) {
        return Some((Operator::NotEquals, end));
    }
    None
}

/// Reads a condition: a column name, a comparison operator and a literal.
pub fn parse_condition(input: &[char], pos: usize) -> (found: Option<(Condition, usize)>)
    requires
        pos <= input@.len(),
    ensures
        match found {
            Some((read, end)) => condition(input@, pos as int) == Some((read@, end as int))
                && pos < end <= input@.len(),
            None => condition(input@, pos as int) is None,
        },
{
    let (column, after_column) = match parse_identifier(input, pos) {
        Some(found) => found,
        None => return None,
    };
    let (operator, after_operator) = match parse_comparator(input, after_column) {
        Some(found) => found,
        None => return None,
    };
    let (value, end) = match parse_value(input, after_operator) {
        Some(found) => found,
        None => return None,
    };
    Some((Condition::new(column, operator, value), end))
}

/// Reads an assignment: a column name, `=` and a literal.
pub fn parse_assignment(input: &[char], pos: usize) -> (found: Option<((String, Value), usize)>)
    requires
        pos <= input@.len(),
    ensures
        match found {
            Some((read, end)) => assignment(input@, pos as int) == Some((read@, end as int))
                && pos < end <= input@.len(),
            None => assignment(input@, pos as int) is None,
        },
{
    let (column, after_column) = match parse_identifier(input, pos) {
        Some(found) => found,
        None => return None,
    };
    let after_equals = match parse_symbol(input, after_column, EQUALS) {
        Some(found) => found,
        None => return None,
    };
    let (value, end) = match parse_value(input, after_equals) {
        Some(found) => found,
        None => return None,
    };
    Some(((column, value), end))
}

/// Reads the names that follow the names `found`, each after a comma.
pub fn parse_more_identifiers(input: &[char], pos: usize, found: Vec<String>) -> (read: (
    Vec<String>,
    usize,
))
    requires
        pos <= input@.len(),
    ensures
        (models_of(read.0@), read.1 as int) == list_rest(
            identifier_rule(),
            comma_rule(),
            input@,
            pos as int,
            models_of(found@),
        ),
        pos <= read.1 <= input@.len(),
{
    let mut names = found;
    let mut end = pos;
    let mut done = false;
    while !done
        invariant
            pos <= end <= input@.len(),
            list_rest(identifier_rule(), comma_rule(), input@, end as int, models_of(names@))
                == list_rest(
                identifier_rule(),
                comma_rule(),
                input@,
                pos as int,
                models_of(found@),
            ),
            done ==> list_rest(
                identifier_rule(),
                comma_rule(),
                input@,
                end as int,
                models_of(names@),
            ) == (models_of(names@), end as int),
        decreases input@.len() - end, if done { 0int } else { 1int },
    {
        done = true;
        if let Some(after_comma) = parse_comma(input, end) {
            if let Some((name, after_name)) = parse_identifier(input, after_comma) {
                proof {
                    lemma_models_push(names@, name);
                }
                names.push(name);
                end = after_name;
                done = false;
            }
        }
    }
    (names, end)
}

/// Reads one or more names separated by commas.
pub fn parse_identifiers(input: &[char], pos: usize) -> (found: Option<(Vec<String>, usize)>)
    requires
        pos <= input@.len(),
    ensures
        match found {
            Some((names, end)) => list_of(identifier_rule(), comma_rule(), input@, pos as int)
                == Some((models_of(names@), end as int)) && pos < end <= input@.len(),
            None => list_of(identifier_rule(), comma_rule(), input@, pos as int) is None,
        },
{
    match parse_identifier(input, pos) {
        None => None,
        Some((first, after_first)) => {
            let mut names: Vec<String> = Vec::new();
            names.push(first);
            assert(models_of(names@) =~= seq![first@]);
            Some(parse_more_identifiers(input, after_first, names))
        },
    }
}

/// Reads one or more literals separated by commas.
pub fn parse_values(input: &[char], pos: usize) -> (found: Option<(Vec<Value>, usize)>)
    requires
        pos <= input@.len(),
    ensures
        match found {
            Some((values, end)) => list_of(value_rule(), comma_rule(), input@, pos as int)
                == Some((models_of(values@), end as int)) && pos < end <= input@.len(),
            None => list_of(value_rule(), comma_rule(), input@, pos as int) is None,
        },
{
    let (first, after_first) = match parse_value(input, pos) {
        Some(found) => found,
        None => return None,
    };
    let mut values: Vec<Value> = Vec::new();
    values.push(first);
    assert(models_of(values@) =~= seq![first@]);
    let mut end = after_first;
    let mut done = false;
    while !done
        invariant
            pos < end <= input@.len(),
            list_rest(value_rule(), comma_rule(), input@, end as int, models_of(values@))
                == list_rest(value_rule(), comma_rule(), input@, after_first as int, seq![first@]),
            done ==> list_rest(value_rule(), comma_rule(), input@, end as int, models_of(values@))
                == (models_of(values@), end as int),
        decreases input@.len() - end, if done { 0int } else { 1int },
    {
        done = true;
        if let Some(after_comma) = parse_comma(input, end) {
            if let Some((next, after_next)) = parse_value(input, after_comma) {
                proof {
                    lemma_models_push(values@, next);
                }
                values.push(next);
                end = after_next;
                done = false;
            }
        }
    }
    Some((values, end))
}

/// Reads one or more assignments separated by commas.
pub fn parse_assignments(input: &[char], pos: usize) -> (found: Option<
    (Vec<(String, Value)>, usize),
>)
    requires
        pos <= input@.len(),
    ensures
        match found {
            Some((values, end)) => list_of(assignment_rule(), comma_rule(), input@, pos as int)
                == Some((models_of(values@), end as int)) && pos < end <= input@.len(),
            None => list_of(assignment_rule(), comma_rule(), input@, pos as int) is None,
        },
{
    let (first, after_first) = match parse_assignment(input, pos) {
        Some(found) => found,
        None => return None,
    };
    let mut values: Vec<(String, Value)> = Vec::new();
    values.push(first);
    assert(models_of(values@) =~= seq![first@]);
    let mut end = after_first;
    let mut done = false;
    while !done
        invariant
            pos < end <= input@.len(),
            list_rest(assignment_rule(), comma_rule(), input@, end as int, models_of(values@))
                == list_rest(
                assignment_rule(),
                comma_rule(),
                input@,
                after_first as int,
                seq![first@],
            ),
            done ==> list_rest(
                assignment_rule(),
                comma_rule(),
                input@,
                end as int,
                models_of(values@),
            ) == (models_of(values@), end as int),
        decreases input@.len() - end, if done { 0int } else { 1int },
    {
        done = true;
        if let Some(after_comma) = parse_comma(input, end) {
            if let Some((next, after_next)) = parse_assignment(input, after_comma) {
                proof {
                    lemma_models_push(values@, next);
                }
                values.push(next);
                end = after_next;
                done = false;
            }
        }
    }
    Some((values, end))
}

/// Reads the conditions of a statement: none where no `WHERE` follows, else
/// one or more conditions joined by `AND`.
pub fn parse_conditions(input: &[char], pos: usize) -> (found: Option<(Vec<Condition>, usize)>)
    requires
        pos <= input@.len(),
    ensures
        match found {
            Some((conditions, end)) => where_clause(input@, pos as int) == Some(
                (models_of(conditions@), end as int),
            ) && pos <= end <= input@.len(),
            None => where_clause(input@, pos as int) is None,
        },
{
    let mut conditions: Vec<Condition> = Vec::new();
    let after_where = match parse_keyword(input, pos, WHERE) {
        Some(found) => found,
        None => {
            assert(models_of(conditions@) =~= Seq::empty());
            return Some((conditions, pos));
        },
    };
    let (first, after_first) = match parse_condition(input, after_where) {
        Some(found) => found,
        None => return None,
    };
    conditions.push(first);
    assert(models_of(conditions@) =~= seq![first@]);
    let mut end = after_first;
    let mut done = false;
    while !done
        invariant
            pos <= end <= input@.len(),
            list_rest(condition_rule(), and_rule(), input@, end as int, models_of(conditions@))
                == list_rest(
                condition_rule(),
                and_rule(),
                input@,
                after_first as int,
                seq![first@],
            ),
            done ==> list_rest(
                condition_rule(),
                and_rule(),
                input@,
                end as int,
                models_of(conditions@),
            ) == (models_of(conditions@), end as int),
        decreases input@.len() - end, if done { 0int } else { 1int },
    {
        done = true;
        if let Some(after_and) = parse_keyword(input, end, AND) {
            if let Some((next, after_next)) = parse_condition(input, after_and) {
                proof {
                    lemma_models_push(conditions@, next);
                }
                conditions.push(next);
                end = after_next;
                done = false;
            }
        }
    }
    Some((conditions, end))
}

/// Reads one or more names between parentheses.
pub fn parse_identifier_group(input: &[char], pos: usize) -> (found: Option<(Vec<String>, usize)>)
    requires
        pos <= input@.len(),
    ensures
        match found {
            Some((names, end)) => parenthesized(identifier_rule(), input@, pos as int) == Some(
                (models_of(names@), end as int),
            ) && pos < end <= input@.len(),
            None => parenthesized(identifier_rule(), input@, pos as int) is None,
        },
{
    let after_open = match parse_symbol(input, pos, OPEN) {
        Some(found) => found,
        None => return None,
    };
    let (names, after_names) = match parse_identifiers(input, after_open) {
        Some(found) => found,
        None => return None,
    };
    match parse_symbol(input, after_names, CLOSE) {
        Some(end) => Some((names, end)),
        None => None,
    }
}

/// Reads one or more literals between parentheses.
pub fn parse_value_group(input: &[char], pos: usize) -> (found: Option<(Vec<Value>, usize)>)
    requires
        pos <= input@.len(),
    ensures
        match found {
            Some((values, end)) => parenthesized(value_rule(), input@, pos as int) == Some(
                (models_of(values@), end as int),
            ) && pos < end <= input@.len(),
            None => parenthesized(value_rule(), input@, pos as int) is None,
        },
{
    let after_open = match parse_symbol(input, pos, OPEN) {
        Some(found) => found,
        None => return None,
    };
    let (values, after_values) = match parse_values(input, after_open) {
        Some(found) => found,
        None => return None,
    };
    match parse_symbol(input, after_values, CLOSE) {
        Some(end) => Some((values, end)),
        None => None,
    }
}

/// Parses `SELECT (* | name, ...) FROM table [WHERE ...]`. What follows the
/// statement is not read.
pub fn parse_select_query(input: &[char]) -> (result: Result<Query, QueryParsingError>)
    ensures
        outcome(result) == select_statement(input@),
{
    let after_select = match parse_keyword(input, 0, SELECT) {
        Some(end) => end,
        None => return Err(syntax_error(SELECT_KEYWORD, input, 0)),
    };
    let (columns, after_columns) = match parse_symbol(input, after_select, STAR) {
        Some(end) => {
            let columns: Vec<String> = Vec::new();
            assert(models_of(columns@) =~= Seq::empty());
            (columns, end)
        },
        None => match parse_identifiers(input, after_select) {
            Some(found) => found,
            None => return Err(syntax_error(SELECT_COLUMNS, input, after_select)),
        },
    };
    assert(select_columns(input@, after_select as int) == Some(
        (models_of(columns@), after_columns as int),
    ));
    let after_from = match parse_keyword(input, after_columns, FROM) {
        Some(end) => end,
        None => return Err(syntax_error(FROM_KEYWORD, input, after_columns)),
    };
    let (table, after_table) = match parse_identifier(input, after_from) {
        Some(found) => found,
        None => return Err(syntax_error(TABLE_NAME, input, after_from)),
    };
    let conditions = match parse_conditions(input, after_table) {
        Some((conditions, _)) => conditions,
        None => return Err(syntax_error(WHERE_CONDITION, input, after_table)),
    };
    Ok(
        Query::DataManipulationQuery(
            DataManipulationQuery::Select(SelectQuery::new(columns, table, conditions)),
        ),
    )
}

/// Parses `INSERT INTO table (name, ...) VALUES (literal, ...)`. The numbers
/// of names and of literals are not compared.
pub fn parse_insert(input: &[char]) -> (result: Result<Query, QueryParsingError>)
    ensures
        outcome(result) == insert_statement(input@),
{
    let after_insert = match parse_keyword(input, 0, INSERT_INTO) {
        Some(end) => end,
        None => return Err(syntax_error(INSERT_KEYWORD, input, 0)),
    };
    let (table, after_table) = match parse_identifier(input, after_insert) {
        Some(found) => found,
        None => return Err(syntax_error(TABLE_NAME, input, after_insert)),
    };
    let (columns, after_columns) = match parse_identifier_group(input, after_table) {
        Some(found) => found,
        None => return Err(syntax_error(INSERT_COLUMNS, input, after_table)),
    };
    let after_values = match parse_keyword(input, after_columns, VALUES) {
        Some(end) => end,
        None => return Err(syntax_error(VALUES_KEYWORD, input, after_columns)),
    };
    let values = match parse_value_group(input, after_values) {
        Some((values, _)) => values,
        None => return Err(syntax_error(VALUE_LIST, input, after_values)),
    };
    Ok(
        Query::DataManipulationQuery(
            DataManipulationQuery::Insert(InsertQuery::new(columns, table, values)),
        ),
    )
}

/// Parses `UPDATE table SET name = literal, ... [WHERE ...]`.
pub fn parse_update(input: &[char]) -> (result: Result<Query, QueryParsingError>)
    ensures
        outcome(result) == update_statement(input@),
{
    let after_update = match parse_keyword(input, 0, UPDATE) {
        Some(end) => end,
        None => return Err(syntax_error(UPDATE_KEYWORD, input, 0)),
    };
    let (table, after_table) = match parse_identifier(input, after_update) {
        Some(found) => found,
        None => return Err(syntax_error(PARSING_TABLE_NAME, input, after_update)),
    };
    let after_set = match parse_keyword(input, after_table, SET) {
        Some(end) => end,
        None => return Err(syntax_error(SET_KEYWORD, input, after_table)),
    };
    let (values, after_values) = match parse_assignments(input, after_set) {
        Some(found) => found,
        None => return Err(syntax_error(VALUE_LIST, input, after_set)),
    };
    let conditions = match parse_conditions(input, after_values) {
        Some((conditions, _)) => conditions,
        None => return Err(syntax_error(WHERE_CONDITION, input, after_values)),
    };
    Ok(
        Query::DataManipulationQuery(
            DataManipulationQuery::Update(UpdateQuery::new(table, values, conditions)),
        ),
    )
}

/// Reads what follows the `FROM` of a `DELETE`: the table and the conditions.
fn parse_delete_target(input: &[char], pos: usize, columns: Vec<String>) -> (result: Result<
    Query,
    QueryParsingError,
>)
    requires
        pos <= input@.len(),
    ensures
        outcome(result) == delete_target(input@, pos as int, models_of(columns@)),
{
    let (table, after_table) = match parse_identifier(input, pos) {
        Some(found) => found,
        None => return Err(syntax_error(PARSING_TABLE_NAME, input, pos)),
    };
    let conditions = match parse_conditions(input, after_table) {
        Some((conditions, _)) => conditions,
        None => return Err(syntax_error(WHERE_CONDITION, input, after_table)),
    };
    Ok(
        Query::DataManipulationQuery(
            DataManipulationQuery::Delete(DeleteQuery::new(columns, table, conditions)),
        ),
    )
}

/// Parses `DELETE [name, ...] FROM table [WHERE ...]`. Where `FROM` follows
/// `DELETE` at once the statement deletes rows and has no column names; only
/// else a list of names is read.
pub fn parse_delete(input: &[char]) -> (result: Result<Query, QueryParsingError>)
    ensures
        outcome(result) == delete_statement(input@),
{
    let after_delete = match parse_keyword(input, 0, DELETE) {
        Some(end) => end,
        None => return Err(syntax_error(DELETE_KEYWORD, input, 0)),
    };
    if let Some(after_from) = parse_keyword(input, after_delete, FROM) {
        let columns: Vec<String> = Vec::new();
        assert(models_of(columns@) =~= Seq::empty());
        return parse_delete_target(input, after_from, columns);
    }
    let (columns, after_columns) = match parse_identifiers(input, after_delete) {
        Some(found) => found,
        None => return Err(syntax_error(DELETE_COLUMNS, input, after_delete)),
    };
    match parse_keyword(input, after_columns, FROM) {
        Some(after_from) => parse_delete_target(input, after_from, columns),
        None => Err(syntax_error(DELETE_FROM, input, after_columns)),
    }
}

} // verus!
