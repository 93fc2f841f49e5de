use vstd::prelude::*;
use crate::keyword::{
    ADD, ALTER_TABLE, AND, BOOL, CLOSE, COMMA, CREATE_TABLE, DELETE, DOUBLE, DROP, DROP_TABLE,
    EQUALS, FALSE, FLOAT, FROM, GREATER, GREATER_OR_EQUALS, INSERT_INTO, INT, LESS,
    LESS_OR_EQUALS, LONG, NOT_EQUALS, OPEN, PRIMARY_KEY, SELECT, SET, STAR, TEXT, TIMESTAMP,
    TRUE, UPDATE, UUID, VALUES, WHERE,
};
use crate::message::{
    ALTER_CLAUSE, ALTER_KEYWORD, CANNOT_PARSE_TABLE, COMPOSITE_KEY, CREATE_KEYWORD,
    DELETE_COLUMNS, DELETE_FROM, DELETE_KEYWORD, DROP_KEYWORD, FROM_KEYWORD, INSERT_COLUMNS,
    INSERT_KEYWORD, PARSING_TABLE_NAME, SELECT_COLUMNS, SELECT_KEYWORD, SET_KEYWORD, SIMPLE_KEY,
    TABLE_NAME, UPDATE_KEYWORD, VALUES_KEYWORD, VALUE_LIST, WHERE_CONDITION,
};
use crate::query::{
    AlterModel, ColumnModel, ColumnType, ConditionModel, ErrorModel, Operator, PrimaryKeyModel,
    QueryModel, QueryType, ValueModel,
};
use crate::text::{decimal, run_end, same_letter, CharClass};

verus! {

// The rules below read a text from a position. A rule that matches gives what
// it read and the position after it; every lexical rule passes over the
// whitespace before and after what it reads.

/// The position after the whitespace that starts at `pos`.
pub open spec fn skip_spaces(s: Seq<char>, pos: int) -> int {
    run_end(s, pos, CharClass::Space)
}

/// The text from `pos` to its end.
pub open spec fn rest(s: Seq<char>, pos: int) -> Seq<char> {
    s.subrange(pos, s.len() as int)
}

/// The characters of `literal` stand in `s` from `pos` on.
pub open spec fn literal_at(s: Seq<char>, pos: int, literal: Seq<char>) -> bool {
    &&& 0 <= pos
    &&& pos + literal.len() <= s.len()
    &&& forall|i: int| 0 <= i < literal.len() ==> s[pos + i] == #[trigger] literal[i]
}

/// The characters of `word` stand in `s` from `pos` on, in any case of their
/// ASCII letters.
pub open spec fn word_at(s: Seq<char>, pos: int, word: Seq<char>) -> bool {
    &&& 0 <= pos
    &&& pos + word.len() <= s.len()
    &&& forall|i: int| 0 <= i < word.len() ==> same_letter(s[pos + i], #[trigger] word[i])
}

/// A punctuation mark or an operator, written exactly.
pub open spec fn symbol(s: Seq<char>, pos: int, literal: Seq<char>) -> Option<int> {
    let start = skip_spaces(s, pos);
    if literal_at(s, start, literal) {
        Some(skip_spaces(s, start + literal.len()))
    } else {
        None
    }
}

/// A keyword, written in any case. Nothing is asked of the character after it.
pub open spec fn keyword(s: Seq<char>, pos: int, word: Seq<char>) -> Option<int> {
    let start = skip_spaces(s, pos);
    if word_at(s, start, word) {
        Some(skip_spaces(s, start + word.len()))
    } else {
        None
    }
}

/// A name: the longest run of alphabetic characters and underscores, which
/// must not be empty.
pub open spec fn identifier(s: Seq<char>, pos: int) -> Option<(Seq<char>, int)> {
    let start = skip_spaces(s, pos);
    let end = run_end(s, start, CharClass::Name);
    if start < end {
        Some((s.subrange(start, end), skip_spaces(s, end)))
    } else {
        None
    }
}

/// A floating-point literal: an optional `-`, digits, a `.` and digits. It
/// gives the literal as it is written.
pub open spec fn float_literal(s: Seq<char>, pos: int) -> Option<(Seq<char>, int)> {
    let start = skip_spaces(s, pos);
    let digits = if 0 <= start < s.len() && s[start] == '-' {
        start + 1
    } else {
        start
    };
    let dot = run_end(s, digits, CharClass::Digit);
    let end = run_end(s, dot + 1, CharClass::Digit);
    if digits < dot && dot < s.len() && s[dot] == '.' && dot + 1 < end {
        Some((s.subrange(start, end), skip_spaces(s, end)))
    } else {
        None
    }
}

/// An integer literal: an optional `+` or `-` and digits that spell a number
/// of 64 bits with a sign.
pub open spec fn integer_literal(s: Seq<char>, pos: int) -> Option<(i64, int)> {
    let start = skip_spaces(s, pos);
    let negative = 0 <= start < s.len() && s[start] == '-';
    let digits = if 0 <= start < s.len() && (s[start] == '-' || s[start] == '+') {
        start + 1
    } else {
        start
    };
    let end = run_end(s, digits, CharClass::Digit);
    let magnitude = decimal(s.subrange(digits, end));
    let number = if negative {
        -magnitude
    } else {
        magnitude
    };
    if digits < end && i64::MIN <= number <= i64::MAX {
        Some((number as i64, skip_spaces(s, end)))
    } else {
        None
    }
}

/// A string literal: one or more characters other than `'` between two `'`.
pub open spec fn string_literal(s: Seq<char>, pos: int) -> Option<(Seq<char>, int)> {
    let start = skip_spaces(s, pos);
    let end = run_end(s, start + 1, CharClass::Quoted);
    if 0 <= start < s.len() && s[start] == '\'' && start + 1 < end && end < s.len() {
        Some((s.subrange(start + 1, end), skip_spaces(s, end + 1)))
    } else {
        None
    }
}

/// A literal: the first that matches of a floating-point literal, an integer
/// literal, `FALSE`, `TRUE` and a string literal.
pub open spec fn value(s: Seq<char>, pos: int) -> Option<(ValueModel, int)> {
    match float_literal(s, pos) {
        Some((text, end)) => Some((ValueModel::Float(text), end)),
        None => match integer_literal(s, pos) {
            Some((number, end)) => Some((ValueModel::Integer(number), end)),
            None => match keyword(s, pos, FALSE@) {
                Some(end) => Some((ValueModel::Bool(false), end)),
                None => match keyword(s, pos, TRUE@) {
                    Some(end) => Some((ValueModel::Bool(true), end)),
                    None => match string_literal(s, pos) {
                        Some((text, end)) => Some((ValueModel::String(text), end)),
                        None => None,
                    },
                },
            },
        },
    }
}

/// A comparison operator: the first that matches of `>=`, `<=`, `>`, `<`, `=`
/// and `!=`.
pub open spec fn comparator(s: Seq<char>, pos: int) -> Option<(Operator, int)> {
    match symbol(s, pos, GREATER_OR_EQUALS@) {
        Some(end) => Some((Operator::GreaterOrEquals, end)),
        None => match symbol(s, pos, LESS_OR_EQUALS@) {
            Some(end) => Some((Operator::LessOrEquals, end)),
            None => match symbol(s, pos, GREATER@) {
                Some(end) => Some((Operator::Greater, end)),
                None => match symbol(s, pos, LESS@) {
                    Some(end) => Some((Operator::Less, end)),
                    None => match symbol(s, pos, EQUALS@) {
                        Some(end) => Some((Operator::Equals, end)),
                        None => match symbol(s, pos, NOT_EQUALS@) {
                            Some(end) => Some((Operator::NotEquals, end)),
                            None => None,
                        },
                    },
                },
            },
        },
    }
}

/// A condition: a column name, a comparison operator and a literal.
pub open spec fn condition(s: Seq<char>, pos: int) -> Option<(ConditionModel, int)> {
    match identifier(s, pos) {
        None => None,
        Some((column, after_column)) => match comparator(s, after_column) {
            None => None,
            Some((operator, after_operator)) => match value(s, after_operator) {
                None => None,
                Some((value, end)) => Some((ConditionModel { column, operator, value }, end)),
            },
        },
    }
}

/// A column type: the first that matches of the eight type keywords.
pub open spec fn column_type(s: Seq<char>, pos: int) -> Option<(ColumnType, int)> {
    match keyword(s, pos, UUID@) {
        Some(end) => Some((ColumnType::Uuid, end)),
        None => match keyword(s, pos, INT@) {
            Some(end) => Some((ColumnType::Int, end)),
            None => match keyword(s, pos, LONG@) {
                Some(end) => Some((ColumnType::Long, end)),
                None => match keyword(s, pos, FLOAT@) {
                    Some(end) => Some((ColumnType::Float, end)),
                    None => match keyword(s, pos, DOUBLE@) {
                        Some(end) => Some((ColumnType::Double, end)),
                        None => match keyword(s, pos, TIMESTAMP@) {
                            Some(end) => Some((ColumnType::Timestamp, end)),
                            None => match keyword(s, pos, TEXT@) {
                                Some(end) => Some((ColumnType::Text, end)),
                                None => match keyword(s, pos, BOOL@) {
                                    Some(end) => Some((ColumnType::Bool, end)),
                                    None => None,
                                },
                            },
                        },
                    },
                },
            },
        },
    }
}

/// A column definition: a name and a type.
pub open spec fn column_definition(s: Seq<char>, pos: int) -> Option<(ColumnModel, int)> {
    match identifier(s, pos) {
        None => None,
        Some((name, after_name)) => match column_type(s, after_name) {
            None => None,
            Some((column_type, end)) => Some((ColumnModel { name, column_type }, end)),
        },
    }
}

/// An assignment: a column name, `=` and a literal.
pub open spec fn assignment(s: Seq<char>, pos: int) -> Option<((Seq<char>, ValueModel), int)> {
    match identifier(s, pos) {
        None => None,
        Some((column, after_column)) => match symbol(s, after_column, EQUALS@) {
            None => None,
            Some(after_equals) => match value(s, after_equals) {
                None => None,
                Some((value, end)) => Some(((column, value), end)),
            },
        },
    }
}

/// The rules as values, for the lists that are made of them.
pub open spec fn identifier_rule() -> spec_fn(Seq<char>, int) -> Option<(Seq<char>, int)> {
    |s: Seq<char>, pos: int| identifier(s, pos)
}

pub open spec fn value_rule() -> spec_fn(Seq<char>, int) -> Option<(ValueModel, int)> {
    |s: Seq<char>, pos: int| value(s, pos)
}

pub open spec fn condition_rule() -> spec_fn(Seq<char>, int) -> Option<(ConditionModel, int)> {
    |s: Seq<char>, pos: int| condition(s, pos)
}

pub open spec fn column_rule() -> spec_fn(Seq<char>, int) -> Option<(ColumnModel, int)> {
    |s: Seq<char>, pos: int| column_definition(s, pos)
}

pub open spec fn assignment_rule() -> spec_fn(Seq<char>, int) -> Option<
    ((Seq<char>, ValueModel), int),
> {
    |s: Seq<char>, pos: int| assignment(s, pos)
}

pub open spec fn comma_rule() -> spec_fn(Seq<char>, int) -> Option<int> {
    |s: Seq<char>, pos: int| symbol(s, pos, COMMA@)
}

pub open spec fn and_rule() -> spec_fn(Seq<char>, int) -> Option<int> {
    |s: Seq<char>, pos: int| keyword(s, pos, AND@)
}

/// The rest of a list after the items `found`: as long as a separator and
/// then an item match, the item is added. A separator that no item follows is
/// not read, and an item that would not move forward ends the list.
pub open spec fn list_rest<T>(
    item: spec_fn(Seq<char>, int) -> Option<(T, int)>,
    separator: spec_fn(Seq<char>, int) -> Option<int>,
    s: Seq<char>,
    pos: int,
    found: Seq<T>,
) -> (Seq<T>, int)
    decreases s.len() - pos,
{
    match separator(s, pos) {
        None => (found, pos),
        Some(after_separator) => match item(s, after_separator) {
            None => (found, pos),
            Some((next, end)) => if pos < end <= s.len() {
                list_rest(item, separator, s, end, found.push(next))
            } else {
                (found, pos)
            },
        },
    }
}

/// A list of one or more items.
pub open spec fn list_of<T>(
    item: spec_fn(Seq<char>, int) -> Option<(T, int)>,
    separator: spec_fn(Seq<char>, int) -> Option<int>,
    s: Seq<char>,
    pos: int,
) -> Option<(Seq<T>, int)> {
    match item(s, pos) {
        None => None,
        Some((first, end)) => Some(list_rest(item, separator, s, end, seq![first])),
    }
}

/// The rest of a list holds the items found before it and perhaps more.
pub proof fn lemma_list_rest_grows<T>(
    item: spec_fn(Seq<char>, int) -> Option<(T, int)>,
    separator: spec_fn(Seq<char>, int) -> Option<int>,
    s: Seq<char>,
    pos: int,
    found: Seq<T>,
)
    ensures
        list_rest(item, separator, s, pos, found).0.len() >= found.len(),
        list_rest(item, separator, s, pos, found).0.take(found.len() as int) == found,
    decreases s.len() - pos,
{
    let (items, _) = list_rest(item, separator, s, pos, found);
    match separator(s, pos) {
        None => {},
        Some(after_separator) => match item(s, after_separator) {
            None => {},
            Some((next, end)) => if pos < end <= s.len() {
                lemma_list_rest_grows(item, separator, s, end, found.push(next));
                assert(items.take(found.len() as int) =~= items.take(found.len() as int + 1).take(
                    found.len() as int,
                ));
                assert(found.push(next).take(found.len() as int) =~= found);
            },
        },
    }
    assert(found.take(found.len() as int) =~= found);
}

/// A list that matches has at least one item.
pub proof fn lemma_list_not_empty<T>(
    item: spec_fn(Seq<char>, int) -> Option<(T, int)>,
    separator: spec_fn(Seq<char>, int) -> Option<int>,
    s: Seq<char>,
    pos: int,
)
    ensures
        list_of(item, separator, s, pos) matches Some((items, _)) ==> items.len() > 0,
{
    match item(s, pos) {
        None => {},
        Some((first, end)) => {
            lemma_list_rest_grows(item, separator, s, end, seq![first]);
        },
    }
}

/// A list that may be empty.
pub open spec fn optional_list_of<T>(
    item: spec_fn(Seq<char>, int) -> Option<(T, int)>,
    separator: spec_fn(Seq<char>, int) -> Option<int>,
    s: Seq<char>,
    pos: int,
) -> (Seq<T>, int) {
    match item(s, pos) {
        None => (Seq::empty(), pos),
        Some((first, end)) => list_rest(item, separator, s, end, seq![first]),
    }
}

/// A list of one or more items between parentheses.
pub open spec fn parenthesized<T>(
    item: spec_fn(Seq<char>, int) -> Option<(T, int)>,
    s: Seq<char>,
    pos: int,
) -> Option<(Seq<T>, int)> {
    match symbol(s, pos, OPEN@) {
        None => None,
        Some(after_open) => match list_of(item, comma_rule(), s, after_open) {
            None => None,
            Some((items, after_items)) => match symbol(s, after_items, CLOSE@) {
                None => None,
                Some(end) => Some((items, end)),
            },
        },
    }
}

/// The conditions of a statement: none where no `WHERE` follows, else one or
/// more conditions joined by `AND`.
pub open spec fn where_clause(s: Seq<char>, pos: int) -> Option<(Seq<ConditionModel>, int)> {
    match keyword(s, pos, WHERE@) {
        None => Some((Seq::empty(), pos)),
        Some(after_where) => list_of(condition_rule(), and_rule(), s, after_where),
    }
}

/// The columns of a `SELECT`: `*`, which gives no names, or a list of names.
pub open spec fn select_columns(s: Seq<char>, pos: int) -> Option<(Seq<Seq<char>>, int)> {
    match symbol(s, pos, STAR@) {
        Some(end) => Some((Seq::empty(), end)),
        None => list_of(identifier_rule(), comma_rule(), s, pos),
    }
}

/// The error of a rule that did not match at `pos`: what was expected there, and
/// the text from there on.
pub open spec fn syntax_error(expected: Seq<char>, s: Seq<char>, pos: int) -> Result<
    QueryModel,
    ErrorModel,
> {
    Err(ErrorModel::QuerySyntaxError(expected, rest(s, pos)))
}

/// `SELECT (* | name, ...) FROM table [WHERE ...]`
pub open spec fn select_statement(s: Seq<char>) -> Result<QueryModel, ErrorModel> {
    match keyword(s, 0, SELECT@) {
        None => syntax_error(SELECT_KEYWORD@, s, 0),
        Some(at1) => match select_columns(s, at1) {
            None => syntax_error(SELECT_COLUMNS@, s, at1),
            Some((columns, at2)) => match keyword(s, at2, FROM@) {
                None => syntax_error(FROM_KEYWORD@, s, at2),
                Some(at3) => match identifier(s, at3) {
                    None => syntax_error(TABLE_NAME@, s, at3),
                    Some((table, at4)) => match where_clause(s, at4) {
                        None => syntax_error(WHERE_CONDITION@, s, at4),
                        Some((conditions, _)) => Ok(
                            QueryModel::Select { columns, table, conditions },
                        ),
                    },
                },
            },
        },
    }
}

/// `INSERT INTO table (name, ...) VALUES (literal, ...)`
pub open spec fn insert_statement(s: Seq<char>) -> Result<QueryModel, ErrorModel> {
    match keyword(s, 0, INSERT_INTO@) {
        None => syntax_error(INSERT_KEYWORD@, s, 0),
        Some(at1) => match identifier(s, at1) {
            None => syntax_error(TABLE_NAME@, s, at1),
            Some((table, at2)) => match parenthesized(identifier_rule(), s, at2) {
                None => syntax_error(INSERT_COLUMNS@, s, at2),
                Some((columns, at3)) => match keyword(s, at3, VALUES@) {
                    None => syntax_error(VALUES_KEYWORD@, s, at3),
                    Some(at4) => match parenthesized(value_rule(), s, at4) {
                        None => syntax_error(VALUE_LIST@, s, at4),
                        Some((values, _)) => Ok(QueryModel::Insert { columns, table, values }),
                    },
                },
            },
        },
    }
}

/// `UPDATE table SET name = literal, ... [WHERE ...]`
pub open spec fn update_statement(s: Seq<char>) -> Result<QueryModel, ErrorModel> {
    match keyword(s, 0, UPDATE@) {
        None => syntax_error(UPDATE_KEYWORD@, s, 0),
        Some(at1) => match identifier(s, at1) {
            None => syntax_error(PARSING_TABLE_NAME@, s, at1),
            Some((table, at2)) => match keyword(s, at2, SET@) {
                None => syntax_error(SET_KEYWORD@, s, at2),
                Some(at3) => match list_of(assignment_rule(), comma_rule(), s, at3) {
                    None => syntax_error(VALUE_LIST@, s, at3),
                    Some((values, at4)) => match where_clause(s, at4) {
                        None => syntax_error(WHERE_CONDITION@, s, at4),
                        Some((conditions, _)) => Ok(
                            QueryModel::Update { table, values, conditions },
                        ),
                    },
                },
            },
        },
    }
}

/// What follows the `FROM` of a `DELETE`: the table and the conditions.
pub open spec fn delete_target(s: Seq<char>, pos: int, columns: Seq<Seq<char>>) -> Result<
    QueryModel,
    ErrorModel,
> {
    match identifier(s, pos) {
        None => syntax_error(PARSING_TABLE_NAME@, s, pos),
        Some((table, at1)) => match where_clause(s, at1) {
            None => syntax_error(WHERE_CONDITION@, s, at1),
            Some((conditions, _)) => Ok(QueryModel::Delete { columns, table, conditions }),
        },
    }
}

/// `DELETE [name, ...] FROM table [WHERE ...]`: where `FROM` follows `DELETE`
/// at once the statement deletes rows; only else a list of names is read.
pub open spec fn delete_statement(s: Seq<char>) -> Result<QueryModel, ErrorModel> {
    match keyword(s, 0, DELETE@) {
        None => syntax_error(DELETE_KEYWORD@, s, 0),
        Some(at1) => match keyword(s, at1, FROM@) {
            Some(at2) => delete_target(s, at2, Seq::empty()),
            None => match list_of(identifier_rule(), comma_rule(), s, at1) {
                None => syntax_error(DELETE_COLUMNS@, s, at1),
                Some((columns, at2)) => match keyword(s, at2, FROM@) {
                    None => syntax_error(DELETE_FROM@, s, at2),
                    Some(at3) => delete_target(s, at3, columns),
                },
            },
        },
    }
}

/// Whether a table definition starts with `( name type PRIMARY KEY`.
pub open spec fn inline_key_ahead(s: Seq<char>, pos: int) -> bool {
    match symbol(s, pos, OPEN@) {
        None => false,
        Some(at1) => match column_definition(s, at1) {
            None => false,
            Some((_, at2)) => keyword(s, at2, PRIMARY_KEY@) is Some,
        },
    }
}

/// The columns of a table whose first column is its primary key:
/// `name type PRIMARY KEY [,] [name type, ...]`
pub open spec fn inline_key_columns(s: Seq<char>, pos: int) -> Option<
    ((Seq<ColumnModel>, PrimaryKeyModel), int),
> {
    match column_definition(s, pos) {
        None => None,
        Some((first, at1)) => match keyword(s, at1, PRIMARY_KEY@) {
            None => None,
            Some(at2) => {
                let at3 = match symbol(s, at2, COMMA@) {
                    Some(after_comma) => after_comma,
                    None => at2,
                };
                let (others, end) = optional_list_of(column_rule(), comma_rule(), s, at3);
                Some(
                    (
                        (
                            seq![first] + others,
                            PrimaryKeyModel {
                                partition_key: seq![first.name],
                                clustering_key: Seq::empty(),
                            },
                        ),
                        end,
                    ),
                )
            },
        },
    }
}

/// A primary key with its partition key in parentheses of its own:
/// `(name, ...), [name, ...]`
pub open spec fn grouped_key(s: Seq<char>, pos: int) -> Option<(PrimaryKeyModel, int)> {
    match parenthesized(identifier_rule(), s, pos) {
        None => None,
        Some((partition_key, at1)) => match symbol(s, at1, COMMA@) {
            None => None,
            Some(at2) => {
                let (clustering_key, end) = optional_list_of(
                    identifier_rule(),
                    comma_rule(),
                    s,
                    at2,
                );
                Some((PrimaryKeyModel { partition_key, clustering_key }, end))
            },
        },
    }
}

/// A primary key as one list of names: the first is the partition key, the
/// others are the clustering key.
pub open spec fn flat_key(s: Seq<char>, pos: int) -> Option<(PrimaryKeyModel, int)> {
    match list_of(identifier_rule(), comma_rule(), s, pos) {
        None => None,
        Some((names, end)) => Some(
            (
                PrimaryKeyModel {
                    partition_key: seq![names[0]],
                    clustering_key: names.subrange(1, names.len() as int),
                },
                end,
            ),
        ),
    }
}

/// The primary key clause after `PRIMARY KEY`: in parentheses, a grouped key
/// or else a flat one.
pub open spec fn composite_key(s: Seq<char>, pos: int) -> Option<(PrimaryKeyModel, int)> {
    match symbol(s, pos, OPEN@) {
        None => None,
        Some(at1) => {
            let key = match grouped_key(s, at1) {
                Some(found) => Some(found),
                None => flat_key(s, at1),
            };
            match key {
                None => None,
                Some((primary_key, at2)) => match symbol(s, at2, CLOSE@) {
                    None => None,
                    Some(end) => Some((primary_key, end)),
                },
            }
        },
    }
}

/// The columns of a table with a primary key clause:
/// `name type, ..., PRIMARY KEY ( ... )`
pub open spec fn composite_key_columns(s: Seq<char>, pos: int) -> Option<
    ((Seq<ColumnModel>, PrimaryKeyModel), int),
> {
    match list_of(column_rule(), comma_rule(), s, pos) {
        None => None,
        Some((columns, at1)) => match symbol(s, at1, COMMA@) {
            None => None,
            Some(at2) => match keyword(s, at2, PRIMARY_KEY@) {
                None => None,
                Some(at3) => match composite_key(s, at3) {
                    None => None,
                    Some((primary_key, end)) => Some(((columns, primary_key), end)),
                },
            },
        },
    }
}

/// The body of a table definition between its parentheses.
pub open spec fn table_body(s: Seq<char>, pos: int, inline: bool) -> Option<
    (Seq<ColumnModel>, PrimaryKeyModel),
> {
    match symbol(s, pos, OPEN@) {
        None => None,
        Some(at1) => {
            let body = if inline {
                inline_key_columns(s, at1)
            } else {
                composite_key_columns(s, at1)
            };
            match body {
                None => None,
                Some((definition, at2)) => match symbol(s, at2, CLOSE@) {
                    None => None,
                    Some(_) => Some(definition),
                },
            }
        },
    }
}

/// `CREATE TABLE table ( ... )`: the start of the body decides between the
/// two forms of a primary key.
pub open spec fn create_table_statement(s: Seq<char>) -> Result<QueryModel, ErrorModel> {
    match keyword(s, 0, CREATE_TABLE@) {
        None => syntax_error(CREATE_KEYWORD@, s, 0),
        Some(at1) => match identifier(s, at1) {
            None => syntax_error(CANNOT_PARSE_TABLE@, s, at1),
            Some((table, at2)) => {
                let inline = inline_key_ahead(s, at2);
                match table_body(s, at2, inline) {
                    None => syntax_error(
                        if inline {
                            SIMPLE_KEY@
                        } else {
                            COMPOSITE_KEY@
                        },
                        s,
                        at2,
                    ),
                    Some((columns, primary_key)) => Ok(
                        QueryModel::CreateTable { table, primary_key, columns },
                    ),
                }
            },
        },
    }
}

/// The entry for a column that a clause adds.
pub open spec fn added(column: ColumnModel) -> AlterModel {
    AlterModel::AddColumn { column_name: column.name, column_type: column.column_type }
}

/// The entry for a column that a clause drops.
pub open spec fn dropped(name: Seq<char>) -> AlterModel {
    AlterModel::DropColumn { column_name: name }
}

/// An entry for each column, in their order.
pub open spec fn added_all(columns: Seq<ColumnModel>) -> Seq<AlterModel> {
    columns.map_values(|column: ColumnModel| added(column))
}

/// An entry for each name, in their order.
pub open spec fn dropped_all(names: Seq<Seq<char>>) -> Seq<AlterModel> {
    names.map_values(|name: Seq<char>| dropped(name))
}

/// `ADD name type` or `ADD (name type, ...)`: one entry for each column.
pub open spec fn add_clause(s: Seq<char>, pos: int) -> Option<(Seq<AlterModel>, int)> {
    match keyword(s, pos, ADD@) {
        None => None,
        Some(at1) => match column_definition(s, at1) {
            Some((column, end)) => Some((seq![added(column)], end)),
            None => match parenthesized(column_rule(), s, at1) {
                None => None,
                Some((columns, end)) => Some((added_all(columns), end)),
            },
        },
    }
}

/// `DROP name` or `DROP (name, ...)`: one entry for each name.
pub open spec fn drop_clause(s: Seq<char>, pos: int) -> Option<(Seq<AlterModel>, int)> {
    match keyword(s, pos, DROP@) {
        None => None,
        Some(at1) => match identifier(s, at1) {
            Some((name, end)) => Some((seq![dropped(name)], end)),
            None => match parenthesized(identifier_rule(), s, at1) {
                None => None,
                Some((names, end)) => Some((dropped_all(names), end)),
            },
        },
    }
}

/// A clause of `ALTER TABLE`: an `ADD` clause or else a `DROP` clause.
pub open spec fn alter_clause(s: Seq<char>, pos: int) -> Option<(Seq<AlterModel>, int)> {
    match add_clause(s, pos) {
        Some(found) => Some(found),
        None => drop_clause(s, pos),
    }
}

/// The clauses after the entries `found`: as long as a comma and then a
/// clause match, the entries of the clause are added. A comma that no clause
/// follows is not read.
pub open spec fn alter_clauses_rest(s: Seq<char>, pos: int, found: Seq<AlterModel>) -> Seq<
    AlterModel,
>
    decreases s.len() - pos,
{
    match symbol(s, pos, COMMA@) {
        None => found,
        Some(after_comma) => match alter_clause(s, after_comma) {
            None => found,
            Some((entries, end)) => if pos < end <= s.len() {
                alter_clauses_rest(s, end, found + entries)
            } else {
                found
            },
        },
    }
}

/// `ALTER TABLE table clause, ...`
pub open spec fn alter_table_statement(s: Seq<char>) -> Result<QueryModel, ErrorModel> {
    match keyword(s, 0, ALTER_TABLE@) {
        None => syntax_error(ALTER_KEYWORD@, s, 0),
        Some(at1) => match identifier(s, at1) {
            None => syntax_error(CANNOT_PARSE_TABLE@, s, at1),
            Some((table, at2)) => match alter_clause(s, at2) {
                None => syntax_error(ALTER_CLAUSE@, s, at2),
                Some((entries, at3)) => Ok(
                    QueryModel::AlterTable {
                        table,
                        conditions: alter_clauses_rest(s, at3, entries),
                    },
                ),
            },
        },
    }
}

/// `DROP TABLE table`
pub open spec fn drop_table_statement(s: Seq<char>) -> Result<QueryModel, ErrorModel> {
    match keyword(s, 0, DROP_TABLE@) {
        None => syntax_error(DROP_KEYWORD@, s, 0),
        Some(at1) => match identifier(s, at1) {
            None => syntax_error(CANNOT_PARSE_TABLE@, s, at1),
            Some((table, _)) => Ok(QueryModel::DropTable { table }),
        },
    }
}

/// The kind of a statement: that of the first keyword that leads the text,
/// of `SELECT`, `INSERT INTO`, `UPDATE`, `DELETE`, `CREATE TABLE`,
/// `ALTER TABLE` and `DROP TABLE`.
pub open spec fn statement_kind(s: Seq<char>) -> Option<QueryType> {
    if keyword(s, 0, SELECT@) is Some {
        Some(QueryType::Select)
    } else if keyword(s, 0, INSERT_INTO@) is Some {
        Some(QueryType::Insert)
    } else if keyword(s, 0, UPDATE@) is Some {
        Some(QueryType::Update)
    } else if keyword(s, 0, DELETE@) is Some {
        Some(QueryType::Delete)
    } else if keyword(s, 0, CREATE_TABLE@) is Some {
        Some(QueryType::CreateTable)
    } else if keyword(s, 0, ALTER_TABLE@) is Some {
        Some(QueryType::AlterTable)
    } else if keyword(s, 0, DROP_TABLE@) is Some {
        Some(QueryType::DropTable)
    } else {
        None
    }
}

/// What a statement of a given kind parses to.
pub open spec fn statement_of_kind(kind: QueryType, s: Seq<char>) -> Result<
    QueryModel,
    ErrorModel,
> {
    match kind {
        QueryType::Select => select_statement(s),
        QueryType::Insert => insert_statement(s),
        QueryType::Update => update_statement(s),
        QueryType::Delete => delete_statement(s),
        QueryType::CreateTable => create_table_statement(s),
        QueryType::AlterTable => alter_table_statement(s),
        QueryType::DropTable => drop_table_statement(s),
    }
}

/// What a text parses to: the statement of its kind, or the text itself as
/// an unsupported request where no statement keyword leads it.
pub open spec fn statement(s: Seq<char>) -> Result<QueryModel, ErrorModel> {
    match statement_kind(s) {
        None => Err(ErrorModel::UnsupportedRequest(s)),
        Some(kind) => statement_of_kind(kind, s),
    }
}

} // verus!
