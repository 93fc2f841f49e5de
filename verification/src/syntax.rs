use vstd::prelude::*;
use crate::grammar::{added, added_all, dropped, dropped_all};
use crate::keyword::{
    ADD, ALTER_TABLE, AND, CLOSE, COMMA, CREATE_TABLE, DELETE, DROP, DROP_TABLE, EQUALS, FROM,
    INSERT_INTO, OPEN, PRIMARY_KEY, SELECT, SET, STAR, UPDATE, VALUES, WHERE,
};
use crate::query::{AlterModel, ColumnModel, ConditionModel, ValueModel};
use crate::token::{list_tokens, more_tokens, Token};

verus! {

// The tokens that a statement is written with, part by part. Between two
// tokens any whitespace may stand, and a keyword may be in any case.

/// A keyword.
pub open spec fn word(text: Seq<char>) -> Token {
    Token::Keyword(text)
}

/// A punctuation mark.
pub open spec fn mark(text: Seq<char>) -> Token {
    Token::Mark(text)
}

/// The comma between the items of a list.
pub open spec fn comma() -> Token {
    Token::Mark(COMMA@)
}

/// A name is one token.
pub open spec fn name_tokens() -> spec_fn(Seq<char>) -> Seq<Token> {
    |name: Seq<char>| seq![Token::Name(name)]
}

/// A literal is one token.
pub open spec fn value_tokens() -> spec_fn(ValueModel) -> Seq<Token> {
    |value: ValueModel| seq![Token::Literal(value)]
}

/// `column operator literal`
pub open spec fn condition_tokens() -> spec_fn(ConditionModel) -> Seq<Token> {
    |condition: ConditionModel|
        seq![
            Token::Name(condition.column),
            Token::Comparison(condition.operator),
            Token::Literal(condition.value),
        ]
}

/// `column = literal`
pub open spec fn assignment_tokens() -> spec_fn((Seq<char>, ValueModel)) -> Seq<Token> {
    |assignment: (Seq<char>, ValueModel)|
        seq![Token::Name(assignment.0), Token::Mark(EQUALS@), Token::Literal(assignment.1)]
}

/// `name type`
pub open spec fn column_tokens() -> spec_fn(ColumnModel) -> Seq<Token> {
    |column: ColumnModel| seq![Token::Name(column.name), Token::Type(column.column_type)]
}

/// Names with commas between them.
pub open spec fn names(names: Seq<Seq<char>>) -> Seq<Token> {
    list_tokens(names, name_tokens(), comma())
}

/// `( item, ... )`
pub open spec fn group<T>(items: Seq<T>, item_tokens: spec_fn(T) -> Seq<Token>) -> Seq<Token> {
    seq![mark(OPEN@)] + (list_tokens(items, item_tokens, comma()) + seq![mark(CLOSE@)])
}

/// `*` for no columns, else the names of the columns.
pub open spec fn projection_tokens(columns: Seq<Seq<char>>) -> Seq<Token> {
    if columns.len() == 0 {
        seq![mark(STAR@)]
    } else {
        names(columns)
    }
}

/// Nothing for no conditions, else `WHERE condition AND ...`
pub open spec fn where_tokens(conditions: Seq<ConditionModel>) -> Seq<Token> {
    if conditions.len() == 0 {
        Seq::empty()
    } else {
        seq![word(WHERE@)] + list_tokens(conditions, condition_tokens(), word(AND@))
    }
}

/// `SELECT (* | name, ...) FROM table [WHERE ...]`
pub open spec fn select_tokens(
    columns: Seq<Seq<char>>,
    table: Seq<char>,
    conditions: Seq<ConditionModel>,
) -> Seq<Token> {
    seq![word(SELECT@)] + (projection_tokens(columns) + (seq![word(FROM@)] + (seq![
        Token::Name(table),
    ] + where_tokens(conditions))))
}

/// `INSERT INTO table (name, ...) VALUES (literal, ...)`
pub open spec fn insert_tokens(
    columns: Seq<Seq<char>>,
    table: Seq<char>,
    values: Seq<ValueModel>,
) -> Seq<Token> {
    seq![word(INSERT_INTO@)] + (seq![Token::Name(table)] + (group(columns, name_tokens()) + (seq![
        word(VALUES@),
    ] + group(values, value_tokens()))))
}

/// `UPDATE table SET name = literal, ... [WHERE ...]`
pub open spec fn update_tokens(
    table: Seq<char>,
    values: Seq<(Seq<char>, ValueModel)>,
    conditions: Seq<ConditionModel>,
) -> Seq<Token> {
    seq![word(UPDATE@)] + (seq![Token::Name(table)] + (seq![word(SET@)] + (list_tokens(
        values,
        assignment_tokens(),
        comma(),
    ) + where_tokens(conditions))))
}

/// `DELETE [name, ...] FROM table [WHERE ...]`
pub open spec fn delete_tokens(
    columns: Seq<Seq<char>>,
    table: Seq<char>,
    conditions: Seq<ConditionModel>,
) -> Seq<Token> {
    let target = seq![word(FROM@)] + (seq![Token::Name(table)] + where_tokens(conditions));
    if columns.len() == 0 {
        seq![word(DELETE@)] + target
    } else {
        seq![word(DELETE@)] + (names(columns) + target)
    }
}

/// `DROP TABLE table`
pub open spec fn drop_table_tokens(table: Seq<char>) -> Seq<Token> {
    seq![word(DROP_TABLE@)] + seq![Token::Name(table)]
}

/// `CREATE TABLE table (name type PRIMARY KEY, name type, ...)`
pub open spec fn create_inline_tokens(table: Seq<char>, columns: Seq<ColumnModel>) -> Seq<Token> {
    seq![word(CREATE_TABLE@)] + (seq![Token::Name(table)] + (seq![mark(OPEN@)] + (column_tokens()(
        columns[0],
    ) + (seq![word(PRIMARY_KEY@)] + (more_tokens(columns, 1, column_tokens(), comma()) + seq![
        mark(CLOSE@),
    ])))))
}

/// The names of a clustering key, which may be none.
pub open spec fn clustering_tokens(clustering_key: Seq<Seq<char>>) -> Seq<Token> {
    if clustering_key.len() == 0 {
        Seq::empty()
    } else {
        names(clustering_key)
    }
}

/// `((name, ...), name, ...)`: the partition key in parentheses of its own, a
/// comma and the clustering key.
pub open spec fn grouped_key_tokens(
    partition_key: Seq<Seq<char>>,
    clustering_key: Seq<Seq<char>>,
) -> Seq<Token> {
    seq![mark(OPEN@)] + (group(partition_key, name_tokens()) + (seq![comma()] + (
    clustering_tokens(clustering_key) + seq![mark(CLOSE@)])))
}

/// `(name, ...)`: the key as one list of names.
pub open spec fn flat_key_tokens(key: Seq<Seq<char>>) -> Seq<Token> {
    group(key, name_tokens())
}

/// `CREATE TABLE table (name type, ..., PRIMARY KEY key)`
pub open spec fn create_tokens(
    table: Seq<char>,
    columns: Seq<ColumnModel>,
    key: Seq<Token>,
) -> Seq<Token> {
    seq![word(CREATE_TABLE@)] + (seq![Token::Name(table)] + (seq![mark(OPEN@)] + (list_tokens(
        columns,
        column_tokens(),
        comma(),
    ) + (seq![comma()] + (seq![word(PRIMARY_KEY@)] + (key + seq![mark(CLOSE@)]))))))
}

/// A clause of `ALTER TABLE` as it is written: for one column or for a list
/// of them in parentheses.
pub enum Clause {
    Add(ColumnModel),
    AddAll(Seq<ColumnModel>),
    Drop(Seq<char>),
    DropAll(Seq<Seq<char>>),
}

/// The entries that a clause stands for.
pub open spec fn clause_entries(clause: Clause) -> Seq<AlterModel> {
    match clause {
        Clause::Add(column) => seq![added(column)],
        Clause::AddAll(columns) => added_all(columns),
        Clause::Drop(name) => seq![dropped(name)],
        Clause::DropAll(names) => dropped_all(names),
    }
}

/// The entries of the first `count` clauses, in the order of the clauses.
pub open spec fn entries_of(clauses: Seq<Clause>, count: int) -> Seq<AlterModel>
    decreases count,
{
    if count <= 0 {
        Seq::empty()
    } else {
        entries_of(clauses, count - 1) + clause_entries(clauses[count - 1])
    }
}

/// `ADD name type`, `ADD (name type, ...)`, `DROP name` or `DROP (name, ...)`
pub open spec fn clause_tokens() -> spec_fn(Clause) -> Seq<Token> {
    |clause: Clause|
        match clause {
            Clause::Add(column) => seq![word(ADD@)] + column_tokens()(column),
            Clause::AddAll(columns) => seq![word(ADD@)] + group(columns, column_tokens()),
            Clause::Drop(name) => seq![word(DROP@)] + seq![Token::Name(name)],
            Clause::DropAll(names) => seq![word(DROP@)] + group(names, name_tokens()),
        }
}

/// A clause that lists columns lists at least one.
pub open spec fn clause_filled(clause: Clause) -> bool {
    match clause {
        Clause::AddAll(columns) => columns.len() > 0,
        Clause::DropAll(names) => names.len() > 0,
        _ => true,
    }
}

/// `ALTER TABLE table clause, ...`
pub open spec fn alter_tokens(table: Seq<char>, clauses: Seq<Clause>) -> Seq<Token> {
    seq![word(ALTER_TABLE@)] + (seq![Token::Name(table)] + list_tokens(
        clauses,
        clause_tokens(),
        comma(),
    ))
}

} // verus!
