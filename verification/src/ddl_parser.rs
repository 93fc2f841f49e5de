use vstd::prelude::*;
use crate::common_parser::{
    parse_comma, parse_identifier, parse_keyword, parse_symbol, syntax_error,
};
use crate::dml_parser::{parse_identifier_group, parse_identifiers, parse_more_identifiers};
use crate::grammar::{
    add_clause, added, added_all, alter_clause, alter_clauses_rest, alter_table_statement,
    column_definition, column_rule, column_type, comma_rule, composite_key, composite_key_columns,
    create_table_statement, drop_clause, drop_table_statement, dropped, dropped_all, flat_key,
    grouped_key, identifier_rule, inline_key_ahead, inline_key_columns, lemma_list_not_empty,
    list_of, list_rest, optional_list_of, parenthesized, table_body,
};
use crate::keyword::{
    ADD, ALTER_TABLE, BOOL, CLOSE, CREATE_TABLE, DOUBLE, DROP, DROP_TABLE, FLOAT, INT, LONG, OPEN,
    PRIMARY_KEY, TEXT, TIMESTAMP, UUID,
};
use crate::message::{
    ALTER_CLAUSE, ALTER_KEYWORD, CANNOT_PARSE_TABLE, COMPOSITE_KEY, CREATE_KEYWORD, DROP_KEYWORD,
    SIMPLE_KEY,
};
use crate::query::{
    lemma_models_concat, lemma_models_push, models_of, outcome, AddColumnCondition,
    AlterTableCondition, AlterTableQuery, Column, ColumnType, CreateTableQuery, DataDefinitionQuery,
    DropColumnCondition, DropTableQuery, PrimaryKey, Query, QueryParsingError,
};

verus! {

/// Reads a column type: the first that matches of the eight type keywords.
pub fn parse_column_type(input: &[char], pos: usize) -> (found: Option<(ColumnType, usize)>)
    requires
        pos <= input@.len(),
    ensures
        match found {
            Some((read, end)) => column_type(input@, pos as int) == Some((read, end as int))
                && pos <= end <= input@.len(),
            None => column_type(input@, pos as int) is None,
        },
{
    if let Some(end) = parse_keyword(input, pos, UUID) {
        return Some((ColumnType::Uuid, end));
    }
    if let Some(end) = parse_keyword(input, pos, INT) {
        return Some((ColumnType::Int, end));
    }
    if let Some(end) = parse_keyword(input, pos, LONG) {
        return Some((ColumnType::Long, end));
    }
    if let Some(end) = parse_keyword(input, pos, FLOAT) {
        return Some((ColumnType::Float, end));
    }
    if let Some(end) = parse_keyword(input, pos, DOUBLE) {
        return Some((ColumnType::Double, end));
    }
    if let Some(end) = parse_keyword(input, pos, TIMESTAMP) {
        return Some((ColumnType::Timestamp, end));
    }
    if let Some(end) = parse_keyword(input, pos, TEXT) {
        return Some((ColumnType::Text, end));
    }
    if let Some(end) = parse_keyword(input, pos, BOOL) {
        return Some((ColumnType::Bool, end));
    }
    None
}

/// Reads a column definition: a name and a type.
pub fn parse_column(input: &[char], pos: usize) -> (found: Option<(Column, usize)>)
    requires
        pos <= input@.len(),
    ensures
        match found {
            Some((column, end)) => column_definition(input@, pos as int) == Some(
                (column@, end as int),
            ) && pos < end <= input@.len(),
            None => column_definition(input@, pos as int) is None,
        },
{
    let (name, after_name) = match parse_identifier(input, pos) {
        Some(found) => found,
        None => return None,
    };
    match parse_column_type(input, after_name) {
        Some((column_type, end)) => Some((Column { name, column_type }, end)),
        None => None,
    }
}

/// Reads the column definitions that follow the columns `found`, each after
/// a comma.
pub fn parse_more_columns(input: &[char], pos: usize, found: Vec<Column>) -> (read: (
    Vec<Column>,
    usize,
))
    requires
        pos <= input@.len(),
    ensures
        (models_of(read.0@), read.1 as int) == list_rest(
            column_rule(),
            comma_rule(),
            input@,
            pos as int,
            models_of(found@),
        ),
        pos <= read.1 <= input@.len(),
{
    let mut columns = found;
    let mut end = pos;
    let mut done = false;
    while !done
        invariant
            pos <= end <= input@.len(),
            list_rest(column_rule(), comma_rule(), input@, end as int, models_of(columns@))
                == list_rest(column_rule(), comma_rule(), input@, pos as int, models_of(found@)),
            done ==> list_rest(column_rule(), comma_rule(), input@, end as int, models_of(columns@))
                == (models_of(columns@), end as int),
        decreases input@.len() - end, if done { 0int } else { 1int },
    {
        done = true;
        if let Some(after_comma) = parse_comma(input, end) {
            if let Some((column, after_column)) = parse_column(input, after_comma) {
                proof {
                    lemma_models_push(columns@, column);
                }
                columns.push(column);
                end = after_column;
                done = false;
            }
        }
    }
    (columns, end)
}

/// Reads one or more column definitions separated by commas.
pub fn parse_columns(input: &[char], pos: usize) -> (found: Option<(Vec<Column>, usize)>)
    requires
        pos <= input@.len(),
    ensures
        match found {
            Some((columns, end)) => list_of(column_rule(), comma_rule(), input@, pos as int)
                == Some((models_of(columns@), end as int)) && pos < end <= input@.len(),
            None => list_of(column_rule(), comma_rule(), input@, pos as int) is None,
        },
{
    match parse_column(input, pos) {
        None => None,
        Some((first, after_first)) => {
            let mut columns: Vec<Column> = Vec::new();
            columns.push(first);
            assert(models_of(columns@) =~= seq![first@]);
            Some(parse_more_columns(input, after_first, columns))
        },
    }
}

/// Reads one or more column definitions between parentheses.
pub fn parse_column_group(input: &[char], pos: usize) -> (found: Option<(Vec<Column>, usize)>)
    requires
        pos <= input@.len(),
    ensures
        match found {
            Some((columns, end)) => parenthesized(column_rule(), input@, pos as int) == Some(
                (models_of(columns@), end as int),
            ) && pos < end <= input@.len(),
            None => parenthesized(column_rule(), input@, pos as int) is None,
        },
{
    let after_open = match parse_symbol(input, pos, OPEN) {
        Some(found) => found,
        None => return None,
    };
    let (columns, after_columns) = match parse_columns(input, after_open) {
        Some(found) => found,
        None => return None,
    };
    match parse_symbol(input, after_columns, CLOSE) {
        Some(end) => Some((columns, end)),
        None => None,
    }
}

/// Whether a table definition starts with `( name type PRIMARY KEY`, so that
/// its first column is its primary key.
pub fn is_single_pk(input: &[char], pos: usize) -> (inline: bool)
    requires
        pos <= input@.len(),
    ensures
        inline == inline_key_ahead(input@, pos as int),
{
    let after_open = match parse_symbol(input, pos, OPEN) {
        Some(found) => found,
        None => return false,
    };
    match parse_column(input, after_open) {
        Some((_, after_column)) => parse_keyword(input, after_column, PRIMARY_KEY).is_some(),
        None => false,
    }
}

/// Reads the columns of a table whose first column is its primary key:
/// `name type PRIMARY KEY [,] [name type, ...]`. The partition key is the
/// name of the first column and the clustering key is empty.
pub fn parse_create_table_with_single_pk(input: &[char], pos: usize) -> (found: Option<
    ((Vec<Column>, PrimaryKey), usize),
>)
    requires
        pos <= input@.len(),
    ensures
        match found {
            Some(((columns, primary_key), end)) => inline_key_columns(input@, pos as int) == Some(
                ((models_of(columns@), primary_key@), end as int),
            ) && pos < end <= input@.len(),
            None => inline_key_columns(input@, pos as int) is None,
        },
{
    let (first, after_first) = match parse_column(input, pos) {
        Some(found) => found,
        None => return None,
    };
    let after_key = match parse_keyword(input, after_first, PRIMARY_KEY) {
        Some(found) => found,
        None => return None,
    };
    let after_comma = match parse_comma(input, after_key) {
        Some(found) => found,
        None => after_key,
    };
    let mut partition_key: Vec<String> = Vec::new();
    partition_key.push(first.name.clone());
    let clustering_key: Vec<String> = Vec::new();
    let (mut others, end) = match parse_column(input, after_comma) {
        None => (Vec::new(), after_comma),
        Some((second, after_second)) => {
            let mut others: Vec<Column> = Vec::new();
            others.push(second);
            assert(models_of(others@) =~= seq![second@]);
            parse_more_columns(input, after_second, others)
        },
    };
    assert((models_of(others@), end as int) == optional_list_of(
        column_rule(),
        comma_rule(),
        input@,
        after_comma as int,
    )) by {
        assert(models_of(Seq::<Column>::empty()) =~= Seq::empty());
    }
    let mut columns: Vec<Column> = Vec::new();
    let ghost first_model = first@;
    columns.push(first);
    proof {
        assert(models_of(columns@) =~= seq![first_model]);
        lemma_models_concat(columns@, others@);
        assert(models_of(partition_key@) =~= seq![first_model.name]);
        assert(models_of(clustering_key@) =~= Seq::empty());
    }
    columns.append(&mut others);
    Some(((columns, PrimaryKey { partition_key, clustering_key }), end))
}

/// Reads a primary key with its partition key in parentheses of its own:
/// `(name, ...), [name, ...]`.
fn parse_grouped_key(input: &[char], pos: usize) -> (found: Option<(PrimaryKey, usize)>)
    requires
        pos <= input@.len(),
    ensures
        match found {
            Some((primary_key, end)) => grouped_key(input@, pos as int) == Some(
                (primary_key@, end as int),
            ) && pos < end <= input@.len(),
            None => grouped_key(input@, pos as int) is None,
        },
{
    let (partition_key, after_partition) = match parse_identifier_group(input, pos) {
        Some(found) => found,
        None => return None,
    };
    let after_comma = match parse_comma(input, after_partition) {
        Some(found) => found,
        None => return None,
    };
    let (clustering_key, end) = match parse_identifier(input, after_comma) {
        None => {
            let names: Vec<String> = Vec::new();
            assert(models_of(names@) =~= Seq::empty());
            (names, after_comma)
        },
        Some((first, after_first)) => {
            let mut names: Vec<String> = Vec::new();
            names.push(first);
            assert(models_of(names@) =~= seq![first@]);
            parse_more_identifiers(input, after_first, names)
        },
    };
    Some((PrimaryKey { partition_key, clustering_key }, end))
}

/// Reads a primary key as one list of names: the first is the partition key,
/// the others are the clustering key.
fn parse_flat_key(input: &[char], pos: usize) -> (found: Option<(PrimaryKey, usize)>)
    requires
        pos <= input@.len(),
    ensures
        match found {
            Some((primary_key, end)) => flat_key(input@, pos as int) == Some(
                (primary_key@, end as int),
            ) && pos < end <= input@.len(),
            None => flat_key(input@, pos as int) is None,
        },
{
    let (mut names, end) = match parse_identifiers(input, pos) {
        Some(found) => found,
        None => return None,
    };
    proof {
        lemma_list_not_empty(identifier_rule(), comma_rule(), input@, pos as int);
    }
    let ghost all = names@;
    let first = names.remove(0);
    let mut partition_key: Vec<String> = Vec::new();
    partition_key.push(first);
    proof {
        assert(models_of(partition_key@) =~= seq![models_of(all)[0]]);
        assert(models_of(names@) =~= models_of(all).subrange(1, all.len() as int));
    }
    Some((PrimaryKey { partition_key, clustering_key: names }, end))
}

/// Reads the primary key clause after `PRIMARY KEY`: in parentheses, either
/// `(name, ...), [name, ...]`, the partition key and the clustering key, or
/// else `name, ...`, where the first name is the partition key and the others
/// are the clustering key.
pub fn parse_composite_pk(input: &[char], pos: usize) -> (found: Option<(PrimaryKey, usize)>)
    requires
        pos <= input@.len(),
    ensures
        match found {
            Some((primary_key, end)) => composite_key(input@, pos as int) == Some(
                (primary_key@, end as int),
            ) && pos < end <= input@.len(),
            None => composite_key(input@, pos as int) is None,
        },
{
    let after_open = match parse_symbol(input, pos, OPEN) {
        Some(found) => found,
        None => return None,
    };
    let key = match parse_grouped_key(input, after_open) {
        Some(found) => Some(found),
        None => parse_flat_key(input, after_open),
    };
    let (primary_key, after_key) = match key {
        Some(found) => found,
        None => return None,
    };
    match parse_symbol(input, after_key, CLOSE) {
        Some(end) => Some((primary_key, end)),
        None => None,
    }
}

/// Reads the columns of a table with a primary key clause:
/// `name type, ..., PRIMARY KEY ( ... )`.
pub fn parse_create_table_with_composite_pk(input: &[char], pos: usize) -> (found: Option<
    ((Vec<Column>, PrimaryKey), usize),
>)
    requires
        pos <= input@.len(),
    ensures
        match found {
            Some(((columns, primary_key), end)) => composite_key_columns(input@, pos as int)
                == Some(((models_of(columns@), primary_key@), end as int)) && pos < end
                <= input@.len(),
            None => composite_key_columns(input@, pos as int) is None,
        },
{
    let (columns, after_columns) = match parse_columns(input, pos) {
        Some(found) => found,
        None => return None,
    };
    let after_comma = match parse_comma(input, after_columns) {
        Some(found) => found,
        None => return None,
    };
    let after_keyword = match parse_keyword(input, after_comma, PRIMARY_KEY) {
        Some(found) => found,
        None => return None,
    };
    match parse_composite_pk(input, after_keyword) {
        Some((primary_key, end)) => Some(((columns, primary_key), end)),
        None => None,
    }
}

/// Reads the body of a table definition between its parentheses, in the form
/// that `inline` names.
fn parse_table_body(input: &[char], pos: usize, inline: bool) -> (found: Option<
    (Vec<Column>, PrimaryKey),
>)
    requires
        pos <= input@.len(),
    ensures
        match found {
            Some((columns, primary_key)) => table_body(input@, pos as int, inline) == Some(
                (models_of(columns@), primary_key@),
            ),
            None => table_body(input@, pos as int, inline) is None,
        },
{
    let after_open = match parse_symbol(input, pos, OPEN) {
        Some(found) => found,
        None => return None,
    };
    let body = if inline {
        parse_create_table_with_single_pk(input, after_open)
    } else {
        parse_create_table_with_composite_pk(input, after_open)
    };
    let (definition, after_body) = match body {
        Some(found) => found,
        None => return None,
    };
    match parse_symbol(input, after_body, CLOSE) {
        Some(_) => Some(definition),
        None => None,
    }
}

/// Parses `CREATE TABLE table ( ... )`. Where the body starts with
/// `name type PRIMARY KEY` the first column is the primary key; else the body
/// ends with a primary key clause.
pub fn parse_create_table_query(input: &[char]) -> (result: Result<Query, QueryParsingError>)
    ensures
        outcome(result) == create_table_statement(input@),
{
    let after_create = match parse_keyword(input, 0, CREATE_TABLE) {
        Some(end) => end,
        None => return Err(syntax_error(CREATE_KEYWORD, input, 0)),
    };
    let (table, after_table) = match parse_identifier(input, after_create) {
        Some(found) => found,
        None => return Err(syntax_error(CANNOT_PARSE_TABLE, input, after_create)),
    };
    let inline = is_single_pk(input, after_table);
    match parse_table_body(input, after_table, inline) {
        Some((columns, primary_key)) => Ok(
            Query::DataDefinitionQuery(
                DataDefinitionQuery::CreateTable(CreateTableQuery { table, primary_key, columns }),
            ),
        ),
        None => if inline {
            Err(syntax_error(SIMPLE_KEY, input, after_table))
        } else {
            Err(syntax_error(COMPOSITE_KEY, input, after_table))
        },
    }
}

/// An `ADD` entry for each column, in their order.
fn add_columns(columns: Vec<Column>) -> (entries: Vec<AlterTableCondition>)
    ensures
        models_of(entries@) == added_all(models_of(columns@)),
{
    let ghost all = columns@;
    let mut entries: Vec<AlterTableCondition> = Vec::new();
    for column in it: columns
        invariant
            it.seq() == all,
            models_of(entries@) =~= added_all(models_of(all.take(it.index()))),
    {
        let ghost before = entries@;
        entries.push(
            AlterTableCondition::AddColumn(
                AddColumnCondition { column_name: column.name, column_type: column.column_type },
            ),
        );
        proof {
            lemma_models_push(before, entries@.last());
            assert(all.take(it.index() + 1) =~= all.take(it.index()).push(column));
            lemma_models_push(all.take(it.index()), column);
        }
    }
    assert(all.take(all.len() as int) =~= all);
    entries
}

/// A `DROP` entry for each name, in their order.
fn drop_columns(names: Vec<String>) -> (entries: Vec<AlterTableCondition>)
    ensures
        models_of(entries@) == dropped_all(models_of(names@)),
{
    let ghost all = names@;
    let mut entries: Vec<AlterTableCondition> = Vec::new();
    for name in it: names
        invariant
            it.seq() == all,
            models_of(entries@) =~= dropped_all(models_of(all.take(it.index()))),
    {
        let ghost before = entries@;
        entries.push(AlterTableCondition::DropColumn(DropColumnCondition { column_name: name }));
        proof {
            lemma_models_push(before, entries@.last());
            assert(all.take(it.index() + 1) =~= all.take(it.index()).push(name));
            lemma_models_push(all.take(it.index()), name);
        }
    }
    assert(all.take(all.len() as int) =~= all);
    entries
}

/// Reads `ADD name type` or `ADD (name type, ...)`, which gives one entry
/// for each column.
pub fn parse_add_column(input: &[char], pos: usize) -> (found: Option<
    (Vec<AlterTableCondition>, usize),
>)
    requires
        pos <= input@.len(),
    ensures
        match found {
            Some((entries, end)) => add_clause(input@, pos as int) == Some(
                (models_of(entries@), end as int),
            ) && pos < end <= input@.len(),
            None => add_clause(input@, pos as int) is None,
        },
{
    proof {
        reveal_strlit("ADD");
    }
    let after_add = match parse_keyword(input, pos, ADD) {
        Some(found) => found,
        None => return None,
    };
    if let Some((column, end)) = parse_column(input, after_add) {
        let mut entries: Vec<AlterTableCondition> = Vec::new();
        entries.push(
            AlterTableCondition::AddColumn(
                AddColumnCondition { column_name: column.name, column_type: column.column_type },
            ),
        );
        assert(models_of(entries@) =~= seq![added(column@)]);
        return Some((entries, end));
    }
    match parse_column_group(input, after_add) {
        Some((columns, end)) => Some((add_columns(columns), end)),
        None => None,
    }
}

/// Reads `DROP name` or `DROP (name, ...)`, which gives one entry for each
/// name.
pub fn parse_drop_column(input: &[char], pos: usize) -> (found: Option<
    (Vec<AlterTableCondition>, usize),
>)
    requires
        pos <= input@.len(),
    ensures
        match found {
            Some((entries, end)) => drop_clause(input@, pos as int) == Some(
                (models_of(entries@), end as int),
            ) && pos < end <= input@.len(),
            None => drop_clause(input@, pos as int) is None,
        },
{
    proof {
        reveal_strlit("DROP");
    }
    let after_drop = match parse_keyword(input, pos, DROP) {
        Some(found) => found,
        None => return None,
    };
    if let Some((name, end)) = parse_identifier(input, after_drop) {
        let mut entries: Vec<AlterTableCondition> = Vec::new();
        let ghost name_model = name@;
        entries.push(AlterTableCondition::DropColumn(DropColumnCondition { column_name: name }));
        assert(models_of(entries@) =~= seq![dropped(name_model)]);
        return Some((entries, end));
    }
    match parse_identifier_group(input, after_drop) {
        Some((names, end)) => Some((drop_columns(names), end)),
        None => None,
    }
}

/// Reads a clause of `ALTER TABLE`: an `ADD` clause or else a `DROP` clause.
pub fn parse_alter_clause(input: &[char], pos: usize) -> (found: Option<
    (Vec<AlterTableCondition>, usize),
>)
    requires
        pos <= input@.len(),
    ensures
        match found {
            Some((entries, end)) => alter_clause(input@, pos as int) == Some(
                (models_of(entries@), end as int),
            ) && pos < end <= input@.len(),
            None => alter_clause(input@, pos as int) is None,
        },
{
    match parse_add_column(input, pos) {
        Some(found) => Some(found),
        None => parse_drop_column(input, pos),
    }
}

/// Reads one or more clauses of `ALTER TABLE` separated by commas and gives
/// their entries in the order of the source.
pub fn parse_alter_table_condition(input: &[char], pos: usize) -> (found: Option<
    Vec<AlterTableCondition>,
>)
    requires
        pos <= input@.len(),
    ensures
        match found {
            Some(entries) => alter_clause(input@, pos as int) matches Some((first, after_first))
                && models_of(entries@) == alter_clauses_rest(input@, after_first, first),
            None => alter_clause(input@, pos as int) is None,
        },
{
    let (mut entries, after_first) = match parse_alter_clause(input, pos) {
        Some(found) => found,
        None => return None,
    };
    let ghost first = models_of(entries@);
    let mut end = after_first;
    let mut done = false;
    while !done
        invariant
            pos <= end <= input@.len(),
            alter_clauses_rest(input@, end as int, models_of(entries@)) == alter_clauses_rest(
                input@,
                after_first as int,
                first,
            ),
            done ==> alter_clauses_rest(input@, end as int, models_of(entries@)) == models_of(
                entries@,
            ),
        decreases input@.len() - end, if done { 0int } else { 1int },
    {
        done = true;
        if let Some(after_comma) = parse_comma(input, end) {
            if let Some((mut more, after_clause)) = parse_alter_clause(input, after_comma) {
                proof {
                    lemma_models_concat(entries@, more@);
                }
                entries.append(&mut more);
                end = after_clause;
                done = false;
            }
        }
    }
    Some(entries)
}

/// Parses `ALTER TABLE table clause, ...` with at least one clause.
pub fn parse_alter_table_query(input: &[char]) -> (result: Result<Query, QueryParsingError>)
    ensures
        outcome(result) == alter_table_statement(input@),
{
    let after_alter = match parse_keyword(input, 0, ALTER_TABLE) {
        Some(end) => end,
        None => return Err(syntax_error(ALTER_KEYWORD, input, 0)),
    };
    let (table, after_table) = match parse_identifier(input, after_alter) {
        Some(found) => found,
        None => return Err(syntax_error(CANNOT_PARSE_TABLE, input, after_alter)),
    };
    match parse_alter_table_condition(input, after_table) {
        Some(conditions) => Ok(
            Query::DataDefinitionQuery(
                DataDefinitionQuery::AlterTable(AlterTableQuery { table, conditions }),
            ),
        ),
        None => Err(syntax_error(ALTER_CLAUSE, input, after_table)),
    }
}

/// Parses `DROP TABLE table`.
pub fn parse_drop_table_query(input: &[char]) -> (result: Result<Query, QueryParsingError>)
    ensures
        outcome(result) == drop_table_statement(input@),
{
    let after_drop = match parse_keyword(input, 0, DROP_TABLE) {
        Some(end) => end,
        None => return Err(syntax_error(DROP_KEYWORD, input, 0)),
    };
    match parse_identifier(input, after_drop) {
        Some((table, _)) => Ok(
            Query::DataDefinitionQuery(DataDefinitionQuery::DropTable(DropTableQuery { table })),
        ),
        None => Err(syntax_error(CANNOT_PARSE_TABLE, input, after_drop)),
    }
}

} // verus!
