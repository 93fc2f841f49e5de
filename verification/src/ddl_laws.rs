use vstd::prelude::*;
use crate::grammar::{
    alter_clause, alter_clauses_rest, column_definition, column_rule, comma_rule, composite_key,
    composite_key_columns, flat_key, grouped_key, identifier, identifier_rule, inline_key_ahead,
    inline_key_columns, keyword, list_of, optional_list_of, parenthesized, skip_spaces, statement,
    statement_kind, symbol,
};
use crate::keyword::{
    ADD, ALTER_TABLE, BOOL, CLOSE, COMMA, CREATE_TABLE, DELETE, DOUBLE, DROP, DROP_TABLE, FLOAT,
    INSERT_INTO, INT, LONG, OPEN, PRIMARY_KEY, SELECT, TEXT, TIMESTAMP, UPDATE, UUID,
};
use crate::laws::{
    reads_up_to,
    lemma_columns_read, lemma_comma_list_stops, lemma_comma_reads, lemma_group_reads,
    lemma_keyword_absent, lemma_keyword_differs, lemma_keyword_first, lemma_names_read,
    lemma_symbol_absent, lemma_symbol_first,
};
use crate::lexical::{
    lemma_identifier_within, lemma_keyword_within, lemma_rules_within, lemma_symbol_within,
};
use crate::query::{ColumnModel, ErrorModel, PrimaryKeyModel, QueryModel, QueryType};
use crate::syntax::{
    alter_tokens, clause_entries, clause_filled, clause_tokens, clustering_tokens, column_tokens,
    comma, create_inline_tokens, create_tokens, drop_table_tokens, entries_of, flat_key_tokens,
    group, grouped_key_tokens, mark, name_tokens, names, word, Clause,
};
use crate::text::{
    in_class, is_name_char, lemma_run_bounds, lemma_run_found, same_letter, CharClass,
};
use crate::token::{
    lemma_list_reads, lemma_list_rest_reads, lemma_read_concat, lemma_read_first, lemma_read_one,
    lemma_reads_within, list_tokens, more_tokens, read_all, Token,
};

verus! {

/// No statement keyword before `CREATE TABLE` in the order of the dispatcher
/// is read where another letter than `S`, `I`, `U` and `D` leads the text.
proof fn lemma_no_manipulation(s: Seq<char>)
    requires
        skip_spaces(s, 0) < s.len(),
        !same_letter(s[skip_spaces(s, 0)], 'S'),
        !same_letter(s[skip_spaces(s, 0)], 'I'),
        !same_letter(s[skip_spaces(s, 0)], 'U'),
        !same_letter(s[skip_spaces(s, 0)], 'D') || keyword(s, 0, DROP_TABLE@) is Some,
    ensures
        keyword(s, 0, SELECT@) is None,
        keyword(s, 0, INSERT_INTO@) is None,
        keyword(s, 0, UPDATE@) is None,
        keyword(s, 0, DELETE@) is None,
{
    reveal_strlit("SELECT");
    reveal_strlit("INSERT INTO");
    reveal_strlit("UPDATE");
    reveal_strlit("DELETE");
    reveal_strlit("DROP TABLE");
    lemma_keyword_absent(s, 0, SELECT@);
    lemma_keyword_absent(s, 0, INSERT_INTO@);
    lemma_keyword_absent(s, 0, UPDATE@);
    if keyword(s, 0, DROP_TABLE@) is Some {
        lemma_keyword_differs(s, 0, DROP_TABLE@, DELETE@, 1);
    } else {
        lemma_keyword_absent(s, 0, DELETE@);
    }
}

/// A text that starts with the tokens of a `DROP TABLE` parses to that
/// statement, whatever follows.
pub proof fn lemma_drop_table_parses(s: Seq<char>, table: Seq<char>, end: int)
    requires
        read_all(s, 0, drop_table_tokens(table)) == Some(end),
    ensures
        statement(s) == Ok::<QueryModel, ErrorModel>(QueryModel::DropTable { table }),
{
    reveal_strlit("DROP TABLE");
    reveal_strlit("CREATE TABLE");
    reveal_strlit("ALTER TABLE");
    lemma_read_first(s, 0, word(DROP_TABLE@), seq![Token::Name(table)]);
    lemma_keyword_within(s, 0, DROP_TABLE@);
    lemma_keyword_first(s, 0, DROP_TABLE@);
    let at1 = keyword(s, 0, DROP_TABLE@)->0;
    lemma_read_one(s, at1, Token::Name(table));
    lemma_no_manipulation(s);
    lemma_keyword_absent(s, 0, CREATE_TABLE@);
    lemma_keyword_absent(s, 0, ALTER_TABLE@);
    assert(statement_kind(s) == Some(QueryType::DropTable));
}

/// Where `PRIMARY KEY` is read, no column definition is read: `PRIMARY` is
/// a name, but `KEY` is no type.
pub proof fn lemma_key_is_no_column(s: Seq<char>, pos: int)
    requires
        0 <= pos <= s.len(),
        keyword(s, pos, PRIMARY_KEY@) is Some,
    ensures
        column_definition(s, pos) is None,
{
    reveal_strlit("PRIMARY KEY");
    reveal_strlit("UUID");
    reveal_strlit("INT");
    reveal_strlit("LONG");
    reveal_strlit("FLOAT");
    reveal_strlit("DOUBLE");
    reveal_strlit("TIMESTAMP");
    reveal_strlit("TEXT");
    reveal_strlit("BOOL");
    lemma_run_bounds(s, pos, CharClass::Space);
    let start = skip_spaces(s, pos);
    assert forall|i: int| start <= i < start + 7 implies in_class(
        CharClass::Name,
        #[trigger] s[i],
    ) by {
        assert(same_letter(s[start + (i - start)], PRIMARY_KEY@[i - start]));
    }
    assert(same_letter(s[start + 7], PRIMARY_KEY@[7]));
    assert(same_letter(s[start + 8], PRIMARY_KEY@[8]));
    lemma_run_found(s, start, start + 7, CharClass::Name);
    lemma_run_found(s, start + 7, start + 8, CharClass::Space);
    let after_name = start + 8;
    assert(identifier(s, pos) matches Some((_, end)) && end == after_name);
    lemma_run_found(s, after_name, after_name, CharClass::Space);
    lemma_keyword_absent(s, after_name, UUID@);
    lemma_keyword_absent(s, after_name, INT@);
    lemma_keyword_absent(s, after_name, LONG@);
    lemma_keyword_absent(s, after_name, FLOAT@);
    lemma_keyword_absent(s, after_name, DOUBLE@);
    lemma_keyword_absent(s, after_name, TIMESTAMP@);
    lemma_keyword_absent(s, after_name, TEXT@);
    lemma_keyword_absent(s, after_name, BOOL@);
}

/// Where a mark is read that is no name character, no column definition is
/// read.
proof fn lemma_mark_is_no_column(s: Seq<char>, pos: int, mark: Seq<char>)
    requires
        0 <= pos <= s.len(),
        mark.len() > 0,
        !is_name_char(mark[0]),
        symbol(s, pos, mark) is Some,
    ensures
        identifier(s, pos) is None,
        column_definition(s, pos) is None,
{
    lemma_symbol_first(s, pos, mark);
    lemma_identifier_within(s, pos);
}

/// The start of a table definition: the keyword, the table and the opening
/// parenthesis are read, and no other statement keyword leads the text.
proof fn lemma_create_starts(s: Seq<char>, table: Seq<char>, body: Seq<Token>, end: int)
    requires
        read_all(
            s,
            0,
            seq![word(CREATE_TABLE@)] + (seq![Token::Name(table)] + (seq![mark(OPEN@)] + body)),
        ) == Some(end),
    ensures
        statement_kind(s) == Some(QueryType::CreateTable),
        ({
            let at1 = keyword(s, 0, CREATE_TABLE@)->0;
            let at2 = (identifier(s, at1)->0).1;
            let at3 = symbol(s, at2, OPEN@)->0;
            &&& keyword(s, 0, CREATE_TABLE@) is Some
            &&& identifier(s, at1) == Some((table, at2))
            &&& symbol(s, at2, OPEN@) is Some
            &&& read_all(s, at3, body) == Some(end)
            &&& 0 <= at2 <= at3 <= s.len()
        }),
{
    reveal_strlit("CREATE TABLE");
    let after_table = seq![mark(OPEN@)] + body;
    lemma_read_first(s, 0, word(CREATE_TABLE@), seq![Token::Name(table)] + after_table);
    lemma_keyword_within(s, 0, CREATE_TABLE@);
    lemma_keyword_first(s, 0, CREATE_TABLE@);
    let at1 = keyword(s, 0, CREATE_TABLE@)->0;
    lemma_read_first(s, at1, Token::Name(table), after_table);
    lemma_identifier_within(s, at1);
    let at2 = (identifier(s, at1)->0).1;
    lemma_read_first(s, at2, mark(OPEN@), body);
    lemma_symbol_within(s, at2, OPEN@);
    lemma_no_manipulation(s);
}

/// A text that starts with the tokens of a table definition whose first
/// column is marked `PRIMARY KEY` parses to the definition of that table: its
/// partition key is the name of the first column, its clustering key is
/// empty, and its columns are those of the tokens, in their order.
pub proof fn lemma_create_inline_parses(
    s: Seq<char>,
    table: Seq<char>,
    columns: Seq<ColumnModel>,
    end: int,
)
    requires
        columns.len() > 0,
        read_all(s, 0, create_inline_tokens(table, columns)) == Some(end),
    ensures
        statement(s) == Ok::<QueryModel, ErrorModel>(
            QueryModel::CreateTable {
                table,
                primary_key: PrimaryKeyModel {
                    partition_key: seq![columns[0].name],
                    clustering_key: Seq::empty(),
                },
                columns,
            },
        ),
{
    reveal_strlit("PRIMARY KEY");
    reveal_strlit("(");
    reveal_strlit(")");
    reveal_strlit(",");
    let close = seq![mark(CLOSE@)];
    let others = more_tokens(columns, 1, column_tokens(), comma());
    let key_on = seq![word(PRIMARY_KEY@)] + (others + close);
    let body = column_tokens()(columns[0]) + key_on;
    lemma_create_starts(s, table, body, end);
    let at1 = keyword(s, 0, CREATE_TABLE@)->0;
    let at2 = (identifier(s, at1)->0).1;
    let at3 = symbol(s, at2, OPEN@)->0;
    lemma_columns_read(s);
    lemma_comma_reads(s);
    lemma_read_concat(s, at3, column_tokens()(columns[0]), key_on);
    let at4 = read_all(s, at3, column_tokens()(columns[0]))->0;
    assert(column_definition(s, at3) == Some((columns[0], at4)));
    lemma_read_first(s, at4, word(PRIMARY_KEY@), others + close);
    lemma_keyword_within(s, at4, PRIMARY_KEY@);
    let at5 = keyword(s, at4, PRIMARY_KEY@)->0;
    assert(inline_key_ahead(s, at2));
    lemma_read_concat(s, at5, others, close);
    lemma_reads_within(s, at5, others);
    let at6 = read_all(s, at5, others)->0;
    lemma_read_one(s, at6, mark(CLOSE@));
    lemma_symbol_first(s, at6, CLOSE@);
    lemma_comma_list_stops(column_rule(), s, at6);
    if columns.len() == 1 {
        assert(at6 == at5);
        lemma_symbol_absent(s, at5, COMMA@);
        lemma_mark_is_no_column(s, at5, CLOSE@);
        assert(seq![columns[0]] + Seq::<ColumnModel>::empty() =~= columns);
    } else {
        let tail = more_tokens(columns, 2, column_tokens(), comma());
        assert(others == seq![comma()] + column_tokens()(columns[1]) + tail);
        lemma_read_concat(s, at5, seq![comma()] + column_tokens()(columns[1]), tail);
        lemma_read_first(s, at5, comma(), column_tokens()(columns[1]));
        lemma_symbol_within(s, at5, COMMA@);
        let after_comma = symbol(s, at5, COMMA@)->0;
        let after_second = read_all(s, after_comma, column_tokens()(columns[1]))->0;
        assert(column_definition(s, after_comma) == Some((columns[1], after_second)));
        lemma_list_rest_reads(
            column_rule(),
            comma_rule(),
            column_tokens(),
            comma(),
            s,
            after_second,
            columns,
            2,
            at6,
            seq![columns[1]],
        );
        assert(seq![columns[0]] + (seq![columns[1]] + columns.subrange(
            2,
            columns.len() as int,
        )) =~= columns);
    }
    assert(inline_key_columns(s, at3) matches Some(((found, key), after)) && found == columns
        && after == at6 && key == (PrimaryKeyModel {
        partition_key: seq![columns[0].name],
        clustering_key: Seq::empty(),
    }));
}

/// The columns of a table definition with a primary key clause are read up
/// to the comma before `PRIMARY KEY`, and the start of the body does not
/// mark the first column as the primary key.
proof fn lemma_key_clause_columns(
    s: Seq<char>,
    table: Seq<char>,
    columns: Seq<ColumnModel>,
    key: Seq<Token>,
    end: int,
)
    requires
        columns.len() > 0,
        read_all(s, 0, create_tokens(table, columns, key)) == Some(end),
    ensures
        statement_kind(s) == Some(QueryType::CreateTable),
        ({
            let at1 = keyword(s, 0, CREATE_TABLE@)->0;
            let at2 = (identifier(s, at1)->0).1;
            let at3 = symbol(s, at2, OPEN@)->0;
            let at4 = (list_of(column_rule(), comma_rule(), s, at3)->0).1;
            let at5 = symbol(s, at4, COMMA@)->0;
            let at6 = keyword(s, at5, PRIMARY_KEY@)->0;
            &&& keyword(s, 0, CREATE_TABLE@) is Some
            &&& identifier(s, at1) == Some((table, at2))
            &&& !inline_key_ahead(s, at2)
            &&& symbol(s, at2, OPEN@) is Some
            &&& list_of(column_rule(), comma_rule(), s, at3) == Some((columns, at4))
            &&& symbol(s, at4, COMMA@) is Some
            &&& keyword(s, at5, PRIMARY_KEY@) is Some
            &&& 0 <= at6 <= s.len()
            &&& read_all(s, at6, key + seq![mark(CLOSE@)]) == Some(end)
        }),
{
    reveal_strlit("PRIMARY KEY");
    reveal_strlit("(");
    reveal_strlit(",");
    let close = seq![mark(CLOSE@)];
    let list = list_tokens(columns, column_tokens(), comma());
    let key_on = seq![word(PRIMARY_KEY@)] + (key + close);
    let body = list + (seq![comma()] + key_on);
    lemma_create_starts(s, table, body, end);
    let at1 = keyword(s, 0, CREATE_TABLE@)->0;
    let at2 = (identifier(s, at1)->0).1;
    let at3 = symbol(s, at2, OPEN@)->0;
    lemma_columns_read(s);
    lemma_comma_reads(s);
    lemma_read_concat(s, at3, list, seq![comma()] + key_on);
    lemma_reads_within(s, at3, list);
    let at4 = read_all(s, at3, list)->0;
    lemma_read_first(s, at4, comma(), key_on);
    lemma_symbol_within(s, at4, COMMA@);
    lemma_symbol_first(s, at4, COMMA@);
    let at5 = symbol(s, at4, COMMA@)->0;
    lemma_read_first(s, at5, word(PRIMARY_KEY@), key + close);
    lemma_keyword_within(s, at5, PRIMARY_KEY@);
    lemma_key_is_no_column(s, at5);
    lemma_list_reads(column_rule(), comma_rule(), column_tokens(), comma(), s, at3, columns, at4);
    // the first column is followed by a comma, not by `PRIMARY KEY`
    let first = column_tokens()(columns[0]);
    let others = more_tokens(columns, 1, column_tokens(), comma());
    lemma_read_concat(s, at3, first, others);
    let after_first = read_all(s, at3, first)->0;
    assert(column_definition(s, at3) == Some((columns[0], after_first)));
    lemma_rules_within(s, at3);
    if columns.len() == 1 {
        assert(after_first == at4);
    } else {
        let tail = more_tokens(columns, 2, column_tokens(), comma());
        assert(others == seq![comma()] + column_tokens()(columns[1]) + tail);
        lemma_read_concat(s, after_first, seq![comma()] + column_tokens()(columns[1]), tail);
        lemma_read_first(s, after_first, comma(), column_tokens()(columns[1]));
        lemma_symbol_first(s, after_first, COMMA@);
    }
    lemma_keyword_absent(s, after_first, PRIMARY_KEY@);
}

/// A text that starts with the tokens of a table definition whose primary key
/// clause holds the partition key in parentheses of its own parses to the
/// definition of that table, with that partition key and the names after it
/// as the clustering key.
pub proof fn lemma_create_grouped_parses(
    s: Seq<char>,
    table: Seq<char>,
    columns: Seq<ColumnModel>,
    partition_key: Seq<Seq<char>>,
    clustering_key: Seq<Seq<char>>,
    end: int,
)
    requires
        columns.len() > 0,
        partition_key.len() > 0,
        read_all(
            s,
            0,
            create_tokens(table, columns, grouped_key_tokens(partition_key, clustering_key)),
        ) == Some(end),
    ensures
        statement(s) == Ok::<QueryModel, ErrorModel>(
            QueryModel::CreateTable {
                table,
                primary_key: PrimaryKeyModel { partition_key, clustering_key },
                columns,
            },
        ),
{
    reveal_strlit("(");
    reveal_strlit(")");
    reveal_strlit(",");
    let close = seq![mark(CLOSE@)];
    let key = grouped_key_tokens(partition_key, clustering_key);
    lemma_key_clause_columns(s, table, columns, key, end);
    let at1 = keyword(s, 0, CREATE_TABLE@)->0;
    let at2 = (identifier(s, at1)->0).1;
    let at3 = symbol(s, at2, OPEN@)->0;
    let at4 = (list_of(column_rule(), comma_rule(), s, at3)->0).1;
    let at5 = symbol(s, at4, COMMA@)->0;
    let at6 = keyword(s, at5, PRIMARY_KEY@)->0;
    lemma_names_read(s);
    lemma_comma_reads(s);
    let clustering = clustering_tokens(clustering_key);
    let group_on = group(partition_key, name_tokens()) + (seq![comma()] + (clustering + close));
    lemma_read_concat(s, at6, key, close);
    lemma_reads_within(s, at6, key);
    let at7 = read_all(s, at6, key)->0;
    lemma_read_one(s, at7, mark(CLOSE@));
    lemma_read_first(s, at6, mark(OPEN@), group_on);
    lemma_symbol_within(s, at6, OPEN@);
    let q1 = symbol(s, at6, OPEN@)->0;
    lemma_read_concat(s, q1, group(partition_key, name_tokens()), seq![comma()] + (clustering
        + close));
    lemma_reads_within(s, q1, group(partition_key, name_tokens()));
    let q2 = read_all(s, q1, group(partition_key, name_tokens()))->0;
    lemma_group_reads(identifier_rule(), name_tokens(), s, q1, partition_key, q2);
    lemma_read_first(s, q2, comma(), clustering + close);
    lemma_symbol_within(s, q2, COMMA@);
    let q3 = symbol(s, q2, COMMA@)->0;
    lemma_read_concat(s, q3, clustering, close);
    lemma_reads_within(s, q3, clustering);
    let q4 = read_all(s, q3, clustering)->0;
    lemma_read_one(s, q4, mark(CLOSE@));
    lemma_symbol_first(s, q4, CLOSE@);
    if clustering_key.len() == 0 {
        lemma_mark_is_no_column(s, q3, CLOSE@);
        assert(clustering_key =~= Seq::empty());
    } else {
        lemma_comma_list_stops(identifier_rule(), s, q4);
        lemma_list_reads(
            identifier_rule(),
            comma_rule(),
            name_tokens(),
            comma(),
            s,
            q3,
            clustering_key,
            q4,
        );
    }
    assert(optional_list_of(identifier_rule(), comma_rule(), s, q3) == (clustering_key, q4));
    assert(grouped_key(s, q1) == Some((PrimaryKeyModel { partition_key, clustering_key }, q4)));
    assert(composite_key(s, at6) == Some((PrimaryKeyModel { partition_key, clustering_key }, at7)));
    assert(composite_key_columns(s, at3) == Some(
        ((columns, PrimaryKeyModel { partition_key, clustering_key }), at7),
    ));
}

/// A text that starts with the tokens of a table definition whose primary key
/// clause is one list of names parses to the definition of that table: the
/// first name is the partition key and the others are the clustering key.
pub proof fn lemma_create_flat_parses(
    s: Seq<char>,
    table: Seq<char>,
    columns: Seq<ColumnModel>,
    key: Seq<Seq<char>>,
    end: int,
)
    requires
        columns.len() > 0,
        key.len() > 0,
        read_all(s, 0, create_tokens(table, columns, flat_key_tokens(key))) == Some(end),
    ensures
        statement(s) == Ok::<QueryModel, ErrorModel>(
            QueryModel::CreateTable {
                table,
                primary_key: PrimaryKeyModel {
                    partition_key: seq![key[0]],
                    clustering_key: key.subrange(1, key.len() as int),
                },
                columns,
            },
        ),
{
    reveal_strlit("(");
    reveal_strlit(")");
    reveal_strlit(",");
    let close = seq![mark(CLOSE@)];
    let tokens = flat_key_tokens(key);
    lemma_key_clause_columns(s, table, columns, tokens, end);
    let at1 = keyword(s, 0, CREATE_TABLE@)->0;
    let at2 = (identifier(s, at1)->0).1;
    let at3 = symbol(s, at2, OPEN@)->0;
    let at4 = (list_of(column_rule(), comma_rule(), s, at3)->0).1;
    let at5 = symbol(s, at4, COMMA@)->0;
    let at6 = keyword(s, at5, PRIMARY_KEY@)->0;
    lemma_names_read(s);
    lemma_comma_reads(s);
    lemma_read_concat(s, at6, tokens, close);
    lemma_reads_within(s, at6, tokens);
    let at7 = read_all(s, at6, tokens)->0;
    lemma_read_one(s, at7, mark(CLOSE@));
    lemma_group_reads(identifier_rule(), name_tokens(), s, at6, key, at7);
    let q1 = symbol(s, at6, OPEN@)->0;
    lemma_symbol_within(s, at6, OPEN@);
    // a name follows the parenthesis, so that no second parenthesis is read
    let list = (list_of(identifier_rule(), comma_rule(), s, q1)->0);
    lemma_identifier_within(s, q1);
    lemma_symbol_absent(s, q1, OPEN@);
    assert(parenthesized(identifier_rule(), s, q1) is None);
    assert(grouped_key(s, q1) is None);
    assert(flat_key(s, q1) matches Some((found, _)) && found == (PrimaryKeyModel {
        partition_key: seq![key[0]],
        clustering_key: key.subrange(1, key.len() as int),
    }));
}

/// Where the tokens of a clause of `ALTER TABLE` are read, the clause is
/// read: one entry for an `ADD` or a `DROP` of one column, and for a list in
/// parentheses one entry for each of its items, in their order.
pub proof fn lemma_clause_reads(s: Seq<char>, pos: int, clause: Clause)
    requires
        0 <= pos <= s.len(),
        clause_filled(clause),
        read_all(s, pos, clause_tokens()(clause)) is Some,
    ensures
        alter_clause(s, pos) == Some(
            (clause_entries(clause), read_all(s, pos, clause_tokens()(clause))->0),
        ),
        pos < read_all(s, pos, clause_tokens()(clause))->0 <= s.len(),
{
    reveal_strlit("ADD");
    reveal_strlit("DROP");
    reveal_strlit("(");
    lemma_columns_read(s);
    lemma_names_read(s);
    let end = read_all(s, pos, clause_tokens()(clause))->0;
    match clause {
        Clause::Add(column) => {
            lemma_read_first(s, pos, word(ADD@), column_tokens()(column));
            lemma_keyword_within(s, pos, ADD@);
            let at1 = keyword(s, pos, ADD@)->0;
            assert(column_definition(s, at1) == Some((column, end)));
        },
        Clause::AddAll(columns) => {
            lemma_read_first(s, pos, word(ADD@), group(columns, column_tokens()));
            lemma_keyword_within(s, pos, ADD@);
            let at1 = keyword(s, pos, ADD@)->0;
            lemma_group_reads(column_rule(), column_tokens(), s, at1, columns, end);
            lemma_mark_is_no_column(s, at1, OPEN@);
        },
        Clause::Drop(name) => {
            lemma_read_first(s, pos, word(DROP@), seq![Token::Name(name)]);
            lemma_keyword_within(s, pos, DROP@);
            lemma_keyword_first(s, pos, DROP@);
            lemma_keyword_absent(s, pos, ADD@);
            let at1 = keyword(s, pos, DROP@)->0;
            lemma_read_one(s, at1, Token::Name(name));
            lemma_rules_within(s, at1);
        },
        Clause::DropAll(names) => {
            lemma_read_first(s, pos, word(DROP@), group(names, name_tokens()));
            lemma_keyword_within(s, pos, DROP@);
            lemma_keyword_first(s, pos, DROP@);
            lemma_keyword_absent(s, pos, ADD@);
            let at1 = keyword(s, pos, DROP@)->0;
            lemma_group_reads(identifier_rule(), name_tokens(), s, at1, names, end);
            lemma_mark_is_no_column(s, at1, OPEN@);
        },
    }
}

/// Where the tokens of the clauses from `from` on are read and no comma
/// stands behind them, the rest of the clauses adds their entries to those of
/// the clauses before, in the order of the clauses.
proof fn lemma_clauses_rest_read(
    s: Seq<char>,
    pos: int,
    clauses: Seq<Clause>,
    from: int,
    end: int,
)
    requires
        0 <= pos <= s.len(),
        0 <= from <= clauses.len(),
        forall|i: int| 0 <= i < clauses.len() ==> clause_filled(#[trigger] clauses[i]),
        read_all(s, pos, more_tokens(clauses, from, clause_tokens(), comma())) == Some(end),
        symbol(s, end, COMMA@) is None,
    ensures
        alter_clauses_rest(s, pos, entries_of(clauses, from)) == entries_of(
            clauses,
            clauses.len() as int,
        ),
    decreases clauses.len() - from,
{
    reveal_strlit(",");
    if from < clauses.len() {
        let head = seq![comma()];
        let body = clause_tokens()(clauses[from]);
        let tail = more_tokens(clauses, from + 1, clause_tokens(), comma());
        assert(more_tokens(clauses, from, clause_tokens(), comma()) == head + body + tail);
        lemma_read_concat(s, pos, head + body, tail);
        lemma_read_concat(s, pos, head, body);
        lemma_read_one(s, pos, comma());
        lemma_symbol_within(s, pos, COMMA@);
        let after_comma = symbol(s, pos, COMMA@)->0;
        lemma_clause_reads(s, after_comma, clauses[from]);
        let after_clause = read_all(s, after_comma, body)->0;
        lemma_clauses_rest_read(s, after_clause, clauses, from + 1, end);
    } else {
        assert(pos == end);
    }
}

/// A text that starts with the tokens of an `ALTER TABLE`, behind which the
/// statement cannot go on, parses to that statement: it holds the entries of
/// its clauses, in the order of the clauses and, within a clause, of its
/// items.
pub proof fn lemma_alter_parses(s: Seq<char>, table: Seq<char>, clauses: Seq<Clause>, end: int)
    requires
        clauses.len() > 0,
        forall|i: int| 0 <= i < clauses.len() ==> clause_filled(#[trigger] clauses[i]),
        reads_up_to(s, alter_tokens(table, clauses), end),
    ensures
        statement(s) == Ok::<QueryModel, ErrorModel>(
            QueryModel::AlterTable {
                table,
                conditions: entries_of(clauses, clauses.len() as int),
            },
        ),
{
    reveal_strlit("ALTER TABLE");
    reveal_strlit("CREATE TABLE");
    let list = list_tokens(clauses, clause_tokens(), comma());
    lemma_read_first(s, 0, word(ALTER_TABLE@), seq![Token::Name(table)] + list);
    lemma_keyword_within(s, 0, ALTER_TABLE@);
    lemma_keyword_first(s, 0, ALTER_TABLE@);
    let at1 = keyword(s, 0, ALTER_TABLE@)->0;
    lemma_read_first(s, at1, Token::Name(table), list);
    lemma_identifier_within(s, at1);
    let at2 = (identifier(s, at1)->0).1;
    let first = clause_tokens()(clauses[0]);
    let others = more_tokens(clauses, 1, clause_tokens(), comma());
    lemma_read_concat(s, at2, first, others);
    lemma_clause_reads(s, at2, clauses[0]);
    let at3 = read_all(s, at2, first)->0;
    assert(entries_of(clauses, 1) =~= clause_entries(clauses[0])) by {
        assert(entries_of(clauses, 0) =~= Seq::empty());
    }
    lemma_clauses_rest_read(s, at3, clauses, 1, end);
    lemma_no_manipulation(s);
    lemma_keyword_absent(s, 0, CREATE_TABLE@);
    assert(statement_kind(s) == Some(QueryType::AlterTable));
}

} // verus!
