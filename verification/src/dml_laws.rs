use vstd::prelude::*;
use crate::grammar::{
    assignment_rule, comma_rule, delete_target, identifier, identifier_rule, keyword, skip_spaces,
    statement, statement_kind, value_rule,
};
use crate::keyword::{AND, DELETE, FROM, INSERT_INTO, SELECT, SET, UPDATE, VALUES, WHERE};
use crate::laws::{
    lemma_quiet_has_no_comma, quiet, reads_up_to,
    lemma_assignments_read, lemma_comma_list_stops, lemma_comma_reads, lemma_group_reads,
    lemma_keyword_absent, lemma_keyword_first, lemma_names_read, lemma_projection_reads,
    lemma_values_read, lemma_where_reads, no_comma_at,
};
use crate::lexical::{lemma_identifier_within, lemma_keyword_within};
use crate::query::{ConditionModel, ErrorModel, QueryModel, QueryType, ValueModel};
use crate::syntax::{
    assignment_tokens, comma, condition_tokens, delete_tokens, group, insert_tokens, name_tokens,
    names, projection_tokens, select_tokens, update_tokens, value_tokens, where_tokens, word,
};
use crate::text::{
    in_class, is_ascii_letter, lemma_run_bounds, lemma_run_covers, same_letter, CharClass,
};
use crate::token::{
    lemma_list_reads, lemma_read_concat, lemma_read_first, lemma_read_one, lemma_reads_within,
    list_tokens, more_tokens, read_all, Token,
};

verus! {

/// Whether a name begins with the letters of a word, in any case.
pub open spec fn leads(name: Seq<char>, word: Seq<char>) -> bool {
    &&& name.len() >= word.len()
    &&& forall|i: int| 0 <= i < word.len() ==> same_letter(name[i], #[trigger] word[i])
}

/// Where the tokens of the conditions are read and the statement cannot go
/// on behind them, no comma stands before them.
pub proof fn lemma_where_starts(s: Seq<char>, pos: int, conditions: Seq<ConditionModel>, end: int)
    requires
        0 <= pos <= s.len(),
        read_all(s, pos, where_tokens(conditions)) == Some(end),
        quiet(s, end),
    ensures
        no_comma_at(s, pos),
{
    reveal_strlit("WHERE");
    if conditions.len() == 0 {
        lemma_quiet_has_no_comma(s, end);
    }
    if conditions.len() > 0 {
        lemma_read_first(
            s,
            pos,
            word(WHERE@),
            list_tokens(conditions, condition_tokens(), word(AND@)),
        );
        lemma_keyword_first(s, pos, WHERE@);
    }
}

/// Where a name is read that does not begin with the letters of a word, the
/// word is not read as a keyword.
pub proof fn lemma_name_hides_keyword(s: Seq<char>, pos: int, word: Seq<char>)
    requires
        0 <= pos <= s.len(),
        word.len() > 0,
        forall|i: int| 0 <= i < word.len() ==> is_ascii_letter(#[trigger] word[i]),
        identifier(s, pos) matches Some((name, _)) && !leads(name, word),
    ensures
        keyword(s, pos, word) is None,
{
    lemma_run_bounds(s, pos, CharClass::Space);
    let start = skip_spaces(s, pos);
    let name = (identifier(s, pos)->0).0;
    if keyword(s, pos, word) is Some {
        assert forall|i: int| start <= i < start + word.len() implies in_class(
            CharClass::Name,
            #[trigger] s[i],
        ) by {
            assert(same_letter(s[start + (i - start)], word[i - start]));
            assert(is_ascii_letter(word[i - start]));
        }
        lemma_run_covers(s, start, start + word.len(), CharClass::Name);
        lemma_run_bounds(s, start, CharClass::Name);
        assert forall|i: int| 0 <= i < word.len() implies same_letter(
            name[i],
            #[trigger] word[i],
        ) by {
            assert(same_letter(s[start + i], word[i]));
        }
        assert(leads(name, word));
    }
}

/// A text that starts with the tokens of a `SELECT`, behind which the
/// statement cannot go on, parses to that statement: the columns and the
/// conditions are those of the tokens, in their order.
pub proof fn lemma_select_parses(
    s: Seq<char>,
    columns: Seq<Seq<char>>,
    table: Seq<char>,
    conditions: Seq<ConditionModel>,
    end: int,
)
    requires
        reads_up_to(s, select_tokens(columns, table, conditions), end),
    ensures
        statement(s) == Ok::<QueryModel, ErrorModel>(
            QueryModel::Select { columns, table, conditions },
        ),
{
    reveal_strlit("SELECT");
    reveal_strlit("FROM");
    let tail = where_tokens(conditions);
    let from_on = seq![word(FROM@)] + (seq![Token::Name(table)] + tail);
    lemma_read_first(s, 0, word(SELECT@), projection_tokens(columns) + from_on);
    lemma_keyword_within(s, 0, SELECT@);
    let at1 = keyword(s, 0, SELECT@)->0;
    lemma_read_concat(s, at1, projection_tokens(columns), from_on);
    lemma_reads_within(s, at1, projection_tokens(columns));
    let at2 = read_all(s, at1, projection_tokens(columns))->0;
    lemma_read_first(s, at2, word(FROM@), seq![Token::Name(table)] + tail);
    lemma_keyword_within(s, at2, FROM@);
    lemma_keyword_first(s, at2, FROM@);
    let at3 = keyword(s, at2, FROM@)->0;
    lemma_read_first(s, at3, Token::Name(table), tail);
    lemma_identifier_within(s, at3);
    let at4 = (identifier(s, at3)->0).1;
    lemma_projection_reads(s, at1, columns, at2);
    lemma_where_reads(s, at4, conditions, end);
    assert(statement_kind(s) == Some(QueryType::Select));
}

/// A text that starts with the tokens of an `INSERT` parses to that
/// statement, whatever the numbers of its columns and of its values and
/// whatever follows.
pub proof fn lemma_insert_parses(
    s: Seq<char>,
    columns: Seq<Seq<char>>,
    table: Seq<char>,
    values: Seq<ValueModel>,
    end: int,
)
    requires
        columns.len() > 0,
        values.len() > 0,
        read_all(s, 0, insert_tokens(columns, table, values)) == Some(end),
    ensures
        statement(s) == Ok::<QueryModel, ErrorModel>(
            QueryModel::Insert { columns, table, values },
        ),
{
    reveal_strlit("SELECT");
    reveal_strlit("INSERT INTO");
    reveal_strlit("VALUES");
    let values_on = seq![word(VALUES@)] + group(values, value_tokens());
    let columns_on = group(columns, name_tokens()) + values_on;
    lemma_read_first(s, 0, word(INSERT_INTO@), seq![Token::Name(table)] + columns_on);
    lemma_keyword_within(s, 0, INSERT_INTO@);
    lemma_keyword_first(s, 0, INSERT_INTO@);
    let at1 = keyword(s, 0, INSERT_INTO@)->0;
    lemma_read_first(s, at1, Token::Name(table), columns_on);
    lemma_identifier_within(s, at1);
    let at2 = (identifier(s, at1)->0).1;
    lemma_read_concat(s, at2, group(columns, name_tokens()), values_on);
    lemma_reads_within(s, at2, group(columns, name_tokens()));
    let at3 = read_all(s, at2, group(columns, name_tokens()))->0;
    lemma_names_read(s);
    lemma_group_reads(identifier_rule(), name_tokens(), s, at2, columns, at3);
    lemma_read_first(s, at3, word(VALUES@), group(values, value_tokens()));
    lemma_keyword_within(s, at3, VALUES@);
    let at4 = keyword(s, at3, VALUES@)->0;
    lemma_values_read(s);
    lemma_group_reads(value_rule(), value_tokens(), s, at4, values, end);
    lemma_keyword_absent(s, 0, SELECT@);
    assert(statement_kind(s) == Some(QueryType::Insert));
}

/// A text that starts with the tokens of an `UPDATE`, behind which the
/// statement cannot go on, parses to that statement: the assignments and the
/// conditions are those of the tokens, in their order.
pub proof fn lemma_update_parses(
    s: Seq<char>,
    table: Seq<char>,
    values: Seq<(Seq<char>, ValueModel)>,
    conditions: Seq<ConditionModel>,
    end: int,
)
    requires
        values.len() > 0,
        reads_up_to(s, update_tokens(table, values, conditions), end),
    ensures
        statement(s) == Ok::<QueryModel, ErrorModel>(
            QueryModel::Update { table, values, conditions },
        ),
{
    reveal_strlit("SELECT");
    reveal_strlit("INSERT INTO");
    reveal_strlit("UPDATE");
    reveal_strlit("SET");
    let tail = where_tokens(conditions);
    let list = list_tokens(values, assignment_tokens(), comma());
    let set_on = seq![word(SET@)] + (list + tail);
    lemma_read_first(s, 0, word(UPDATE@), seq![Token::Name(table)] + set_on);
    lemma_keyword_within(s, 0, UPDATE@);
    lemma_keyword_first(s, 0, UPDATE@);
    let at1 = keyword(s, 0, UPDATE@)->0;
    lemma_read_first(s, at1, Token::Name(table), set_on);
    lemma_identifier_within(s, at1);
    let at2 = (identifier(s, at1)->0).1;
    lemma_read_first(s, at2, word(SET@), list + tail);
    lemma_keyword_within(s, at2, SET@);
    let at3 = keyword(s, at2, SET@)->0;
    lemma_read_concat(s, at3, list, tail);
    lemma_reads_within(s, at3, list);
    let at4 = read_all(s, at3, list)->0;
    lemma_where_starts(s, at4, conditions, end);
    lemma_assignments_read(s);
    lemma_comma_reads(s);
    lemma_comma_list_stops(assignment_rule(), s, at4);
    lemma_list_reads(
        assignment_rule(),
        comma_rule(),
        assignment_tokens(),
        comma(),
        s,
        at3,
        values,
        at4,
    );
    lemma_where_reads(s, at4, conditions, end);
    lemma_keyword_absent(s, 0, SELECT@);
    lemma_keyword_absent(s, 0, INSERT_INTO@);
    assert(statement_kind(s) == Some(QueryType::Update));
}

/// What follows the columns of a `DELETE` is read as its table and its
/// conditions.
proof fn lemma_delete_target_reads(
    s: Seq<char>,
    pos: int,
    columns: Seq<Seq<char>>,
    table: Seq<char>,
    conditions: Seq<ConditionModel>,
    end: int,
)
    requires
        0 <= pos <= s.len(),
        read_all(s, pos, seq![word(FROM@)] + (seq![Token::Name(table)] + where_tokens(conditions)))
            == Some(end),
        quiet(s, end),
    ensures
        keyword(s, pos, FROM@) matches Some(after_from) && delete_target(s, after_from, columns)
            == Ok::<QueryModel, ErrorModel>(QueryModel::Delete { columns, table, conditions }),
        no_comma_at(s, pos),
{
    reveal_strlit("FROM");
    let tail = where_tokens(conditions);
    lemma_read_first(s, pos, word(FROM@), seq![Token::Name(table)] + tail);
    lemma_keyword_within(s, pos, FROM@);
    lemma_keyword_first(s, pos, FROM@);
    let at1 = keyword(s, pos, FROM@)->0;
    lemma_read_first(s, at1, Token::Name(table), tail);
    lemma_identifier_within(s, at1);
    let at2 = (identifier(s, at1)->0).1;
    lemma_where_reads(s, at2, conditions, end);
}

/// A text that starts with the tokens of a `DELETE`, behind which the
/// statement cannot go on, parses to that statement, unless its first column
/// begins with the letters of `FROM`: such a name is taken for the keyword.
pub proof fn lemma_delete_parses(
    s: Seq<char>,
    columns: Seq<Seq<char>>,
    table: Seq<char>,
    conditions: Seq<ConditionModel>,
    end: int,
)
    requires
        columns.len() > 0 ==> !leads(columns[0], FROM@),
        reads_up_to(s, delete_tokens(columns, table, conditions), end),
    ensures
        statement(s) == Ok::<QueryModel, ErrorModel>(
            QueryModel::Delete { columns, table, conditions },
        ),
{
    reveal_strlit("SELECT");
    reveal_strlit("INSERT INTO");
    reveal_strlit("UPDATE");
    reveal_strlit("DELETE");
    reveal_strlit("FROM");
    let target = seq![word(FROM@)] + (seq![Token::Name(table)] + where_tokens(conditions));
    lemma_keyword_within(s, 0, DELETE@);
    if columns.len() == 0 {
        lemma_read_first(s, 0, word(DELETE@), target);
        lemma_keyword_first(s, 0, DELETE@);
        let at1 = keyword(s, 0, DELETE@)->0;
        lemma_delete_target_reads(s, at1, columns, table, conditions, end);
        assert(columns =~= Seq::empty());
    } else {
        lemma_read_first(s, 0, word(DELETE@), names(columns) + target);
        lemma_keyword_first(s, 0, DELETE@);
        let at1 = keyword(s, 0, DELETE@)->0;
        lemma_read_concat(s, at1, names(columns), target);
        lemma_reads_within(s, at1, names(columns));
        let at2 = read_all(s, at1, names(columns))->0;
        lemma_delete_target_reads(s, at2, columns, table, conditions, end);
        lemma_names_read(s);
        lemma_comma_reads(s);
        lemma_comma_list_stops(identifier_rule(), s, at2);
        lemma_list_reads(
            identifier_rule(),
            comma_rule(),
            name_tokens(),
            comma(),
            s,
            at1,
            columns,
            at2,
        );
        assert(identifier(s, at1) matches Some((name, _)) && name == columns[0]) by {
            lemma_first_of_list(s, at1, columns);
        }
        lemma_name_hides_keyword(s, at1, FROM@);
    }
    lemma_keyword_absent(s, 0, SELECT@);
    lemma_keyword_absent(s, 0, INSERT_INTO@);
    lemma_keyword_absent(s, 0, UPDATE@);
    assert(statement_kind(s) == Some(QueryType::Delete));
}

/// Where the tokens of a list of names are read, the first name is read
/// first.
proof fn lemma_first_of_list(s: Seq<char>, pos: int, columns: Seq<Seq<char>>)
    requires
        columns.len() > 0,
        read_all(s, pos, names(columns)) is Some,
    ensures
        identifier(s, pos) matches Some((name, _)) && name == columns[0],
{
    lemma_read_concat(
        s,
        pos,
        name_tokens()(columns[0]),
        more_tokens(columns, 1, name_tokens(), comma()),
    );
    lemma_read_one(s, pos, Token::Name(columns[0]));
}

} // verus!
