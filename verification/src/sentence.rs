use vstd::prelude::*;
use crate::ddl_laws::{
    lemma_alter_parses, lemma_create_flat_parses, lemma_create_grouped_parses,
    lemma_create_inline_parses, lemma_drop_table_parses,
};
use crate::dml_laws::{
    leads, lemma_delete_parses, lemma_insert_parses, lemma_select_parses, lemma_update_parses,
};
use crate::grammar::statement;
use crate::keyword::FROM;
use crate::layout::{
    document, follows, glues, is_blank, lemma_document_reads, lemma_tail_is_quiet, same_word,
    spells, trails, truth_word, type_word, well_spelled, Lexeme,
};
use crate::query::{
    ColumnModel, ConditionModel, ErrorModel, PrimaryKeyModel, QueryModel, ValueModel,
};
use crate::syntax::{
    alter_tokens, clause_filled, create_inline_tokens, create_tokens, delete_tokens,
    drop_table_tokens, entries_of, flat_key_tokens, grouped_key_tokens, insert_tokens,
    select_tokens, update_tokens, Clause,
};
use crate::text::{is_ascii_letter, same_letter};
use crate::laws::reads_up_to;
use crate::token::Token;

verus! {

/// A statement as it is written: what it names, in the form that was chosen
/// for it where the grammar has more than one.
#[allow(inconsistent_fields)]
pub enum Sentence {
    Select { columns: Seq<Seq<char>>, table: Seq<char>, conditions: Seq<ConditionModel> },
    Insert { columns: Seq<Seq<char>>, table: Seq<char>, values: Seq<ValueModel> },
    Update {
        table: Seq<char>,
        values: Seq<(Seq<char>, ValueModel)>,
        conditions: Seq<ConditionModel>,
    },
    Delete { columns: Seq<Seq<char>>, table: Seq<char>, conditions: Seq<ConditionModel> },
    /// A table whose first column is marked `PRIMARY KEY`.
    CreateInline { table: Seq<char>, columns: Seq<ColumnModel> },
    /// A table with `PRIMARY KEY ((partition, ...), clustering, ...)`.
    CreateGrouped {
        table: Seq<char>,
        columns: Seq<ColumnModel>,
        partition_key: Seq<Seq<char>>,
        clustering_key: Seq<Seq<char>>,
    },
    /// A table with `PRIMARY KEY (name, ...)`.
    CreateFlat { table: Seq<char>, columns: Seq<ColumnModel>, key: Seq<Seq<char>> },
    Alter { table: Seq<char>, clauses: Seq<Clause> },
    DropTable { table: Seq<char> },
}

/// The tokens that a sentence is written with.
pub open spec fn tokens_of(sentence: Sentence) -> Seq<Token> {
    match sentence {
        Sentence::Select { columns, table, conditions } => select_tokens(
            columns,
            table,
            conditions,
        ),
        Sentence::Insert { columns, table, values } => insert_tokens(columns, table, values),
        Sentence::Update { table, values, conditions } => update_tokens(
            table,
            values,
            conditions,
        ),
        Sentence::Delete { columns, table, conditions } => delete_tokens(
            columns,
            table,
            conditions,
        ),
        Sentence::CreateInline { table, columns } => create_inline_tokens(table, columns),
        Sentence::CreateGrouped { table, columns, partition_key, clustering_key } => create_tokens(
            table,
            columns,
            grouped_key_tokens(partition_key, clustering_key),
        ),
        Sentence::CreateFlat { table, columns, key } => create_tokens(
            table,
            columns,
            flat_key_tokens(key),
        ),
        Sentence::Alter { table, clauses } => alter_tokens(table, clauses),
        Sentence::DropTable { table } => drop_table_tokens(table),
    }
}

/// The statement that a sentence stands for. Every list holds its items in
/// the order in which the sentence names them.
pub open spec fn meaning(sentence: Sentence) -> QueryModel {
    match sentence {
        Sentence::Select { columns, table, conditions } => QueryModel::Select {
            columns,
            table,
            conditions,
        },
        Sentence::Insert { columns, table, values } => QueryModel::Insert {
            columns,
            table,
            values,
        },
        Sentence::Update { table, values, conditions } => QueryModel::Update {
            table,
            values,
            conditions,
        },
        Sentence::Delete { columns, table, conditions } => QueryModel::Delete {
            columns,
            table,
            conditions,
        },
        Sentence::CreateInline { table, columns } => QueryModel::CreateTable {
            table,
            primary_key: PrimaryKeyModel {
                partition_key: seq![columns[0].name],
                clustering_key: Seq::empty(),
            },
            columns,
        },
        Sentence::CreateGrouped { table, columns, partition_key, clustering_key } =>
            QueryModel::CreateTable {
            table,
            primary_key: PrimaryKeyModel { partition_key, clustering_key },
            columns,
        },
        Sentence::CreateFlat { table, columns, key } => QueryModel::CreateTable {
            table,
            primary_key: PrimaryKeyModel {
                partition_key: seq![key[0]],
                clustering_key: key.subrange(1, key.len() as int),
            },
            columns,
        },
        Sentence::Alter { table, clauses } => QueryModel::AlterTable {
            table,
            conditions: entries_of(clauses, clauses.len() as int),
        },
        Sentence::DropTable { table } => QueryModel::DropTable { table },
    }
}

/// What the grammar asks of a sentence: a list that it writes down has an
/// item, and the first column of a `DELETE` does not begin with the letters
/// of `FROM`.
pub open spec fn admissible(sentence: Sentence) -> bool {
    match sentence {
        Sentence::Select { .. } => true,
        Sentence::Insert { columns, values, .. } => columns.len() > 0 && values.len() > 0,
        Sentence::Update { values, .. } => values.len() > 0,
        Sentence::Delete { columns, .. } => columns.len() > 0 ==> !leads(columns[0], FROM@),
        Sentence::CreateInline { columns, .. } => columns.len() > 0,
        Sentence::CreateGrouped { columns, partition_key, .. } => columns.len() > 0
            && partition_key.len() > 0,
        Sentence::CreateFlat { columns, key, .. } => columns.len() > 0 && key.len() > 0,
        Sentence::Alter { clauses, .. } => clauses.len() > 0 && forall|i: int|
            0 <= i < clauses.len() ==> clause_filled(#[trigger] clauses[i]),
        Sentence::DropTable { .. } => true,
    }
}

/// A sentence is written with at least one token.
proof fn lemma_sentence_has_tokens(sentence: Sentence)
    ensures
        tokens_of(sentence).len() > 0,
{
}

/// Every valid statement parses: a text that starts with the tokens of a
/// sentence, behind which the statement cannot go on, parses to the statement
/// that the sentence stands for, with every list in the order of the text.
pub proof fn lemma_sentence_parses(s: Seq<char>, sentence: Sentence, end: int)
    requires
        admissible(sentence),
        reads_up_to(s, tokens_of(sentence), end),
    ensures
        statement(s) == Ok::<QueryModel, ErrorModel>(meaning(sentence)),
{
    match sentence {
        Sentence::Select { columns, table, conditions } => {
            lemma_select_parses(s, columns, table, conditions, end);
        },
        Sentence::Insert { columns, table, values } => {
            lemma_insert_parses(s, columns, table, values, end);
        },
        Sentence::Update { table, values, conditions } => {
            lemma_update_parses(s, table, values, conditions, end);
        },
        Sentence::Delete { columns, table, conditions } => {
            lemma_delete_parses(s, columns, table, conditions, end);
        },
        Sentence::CreateInline { table, columns } => {
            lemma_create_inline_parses(s, table, columns, end);
        },
        Sentence::CreateGrouped { table, columns, partition_key, clustering_key } => {
            lemma_create_grouped_parses(s, table, columns, partition_key, clustering_key, end);
        },
        Sentence::CreateFlat { table, columns, key } => {
            lemma_create_flat_parses(s, table, columns, key, end);
        },
        Sentence::Alter { table, clauses } => {
            lemma_alter_parses(s, table, clauses, end);
        },
        Sentence::DropTable { table } => {
            lemma_drop_table_parses(s, table, end);
        },
    }
}

/// Every valid statement parses, however it is written and whatever follows
/// it: the text of a sentence, with its keywords in any case and with any
/// whitespace between its tokens, and then any text with which the statement
/// cannot go on, parses to the statement that the sentence stands for. What
/// follows the statement is not read.
pub proof fn lemma_written_sentence_parses(
    sentence: Sentence,
    lead: Seq<char>,
    lexemes: Seq<Lexeme>,
    tail: Seq<char>,
)
    requires
        admissible(sentence),
        well_spelled(tokens_of(sentence), lead, lexemes),
        follows(tokens_of(sentence), lexemes, tail),
        trails(tail),
    ensures
        statement(document(lead, lexemes) + tail) == Ok::<QueryModel, ErrorModel>(
            meaning(sentence),
        ),
{
    let whole = document(lead, lexemes);
    lemma_sentence_has_tokens(sentence);
    lemma_document_reads(tokens_of(sentence), lead, lexemes, tail);
    lemma_tail_is_quiet(whole, tail);
    lemma_sentence_parses(whole + tail, sentence, whole.len() as int);
}

/// A token that is written as a word: a keyword, a type, `TRUE` or `FALSE`.
pub open spec fn is_word(token: Token) -> bool {
    match token {
        Token::Keyword(_) => true,
        Token::Type(_) => true,
        Token::Literal(ValueModel::Bool(_)) => true,
        _ => false,
    }
}

/// The lexemes `other` are the lexemes `lexemes` but for the case of the
/// letters of keywords, types, `TRUE` and `FALSE`.
pub open spec fn recased(tokens: Seq<Token>, lexemes: Seq<Lexeme>, other: Seq<Lexeme>) -> bool {
    &&& other.len() == lexemes.len()
    &&& forall|i: int|
        0 <= i < lexemes.len() ==> {
            &&& (#[trigger] other[i]).gap == lexemes[i].gap
            &&& if is_word(tokens[i]) {
                same_word(other[i].text, lexemes[i].text)
            } else {
                other[i].text == lexemes[i].text
            }
        }
}

/// The lexemes `other` are the lexemes `lexemes` with other whitespace, and
/// with some whitespace wherever `lexemes` has some.
pub open spec fn respaced(lexemes: Seq<Lexeme>, other: Seq<Lexeme>) -> bool {
    &&& other.len() == lexemes.len()
    &&& forall|i: int|
        0 <= i < lexemes.len() ==> {
            &&& (#[trigger] other[i]).text == lexemes[i].text
            &&& is_blank(other[i].gap)
            &&& lexemes[i].gap.len() > 0 ==> other[i].gap.len() > 0
        }
}

/// The word of a token that is written as a word starts with an ASCII
/// letter, and so does every way to write it.
proof fn lemma_word_starts(token: Token, text: Seq<char>)
    requires
        is_word(token),
        spells(token, text),
    ensures
        text.len() > 0,
        is_ascii_letter(text[0]),
{
    reveal_strlit("UUID");
    reveal_strlit("INT");
    reveal_strlit("LONG");
    reveal_strlit("FLOAT");
    reveal_strlit("DOUBLE");
    reveal_strlit("TIMESTAMP");
    reveal_strlit("TEXT");
    reveal_strlit("BOOL");
    reveal_strlit("TRUE");
    reveal_strlit("FALSE");
    match token {
        Token::Keyword(word) => {
            assert(same_letter(text[0], word[0]));
        },
        Token::Type(column_type) => {
            assert(same_letter(text[0], type_word(column_type)[0]));
        },
        Token::Literal(ValueModel::Bool(flag)) => {
            assert(same_letter(text[0], truth_word(flag)[0]));
        },
        _ => {},
    }
}

/// A word in another case of its letters is a way to write the same token.
proof fn lemma_recased_spells(token: Token, text: Seq<char>, other: Seq<char>)
    requires
        is_word(token),
        spells(token, text),
        same_word(other, text),
    ensures
        spells(token, other),
{
    let word = match token {
        Token::Keyword(word) => word,
        Token::Type(column_type) => type_word(column_type),
        Token::Literal(ValueModel::Bool(flag)) => truth_word(flag),
        _ => Seq::empty(),
    };
    assert forall|i: int| 0 <= i < word.len() implies same_letter(other[i], #[trigger] word[i]) by {
        assert(same_letter(other[i], text[i]));
        assert(same_letter(text[i], word[i]));
    }
}

/// Lexemes that differ from well-spelled ones only in the case of words are
/// well spelled.
proof fn lemma_recased_well_spelled(
    tokens: Seq<Token>,
    lead: Seq<char>,
    lexemes: Seq<Lexeme>,
    other: Seq<Lexeme>,
)
    requires
        well_spelled(tokens, lead, lexemes),
        recased(tokens, lexemes, other),
    ensures
        well_spelled(tokens, lead, other),
{
    assert forall|i: int| 0 <= i < tokens.len() implies spells(
        tokens[i],
        (#[trigger] other[i]).text,
    ) && is_blank(other[i].gap) by {
        assert(spells(tokens[i], lexemes[i].text));
        if is_word(tokens[i]) {
            lemma_recased_spells(tokens[i], lexemes[i].text, other[i].text);
        }
    }
    assert forall|i: int|
        0 <= i && i + 1 < tokens.len() && (#[trigger] other[i]).gap.len() == 0 implies !glues(
        tokens[i],
        other[i + 1].text[0],
    ) by {
        assert(lexemes[i].gap.len() == 0);
        assert(!glues(tokens[i], lexemes[i + 1].text[0]));
        assert(spells(tokens[i + 1], lexemes[i + 1].text));
        assert(other[i + 1].gap == lexemes[i + 1].gap);
        if is_word(tokens[i + 1]) {
            lemma_word_starts(tokens[i + 1], lexemes[i + 1].text);
            lemma_recased_spells(tokens[i + 1], lexemes[i + 1].text, other[i + 1].text);
            lemma_word_starts(tokens[i + 1], other[i + 1].text);
        }
    }
}

/// The case of keywords does not matter: two texts that differ only in the
/// case of the letters of the keywords, types, `TRUE` and `FALSE` of a
/// sentence parse to the same statement, whatever follows the sentence in
/// both.
pub proof fn lemma_keyword_case_is_free(
    sentence: Sentence,
    lead: Seq<char>,
    lexemes: Seq<Lexeme>,
    other: Seq<Lexeme>,
    tail: Seq<char>,
)
    requires
        admissible(sentence),
        well_spelled(tokens_of(sentence), lead, lexemes),
        recased(tokens_of(sentence), lexemes, other),
        follows(tokens_of(sentence), lexemes, tail),
        trails(tail),
    ensures
        statement(document(lead, other) + tail) == statement(document(lead, lexemes) + tail),
        statement(document(lead, other) + tail) == Ok::<QueryModel, ErrorModel>(
            meaning(sentence),
        ),
{
    lemma_sentence_has_tokens(sentence);
    lemma_recased_well_spelled(tokens_of(sentence), lead, lexemes, other);
    assert(other.last() == other[other.len() - 1]);
    assert(lexemes.last() == lexemes[lexemes.len() - 1]);
    lemma_written_sentence_parses(sentence, lead, lexemes, tail);
    lemma_written_sentence_parses(sentence, lead, other, tail);
}

/// Whitespace between tokens does not matter: two texts that differ only in
/// the whitespace before, between and behind the tokens of a sentence parse
/// to the same statement, as long as the second has whitespace wherever the
/// first has some, and whatever follows the sentence in both.
pub proof fn lemma_whitespace_is_free(
    sentence: Sentence,
    lead: Seq<char>,
    lexemes: Seq<Lexeme>,
    other_lead: Seq<char>,
    other: Seq<Lexeme>,
    tail: Seq<char>,
)
    requires
        admissible(sentence),
        well_spelled(tokens_of(sentence), lead, lexemes),
        is_blank(other_lead),
        respaced(lexemes, other),
        follows(tokens_of(sentence), lexemes, tail),
        trails(tail),
    ensures
        statement(document(other_lead, other) + tail) == statement(
            document(lead, lexemes) + tail,
        ),
        statement(document(other_lead, other) + tail) == Ok::<QueryModel, ErrorModel>(
            meaning(sentence),
        ),
{
    let tokens = tokens_of(sentence);
    lemma_sentence_has_tokens(sentence);
    assert forall|i: int| 0 <= i < tokens.len() implies spells(
        tokens[i],
        (#[trigger] other[i]).text,
    ) && is_blank(other[i].gap) by {
        assert(spells(tokens[i], lexemes[i].text));
    }
    assert forall|i: int|
        0 <= i && i + 1 < tokens.len() && (#[trigger] other[i]).gap.len() == 0 implies !glues(
        tokens[i],
        other[i + 1].text[0],
    ) by {
        assert(lexemes[i].gap.len() == 0);
        assert(other[i + 1].text == lexemes[i + 1].text);
    }
    assert(other.last() == other[other.len() - 1]);
    assert(lexemes.last() == lexemes[lexemes.len() - 1]);
    lemma_written_sentence_parses(sentence, lead, lexemes, tail);
    lemma_written_sentence_parses(sentence, other_lead, other, tail);
}

} // verus!
