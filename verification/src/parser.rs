use vstd::prelude::*;
use crate::common_parser::parse_keyword;
use crate::ddl_parser::{parse_alter_table_query, parse_create_table_query, parse_drop_table_query};
use crate::dml_parser::{parse_delete, parse_insert, parse_select_query, parse_update};
use crate::grammar::{statement, statement_kind};
use crate::keyword::{ALTER_TABLE, CREATE_TABLE, DELETE, DROP_TABLE, INSERT_INTO, SELECT, UPDATE};
use crate::query::{outcome, ErrorModel, Query, QueryParsingError, QueryType};
use crate::soundness::lemma_statement_sound;
use crate::text::{collect, to_chars};

verus! {

/// The kind of the statement in `input`: that of the first keyword that leads
/// it, of `SELECT`, `INSERT INTO`, `UPDATE`, `DELETE`, `CREATE TABLE`,
/// `ALTER TABLE` and `DROP TABLE`, in any case and after any whitespace.
/// Where none leads it, the input is an unsupported request.
pub fn classify(input: &[char]) -> (kind: Result<QueryType, QueryParsingError>)
    ensures
        match kind {
            Ok(kind) => statement_kind(input@) == Some(kind),
            Err(error) => statement_kind(input@) is None && error@
                == ErrorModel::UnsupportedRequest(input@),
        },
{
    if parse_keyword(input, 0, SELECT).is_some() {
        Ok(QueryType::Select)
    } else if parse_keyword(input, 0, INSERT_INTO).is_some() {
        Ok(QueryType::Insert)
    } else if parse_keyword(input, 0, UPDATE).is_some() {
        Ok(QueryType::Update)
    } else if parse_keyword(input, 0, DELETE).is_some() {
        Ok(QueryType::Delete)
    } else if parse_keyword(input, 0, CREATE_TABLE).is_some() {
        Ok(QueryType::CreateTable)
    } else if parse_keyword(input, 0, ALTER_TABLE).is_some() {
        Ok(QueryType::AlterTable)
    } else if parse_keyword(input, 0, DROP_TABLE).is_some() {
        Ok(QueryType::DropTable)
    } else {
        let whole = collect(input, 0, input.len());
        assert(whole@ =~= input@);
        Err(QueryParsingError::UnsupportedRequest(whole))
    }
}

/// The kind of the statement in `query`, or the query as an unsupported
/// request.
pub fn get_query_type(query: &str) -> (kind: Result<QueryType, QueryParsingError>)
    ensures
        match kind {
            Ok(kind) => statement_kind(query@) == Some(kind),
            Err(error) => statement_kind(query@) is None && error@
                == ErrorModel::UnsupportedRequest(query@),
        },
{
    let input = to_chars(query);
    classify(input.as_slice())
}

/// Parses one statement: its leading keyword decides the kind, and the rules
/// of that kind give the statement or the syntax error.
pub fn parse_query(query: &str) -> (result: Result<Query, QueryParsingError>)
    ensures
        outcome(result) == statement(query@),
        result matches Ok(parsed) ==> parsed@.well_formed(),
        result matches Err(error) ==> error@.comes_of(query@),
        statement_kind(query@) is None <==> result matches Err(
            QueryParsingError::UnsupportedRequest(_),
        ),
{
    proof {
        lemma_statement_sound(query@);
    }
    let chars = to_chars(query);
    let input = chars.as_slice();
    let kind = match classify(input) {
        Ok(kind) => kind,
        Err(error) => return Err(error),
    };
    match kind {
        QueryType::Select => parse_select_query(input),
        QueryType::Insert => parse_insert(input),
        QueryType::Update => parse_update(input),
        QueryType::Delete => parse_delete(input),
        QueryType::CreateTable => parse_create_table_query(input),
        QueryType::AlterTable => parse_alter_table_query(input),
        QueryType::DropTable => parse_drop_table_query(input),
    }
}

} // verus!
