use vstd::prelude::*;

verus! {

// What a syntax error says was expected.

pub const SELECT_KEYWORD: &'static str = "expected the select keyword";

pub const SELECT_COLUMNS: &'static str = "expected the column names or *";

pub const FROM_KEYWORD: &'static str = "expected the from keyword";

pub const TABLE_NAME: &'static str = "expected the table name";

pub const WHERE_CONDITION: &'static str = "an error occurred while parsing where condition";

pub const INSERT_KEYWORD: &'static str = "expected the insert into keyword";

pub const INSERT_COLUMNS: &'static str = "an error occurred while parsing column names";

pub const VALUES_KEYWORD: &'static str = "expected the values keyword";

pub const VALUE_LIST: &'static str = "an error occurred while parsing values";

pub const UPDATE_KEYWORD: &'static str = "an error occurred while parsing update keyword";

pub const PARSING_TABLE_NAME: &'static str = "an error occurred while parsing the table name";

pub const SET_KEYWORD: &'static str = "expected set keyword";

pub const DELETE_KEYWORD: &'static str = "an error occurred while parsing delete keyword";

pub const DELETE_FROM: &'static str = "an error occurred while parsing from keyword";

pub const DELETE_COLUMNS: &'static str = "an error occurred while parsing the columns";

pub const CREATE_KEYWORD: &'static str = "cannot parse statement 'CREATE TABLE'";

pub const CANNOT_PARSE_TABLE: &'static str = "cannot parse table name";

pub const SIMPLE_KEY: &'static str = "cannot parse the column definition with a simple primary key";

pub const COMPOSITE_KEY: &'static str =
    "cannot parse the column definition with a composite primary key";

pub const ALTER_KEYWORD: &'static str = "expected 'ALTER TABLE' statement";

pub const ALTER_CLAUSE: &'static str = "expected an 'ADD' or a 'DROP' clause";

pub const DROP_KEYWORD: &'static str = "expected 'DROP TABLE' statement";

} // verus!
