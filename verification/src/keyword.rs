use vstd::prelude::*;

verus! {

// The keywords, the operators and the punctuation marks of the statements.
// A keyword is read in any case of its letters. One that is made of two
// words has one space between them.

pub const SELECT: &'static str = "SELECT";

pub const INSERT_INTO: &'static str = "INSERT INTO";

pub const UPDATE: &'static str = "UPDATE";

pub const DELETE: &'static str = "DELETE";

pub const CREATE_TABLE: &'static str = "CREATE TABLE";

pub const ALTER_TABLE: &'static str = "ALTER TABLE";

pub const DROP_TABLE: &'static str = "DROP TABLE";

pub const FROM: &'static str = "FROM";

pub const WHERE: &'static str = "WHERE";

pub const AND: &'static str = "AND";

pub const VALUES: &'static str = "VALUES";

pub const SET: &'static str = "SET";

pub const ADD: &'static str = "ADD";

pub const DROP: &'static str = "DROP";

pub const PRIMARY_KEY: &'static str = "PRIMARY KEY";

pub const UUID: &'static str = "UUID";

pub const INT: &'static str = "INT";

pub const LONG: &'static str = "LONG";

pub const FLOAT: &'static str = "FLOAT";

pub const DOUBLE: &'static str = "DOUBLE";

pub const TIMESTAMP: &'static str = "TIMESTAMP";

pub const TEXT: &'static str = "TEXT";

pub const BOOL: &'static str = "BOOL";

pub const TRUE: &'static str = "TRUE";

pub const FALSE: &'static str = "FALSE";

pub const GREATER_OR_EQUALS: &'static str = ">=";

pub const LESS_OR_EQUALS: &'static str = "<=";

pub const GREATER: &'static str = ">";

pub const LESS: &'static str = "<";

pub const EQUALS: &'static str = "=";

pub const NOT_EQUALS: &'static str = "!=";

pub const COMMA: &'static str = ",";

pub const OPEN: &'static str = "(";

pub const CLOSE: &'static str = ")";

pub const STAR: &'static str = "*";

} // verus!
