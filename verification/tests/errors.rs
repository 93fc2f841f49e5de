use query_parser::parser::{classify, get_query_type, parse_query};
use query_parser::query::{QueryParsingError, QueryType};

// Statements and values have no `==`: a floating-point literal is kept as it
// is written, and two of them are the same when their numbers are.

trait Same {
    fn same(&self, other: &Self) -> bool;
}

impl Same for query_parser::query::Value {
    fn same(&self, other: &Self) -> bool {
        match (self, other) {
            (Self::Integer(x), Self::Integer(y)) => x == y,
            (Self::Float(x), Self::Float(y)) => match (x.parse::<f64>(), y.parse::<f64>()) {
                (Ok(x), Ok(y)) => x == y,
                _ => false,
            },
            (Self::String(x), Self::String(y)) => x == y,
            (Self::Bool(x), Self::Bool(y)) => x == y,
            _ => false,
        }
    }
}

impl Same for query_parser::query::Condition {
    fn same(&self, other: &Self) -> bool {
        self.column == other.column
            && self.operator == other.operator
            && self.value.same(&other.value)
    }
}

impl Same for query_parser::query::DataManipulationQuery {
    fn same(&self, other: &Self) -> bool {
        match (self, other) {
            (Self::Select(x), Self::Select(y)) => {
                x.columns == y.columns && x.table == y.table && x.conditions.same(&y.conditions)
            }
            (Self::Insert(x), Self::Insert(y)) => {
                x.columns == y.columns && x.table == y.table && x.values.same(&y.values)
            }
            (Self::Update(x), Self::Update(y)) => {
                x.table == y.table
                    && x.values.same(&y.values)
                    && x.conditions.same(&y.conditions)
            }
            (Self::Delete(x), Self::Delete(y)) => {
                x.columns == y.columns && x.table == y.table && x.conditions.same(&y.conditions)
            }
            _ => false,
        }
    }
}

impl Same for query_parser::query::Query {
    fn same(&self, other: &Self) -> bool {
        match (self, other) {
            (Self::DataManipulationQuery(x), Self::DataManipulationQuery(y)) => x.same(y),
            (Self::DataDefinitionQuery(x), Self::DataDefinitionQuery(y)) => x == y,
            _ => false,
        }
    }
}

impl Same for query_parser::query::QueryParsingError {
    fn same(&self, other: &Self) -> bool {
        self == other
    }
}

impl Same for query_parser::builder::BuilderError {
    fn same(&self, other: &Self) -> bool {
        self == other
    }
}

impl Same for String {
    fn same(&self, other: &Self) -> bool {
        self == other
    }
}

impl Same for usize {
    fn same(&self, other: &Self) -> bool {
        self == other
    }
}

impl<T: Same> Same for Vec<T> {
    fn same(&self, other: &Self) -> bool {
        self.len() == other.len() && self.iter().zip(other).all(|(x, y)| x.same(y))
    }
}

impl<T: Same> Same for Option<T> {
    fn same(&self, other: &Self) -> bool {
        match (self, other) {
            (Some(x), Some(y)) => x.same(y),
            (None, None) => true,
            _ => false,
        }
    }
}

impl<T: Same, E: Same> Same for Result<T, E> {
    fn same(&self, other: &Self) -> bool {
        match (self, other) {
            (Ok(x), Ok(y)) => x.same(y),
            (Err(x), Err(y)) => x.same(y),
            _ => false,
        }
    }
}

impl<A: Same, B: Same> Same for (A, B) {
    fn same(&self, other: &Self) -> bool {
        self.0.same(&other.0) && self.1.same(&other.1)
    }
}

impl<T: Same> Same for &T {
    fn same(&self, other: &Self) -> bool {
        (**self).same(&**other)
    }
}

fn assert_same<T: Same + std::fmt::Debug>(actual: T, expected: T) {
    assert!(actual.same(&expected), "\n  left: {:?}\n right: {:?}", actual, expected);
}

#[test]
fn message_of_an_unsupported_request() {
    let error = QueryParsingError::UnsupportedRequest("TRUNCATE t".to_string());
    assert_eq!(error.message(), "the request TRUNCATE t is not supported");
}

#[test]
fn message_of_a_syntax_error() {
    let error = QueryParsingError::QuerySyntaxError(
        "expected the from keyword".to_string(),
        "t".to_string(),
    );
    assert_eq!(
        error.message(),
        "an syntax error expected the from keyword occurred while parsing the request t"
    );
}

#[test]
fn message_of_a_parse_failure() {
    assert_eq!(
        parse_query("TRUNCATE t").unwrap_err().message(),
        "the request TRUNCATE t is not supported"
    );
    assert_eq!(
        parse_query("SELECT FROM t").unwrap_err().message(),
        "an syntax error expected the from keyword occurred while parsing the request t"
    );
}

#[test]
fn kinds_of_statements() {
    assert_eq!(get_query_type("select 1"), Ok(QueryType::Select));
    assert_eq!(get_query_type("  INSERT INTO"), Ok(QueryType::Insert));
    assert_eq!(get_query_type("Update"), Ok(QueryType::Update));
    assert_eq!(get_query_type("\ndelete from"), Ok(QueryType::Delete));
    assert_eq!(get_query_type("create table t"), Ok(QueryType::CreateTable));
    assert_eq!(get_query_type("ALTER TABLE"), Ok(QueryType::AlterTable));
    assert_eq!(get_query_type("drop table"), Ok(QueryType::DropTable));
    assert_eq!(
        get_query_type("insert t"),
        Err(QueryParsingError::UnsupportedRequest("insert t".to_string()))
    );
    assert_eq!(
        get_query_type("create  table t"),
        Err(QueryParsingError::UnsupportedRequest("create  table t".to_string()))
    );
    assert_eq!(
        get_query_type("  explain select"),
        Err(QueryParsingError::UnsupportedRequest("  explain select".to_string()))
    );
    assert_eq!(get_query_type(""), Err(QueryParsingError::UnsupportedRequest("".to_string())));
}

#[test]
fn classify_reads_characters() {
    let input: Vec<char> = "drop table t".chars().collect();
    assert_eq!(classify(&input), Ok(QueryType::DropTable));
    let input: Vec<char> = "drop t".chars().collect();
    assert_eq!(classify(&input), Err(QueryParsingError::UnsupportedRequest("drop t".to_string())));
}

#[test]
fn trailing_input_is_not_read() {
    assert_same(parse_query("DROP TABLE t;"), parse_query("DROP TABLE t"));
    assert_same(parse_query("SELECT * FROM t LIMIT 5"), parse_query("SELECT * FROM t"));
    assert_same(
        parse_query("INSERT INTO t (a) VALUES (1) RETURNING a"),
        parse_query("INSERT INTO t (a) VALUES (1)")
    );
}
