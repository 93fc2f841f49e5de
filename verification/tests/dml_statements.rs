use query_parser::builder::{
    ConditionBuilder, DeleteQueryBuilder, InsertQueryBuilder, SelectQueryBuilder,
    UpdateQueryBuilder,
};
use query_parser::parser::parse_query;
use query_parser::query::{Operator, Query, QueryParsingError, Value};

// Statements and values have no `==`: a floating-point literal is kept as it
// is written, and two of them are the same when their numbers are.

trait Same {
    fn same(&self, other: &Self) -> bool;
}

impl Same for query_parser::query::Value {
    fn same(&self, other: &Self) -> bool {
        match (self, other) {
            (Self::Integer(x), Self::Integer(y)) => x == y,
            (Self::Float(x), Self::Float(y)) => match (x.parse::<f64>(), y.parse::<f64>()) {
                (Ok(x), Ok(y)) => x == y,
                _ => false,
            },
            (Self::String(x), Self::String(y)) => x == y,
            (Self::Bool(x), Self::Bool(y)) => x == y,
            _ => false,
        }
    }
}

impl Same for query_parser::query::Condition {
    fn same(&self, other: &Self) -> bool {
        self.column == other.column
            && self.operator == other.operator
            && self.value.same(&other.value)
    }
}

impl Same for query_parser::query::DataManipulationQuery {
    fn same(&self, other: &Self) -> bool {
        match (self, other) {
            (Self::Select(x), Self::Select(y)) => {
                x.columns == y.columns && x.table == y.table && x.conditions.same(&y.conditions)
            }
            (Self::Insert(x), Self::Insert(y)) => {
                x.columns == y.columns && x.table == y.table && x.values.same(&y.values)
            }
            (Self::Update(x), Self::Update(y)) => {
                x.table == y.table
                    && x.values.same(&y.values)
                    && x.conditions.same(&y.conditions)
            }
            (Self::Delete(x), Self::Delete(y)) => {
                x.columns == y.columns && x.table == y.table && x.conditions.same(&y.conditions)
            }
            _ => false,
        }
    }
}

impl Same for query_parser::query::Query {
    fn same(&self, other: &Self) -> bool {
        match (self, other) {
            (Self::DataManipulationQuery(x), Self::DataManipulationQuery(y)) => x.same(y),
            (Self::DataDefinitionQuery(x), Self::DataDefinitionQuery(y)) => x == y,
            _ => false,
        }
    }
}

impl Same for query_parser::query::QueryParsingError {
    fn same(&self, other: &Self) -> bool {
        self == other
    }
}

impl Same for query_parser::builder::BuilderError {
    fn same(&self, other: &Self) -> bool {
        self == other
    }
}

impl Same for String {
    fn same(&self, other: &Self) -> bool {
        self == other
    }
}

impl Same for usize {
    fn same(&self, other: &Self) -> bool {
        self == other
    }
}

impl<T: Same> Same for Vec<T> {
    fn same(&self, other: &Self) -> bool {
        self.len() == other.len() && self.iter().zip(other).all(|(x, y)| x.same(y))
    }
}

impl<T: Same> Same for Option<T> {
    fn same(&self, other: &Self) -> bool {
        match (self, other) {
            (Some(x), Some(y)) => x.same(y),
            (None, None) => true,
            _ => false,
        }
    }
}

impl<T: Same, E: Same> Same for Result<T, E> {
    fn same(&self, other: &Self) -> bool {
        match (self, other) {
            (Ok(x), Ok(y)) => x.same(y),
            (Err(x), Err(y)) => x.same(y),
            _ => false,
        }
    }
}

impl<A: Same, B: Same> Same for (A, B) {
    fn same(&self, other: &Self) -> bool {
        self.0.same(&other.0) && self.1.same(&other.1)
    }
}

impl<T: Same> Same for &T {
    fn same(&self, other: &Self) -> bool {
        (**self).same(&**other)
    }
}

fn assert_same<T: Same + std::fmt::Debug>(actual: T, expected: T) {
    assert!(actual.same(&expected), "\n  left: {:?}\n right: {:?}", actual, expected);
}

fn syntax_error(expected: &str, rest: &str) -> Result<Query, QueryParsingError> {
    Err(QueryParsingError::QuerySyntaxError(expected.to_string(), rest.to_string()))
}

#[test]
fn test_parse_select() {
    let params = vec![
        (
            r#"
                SELECT *
                FROM user_sessions
                "#,
            SelectQueryBuilder::new().table("user_sessions".to_string()).build().unwrap(),
        ),
        (
            r#"
                SELECT user_id, session_id, type, device_type, timestamp
                FROM user_sessions
                "#,
            SelectQueryBuilder::new()
                .column("user_id".to_string())
                .column("session_id".to_string())
                .column("type".to_string())
                .column("device_type".to_string())
                .column("timestamp".to_string())
                .table("user_sessions".to_string())
                .build()
                .unwrap(),
        ),
        (
            r#"
                SELECT user_id, session_id, type, device_type, timestamp
                FROM user_sessions
                WHERE user_id = '3e3be9fb-5888-4b0e-8f22-287b7d90a32f'
                AND timestamp >= '2024-10-21 00:00:00'
                AND timestamp <= '2024-11-01 00:00:00'
                "#,
            SelectQueryBuilder::new()
                .column("user_id".to_string())
                .column("session_id".to_string())
                .column("type".to_string())
                .column("device_type".to_string())
                .column("timestamp".to_string())
                .table("user_sessions".to_string())
                .condition(
                    ConditionBuilder::new()
                        .column("user_id".to_string())
                        .operator(Operator::Equals)
                        .value(Value::String("3e3be9fb-5888-4b0e-8f22-287b7d90a32f".to_string()))
                        .build()
                        .unwrap(),
                )
                .condition(
                    ConditionBuilder::new()
                        .column("timestamp".to_string())
                        .operator(Operator::GreaterOrEquals)
                        .value(Value::String("2024-10-21 00:00:00".to_string()))
                        .build()
                        .unwrap(),
                )
                .condition(
                    ConditionBuilder::new()
                        .column("timestamp".to_string())
                        .operator(Operator::LessOrEquals)
                        .value(Value::String("2024-11-01 00:00:00".to_string()))
                        .build()
                        .unwrap(),
                )
                .build()
                .unwrap(),
        ),
    ];

    for (query, expected_result) in params {
        assert_same(parse_query(query), Ok(expected_result));
    }
}

#[test]
fn test_parse_insert_query() {
    let query = r#"
        INSERT INTO user_sessions (user_id, session_id, type, device_type, timestamp)
        VALUES (12345, '3e3be9fb-5888-4b0e-8f22-287b7d90a32f', 'LOG_IN', 'PHONE', '2024-11-01 00:00:00')"#;

    let expected_result = InsertQueryBuilder::new()
        .column("user_id".to_string())
        .column("session_id".to_string())
        .column("type".to_string())
        .column("device_type".to_string())
        .column("timestamp".to_string())
        .table("user_sessions".to_string())
        .value(Value::Integer(12345))
        .value(Value::String("3e3be9fb-5888-4b0e-8f22-287b7d90a32f".to_string()))
        .value(Value::String("LOG_IN".to_string()))
        .value(Value::String("PHONE".to_string()))
        .value(Value::String("2024-11-01 00:00:00".to_string()))
        .build()
        .unwrap();

    assert_same(parse_query(query), Ok(expected_result));
}

#[test]
fn test_parse_update_request() {
    let query = r#"
        UPDATE user_sessions
        SET
        type = 'LAPTOP',
        timestamp = '2024-11-08 00:00:00'
        WHERE user_id = 12345
        AND session_id = '3e3be9fb-5888-4b0e-8f22-287b7d90a32f'"#;

    let expected_result = UpdateQueryBuilder::new()
        .table("user_sessions".to_string())
        .value(("type".to_string(), Value::String("LAPTOP".to_string())))
        .value(("timestamp".to_string(), Value::String("2024-11-08 00:00:00".to_string())))
        .condition(
            ConditionBuilder::new()
                .column("user_id".to_string())
                .operator(Operator::Equals)
                .value(Value::Integer(12345))
                .build()
                .unwrap(),
        )
        .condition(
            ConditionBuilder::new()
                .column("session_id".to_string())
                .operator(Operator::Equals)
                .value(Value::String("3e3be9fb-5888-4b0e-8f22-287b7d90a32f".to_string()))
                .build()
                .unwrap(),
        )
        .build()
        .unwrap();

    assert_same(parse_query(query), Ok(expected_result));
}

#[test]
fn test_parse_delete() {
    let params = vec![
        (
            r#"
                DELETE FROM user_sessions
                WHERE user_id = 12345
                AND session_id = '3e3be9fb-5888-4b0e-8f22-287b7d90a32f'
                "#,
            DeleteQueryBuilder::new()
                .table("user_sessions".to_string())
                .condition(
                    ConditionBuilder::new()
                        .column("user_id".to_string())
                        .operator(Operator::Equals)
                        .value(Value::Integer(12345))
                        .build()
                        .unwrap(),
                )
                .condition(
                    ConditionBuilder::new()
                        .column("session_id".to_string())
                        .operator(Operator::Equals)
                        .value(Value::String("3e3be9fb-5888-4b0e-8f22-287b7d90a32f".to_string()))
                        .build()
                        .unwrap(),
                )
                .build()
                .unwrap(),
        ),
        (
            r#"
                DELETE type, timestamp
                FROM user_sessions
                WHERE user_id = 12345
                AND session_id = '3e3be9fb-5888-4b0e-8f22-287b7d90a32f'
                "#,
            DeleteQueryBuilder::new()
                .column("type".to_string())
                .column("timestamp".to_string())
                .table("user_sessions".to_string())
                .condition(
                    ConditionBuilder::new()
                        .column("user_id".to_string())
                        .operator(Operator::Equals)
                        .value(Value::Integer(12345))
                        .build()
                        .unwrap(),
                )
                .condition(
                    ConditionBuilder::new()
                        .column("session_id".to_string())
                        .operator(Operator::Equals)
                        .value(Value::String("3e3be9fb-5888-4b0e-8f22-287b7d90a32f".to_string()))
                        .build()
                        .unwrap(),
                )
                .build()
                .unwrap(),
        ),
    ];

    for (query, expected_result) in params {
        assert_same(parse_query(query), Ok(expected_result));
    }
}

#[test]
fn unsupported_statement_carries_the_input() {
    assert_same(
        parse_query("TRUNCATE t"),
        Err(QueryParsingError::UnsupportedRequest("TRUNCATE t".to_string()))
    );
    assert_same(parse_query(""), Err(QueryParsingError::UnsupportedRequest("".to_string())));
}

#[test]
fn insert_without_into_is_unsupported() {
    assert_same(
        parse_query("INSERT t (a) VALUES (1)"),
        Err(QueryParsingError::UnsupportedRequest("INSERT t (a) VALUES (1)".to_string()))
    );
    assert_same(
        parse_query("INSERT  INTO t (a) VALUES (1)"),
        Err(QueryParsingError::UnsupportedRequest("INSERT  INTO t (a) VALUES (1)".to_string()))
    );
}

#[test]
fn select_without_columns_is_a_syntax_error() {
    let result = parse_query("SELECT FROM t");
    assert!(matches!(result, Err(QueryParsingError::QuerySyntaxError(_, _))));
    assert_same(result, syntax_error("expected the from keyword", "t"));
    assert_same(
        parse_query("SELECT 1 FROM t"),
        syntax_error("expected the column names or *", "1 FROM t")
    );
}

#[test]
fn select_errors_carry_the_rest_of_the_input() {
    assert_same(
        parse_query("SELECT a, b t"),
        syntax_error("expected the from keyword", "t")
    );
    assert_same(parse_query("SELECT * FROM 5"), syntax_error("expected the table name", "5"));
    assert_same(
        parse_query("SELECT * FROM t WHERE a ="),
        syntax_error("an error occurred while parsing where condition", "WHERE a =")
    );
    assert_same(
        parse_query("SELECT * FROM t WHERE a = ''"),
        syntax_error("an error occurred while parsing where condition", "WHERE a = ''")
    );
    assert_same(
        parse_query("SELECT * FROM t WHERE a = 'open"),
        syntax_error("an error occurred while parsing where condition", "WHERE a = 'open")
    );
}

#[test]
fn insert_errors() {
    assert_same(
        parse_query("INSERT INTO (a) VALUES (1)"),
        syntax_error("expected the table name", "(a) VALUES (1)")
    );
    assert_same(
        parse_query("INSERT INTO t a VALUES (1)"),
        syntax_error("an error occurred while parsing column names", "a VALUES (1)")
    );
    assert_same(
        parse_query("INSERT INTO t (a) (1)"),
        syntax_error("expected the values keyword", "(1)")
    );
    assert_same(
        parse_query("INSERT INTO t (a) VALUES (b)"),
        syntax_error("an error occurred while parsing values", "(b)")
    );
}

#[test]
fn update_errors() {
    assert_same(
        parse_query("UPDATE 1"),
        syntax_error("an error occurred while parsing the table name", "1")
    );
    assert_same(parse_query("UPDATE t a = 1"), syntax_error("expected set keyword", "a = 1"));
    assert_same(
        parse_query("UPDATE t SET a 1"),
        syntax_error("an error occurred while parsing values", "a 1")
    );
    assert_same(
        parse_query("UPDATE t SET a = 1 WHERE"),
        syntax_error("an error occurred while parsing where condition", "WHERE")
    );
}

#[test]
fn delete_errors() {
    assert_same(
        parse_query("DELETE 1 FROM t"),
        syntax_error("an error occurred while parsing the columns", "1 FROM t")
    );
    assert_same(
        parse_query("DELETE a, b t"),
        syntax_error("an error occurred while parsing from keyword", "t")
    );
    assert_same(
        parse_query("DELETE FROM 1"),
        syntax_error("an error occurred while parsing the table name", "1")
    );
    assert_same(
        parse_query("DELETE FROM t WHERE 1"),
        syntax_error("an error occurred while parsing where condition", "WHERE 1")
    );
}

#[test]
fn delete_tries_from_before_a_column_list() {
    assert_same(
        parse_query("DELETE fromage FROM t"),
        Ok(DeleteQueryBuilder::new().table("age".to_string()).build().unwrap())
    );
}

#[test]
fn insert_does_not_compare_the_counts() {
    assert_same(
        parse_query("INSERT INTO t (a, b, c) VALUES (1)"),
        Ok(InsertQueryBuilder::new()
            .columns(vec!["a".to_string(), "b".to_string(), "c".to_string()])
            .table("t".to_string())
            .values(vec![Value::Integer(1)])
            .build()
            .unwrap())
    );
}

#[test]
fn keywords_are_read_in_any_case() {
    let upper = parse_query("SELECT a FROM t WHERE a = TRUE AND b = FALSE");
    assert!(upper.is_ok());
    assert_same(&parse_query("select a from t where a = true and b = false"), &upper);
    assert_same(&parse_query("Select a From t Where a = True And b = False"), &upper);
    assert_same(&parse_query("sElEcT a fRoM t wHeRe a = tRuE aNd b = fAlSe"), &upper);
}

#[test]
fn names_keep_their_case() {
    assert_same(
        parse_query("select Name from Users"),
        Ok(SelectQueryBuilder::new()
            .column("Name".to_string())
            .table("Users".to_string())
            .build()
            .unwrap())
    );
    assert!(!parse_query("select Name from Users").same(&parse_query("select name from users")));
}

#[test]
fn whitespace_between_tokens_does_not_matter() {
    let plain = parse_query("UPDATE t SET a=1,b='x' WHERE c>=2 AND d!=3");
    assert!(plain.is_ok());
    assert_same(
        &parse_query(
            "\n\t UPDATE \r\n t \n SET  a \t = \n 1 ,\n b = 'x' \n\n WHERE c  >=  2 \t AND \r\n d != 3 \n"
        ),
        &plain
    );
    let insert = parse_query("INSERT INTO t(a,b)VALUES(1,2.5)");
    assert!(insert.is_ok());
    assert_same(&parse_query("  INSERT INTO   t ( a , b )\n VALUES ( 1 ,\t2.5 ) "), &insert);
}

#[test]
fn whitespace_inside_a_string_is_kept() {
    assert_same(
        parse_query("select * from t where a = '  x  y '"),
        Ok(SelectQueryBuilder::new()
            .table("t".to_string())
            .condition(
                ConditionBuilder::new()
                    .column("a".to_string())
                    .operator(Operator::Equals)
                    .value(Value::String("  x  y ".to_string()))
                    .build()
                    .unwrap()
            )
            .build()
            .unwrap())
    );
}

#[test]
fn lists_keep_the_order_of_the_source() {
    assert_same(
        parse_query("SELECT c, a, b FROM t WHERE z = 1 AND y = 2 AND x = 3"),
        Ok(SelectQueryBuilder::new()
            .columns(vec!["c".to_string(), "a".to_string(), "b".to_string()])
            .table("t".to_string())
            .conditions(vec![
                ConditionBuilder::new()
                    .column("z".to_string())
                    .operator(Operator::Equals)
                    .value(Value::Integer(1))
                    .build()
                    .unwrap(),
                ConditionBuilder::new()
                    .column("y".to_string())
                    .operator(Operator::Equals)
                    .value(Value::Integer(2))
                    .build()
                    .unwrap(),
                ConditionBuilder::new()
                    .column("x".to_string())
                    .operator(Operator::Equals)
                    .value(Value::Integer(3))
                    .build()
                    .unwrap(),
            ])
            .build()
            .unwrap())
    );
}

#[test]
fn names_may_hold_letters_of_any_script() {
    assert_same(
        parse_query("select größe, цена from таблица"),
        Ok(SelectQueryBuilder::new()
            .column("größe".to_string())
            .column("цена".to_string())
            .table("таблица".to_string())
            .build()
            .unwrap())
    );
    assert_same(
        parse_query("select a1 from t"),
        syntax_error("expected the from keyword", "1 from t")
    );
}

#[test]
fn floating_point_literals_of_one_number_are_the_same() {
    assert_same(
        parse_query("select * from t where x = 2.5"),
        parse_query("select * from t where x = 2.50"),
    );
    assert_same(
        parse_query("insert into t (a, b) values (1.0, 0.0)"),
        parse_query("insert into t (a, b) values (1.00, -0.0)"),
    );
    assert!(!parse_query("select * from t where x = 2.5")
        .same(&parse_query("select * from t where x = 2.51")));
    assert!(!parse_query("select * from t where x = 2.0")
        .same(&parse_query("select * from t where x = 2")));
}
