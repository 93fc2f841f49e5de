use query_parser::parser::parse_query;
use query_parser::query::{
    AddColumnCondition, AlterTableCondition, AlterTableQuery, Column, ColumnType,
    CreateTableQuery, DataDefinitionQuery, DropColumnCondition, DropTableQuery, PrimaryKey, Query,
    QueryParsingError,
};

// Statements and values have no `==`: a floating-point literal is kept as it
// is written, and two of them are the same when their numbers are.

trait Same {
    fn same(&self, other: &Self) -> bool;
}

impl Same for query_parser::query::Value {
    fn same(&self, other: &Self) -> bool {
        match (self, other) {
            (Self::Integer(x), Self::Integer(y)) => x == y,
            (Self::Float(x), Self::Float(y)) => match (x.parse::<f64>(), y.parse::<f64>()) {
                (Ok(x), Ok(y)) => x == y,
                _ => false,
            },
            (Self::String(x), Self::String(y)) => x == y,
            (Self::Bool(x), Self::Bool(y)) => x == y,
            _ => false,
        }
    }
}

impl Same for query_parser::query::Condition {
    fn same(&self, other: &Self) -> bool {
        self.column == other.column
            && self.operator == other.operator
            && self.value.same(&other.value)
    }
}

impl Same for query_parser::query::DataManipulationQuery {
    fn same(&self, other: &Self) -> bool {
        match (self, other) {
            (Self::Select(x), Self::Select(y)) => {
                x.columns == y.columns && x.table == y.table && x.conditions.same(&y.conditions)
            }
            (Self::Insert(x), Self::Insert(y)) => {
                x.columns == y.columns && x.table == y.table && x.values.same(&y.values)
            }
            (Self::Update(x), Self::Update(y)) => {
                x.table == y.table
                    && x.values.same(&y.values)
                    && x.conditions.same(&y.conditions)
            }
            (Self::Delete(x), Self::Delete(y)) => {
                x.columns == y.columns && x.table == y.table && x.conditions.same(&y.conditions)
            }
            _ => false,
        }
    }
}

impl Same for query_parser::query::Query {
    fn same(&self, other: &Self) -> bool {
        match (self, other) {
            (Self::DataManipulationQuery(x), Self::DataManipulationQuery(y)) => x.same(y),
            (Self::DataDefinitionQuery(x), Self::DataDefinitionQuery(y)) => x == y,
            _ => false,
        }
    }
}

impl Same for query_parser::query::QueryParsingError {
    fn same(&self, other: &Self) -> bool {
        self == other
    }
}

impl Same for query_parser::builder::BuilderError {
    fn same(&self, other: &Self) -> bool {
        self == other
    }
}

impl Same for String {
    fn same(&self, other: &Self) -> bool {
        self == other
    }
}

impl Same for usize {
    fn same(&self, other: &Self) -> bool {
        self == other
    }
}

impl<T: Same> Same for Vec<T> {
    fn same(&self, other: &Self) -> bool {
        self.len() == other.len() && self.iter().zip(other).all(|(x, y)| x.same(y))
    }
}

impl<T: Same> Same for Option<T> {
    fn same(&self, other: &Self) -> bool {
        match (self, other) {
            (Some(x), Some(y)) => x.same(y),
            (None, None) => true,
            _ => false,
        }
    }
}

impl<T: Same, E: Same> Same for Result<T, E> {
    fn same(&self, other: &Self) -> bool {
        match (self, other) {
            (Ok(x), Ok(y)) => x.same(y),
            (Err(x), Err(y)) => x.same(y),
            _ => false,
        }
    }
}

impl<A: Same, B: Same> Same for (A, B) {
    fn same(&self, other: &Self) -> bool {
        self.0.same(&other.0) && self.1.same(&other.1)
    }
}

impl<T: Same> Same for &T {
    fn same(&self, other: &Self) -> bool {
        (**self).same(&**other)
    }
}

fn assert_same<T: Same + std::fmt::Debug>(actual: T, expected: T) {
    assert!(actual.same(&expected), "\n  left: {:?}\n right: {:?}", actual, expected);
}

fn column(name: &str, column_type: ColumnType) -> Column {
    Column { name: name.to_string(), column_type }
}

fn names(list: &[&str]) -> Vec<String> {
    list.iter().map(|name| name.to_string()).collect()
}

fn add(name: &str, column_type: ColumnType) -> AlterTableCondition {
    AlterTableCondition::AddColumn(AddColumnCondition { column_name: name.to_string(), column_type })
}

fn drop_column(name: &str) -> AlterTableCondition {
    AlterTableCondition::DropColumn(DropColumnCondition { column_name: name.to_string() })
}

fn created(query: CreateTableQuery) -> Result<Query, QueryParsingError> {
    Ok(Query::DataDefinitionQuery(DataDefinitionQuery::CreateTable(query)))
}

fn altered(table: &str, conditions: Vec<AlterTableCondition>) -> Result<Query, QueryParsingError> {
    Ok(Query::DataDefinitionQuery(DataDefinitionQuery::AlterTable(AlterTableQuery {
        table: table.to_string(),
        conditions,
    })))
}

fn syntax_error(expected: &str, rest: &str) -> Result<Query, QueryParsingError> {
    Err(QueryParsingError::QuerySyntaxError(expected.to_string(), rest.to_string()))
}

#[test]
fn test_parse_create_table_query() {
    let params = vec![
        (
            "CREATE TABLE products (title TEXT PRIMARY KEY, price DOUBLE, quantity INT)",
            CreateTableQuery {
                table: "products".to_string(),
                primary_key: PrimaryKey {
                    partition_key: vec!["title".to_string()],
                    clustering_key: vec![],
                },
                columns: vec![
                    Column { name: "title".to_string(), column_type: ColumnType::Text },
                    Column { name: "price".to_string(), column_type: ColumnType::Double },
                    Column { name: "quantity".to_string(), column_type: ColumnType::Int },
                ],
            },
        ),
        (
            "CREATE TABLE products (title TEXT, price DOUBLE, quantity INT, PRIMARY KEY (title))",
            CreateTableQuery {
                table: "products".to_string(),
                primary_key: PrimaryKey {
                    partition_key: vec!["title".to_string()],
                    clustering_key: vec![],
                },
                columns: vec![
                    Column { name: "title".to_string(), column_type: ColumnType::Text },
                    Column { name: "price".to_string(), column_type: ColumnType::Double },
                    Column { name: "quantity".to_string(), column_type: ColumnType::Int },
                ],
            },
        ),
        (
            "CREATE TABLE user_sessions (user_id UUID, session_id UUID, timestamp TIMESTAMP, device_type TEXT, PRIMARY KEY ((user_id, session_id), timestamp))",
            CreateTableQuery {
                table: "user_sessions".to_string(),
                primary_key: PrimaryKey {
                    partition_key: vec!["user_id".to_string(), "session_id".to_string()],
                    clustering_key: vec!["timestamp".to_string()],
                },
                columns: vec![
                    Column { name: "user_id".to_string(), column_type: ColumnType::Uuid },
                    Column { name: "session_id".to_string(), column_type: ColumnType::Uuid },
                    Column { name: "timestamp".to_string(), column_type: ColumnType::Timestamp },
                    Column { name: "device_type".to_string(), column_type: ColumnType::Text },
                ],
            },
        ),
        (
            "CREATE TABLE posts (user_id UUID, blog_id UUID, post_id UUID, created_at TIMESTAMP, content TEXT, seen LONG, PRIMARY KEY (user_id, blog_id, post_id))",
            CreateTableQuery {
                table: "posts".to_string(),
                primary_key: PrimaryKey {
                    partition_key: vec!["user_id".to_string()],
                    clustering_key: vec!["blog_id".to_string(), "post_id".to_string()],
                },
                columns: vec![
                    Column { name: "user_id".to_string(), column_type: ColumnType::Uuid },
                    Column { name: "blog_id".to_string(), column_type: ColumnType::Uuid },
                    Column { name: "post_id".to_string(), column_type: ColumnType::Uuid },
                    Column { name: "created_at".to_string(), column_type: ColumnType::Timestamp },
                    Column { name: "content".to_string(), column_type: ColumnType::Text },
                    Column { name: "seen".to_string(), column_type: ColumnType::Long },
                ],
            },
        ),
    ];

    for (query, expected_result) in params {
        assert_same(
            parse_query(query),
            Ok(Query::DataDefinitionQuery(DataDefinitionQuery::CreateTable(expected_result)))
        );
    }
}

#[test]
fn test_alter_table() {
    let params = vec![
        (
            "ALTER TABLE products ADD description TEXT",
            AlterTableQuery {
                table: "products".to_string(),
                conditions: vec![AlterTableCondition::AddColumn(AddColumnCondition {
                    column_name: "description".to_string(),
                    column_type: ColumnType::Text,
                })],
            },
        ),
        (
            "ALTER TABLE products ADD (description TEXT, price DOUBLE)",
            AlterTableQuery {
                table: "products".to_string(),
                conditions: vec![
                    AlterTableCondition::AddColumn(AddColumnCondition {
                        column_name: "description".to_string(),
                        column_type: ColumnType::Text,
                    }),
                    AlterTableCondition::AddColumn(AddColumnCondition {
                        column_name: "price".to_string(),
                        column_type: ColumnType::Double,
                    }),
                ],
            },
        ),
        (
            "ALTER TABLE products DROP description",
            AlterTableQuery {
                table: "products".to_string(),
                conditions: vec![AlterTableCondition::DropColumn(DropColumnCondition {
                    column_name: "description".to_string(),
                })],
            },
        ),
        (
            "ALTER TABLE products DROP (description, price)",
            AlterTableQuery {
                table: "products".to_string(),
                conditions: vec![
                    AlterTableCondition::DropColumn(DropColumnCondition {
                        column_name: "description".to_string(),
                    }),
                    AlterTableCondition::DropColumn(DropColumnCondition {
                        column_name: "price".to_string(),
                    }),
                ],
            },
        ),
        (
            "ALTER TABLE products ADD description TEXT, DROP crated_at",
            AlterTableQuery {
                table: "products".to_string(),
                conditions: vec![
                    AlterTableCondition::AddColumn(AddColumnCondition {
                        column_name: "description".to_string(),
                        column_type: ColumnType::Text,
                    }),
                    AlterTableCondition::DropColumn(DropColumnCondition {
                        column_name: "crated_at".to_string(),
                    }),
                ],
            },
        ),
    ];

    for (query, expected_result) in params {
        assert_same(
            parse_query(query),
            Ok(Query::DataDefinitionQuery(DataDefinitionQuery::AlterTable(expected_result)))
        );
    }
}

#[test]
fn test_drop_table() {
    let query = "DROP TABLE persons";
    let expected_result = DropTableQuery { table: "persons".to_string() };
    assert_same(
        parse_query(query),
        Ok(Query::DataDefinitionQuery(DataDefinitionQuery::DropTable(expected_result)))
    );
}

#[test]
fn inline_primary_key_is_the_first_column() {
    assert_same(
        parse_query("CREATE TABLE t (a INT PRIMARY KEY, b TEXT)"),
        created(CreateTableQuery {
            table: "t".to_string(),
            primary_key: PrimaryKey { partition_key: names(&["a"]), clustering_key: vec![] },
            columns: vec![column("a", ColumnType::Int), column("b", ColumnType::Text)],
        })
    );
}

#[test]
fn grouped_primary_key_splits_partition_and_clustering() {
    assert_same(
        parse_query("CREATE TABLE t (a INT, b INT, c TEXT, PRIMARY KEY ((a, b), c))"),
        created(CreateTableQuery {
            table: "t".to_string(),
            primary_key: PrimaryKey {
                partition_key: names(&["a", "b"]),
                clustering_key: names(&["c"]),
            },
            columns: vec![
                column("a", ColumnType::Int),
                column("b", ColumnType::Int),
                column("c", ColumnType::Text),
            ],
        })
    );
}

#[test]
fn flat_primary_key_takes_the_first_name_as_partition_key() {
    assert_same(
        parse_query("CREATE TABLE t (a INT, b INT, PRIMARY KEY (a, b))"),
        created(CreateTableQuery {
            table: "t".to_string(),
            primary_key: PrimaryKey { partition_key: names(&["a"]), clustering_key: names(&["b"]) },
            columns: vec![column("a", ColumnType::Int), column("b", ColumnType::Int)],
        })
    );
}

#[test]
fn inline_primary_key_in_lower_case() {
    assert_same(
        parse_query("create table t (a int primary key, b text)"),
        parse_query("CREATE TABLE t (a INT PRIMARY KEY, b TEXT)")
    );
    assert!(parse_query("create table t (a int primary key, b text)").is_ok());
}

#[test]
fn inline_primary_key_alone() {
    assert_same(
        parse_query("CREATE TABLE t (a BOOL PRIMARY KEY)"),
        created(CreateTableQuery {
            table: "t".to_string(),
            primary_key: PrimaryKey { partition_key: names(&["a"]), clustering_key: vec![] },
            columns: vec![column("a", ColumnType::Bool)],
        })
    );
}

#[test]
fn grouped_primary_key_needs_a_comma_after_the_group() {
    assert_same(
        parse_query("CREATE TABLE t (a INT, b INT, PRIMARY KEY ((a, b)))"),
        syntax_error(
            "cannot parse the column definition with a composite primary key",
            "(a INT, b INT, PRIMARY KEY ((a, b)))"
        )
    );
    assert_same(
        parse_query("CREATE TABLE t (a INT, b INT, PRIMARY KEY ((a, b),))"),
        created(CreateTableQuery {
            table: "t".to_string(),
            primary_key: PrimaryKey { partition_key: names(&["a", "b"]), clustering_key: vec![] },
            columns: vec![column("a", ColumnType::Int), column("b", ColumnType::Int)],
        })
    );
}

#[test]
fn every_column_type_is_read() {
    assert_same(
        parse_query(
            "CREATE TABLE t (a UUID, b INT, c LONG, d FLOAT, e DOUBLE, f TIMESTAMP, g TEXT, h BOOL, PRIMARY KEY (a))"
        ),
        created(CreateTableQuery {
            table: "t".to_string(),
            primary_key: PrimaryKey { partition_key: names(&["a"]), clustering_key: vec![] },
            columns: vec![
                column("a", ColumnType::Uuid),
                column("b", ColumnType::Int),
                column("c", ColumnType::Long),
                column("d", ColumnType::Float),
                column("e", ColumnType::Double),
                column("f", ColumnType::Timestamp),
                column("g", ColumnType::Text),
                column("h", ColumnType::Bool),
            ],
        })
    );
}

#[test]
fn create_table_errors() {
    assert_same(
        parse_query("CREATE TABLE (a INT PRIMARY KEY)"),
        syntax_error("cannot parse table name", "(a INT PRIMARY KEY)")
    );
    assert_same(
        parse_query("CREATE TABLE t (a INT PRIMARY KEY, b)"),
        syntax_error(
            "cannot parse the column definition with a simple primary key",
            "(a INT PRIMARY KEY, b)"
        )
    );
    assert_same(
        parse_query("CREATE TABLE t (a INT, b TEXT)"),
        syntax_error(
            "cannot parse the column definition with a composite primary key",
            "(a INT, b TEXT)"
        )
    );
    assert_same(
        parse_query("CREATE TABLE t (PRIMARY KEY (a))"),
        syntax_error(
            "cannot parse the column definition with a composite primary key",
            "(PRIMARY KEY (a))"
        )
    );
}

#[test]
fn alter_table_expands_a_list_in_order() {
    assert_same(
        parse_query("ALTER TABLE t ADD (x INT, y TEXT)"),
        altered("t", vec![add("x", ColumnType::Int), add("y", ColumnType::Text)])
    );
}

#[test]
fn alter_table_joins_clauses_in_source_order() {
    assert_same(
        parse_query("alter table t drop (a, b), add c long, add (d bool, e uuid), drop f"),
        altered(
            "t",
            vec![
                drop_column("a"),
                drop_column("b"),
                add("c", ColumnType::Long),
                add("d", ColumnType::Bool),
                add("e", ColumnType::Uuid),
                drop_column("f"),
            ]
        )
    );
}

#[test]
fn alter_table_needs_a_clause() {
    assert_same(
        parse_query("ALTER TABLE t"),
        syntax_error("expected an 'ADD' or a 'DROP' clause", "")
    );
    assert_same(
        parse_query("ALTER TABLE t RENAME a"),
        syntax_error("expected an 'ADD' or a 'DROP' clause", "RENAME a")
    );
    assert_same(
        parse_query("ALTER TABLE 1"),
        syntax_error("cannot parse table name", "1")
    );
}

#[test]
fn alter_table_stops_before_a_comma_that_no_clause_follows() {
    assert_same(
        parse_query("ALTER TABLE t ADD a INT, RENAME b"),
        altered("t", vec![add("a", ColumnType::Int)])
    );
}

#[test]
fn drop_table_errors() {
    assert_same(parse_query("DROP TABLE 42"), syntax_error("cannot parse table name", "42"));
    assert_same(
        parse_query("DROP persons"),
        Err(QueryParsingError::UnsupportedRequest("DROP persons".to_string()))
    );
}

#[test]
fn keyword_letters_have_two_cases_only() {
    assert_same(
        parse_query("CREATE TABLE t (a INT, PRIMARY \u{212a}EY (a))"),
        syntax_error(
            "cannot parse the column definition with a composite primary key",
            "(a INT, PRIMARY \u{212a}EY (a))"
        )
    );
    assert_same(
        parse_query("CREATE TABLE t (a INT PRIMARY \u{212a}EY)"),
        syntax_error(
            "cannot parse the column definition with a composite primary key",
            "(a INT PRIMARY \u{212a}EY)"
        )
    );
}

#[test]
fn definitions_do_not_depend_on_case_and_layout() {
    let plain = parse_query("CREATE TABLE t (a INT, b TEXT, PRIMARY KEY ((a), b))");
    assert!(plain.is_ok());
    assert_same(
        &parse_query("\n create table t\n(\n  a int ,\n  b text ,\n  primary key ( ( a ) , b )\n)\n"),
        &plain,
    );
    assert_same(&parse_query("Create Table t(a Int,b Text,Primary Key((a),b))"), &plain);
    let altered = parse_query("ALTER TABLE t ADD (a INT, b BOOL), DROP c");
    assert!(altered.is_ok());
    assert_same(&parse_query(" alter table t\tadd(a int,b bool),drop c "), &altered);
    assert_same(parse_query("drop table t"), parse_query("  DROP TABLE\n\tt  "));
}
