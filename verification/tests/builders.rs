use query_parser::builder::{
    BuilderError, ColumnBuilder, ConditionBuilder, DeleteQueryBuilder, InsertQueryBuilder,
    SelectQueryBuilder, UpdateQueryBuilder,
};
use query_parser::query::{
    Column, ColumnType, Condition, DataManipulationQuery, DeleteQuery, InsertQuery, Operator,
    Query, SelectQuery, UpdateQuery, Value,
};

// Statements and values have no `==`: a floating-point literal is kept as it
// is written, and two of them are the same when their numbers are.

trait Same {
    fn same(&self, other: &Self) -> bool;
}

impl Same for query_parser::query::Value {
    fn same(&self, other: &Self) -> bool {
        match (self, other) {
            (Self::Integer(x), Self::Integer(y)) => x == y,
            (Self::Float(x), Self::Float(y)) => match (x.parse::<f64>(), y.parse::<f64>()) {
                (Ok(x), Ok(y)) => x == y,
                _ => false,
            },
            (Self::String(x), Self::String(y)) => x == y,
            (Self::Bool(x), Self::Bool(y)) => x == y,
            _ => false,
        }
    }
}

impl Same for query_parser::query::Condition {
    fn same(&self, other: &Self) -> bool {
        self.column == other.column
            && self.operator == other.operator
            && self.value.same(&other.value)
    }
}

impl Same for query_parser::query::DataManipulationQuery {
    fn same(&self, other: &Self) -> bool {
        match (self, other) {
            (Self::Select(x), Self::Select(y)) => {
                x.columns == y.columns && x.table == y.table && x.conditions.same(&y.conditions)
            }
            (Self::Insert(x), Self::Insert(y)) => {
                x.columns == y.columns && x.table == y.table && x.values.same(&y.values)
            }
            (Self::Update(x), Self::Update(y)) => {
                x.table == y.table
                    && x.values.same(&y.values)
                    && x.conditions.same(&y.conditions)
            }
            (Self::Delete(x), Self::Delete(y)) => {
                x.columns == y.columns && x.table == y.table && x.conditions.same(&y.conditions)
            }
            _ => false,
        }
    }
}

impl Same for query_parser::query::Query {
    fn same(&self, other: &Self) -> bool {
        match (self, other) {
            (Self::DataManipulationQuery(x), Self::DataManipulationQuery(y)) => x.same(y),
            (Self::DataDefinitionQuery(x), Self::DataDefinitionQuery(y)) => x == y,
            _ => false,
        }
    }
}

impl Same for query_parser::query::QueryParsingError {
    fn same(&self, other: &Self) -> bool {
        self == other
    }
}

impl Same for query_parser::builder::BuilderError {
    fn same(&self, other: &Self) -> bool {
        self == other
    }
}

impl Same for String {
    fn same(&self, other: &Self) -> bool {
        self == other
    }
}

impl Same for usize {
    fn same(&self, other: &Self) -> bool {
        self == other
    }
}

impl<T: Same> Same for Vec<T> {
    fn same(&self, other: &Self) -> bool {
        self.len() == other.len() && self.iter().zip(other).all(|(x, y)| x.same(y))
    }
}

impl<T: Same> Same for Option<T> {
    fn same(&self, other: &Self) -> bool {
        match (self, other) {
            (Some(x), Some(y)) => x.same(y),
            (None, None) => true,
            _ => false,
        }
    }
}

impl<T: Same, E: Same> Same for Result<T, E> {
    fn same(&self, other: &Self) -> bool {
        match (self, other) {
            (Ok(x), Ok(y)) => x.same(y),
            (Err(x), Err(y)) => x.same(y),
            _ => false,
        }
    }
}

impl<A: Same, B: Same> Same for (A, B) {
    fn same(&self, other: &Self) -> bool {
        self.0.same(&other.0) && self.1.same(&other.1)
    }
}

impl<T: Same> Same for &T {
    fn same(&self, other: &Self) -> bool {
        (**self).same(&**other)
    }
}

fn assert_same<T: Same + std::fmt::Debug>(actual: T, expected: T) {
    assert!(actual.same(&expected), "\n  left: {:?}\n right: {:?}", actual, expected);
}

fn condition(column: &str, operator: Operator, value: Value) -> Condition {
    Condition::new(column.to_string(), operator, value)
}

#[test]
fn column_builder_builds_a_column() {
    assert_eq!(
        ColumnBuilder::new().name("price".to_string()).column_type(ColumnType::Double).build(),
        Ok(Column { name: "price".to_string(), column_type: ColumnType::Double })
    );
    assert_eq!(
        ColumnBuilder::new()
            .column_type(ColumnType::Int)
            .name("a".to_string())
            .name("b".to_string())
            .column_type(ColumnType::Text)
            .build(),
        Ok(Column { name: "b".to_string(), column_type: ColumnType::Text })
    );
}

#[test]
fn column_builder_reports_the_first_missing_field() {
    assert_eq!(ColumnBuilder::new().build(), Err(BuilderError::MissingName));
    assert_eq!(
        ColumnBuilder::new().column_type(ColumnType::Int).build(),
        Err(BuilderError::MissingName)
    );
    assert_eq!(
        ColumnBuilder::new().name("a".to_string()).build(),
        Err(BuilderError::MissingType)
    );
}

#[test]
fn condition_builder_builds_a_condition() {
    assert_same(
        ConditionBuilder::new()
            .column("a".to_string())
            .operator(Operator::Less)
            .value(Value::Integer(3))
            .build(),
        Ok(condition("a", Operator::Less, Value::Integer(3))),
    );
}

#[test]
fn condition_builder_reports_the_first_missing_field() {
    assert_same(ConditionBuilder::new().build(), Err(BuilderError::MissingColumn));
    assert_same(
        ConditionBuilder::new().operator(Operator::Equals).value(Value::Bool(true)).build(),
        Err(BuilderError::MissingColumn),
    );
    assert_same(
        ConditionBuilder::new().column("a".to_string()).value(Value::Bool(true)).build(),
        Err(BuilderError::MissingOperator),
    );
    assert_same(
        ConditionBuilder::new().column("a".to_string()).operator(Operator::Equals).build(),
        Err(BuilderError::MissingValue),
    );
}

#[test]
fn select_builder_keeps_the_order_of_its_calls() {
    let built = SelectQueryBuilder::new()
        .column("a".to_string())
        .columns(vec!["b".to_string(), "c".to_string()])
        .column("d".to_string())
        .table("old".to_string())
        .table("t".to_string())
        .condition(condition("x", Operator::Equals, Value::Integer(1)))
        .conditions(vec![
            condition("y", Operator::NotEquals, Value::Bool(false)),
            condition("z", Operator::Greater, Value::String("s".to_string())),
        ])
        .build();
    assert_same(
        built,
        Ok(Query::DataManipulationQuery(DataManipulationQuery::Select(SelectQuery::new(
            vec!["a".to_string(), "b".to_string(), "c".to_string(), "d".to_string()],
            "t".to_string(),
            vec![
                condition("x", Operator::Equals, Value::Integer(1)),
                condition("y", Operator::NotEquals, Value::Bool(false)),
                condition("z", Operator::Greater, Value::String("s".to_string())),
            ],
        ))))
    );
}

#[test]
fn insert_builder_keeps_the_order_of_its_calls() {
    let built = InsertQueryBuilder::new()
        .columns(vec!["a".to_string()])
        .column("b".to_string())
        .table("t".to_string())
        .value(Value::Integer(1))
        .values(vec![Value::Float("2.5".to_string()), Value::Bool(true)])
        .build();
    assert_same(
        built,
        Ok(Query::DataManipulationQuery(DataManipulationQuery::Insert(InsertQuery::new(
            vec!["a".to_string(), "b".to_string()],
            "t".to_string(),
            vec![Value::Integer(1), Value::Float("2.5".to_string()), Value::Bool(true)],
        ))))
    );
}

#[test]
fn update_builder_keeps_the_order_of_its_calls() {
    let built = UpdateQueryBuilder::new()
        .value(("a".to_string(), Value::Integer(1)))
        .values(vec![("b".to_string(), Value::Integer(2))])
        .table("t".to_string())
        .conditions(vec![condition("x", Operator::LessOrEquals, Value::Integer(1))])
        .condition(condition("y", Operator::GreaterOrEquals, Value::Integer(2)))
        .build();
    assert_same(
        built,
        Ok(Query::DataManipulationQuery(DataManipulationQuery::Update(UpdateQuery::new(
            "t".to_string(),
            vec![("a".to_string(), Value::Integer(1)), ("b".to_string(), Value::Integer(2))],
            vec![
                condition("x", Operator::LessOrEquals, Value::Integer(1)),
                condition("y", Operator::GreaterOrEquals, Value::Integer(2)),
            ],
        ))))
    );
}

#[test]
fn delete_builder_keeps_the_order_of_its_calls() {
    let built = DeleteQueryBuilder::new()
        .column("a".to_string())
        .columns(vec!["b".to_string()])
        .table("t".to_string())
        .condition(condition("x", Operator::Equals, Value::Integer(1)))
        .conditions(vec![condition("y", Operator::Equals, Value::Integer(2))])
        .build();
    assert_same(
        built,
        Ok(Query::DataManipulationQuery(DataManipulationQuery::Delete(DeleteQuery::new(
            vec!["a".to_string(), "b".to_string()],
            "t".to_string(),
            vec![
                condition("x", Operator::Equals, Value::Integer(1)),
                condition("y", Operator::Equals, Value::Integer(2)),
            ],
        ))))
    );
}

#[test]
fn statement_builders_need_a_table() {
    assert_same(
        SelectQueryBuilder::new().column("a".to_string()).build(),
        Err(BuilderError::MissingTable),
    );
    assert_same(
        InsertQueryBuilder::new().value(Value::Integer(1)).build(),
        Err(BuilderError::MissingTable),
    );
    assert_same(
        UpdateQueryBuilder::new().value(("a".to_string(), Value::Integer(1))).build(),
        Err(BuilderError::MissingTable),
    );
    assert_same(DeleteQueryBuilder::new().build(), Err(BuilderError::MissingTable));
}

#[test]
fn constructors_keep_their_arguments() {
    let query = SelectQuery::new(vec!["a".to_string()], "t".to_string(), vec![]);
    assert_eq!(query.columns, vec!["a".to_string()]);
    assert_eq!(query.table, "t");
    assert!(query.conditions.is_empty());
    let query = InsertQuery::new(vec!["a".to_string()], "t".to_string(), vec![Value::Bool(true)]);
    assert_eq!(query.columns, vec!["a".to_string()]);
    assert_eq!(query.table, "t");
    assert_same(query.values, vec![Value::Bool(true)]);
    let query = UpdateQuery::new("t".to_string(), vec![("a".to_string(), Value::Integer(1))], vec![]);
    assert_eq!(query.table, "t");
    assert_same(query.values, vec![("a".to_string(), Value::Integer(1))]);
    let query = DeleteQuery::new(vec![], "t".to_string(), vec![]);
    assert!(query.columns.is_empty());
    assert_eq!(query.table, "t");
    let built = Condition::new("c".to_string(), Operator::Greater, Value::Integer(2));
    assert_eq!(built.column, "c");
    assert_eq!(built.operator, Operator::Greater);
    assert_same(built.value, Value::Integer(2));
}
