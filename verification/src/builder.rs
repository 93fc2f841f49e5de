use vstd::prelude::*;
use crate::query::{
    lemma_models_concat, lemma_models_push, models_of, Column, ColumnType, Condition,
    ConditionModel, DataManipulationQuery, DeleteQuery, InsertQuery, Operator, Query, QueryModel,
    SelectQuery, UpdateQuery, Value, ValueModel,
};

verus! {

/// The field that a builder lacked when it was asked for its value.
#[derive(Debug, PartialEq, Eq)]
pub enum BuilderError {
    MissingName,
    MissingType,
    MissingTable,
    MissingColumn,
    MissingOperator,
    MissingValue,
}

/// The characters of a text that may be missing.
pub open spec fn text_of(text: Option<String>) -> Option<Seq<char>> {
    match text {
        Some(text) => Some(text@),
        None => None,
    }
}

/// The model of a literal that may be missing.
pub open spec fn value_of(value: Option<Value>) -> Option<ValueModel> {
    match value {
        Some(value) => Some(value@),
        None => None,
    }
}

/// Collects the name and the type of a column.
pub struct ColumnBuilder {
    column_name: Option<String>,
    column_type: Option<ColumnType>,
}

/// Collects the parts of a `SELECT`.
pub struct SelectQueryBuilder {
    columns: Vec<String>,
    table: Option<String>,
    conditions: Vec<Condition>,
}

/// Collects the parts of an `INSERT`.
pub struct InsertQueryBuilder {
    columns: Vec<String>,
    table: Option<String>,
    values: Vec<Value>,
}

/// Collects the parts of an `UPDATE`.
pub struct UpdateQueryBuilder {
    table: Option<String>,
    values: Vec<(String, Value)>,
    conditions: Vec<Condition>,
}

/// Collects the parts of a `DELETE`.
pub struct DeleteQueryBuilder {
    columns: Vec<String>,
    table: Option<String>,
    conditions: Vec<Condition>,
}

/// Collects the parts of a condition.
pub struct ConditionBuilder {
    column: Option<String>,
    operator: Option<Operator>,
    value: Option<Value>,
}

/// What a column builder holds.
pub struct ColumnParts {
    pub name: Option<Seq<char>>,
    pub column_type: Option<ColumnType>,
}

/// What a `SELECT` builder holds.
pub struct SelectParts {
    pub columns: Seq<Seq<char>>,
    pub table: Option<Seq<char>>,
    pub conditions: Seq<ConditionModel>,
}

/// What an `INSERT` builder holds.
pub struct InsertParts {
    pub columns: Seq<Seq<char>>,
    pub table: Option<Seq<char>>,
    pub values: Seq<ValueModel>,
}

/// What an `UPDATE` builder holds.
pub struct UpdateParts {
    pub table: Option<Seq<char>>,
    pub values: Seq<(Seq<char>, ValueModel)>,
    pub conditions: Seq<ConditionModel>,
}

/// What a `DELETE` builder holds.
pub struct DeleteParts {
    pub columns: Seq<Seq<char>>,
    pub table: Option<Seq<char>>,
    pub conditions: Seq<ConditionModel>,
}

/// What a condition builder holds.
pub struct ConditionParts {
    pub column: Option<Seq<char>>,
    pub operator: Option<Operator>,
    pub value: Option<ValueModel>,
}

impl View for ColumnBuilder {
    type V = ColumnParts;

    closed spec fn view(&self) -> ColumnParts {
        ColumnParts { name: text_of(self.column_name), column_type: self.column_type }
    }
}

impl View for SelectQueryBuilder {
    type V = SelectParts;

    closed spec fn view(&self) -> SelectParts {
        SelectParts {
            columns: models_of(self.columns@),
            table: text_of(self.table),
            conditions: models_of(self.conditions@),
        }
    }
}

impl View for InsertQueryBuilder {
    type V = InsertParts;

    closed spec fn view(&self) -> InsertParts {
        InsertParts {
            columns: models_of(self.columns@),
            table: text_of(self.table),
            values: models_of(self.values@),
        }
    }
}

impl View for UpdateQueryBuilder {
    type V = UpdateParts;

    closed spec fn view(&self) -> UpdateParts {
        UpdateParts {
            table: text_of(self.table),
            values: models_of(self.values@),
            conditions: models_of(self.conditions@),
        }
    }
}

impl View for DeleteQueryBuilder {
    type V = DeleteParts;

    closed spec fn view(&self) -> DeleteParts {
        DeleteParts {
            columns: models_of(self.columns@),
            table: text_of(self.table),
            conditions: models_of(self.conditions@),
        }
    }
}

impl View for ConditionBuilder {
    type V = ConditionParts;

    closed spec fn view(&self) -> ConditionParts {
        ConditionParts {
            column: text_of(self.column),
            operator: self.operator,
            value: value_of(self.value),
        }
    }
}

impl ColumnBuilder {
    /// A builder with neither a name nor a type.
    pub fn new() -> (builder: Self)
        ensures
            builder@ == (ColumnParts { name: None, column_type: None }),
    {
        ColumnBuilder { column_name: None, column_type: None }
    }

    /// Sets the name, in place of an earlier one.
    pub fn name(self, name: String) -> (builder: Self)
        ensures
            builder@ == (ColumnParts { name: Some(name@), ..self@ }),
    {
        ColumnBuilder { column_name: Some(name), column_type: self.column_type }
    }

    /// Sets the type, in place of an earlier one.
    pub fn column_type(self, column_type: ColumnType) -> (builder: Self)
        ensures
            builder@ == (ColumnParts { column_type: Some(column_type), ..self@ }),
    {
        ColumnBuilder { column_name: self.column_name, column_type: Some(column_type) }
    }

    /// The column, where both the name and the type were set; else the first
    /// of the two that is missing.
    pub fn build(self) -> (column: Result<Column, BuilderError>)
        ensures
            match column {
                Ok(column) => self@.name == Some(column@.name) && self@.column_type == Some(
                    column@.column_type,
                ),
                Err(BuilderError::MissingName) => self@.name is None,
                Err(BuilderError::MissingType) => self@.name is Some && self@.column_type is None,
                Err(_) => false,
            },
    {
        let name = match self.column_name {
            Some(name) => name,
            None => return Err(BuilderError::MissingName),
        };
        let column_type = match self.column_type {
            Some(column_type) => column_type,
            None => return Err(BuilderError::MissingType),
        };
        Ok(Column { name, column_type })
    }
}

impl SelectQueryBuilder {
    /// A builder with no columns, no table and no conditions.
    pub fn new() -> (builder: Self)
        ensures
            builder@ == (SelectParts {
                columns: Seq::empty(),
                table: None,
                conditions: Seq::empty(),
            }),
    {
        let builder = Self { columns: Vec::new(), table: None, conditions: Vec::new() };
        assert(builder@.columns =~= Seq::empty());
        assert(builder@.conditions =~= Seq::empty());
        builder
    }

    /// Adds a column after those that are there.
    pub fn column(self, column: String) -> (builder: Self)
        ensures
            builder@ == (SelectParts { columns: self@.columns.push(column@), ..self@ }),
    {
        let mut builder = self;
        proof {
            lemma_models_push(builder.columns@, column);
        }
        builder.columns.push(column);
        builder
    }

    /// Adds columns after those that are there.
    pub fn columns(self, columns: Vec<String>) -> (builder: Self)
        ensures
            builder@ == (SelectParts { columns: self@.columns + models_of(columns@), ..self@ }),
    {
        let mut builder = self;
        let mut columns = columns;
        proof {
            lemma_models_concat(builder.columns@, columns@);
        }
        builder.columns.append(&mut columns);
        builder
    }

    /// Sets the table, in place of an earlier one.
    pub fn table(self, table: String) -> (builder: Self)
        ensures
            builder@ == (SelectParts { table: Some(table@), ..self@ }),
    {
        let mut builder = self;
        builder.table = Some(table);
        builder
    }

    /// Adds a condition after those that are there.
    pub fn condition(self, condition: Condition) -> (builder: Self)
        ensures
            builder@ == (SelectParts { conditions: self@.conditions.push(condition@), ..self@ }),
    {
        let mut builder = self;
        proof {
            lemma_models_push(builder.conditions@, condition);
        }
        builder.conditions.push(condition);
        builder
    }

    /// Adds conditions after those that are there.
    pub fn conditions(self, conditions: Vec<Condition>) -> (builder: Self)
        ensures
            builder@ == (SelectParts {
                conditions: self@.conditions + models_of(conditions@),
                ..self@
            }),
    {
        let mut builder = self;
        let mut conditions = conditions;
        proof {
            lemma_models_concat(builder.conditions@, conditions@);
        }
        builder.conditions.append(&mut conditions);
        builder
    }

    /// The statement, where the table was set.
    pub fn build(self) -> (query: Result<Query, BuilderError>)
        ensures
            match query {
                Ok(query) => self@.table matches Some(table) && query@ == (QueryModel::Select {
                    columns: self@.columns,
                    table,
                    conditions: self@.conditions,
                }),
                Err(error) => self@.table is None && error == BuilderError::MissingTable,
            },
    {
        match self.table {
            Some(table) => Ok(
                Query::DataManipulationQuery(
                    DataManipulationQuery::Select(
                        SelectQuery::new(self.columns, table, self.conditions),
                    ),
                ),
            ),
            None => Err(BuilderError::MissingTable),
        }
    }
}

impl InsertQueryBuilder {
    /// A builder with no columns, no table and no values.
    pub fn new() -> (builder: Self)
        ensures
            builder@ == (InsertParts { columns: Seq::empty(), table: None, values: Seq::empty() }),
    {
        let builder = Self { columns: Vec::new(), table: None, values: Vec::new() };
        assert(builder@.columns =~= Seq::empty());
        assert(builder@.values =~= Seq::empty());
        builder
    }

    /// Adds a column after those that are there.
    pub fn column(self, column: String) -> (builder: Self)
        ensures
            builder@ == (InsertParts { columns: self@.columns.push(column@), ..self@ }),
    {
        let mut builder = self;
        proof {
            lemma_models_push(builder.columns@, column);
        }
        builder.columns.push(column);
        builder
    }

    /// Adds columns after those that are there.
    pub fn columns(self, columns: Vec<String>) -> (builder: Self)
        ensures
            builder@ == (InsertParts { columns: self@.columns + models_of(columns@), ..self@ }),
    {
        let mut builder = self;
        let mut columns = columns;
        proof {
            lemma_models_concat(builder.columns@, columns@);
        }
        builder.columns.append(&mut columns);
        builder
    }

    /// Sets the table, in place of an earlier one.
    pub fn table(self, table: String) -> (builder: Self)
        ensures
            builder@ == (InsertParts { table: Some(table@), ..self@ }),
    {
        let mut builder = self;
        builder.table = Some(table);
        builder
    }

    /// Adds a value after those that are there.
    pub fn value(self, value: Value) -> (builder: Self)
        ensures
            builder@ == (InsertParts { values: self@.values.push(value@), ..self@ }),
    {
        let mut builder = self;
        proof {
            lemma_models_push(builder.values@, value);
        }
        builder.values.push(value);
        builder
    }

    /// Adds values after those that are there.
    pub fn values(self, values: Vec<Value>) -> (builder: Self)
        ensures
            builder@ == (InsertParts { values: self@.values + models_of(values@), ..self@ }),
    {
        let mut builder = self;
        let mut values = values;
        proof {
            lemma_models_concat(builder.values@, values@);
        }
        builder.values.append(&mut values);
        builder
    }

    /// The statement, where the table was set. The numbers of columns and of
    /// values are not compared.
    pub fn build(self) -> (query: Result<Query, BuilderError>)
        ensures
            match query {
                Ok(query) => self@.table matches Some(table) && query@ == (QueryModel::Insert {
                    columns: self@.columns,
                    table,
                    values: self@.values,
                }),
                Err(error) => self@.table is None && error == BuilderError::MissingTable,
            },
    {
        match self.table {
            Some(table) => Ok(
                Query::DataManipulationQuery(
                    DataManipulationQuery::Insert(
                        InsertQuery::new(self.columns, table, self.values),
                    ),
                ),
            ),
            None => Err(BuilderError::MissingTable),
        }
    }
}

impl UpdateQueryBuilder {
    /// A builder with no table, no assignments and no conditions.
    pub fn new() -> (builder: Self)
        ensures
            builder@ == (UpdateParts {
                table: None,
                values: Seq::empty(),
                conditions: Seq::empty(),
            }),
    {
        let builder = Self { values: Vec::new(), table: None, conditions: Vec::new() };
        assert(builder@.values =~= Seq::empty());
        assert(builder@.conditions =~= Seq::empty());
        builder
    }

    /// Adds an assignment after those that are there.
    pub fn value(self, value: (String, Value)) -> (builder: Self)
        ensures
            builder@ == (UpdateParts { values: self@.values.push(value@), ..self@ }),
    {
        let mut builder = self;
        proof {
            lemma_models_push(builder.values@, value);
        }
        builder.values.push(value);
        builder
    }

    /// Adds assignments after those that are there.
    pub fn values(self, values: Vec<(String, Value)>) -> (builder: Self)
        ensures
            builder@ == (UpdateParts { values: self@.values + models_of(values@), ..self@ }),
    {
        let mut builder = self;
        let mut values = values;
        proof {
            lemma_models_concat(builder.values@, values@);
        }
        builder.values.append(&mut values);
        builder
    }

    /// Sets the table, in place of an earlier one.
    pub fn table(self, table: String) -> (builder: Self)
        ensures
            builder@ == (UpdateParts { table: Some(table@), ..self@ }),
    {
        let mut builder = self;
        builder.table = Some(table);
        builder
    }

    /// Adds a condition after those that are there.
    pub fn condition(self, condition: Condition) -> (builder: Self)
        ensures
            builder@ == (UpdateParts { conditions: self@.conditions.push(condition@), ..self@ }),
    {
        let mut builder = self;
        proof {
            lemma_models_push(builder.conditions@, condition);
        }
        builder.conditions.push(condition);
        builder
    }

    /// Adds conditions after those that are there.
    pub fn conditions(self, conditions: Vec<Condition>) -> (builder: Self)
        ensures
            builder@ == (UpdateParts {
                conditions: self@.conditions + models_of(conditions@),
                ..self@
            }),
    {
        let mut builder = self;
        let mut conditions = conditions;
        proof {
            lemma_models_concat(builder.conditions@, conditions@);
        }
        builder.conditions.append(&mut conditions);
        builder
    }

    /// The statement, where the table was set.
    pub fn build(self) -> (query: Result<Query, BuilderError>)
        ensures
            match query {
                Ok(query) => self@.table matches Some(table) && query@ == (QueryModel::Update {
                    table,
                    values: self@.values,
                    conditions: self@.conditions,
                }),
                Err(error) => self@.table is None && error == BuilderError::MissingTable,
            },
    {
        match self.table {
            Some(table) => Ok(
                Query::DataManipulationQuery(
                    DataManipulationQuery::Update(
                        UpdateQuery::new(table, self.values, self.conditions),
                    ),
                ),
            ),
            None => Err(BuilderError::MissingTable),
        }
    }
}

impl DeleteQueryBuilder {
    /// A builder with no columns, no table and no conditions.
    pub fn new() -> (builder: Self)
        ensures
            builder@ == (DeleteParts {
                columns: Seq::empty(),
                table: None,
                conditions: Seq::empty(),
            }),
    {
        let builder = Self { columns: Vec::new(), table: None, conditions: Vec::new() };
        assert(builder@.columns =~= Seq::empty());
        assert(builder@.conditions =~= Seq::empty());
        builder
    }

    /// Adds a column after those that are there.
    pub fn column(self, column: String) -> (builder: Self)
        ensures
            builder@ == (DeleteParts { columns: self@.columns.push(column@), ..self@ }),
    {
        let mut builder = self;
        proof {
            lemma_models_push(builder.columns@, column);
        }
        builder.columns.push(column);
        builder
    }

    /// Adds columns after those that are there.
    pub fn columns(self, columns: Vec<String>) -> (builder: Self)
        ensures
            builder@ == (DeleteParts { columns: self@.columns + models_of(columns@), ..self@ }),
    {
        let mut builder = self;
        let mut columns = columns;
        proof {
            lemma_models_concat(builder.columns@, columns@);
        }
        builder.columns.append(&mut columns);
        builder
    }

    /// Sets the table, in place of an earlier one.
    pub fn table(self, table: String) -> (builder: Self)
        ensures
            builder@ == (DeleteParts { table: Some(table@), ..self@ }),
    {
        let mut builder = self;
        builder.table = Some(table);
        builder
    }

    /// Adds a condition after those that are there.
    pub fn condition(self, condition: Condition) -> (builder: Self)
        ensures
            builder@ == (DeleteParts { conditions: self@.conditions.push(condition@), ..self@ }),
    {
        let mut builder = self;
        proof {
            lemma_models_push(builder.conditions@, condition);
        }
        builder.conditions.push(condition);
        builder
    }

    /// Adds conditions after those that are there.
    pub fn conditions(self, conditions: Vec<Condition>) -> (builder: Self)
        ensures
            builder@ == (DeleteParts {
                conditions: self@.conditions + models_of(conditions@),
                ..self@
            }),
    {
        let mut builder = self;
        let mut conditions = conditions;
        proof {
            lemma_models_concat(builder.conditions@, conditions@);
        }
        builder.conditions.append(&mut conditions);
        builder
    }

    /// The statement, where the table was set.
    pub fn build(self) -> (query: Result<Query, BuilderError>)
        ensures
            match query {
                Ok(query) => self@.table matches Some(table) && query@ == (QueryModel::Delete {
                    columns: self@.columns,
                    table,
                    conditions: self@.conditions,
                }),
                Err(error) => self@.table is None && error == BuilderError::MissingTable,
            },
    {
        match self.table {
            Some(table) => Ok(
                Query::DataManipulationQuery(
                    DataManipulationQuery::Delete(
                        DeleteQuery::new(self.columns, table, self.conditions),
                    ),
                ),
            ),
            None => Err(BuilderError::MissingTable),
        }
    }
}

impl ConditionBuilder {
    /// A builder with no column, no operator and no value.
    pub fn new() -> (builder: Self)
        ensures
            builder@ == (ConditionParts { column: None, operator: None, value: None }),
    {
        Self { column: None, operator: None, value: None }
    }

    /// Sets the column, in place of an earlier one.
    pub fn column(self, column: String) -> (builder: Self)
        ensures
            builder@ == (ConditionParts { column: Some(column@), ..self@ }),
    {
        let mut builder = self;
        builder.column = Some(column);
        builder
    }

    /// Sets the operator, in place of an earlier one.
    pub fn operator(self, operator: Operator) -> (builder: Self)
        ensures
            builder@ == (ConditionParts { operator: Some(operator), ..self@ }),
    {
        let mut builder = self;
        builder.operator = Some(operator);
        builder
    }

    /// Sets the value, in place of an earlier one.
    pub fn value(self, value: Value) -> (builder: Self)
        ensures
            builder@ == (ConditionParts { value: Some(value@), ..self@ }),
    {
        let mut builder = self;
        builder.value = Some(value);
        builder
    }

    /// The condition, where the column, the operator and the value were set;
    /// else the first of the three that is missing.
    pub fn build(self) -> (condition: Result<Condition, BuilderError>)
        ensures
            match condition {
                Ok(condition) => self@ == (ConditionParts {
                    column: Some(condition@.column),
                    operator: Some(condition@.operator),
                    value: Some(condition@.value),
                }),
                Err(BuilderError::MissingColumn) => self@.column is None,
                Err(BuilderError::MissingOperator) => self@.column is Some && self@.operator
                    is None,
                Err(BuilderError::MissingValue) => self@.column is Some && self@.operator is Some
                    && self@.value is None,
                Err(_) => false,
            },
    {
        let column = match self.column {
            Some(column) => column,
            None => return Err(BuilderError::MissingColumn),
        };
        let operator = match self.operator {
            Some(operator) => operator,
            None => return Err(BuilderError::MissingOperator),
        };
        let value = match self.value {
            Some(value) => value,
            None => return Err(BuilderError::MissingValue),
        };
        Ok(Condition::new(column, operator, value))
    }
}

} // verus!
