use vstd::prelude::*;
use crate::text::{is_float_text, is_name};
pub use crate::types::ColumnType;

verus! {

/// The views of the elements of a sequence, in the same order.
pub open spec fn models_of<T: View>(items: Seq<T>) -> Seq<T::V> {
    items.map_values(|item: T| item@)
}

/// Appending an element appends its view.
pub proof fn lemma_models_push<T: View>(items: Seq<T>, item: T)
    ensures
        models_of(items.push(item)) == models_of(items).push(item@),
{
    assert(models_of(items.push(item)) =~= models_of(items).push(item@));
}

/// The views of a concatenation are the concatenation of the views.
pub proof fn lemma_models_concat<T: View>(left: Seq<T>, right: Seq<T>)
    ensures
        models_of(left + right) == models_of(left) + models_of(right),
{
    assert(models_of(left + right) =~= models_of(left) + models_of(right));
}

/// A parsed statement.
#[derive(Debug)]
pub enum Query {
    DataManipulationQuery(DataManipulationQuery),
    DataDefinitionQuery(DataDefinitionQuery),
}

/// A statement that reads or changes rows.
#[derive(Debug)]
pub enum DataManipulationQuery {
    Select(SelectQuery),
    Insert(InsertQuery),
    Update(UpdateQuery),
    Delete(DeleteQuery),
}

/// A statement that defines, changes or removes a table.
#[derive(Debug, Eq, PartialEq)]
pub enum DataDefinitionQuery {
    CreateTable(CreateTableQuery),
    AlterTable(AlterTableQuery),
    DropTable(DropTableQuery),
}

/// A comparison operator of a condition.
#[derive(Debug, Eq, PartialEq)]
pub enum Operator {
    Equals,
    NotEquals,
    Greater,
    GreaterOrEquals,
    Less,
    LessOrEquals,
}

/// The kind of a statement, decided by its leading keyword.
#[derive(Debug, Eq, PartialEq)]
pub enum QueryType {
    Select,
    Insert,
    Update,
    Delete,
    CreateTable,
    AlterTable,
    DropTable,
}

/// `SELECT`: an empty `columns` stands for all columns.
#[derive(Debug)]
pub struct SelectQuery {
    pub columns: Vec<String>,
    pub table: String,
    pub conditions: Vec<Condition>,
}

/// `INSERT`: `values` is aligned with `columns` by position; the lengths are
/// not compared here.
#[derive(Debug)]
pub struct InsertQuery {
    pub columns: Vec<String>,
    pub values: Vec<Value>,
    pub table: String,
}

/// `UPDATE`: the assignments in the order of the source.
#[derive(Debug)]
pub struct UpdateQuery {
    pub table: String,
    pub values: Vec<(String, Value)>,
    pub conditions: Vec<Condition>,
}

/// `DELETE`: an empty `columns` stands for the whole row.
#[derive(Debug)]
pub struct DeleteQuery {
    pub columns: Vec<String>,
    pub table: String,
    pub conditions: Vec<Condition>,
}

/// `CREATE TABLE`: at least one column, and a primary key.
#[derive(Debug, Eq, PartialEq)]
pub struct CreateTableQuery {
    pub table: String,
    pub primary_key: PrimaryKey,
    pub columns: Vec<Column>,
}

/// A primary key: a partition key of at least one name, and a clustering key.
#[derive(Debug, Eq, PartialEq)]
pub struct PrimaryKey {
    pub partition_key: Vec<String>,
    pub clustering_key: Vec<String>,
}

/// A column of a table definition.
#[derive(Debug, Eq, PartialEq)]
pub struct Column {
    pub name: String,
    pub column_type: ColumnType,
}

/// `ALTER TABLE`: one entry for each column that is added or dropped, in the
/// order of the source.
#[derive(Debug, Eq, PartialEq)]
pub struct AlterTableQuery {
    pub table: String,
    pub conditions: Vec<AlterTableCondition>,
}

/// `DROP TABLE`
#[derive(Debug, Eq, PartialEq)]
pub struct DropTableQuery {
    pub table: String,
}

/// A comparison of a column with a literal.
#[derive(Debug)]
pub struct Condition {
    pub column: String,
    pub operator: Operator,
    pub value: Value,
}

/// An entry of `ALTER TABLE`.
#[derive(Debug, Eq, PartialEq)]
pub enum AlterTableCondition {
    AddColumn(AddColumnCondition),
    DropColumn(DropColumnCondition),
}

/// A column that is added.
#[derive(Debug, Eq, PartialEq)]
pub struct AddColumnCondition {
    pub column_name: String,
    pub column_type: ColumnType,
}

/// A column that is dropped.
#[derive(Debug, Eq, PartialEq)]
pub struct DropColumnCondition {
    pub column_name: String,
}

/// A literal of a statement. A floating-point literal is kept as it was
/// written: an optional `-`, digits, a `.` and digits. Its number is not
/// computed here, so that values, and the statements that hold them, have no
/// `==`: whether two floating-point values are equal is for the one who has
/// their numbers to say.
#[derive(Debug)]
pub enum Value {
    Integer(i64),
    Float(String),
    String(String),
    Bool(bool),
}

/// Why a statement was rejected.
#[derive(Debug, PartialEq)]
pub enum QueryParsingError {
    /// No statement keyword leads the input, which is carried whole.
    UnsupportedRequest(String),
    /// What was expected, and the input that was left where it was missing.
    QuerySyntaxError(String, String),
}

/// A literal as a mathematical value.
pub enum ValueModel {
    Integer(i64),
    Float(Seq<char>),
    String(Seq<char>),
    Bool(bool),
}

/// A condition as a mathematical value.
pub struct ConditionModel {
    pub column: Seq<char>,
    pub operator: Operator,
    pub value: ValueModel,
}

/// A column definition as a mathematical value.
pub struct ColumnModel {
    pub name: Seq<char>,
    pub column_type: ColumnType,
}

/// A primary key as a mathematical value.
pub struct PrimaryKeyModel {
    pub partition_key: Seq<Seq<char>>,
    pub clustering_key: Seq<Seq<char>>,
}

/// An entry of `ALTER TABLE` as a mathematical value.
pub enum AlterModel {
    AddColumn { column_name: Seq<char>, column_type: ColumnType },
    DropColumn { column_name: Seq<char> },
}

/// A statement as a mathematical value: names are character sequences and
/// every list is a sequence in the order of the source.
#[allow(inconsistent_fields)]
pub enum QueryModel {
    Select { columns: Seq<Seq<char>>, table: Seq<char>, conditions: Seq<ConditionModel> },
    Insert { columns: Seq<Seq<char>>, table: Seq<char>, values: Seq<ValueModel> },
    Update {
        table: Seq<char>,
        values: Seq<(Seq<char>, ValueModel)>,
        conditions: Seq<ConditionModel>,
    },
    Delete { columns: Seq<Seq<char>>, table: Seq<char>, conditions: Seq<ConditionModel> },
    CreateTable { table: Seq<char>, primary_key: PrimaryKeyModel, columns: Seq<ColumnModel> },
    AlterTable { table: Seq<char>, conditions: Seq<AlterModel> },
    DropTable { table: Seq<char> },
}

/// A parse error as a mathematical value.
pub enum ErrorModel {
    UnsupportedRequest(Seq<char>),
    QuerySyntaxError(Seq<char>, Seq<char>),
}

impl ValueModel {
    /// A floating-point value holds a floating-point literal.
    pub open spec fn well_formed(self) -> bool {
        self matches ValueModel::Float(text) ==> is_float_text(text)
    }
}

impl ConditionModel {
    /// The column is a name and the literal is well formed.
    pub open spec fn well_formed(self) -> bool {
        is_name(self.column) && self.value.well_formed()
    }
}

impl ColumnModel {
    /// The name of the column is a name.
    pub open spec fn well_formed(self) -> bool {
        is_name(self.name)
    }
}

impl AlterModel {
    /// The name of the column is a name.
    pub open spec fn well_formed(self) -> bool {
        match self {
            AlterModel::AddColumn { column_name, .. } => is_name(column_name),
            AlterModel::DropColumn { column_name } => is_name(column_name),
        }
    }
}

/// Every one of the names is a name.
pub open spec fn names_well_formed(names: Seq<Seq<char>>) -> bool {
    forall|i: int| 0 <= i < names.len() ==> is_name(#[trigger] names[i])
}

/// Every one of the literals is well formed.
pub open spec fn values_well_formed(values: Seq<ValueModel>) -> bool {
    forall|i: int| 0 <= i < values.len() ==> (#[trigger] values[i]).well_formed()
}

/// Every one of the conditions is well formed.
pub open spec fn conditions_well_formed(conditions: Seq<ConditionModel>) -> bool {
    forall|i: int| 0 <= i < conditions.len() ==> (#[trigger] conditions[i]).well_formed()
}

/// Every one of the assignments is of a name and a well-formed literal.
pub open spec fn assignments_well_formed(values: Seq<(Seq<char>, ValueModel)>) -> bool {
    forall|i: int|
        0 <= i < values.len() ==> is_name((#[trigger] values[i]).0) && values[i].1.well_formed()
}

/// Every one of the columns is well formed.
pub open spec fn columns_well_formed(columns: Seq<ColumnModel>) -> bool {
    forall|i: int| 0 <= i < columns.len() ==> (#[trigger] columns[i]).well_formed()
}

/// Every one of the entries is well formed.
pub open spec fn entries_well_formed(entries: Seq<AlterModel>) -> bool {
    forall|i: int| 0 <= i < entries.len() ==> (#[trigger] entries[i]).well_formed()
}

impl PrimaryKeyModel {
    /// The partition key has at least one name, and every part of the key is
    /// a name.
    pub open spec fn well_formed(self) -> bool {
        &&& self.partition_key.len() > 0
        &&& names_well_formed(self.partition_key)
        &&& names_well_formed(self.clustering_key)
    }
}

impl QueryModel {
    /// Every name of the statement is a name: one or more alphabetic
    /// characters and underscores. Every floating-point literal is one. A
    /// table definition has at least one column and a partition key of at
    /// least one name.
    pub open spec fn well_formed(self) -> bool {
        match self {
            QueryModel::Select { columns, table, conditions } => {
                &&& names_well_formed(columns)
                &&& is_name(table)
                &&& conditions_well_formed(conditions)
            },
            QueryModel::Insert { columns, table, values } => {
                &&& names_well_formed(columns)
                &&& is_name(table)
                &&& values_well_formed(values)
            },
            QueryModel::Update { table, values, conditions } => {
                &&& is_name(table)
                &&& assignments_well_formed(values)
                &&& conditions_well_formed(conditions)
            },
            QueryModel::Delete { columns, table, conditions } => {
                &&& names_well_formed(columns)
                &&& is_name(table)
                &&& conditions_well_formed(conditions)
            },
            QueryModel::CreateTable { table, primary_key, columns } => {
                &&& is_name(table)
                &&& primary_key.well_formed()
                &&& columns.len() > 0
                &&& columns_well_formed(columns)
            },
            QueryModel::AlterTable { table, conditions } => {
                &&& is_name(table)
                &&& entries_well_formed(conditions)
            },
            QueryModel::DropTable { table } => is_name(table),
        }
    }
}

impl ErrorModel {
    /// What an error carries of a text: the text itself where it is an
    /// unsupported request, else what was left of it where a rule did not
    /// match.
    pub open spec fn comes_of(self, s: Seq<char>) -> bool {
        match self {
            ErrorModel::UnsupportedRequest(request) => request == s,
            ErrorModel::QuerySyntaxError(_, left) => exists|pos: int|
                0 <= pos <= s.len() && left == #[trigger] s.subrange(pos, s.len() as int),
        }
    }
}

impl View for Value {
    type V = ValueModel;

    open spec fn view(&self) -> ValueModel {
        match self {
            Value::Integer(number) => ValueModel::Integer(*number),
            Value::Float(text) => ValueModel::Float(text@),
            Value::String(text) => ValueModel::String(text@),
            Value::Bool(flag) => ValueModel::Bool(*flag),
        }
    }
}

impl View for Condition {
    type V = ConditionModel;

    open spec fn view(&self) -> ConditionModel {
        ConditionModel { column: self.column@, operator: self.operator, value: self.value@ }
    }
}

impl View for Column {
    type V = ColumnModel;

    open spec fn view(&self) -> ColumnModel {
        ColumnModel { name: self.name@, column_type: self.column_type }
    }
}

impl View for PrimaryKey {
    type V = PrimaryKeyModel;

    open spec fn view(&self) -> PrimaryKeyModel {
        PrimaryKeyModel {
            partition_key: models_of(self.partition_key@),
            clustering_key: models_of(self.clustering_key@),
        }
    }
}

impl View for AlterTableCondition {
    type V = AlterModel;

    open spec fn view(&self) -> AlterModel {
        match self {
            AlterTableCondition::AddColumn(add) => AlterModel::AddColumn {
                column_name: add.column_name@,
                column_type: add.column_type,
            },
            AlterTableCondition::DropColumn(drop) => AlterModel::DropColumn {
                column_name: drop.column_name@,
            },
        }
    }
}

impl View for SelectQuery {
    type V = QueryModel;

    open spec fn view(&self) -> QueryModel {
        QueryModel::Select {
            columns: models_of(self.columns@),
            table: self.table@,
            conditions: models_of(self.conditions@),
        }
    }
}

impl View for InsertQuery {
    type V = QueryModel;

    open spec fn view(&self) -> QueryModel {
        QueryModel::Insert {
            columns: models_of(self.columns@),
            table: self.table@,
            values: models_of(self.values@),
        }
    }
}

impl View for UpdateQuery {
    type V = QueryModel;

    open spec fn view(&self) -> QueryModel {
        QueryModel::Update {
            table: self.table@,
            values: models_of(self.values@),
            conditions: models_of(self.conditions@),
        }
    }
}

impl View for DeleteQuery {
    type V = QueryModel;

    open spec fn view(&self) -> QueryModel {
        QueryModel::Delete {
            columns: models_of(self.columns@),
            table: self.table@,
            conditions: models_of(self.conditions@),
        }
    }
}

impl View for CreateTableQuery {
    type V = QueryModel;

    open spec fn view(&self) -> QueryModel {
        QueryModel::CreateTable {
            table: self.table@,
            primary_key: self.primary_key@,
            columns: models_of(self.columns@),
        }
    }
}

impl View for AlterTableQuery {
    type V = QueryModel;

    open spec fn view(&self) -> QueryModel {
        QueryModel::AlterTable { table: self.table@, conditions: models_of(self.conditions@) }
    }
}

impl View for DropTableQuery {
    type V = QueryModel;

    open spec fn view(&self) -> QueryModel {
        QueryModel::DropTable { table: self.table@ }
    }
}

impl View for Query {
    type V = QueryModel;

    open spec fn view(&self) -> QueryModel {
        match self {
            Query::DataManipulationQuery(DataManipulationQuery::Select(query)) => query@,
            Query::DataManipulationQuery(DataManipulationQuery::Insert(query)) => query@,
            Query::DataManipulationQuery(DataManipulationQuery::Update(query)) => query@,
            Query::DataManipulationQuery(DataManipulationQuery::Delete(query)) => query@,
            Query::DataDefinitionQuery(DataDefinitionQuery::CreateTable(query)) => query@,
            Query::DataDefinitionQuery(DataDefinitionQuery::AlterTable(query)) => query@,
            Query::DataDefinitionQuery(DataDefinitionQuery::DropTable(query)) => query@,
        }
    }
}

impl View for QueryParsingError {
    type V = ErrorModel;

    open spec fn view(&self) -> ErrorModel {
        match self {
            QueryParsingError::UnsupportedRequest(input) => ErrorModel::UnsupportedRequest(input@),
            QueryParsingError::QuerySyntaxError(expected, rest) => ErrorModel::QuerySyntaxError(
                expected@,
                rest@,
            ),
        }
    }
}

/// The view of a parse result: of the statement, or of the error.
pub open spec fn outcome(result: Result<Query, QueryParsingError>) -> Result<
    QueryModel,
    ErrorModel,
> {
    match result {
        Ok(query) => Ok(query@),
        Err(error) => Err(error@),
    }
}

impl SelectQuery {
    /// A `SELECT` of these columns, of this table, under these conditions.
    pub fn new(columns: Vec<String>, table: String, conditions: Vec<Condition>) -> (query: Self)
        ensures
            query.columns == columns,
            query.table == table,
            query.conditions == conditions,
    {
        Self { columns, table, conditions }
    }
}

impl InsertQuery {
    /// An `INSERT` of these values into these columns of this table.
    pub fn new(columns: Vec<String>, table: String, values: Vec<Value>) -> (query: Self)
        ensures
            query.columns == columns,
            query.table == table,
            query.values == values,
    {
        Self { columns, table, values }
    }
}

impl UpdateQuery {
    /// An `UPDATE` of this table with these assignments under these conditions.
    pub fn new(table: String, values: Vec<(String, Value)>, conditions: Vec<Condition>) -> (query:
        Self)
        ensures
            query.table == table,
            query.values == values,
            query.conditions == conditions,
    {
        Self { table, values, conditions }
    }
}

impl DeleteQuery {
    /// A `DELETE` of these columns of this table under these conditions.
    pub fn new(columns: Vec<String>, table: String, conditions: Vec<Condition>) -> (query: Self)
        ensures
            query.columns == columns,
            query.table == table,
            query.conditions == conditions,
    {
        Self { columns, table, conditions }
    }
}

impl Condition {
    /// A condition on this column.
    pub fn new(column: String, operator: Operator, value: Value) -> (condition: Self)
        ensures
            condition.column == column,
            condition.operator == operator,
            condition.value == value,
    {
        Self { column, operator, value }
    }
}

impl Value {
    /// Whether two values are of one variant and are written the same: the
    /// same integer, the same string, the same truth value, or the same
    /// floating-point literal, character by character. Two floating-point
    /// literals of one number may be written differently: `2.5` and `2.50`
    /// are not the same literal.
    pub fn same_literal(&self, other: &Value) -> (same: bool)
        ensures
            same == (self@ == other@),
    {
        match self {
            Value::Integer(x) => match other {
                Value::Integer(y) => *x == *y,
                _ => false,
            },
            Value::Float(x) => match other {
                Value::Float(y) => *x == *y,
                _ => false,
            },
            Value::String(x) => match other {
                Value::String(y) => *x == *y,
                _ => false,
            },
            Value::Bool(x) => match other {
                Value::Bool(y) => *x == *y,
                _ => false,
            },
        }
    }
}

} // verus!
