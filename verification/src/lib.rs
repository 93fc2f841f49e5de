pub mod builder;
pub mod common_parser;
pub mod ddl_laws;
pub mod ddl_parser;
pub mod dml_laws;
pub mod dml_parser;
pub mod error;
pub mod grammar;
pub mod keyword;
pub mod laws;
pub mod layout;
pub mod lexical;
pub mod message;
pub mod parser;
pub mod query;
pub mod sentence;
pub mod soundness;
pub mod syntax;
pub mod text;
pub mod token;
pub mod types;
