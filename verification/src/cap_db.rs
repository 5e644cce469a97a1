//! The file selection and listing rules and the schema types of `database`,
//! under the names the `cap_db` commands use.

pub use crate::database::{
    database_listing, has_sqlite_extension, is_database_entry, is_sqlite_magic, ColumnInfo, DbInfo,
    ListedDatabase, TableInfo,
};
