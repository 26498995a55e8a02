//! What the two kinds of database call things.
use crate::definition::FieldType;
use crate::session::Dialect;
use vstd::prelude::*;

verus! {

impl Dialect {
    /// The column type of a timestamp the database fills in itself.
    pub open spec fn timestamp_default(self) -> Seq<char> {
        match self {
            Dialect::Sqlite => "TEXT DEFAULT (strftime('%Y-%m-%dT%H:%M:%fZ', 'now'))"@,
            Dialect::Postgres => "TEXT DEFAULT to_char(NOW(), 'YYYY-MM-DD\"T\"HH24:MI:SS.MS\"Z\"')"@,
        }
    }

    /// The column type of a timestamp the database fills in itself.
    pub fn timestamp_column_default(self) -> (r: &'static str)
        ensures
            r@ == self.timestamp_default(),
    {
        match self {
            Dialect::Sqlite => "TEXT DEFAULT (strftime('%Y-%m-%dT%H:%M:%fZ', 'now'))",
            Dialect::Postgres => "TEXT DEFAULT to_char(NOW(), 'YYYY-MM-DD\"T\"HH24:MI:SS.MS\"Z\"')",
        }
    }

    /// The column type of a timestamp.
    pub fn timestamp_column_type(self) -> (r: &'static str)
        ensures
            r@ == "TEXT"@,
    {
        "TEXT"
    }

    /// The column type of a single value of a field.
    pub open spec fn column_type(self, field_type: FieldType) -> Seq<char> {
        match (self, field_type) {
            (Dialect::Sqlite, FieldType::Number) => "REAL"@,
            (Dialect::Sqlite, FieldType::Checkbox) => "INTEGER"@,
            (Dialect::Postgres, FieldType::Number) => "DOUBLE PRECISION"@,
            (Dialect::Postgres, FieldType::Checkbox) => "SMALLINT"@,
            _ => "TEXT"@,
        }
    }

    /// The column type of a single value of a field.
    pub fn column_type_for(self, field_type: FieldType) -> (r: &'static str)
        ensures
            r@ == self.column_type(field_type),
    {
        match (self, field_type) {
            (Dialect::Sqlite, FieldType::Number) => "REAL",
            (Dialect::Sqlite, FieldType::Checkbox) => "INTEGER",
            (Dialect::Postgres, FieldType::Number) => "DOUBLE PRECISION",
            (Dialect::Postgres, FieldType::Checkbox) => "SMALLINT",
            _ => "TEXT",
        }
    }

    /// The word a configuration uses for this kind of database.
    pub open spec fn word(self) -> Seq<char> {
        match self {
            Dialect::Sqlite => "sqlite"@,
            Dialect::Postgres => "postgres"@,
        }
    }

    /// The word a configuration uses for this kind of database.
    pub fn kind(self) -> (r: &'static str)
        ensures
            r@ == self.word(),
    {
        match self {
            Dialect::Sqlite => "sqlite",
            Dialect::Postgres => "postgres",
        }
    }
}

} // verus!
