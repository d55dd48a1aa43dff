//! What a database engine reports when it is scanned.

use vstd::prelude::*;

verus! {

/// The engines whose metadata can be scanned.
#[derive(Debug, Clone, Copy, PartialEq, Eq)]
pub enum DatabaseType {
    MySql,
}

impl DatabaseType {
    /// The name of the engine, as connection strings and files write it.
    pub open spec fn name(&self) -> Seq<char> {
        match self {
            DatabaseType::MySql => "mysql"@,
        }
    }

    /// The name of the engine, as connection strings and files write it.
    pub fn as_string(&self) -> (name: &'static str)
        ensures
            name@ == self.name(),
    {
        match self {
            DatabaseType::MySql => "mysql",
        }
    }
}

/// One column of one table, as the engine's catalogue lists it.
#[derive(Debug, Clone, PartialEq, Eq)]
pub struct ColumnInfo {
    pub schema_name: String,
    pub table_name: String,
    pub column_name: String,
    pub data_type: String,
    pub data_precision: Option<u32>,
    pub is_primary_key: bool,
    pub is_nullable: bool,
    pub is_unique: bool,
    pub is_auto_increment: bool,
    pub default_value: Option<String>,
    pub ordinal_position: u8,
}

/// The model of a [`ColumnInfo`].
pub struct ColumnInfoModel {
    pub schema_name: Seq<char>,
    pub table_name: Seq<char>,
    pub column_name: Seq<char>,
    pub data_type: Seq<char>,
    pub data_precision: Option<u32>,
    pub is_primary_key: bool,
    pub is_nullable: bool,
    pub is_unique: bool,
    pub is_auto_increment: bool,
    pub default_value: Option<Seq<char>>,
    pub ordinal_position: u8,
}

impl DeepView for ColumnInfo {
    type V = ColumnInfoModel;

    open spec fn deep_view(&self) -> ColumnInfoModel {
        ColumnInfoModel {
            schema_name: self.schema_name@,
            table_name: self.table_name@,
            column_name: self.column_name@,
            data_type: self.data_type@,
            data_precision: self.data_precision,
            is_primary_key: self.is_primary_key,
            is_nullable: self.is_nullable,
            is_unique: self.is_unique,
            is_auto_increment: self.is_auto_increment,
            default_value: self.default_value.deep_view(),
            ordinal_position: self.ordinal_position,
        }
    }
}

/// One foreign key column with the column it points to, as the engine's
/// catalogue lists it.
#[derive(Debug, Clone, PartialEq, Eq)]
pub struct ReferenceInfo {
    pub schema_name: String,
    pub table_name: String,
    pub column_name: String,
    pub referenced_schema_name: String,
    pub referenced_table_name: String,
    pub referenced_column_name: String,
}

/// The model of a [`ReferenceInfo`].
pub struct ReferenceInfoModel {
    pub schema_name: Seq<char>,
    pub table_name: Seq<char>,
    pub column_name: Seq<char>,
    pub referenced_schema_name: Seq<char>,
    pub referenced_table_name: Seq<char>,
    pub referenced_column_name: Seq<char>,
}

impl DeepView for ReferenceInfo {
    type V = ReferenceInfoModel;

    open spec fn deep_view(&self) -> ReferenceInfoModel {
        ReferenceInfoModel {
            schema_name: self.schema_name@,
            table_name: self.table_name@,
            column_name: self.column_name@,
            referenced_schema_name: self.referenced_schema_name@,
            referenced_table_name: self.referenced_table_name@,
            referenced_column_name: self.referenced_column_name@,
        }
    }
}

} // verus!
