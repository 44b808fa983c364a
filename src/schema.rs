use vstd::prelude::*;

verus! {

/// The physical type of a column as the database reports it.
pub struct ColumnType {
    /// The type as written in the database, arguments included (`Decimal(20,30)`).
    pub full_data_type: String,
    /// The bare native type name (`Decimal`).
    pub native_name: String,
    /// The numeric arguments of the native type, in order.
    pub args: Vec<u64>,
}

pub struct Column {
    pub name: String,
    pub tpe: ColumnType,
    pub nullable: bool,
    /// The raw default expression, if the column has one.
    pub default: Option<String>,
}

#[derive(Clone, Copy, Debug, PartialEq, Eq, Structural)]
pub enum ForeignKeyAction {
    NoAction,
    Restrict,
    Cascade,
    SetNull,
    SetDefault,
}

pub struct ForeignKey {
    pub columns: Vec<String>,
    pub referenced_table: String,
    pub referenced_columns: Vec<String>,
    pub on_delete: ForeignKeyAction,
}

pub struct Index {
    pub name: String,
    pub columns: Vec<String>,
    pub unique: bool,
}

pub struct Table {
    pub name: String,
    pub columns: Vec<Column>,
    pub indices: Vec<Index>,
    pub primary_key: Vec<String>,
    pub foreign_keys: Vec<ForeignKey>,
}

pub struct SchemaEnum {
    pub name: String,
    pub values: Vec<String>,
}

/// A fully materialized snapshot of a database's structure.
pub struct SqlSchema {
    pub tables: Vec<Table>,
    pub enums: Vec<SchemaEnum>,
}

/// The structural identity of a foreign key: local columns, referenced table
/// and referenced columns (its actions do not count).
pub open spec fn fk_key(fk: ForeignKey) -> (Seq<Seq<char>>, Seq<char>, Seq<Seq<char>>) {
    (fk.columns.deep_view(), fk.referenced_table@, fk.referenced_columns.deep_view())
}

/// Table names within a snapshot are distinct.
pub open spec fn schema_well_formed(schema: SqlSchema) -> bool {
    forall|i: int, j: int|
        0 <= i < schema.tables@.len() && 0 <= j < schema.tables@.len() && i != j
            ==> schema.tables@[i].name@ != schema.tables@[j].name@
}

/// Whether the index is a unique index over exactly one column.
pub open spec fn is_single_column_unique(idx: Index) -> bool {
    idx.unique && idx.columns@.len() == 1
}

/// Whether some single-column unique index of the table covers the named column.
pub open spec fn column_has_unique_index(t: Table, col: Seq<char>) -> bool {
    exists|k: int|
        0 <= k < t.indices@.len() && is_single_column_unique(#[trigger] t.indices@[k])
            && t.indices@[k].columns@[0]@ == col
}

/// Whether the named column is part of the primary key.
pub open spec fn column_in_primary_key(t: Table, col: Seq<char>) -> bool {
    t.primary_key.deep_view().contains(col)
}

/// Whether the named column takes part in an index that is kept at model level.
pub open spec fn column_in_model_index(t: Table, col: Seq<char>) -> bool {
    exists|k: int|
        0 <= k < t.indices@.len() && !is_single_column_unique(#[trigger] t.indices@[k])
            && t.indices@[k].columns.deep_view().contains(col)
}

} // verus!
