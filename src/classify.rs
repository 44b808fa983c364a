use vstd::prelude::*;
use crate::schema::{ForeignKey, Table};

verus! {

// The names by which the connector's reserved tables and the two
// generations of join tables are recognized.

/// The migration bookkeeping table.
pub const MIGRATION_TABLE: &'static str = "_Migration";

/// The table that maps ids to models, and its two columns.
pub const RELAY_TABLE: &'static str = "_RelayId";

pub const RELAY_ID_COLUMN: &'static str = "id";

pub const RELAY_MODEL_COLUMN: &'static str = "stableModelIdentifier";

/// The column of a join table that references the first model.
pub const JOIN_FIRST_COLUMN: &'static str = "A";

/// The column of a join table that references the second model.
pub const JOIN_SECOND_COLUMN: &'static str = "B";

/// The synthetic id column of earlier join tables.
pub const JOIN_ID_COLUMN: &'static str = "id";

/// Whether `s` spells exactly the one-character name `c`.
pub open spec fn is_single_name(s: Seq<Seq<char>>, c: Seq<char>) -> bool {
    s.len() == 1 && s[0] == c
}

/// The connector's migration bookkeeping table.
pub open spec fn spec_is_migration_table(t: Table) -> bool {
    t.name@ == MIGRATION_TABLE@
}

/// The reserved table that maps ids to models.
pub open spec fn spec_is_relay_table(t: Table) -> bool {
    &&& t.name@ == RELAY_TABLE@
    &&& t.columns@.len() == 2
    &&& t.columns@[0].name@ == RELAY_ID_COLUMN@
    &&& t.columns@[1].name@ == RELAY_MODEL_COLUMN@
}

/// What both generations of join tables share: a name with a leading
/// underscore and exactly two foreign keys, on column `A` and on column `B`.
pub open spec fn spec_join_table_shape(t: Table) -> bool {
    &&& t.name@.len() > 1
    &&& t.name@[0] == '_'
    &&& t.foreign_keys@.len() == 2
    &&& is_single_name(t.foreign_keys@[0].columns.deep_view(), JOIN_FIRST_COLUMN@)
    &&& is_single_name(t.foreign_keys@[1].columns.deep_view(), JOIN_SECOND_COLUMN@)
}

/// A join table of the later generation: columns `A` and `B` and nothing else.
pub open spec fn spec_is_join_table_v2(t: Table) -> bool {
    &&& spec_join_table_shape(t)
    &&& t.columns@.len() == 2
    &&& t.columns@[0].name@ == JOIN_FIRST_COLUMN@
    &&& t.columns@[1].name@ == JOIN_SECOND_COLUMN@
}

/// A join table of the earlier generation: a synthetic `id`, then `A` and `B`.
pub open spec fn spec_is_join_table_v1(t: Table) -> bool {
    &&& spec_join_table_shape(t)
    &&& t.columns@.len() == 3
    &&& t.columns@[0].name@ == JOIN_ID_COLUMN@
    &&& t.columns@[1].name@ == JOIN_FIRST_COLUMN@
    &&& t.columns@[2].name@ == JOIN_SECOND_COLUMN@
}

pub open spec fn spec_is_join_table(t: Table) -> bool {
    spec_is_join_table_v1(t) || spec_is_join_table_v2(t)
}

/// A table that becomes a model: none of the reserved or join tables.
pub open spec fn spec_is_application_table(t: Table) -> bool {
    !spec_is_migration_table(t) && !spec_is_join_table(t) && !spec_is_relay_table(t)
}

/// Whether `s` holds exactly the characters of `lit`.
pub fn string_is(s: &String, lit: &str) -> (r: bool)
    ensures
        r == (s@ == lit@),
{
    *s == lit.to_string()
}

fn columns_are_single(fk: &ForeignKey, lit: &str) -> (r: bool)
    ensures
        r == is_single_name(fk.columns.deep_view(), lit@),
{
    fk.columns.len() == 1 && string_is(&fk.columns[0], lit)
}

pub fn is_migration_table(t: &Table) -> (r: bool)
    ensures
        r == spec_is_migration_table(*t),
{
    string_is(&t.name, MIGRATION_TABLE)
}

pub fn is_relay_table(t: &Table) -> (r: bool)
    ensures
        r == spec_is_relay_table(*t),
{
    string_is(&t.name, RELAY_TABLE) && t.columns.len() == 2 && string_is(&t.columns[0].name, RELAY_ID_COLUMN)
        && string_is(&t.columns[1].name, RELAY_MODEL_COLUMN)
}

fn join_table_shape(t: &Table) -> (r: bool)
    ensures
        r == spec_join_table_shape(*t),
{
    let n = t.name.as_str();
    n.unicode_len() > 1 && n.get_char(0) == '_' && t.foreign_keys.len() == 2 && columns_are_single(
        &t.foreign_keys[0],
        JOIN_FIRST_COLUMN,
    ) && columns_are_single(&t.foreign_keys[1], JOIN_SECOND_COLUMN)
}

pub fn is_join_table_v2(t: &Table) -> (r: bool)
    ensures
        r == spec_is_join_table_v2(*t),
{
    join_table_shape(t) && t.columns.len() == 2 && string_is(&t.columns[0].name, JOIN_FIRST_COLUMN) && string_is(
        &t.columns[1].name,
        JOIN_SECOND_COLUMN,
    )
}

pub fn is_join_table_v1(t: &Table) -> (r: bool)
    ensures
        r == spec_is_join_table_v1(*t),
{
    join_table_shape(t) && t.columns.len() == 3 && string_is(&t.columns[0].name, JOIN_ID_COLUMN) && string_is(
        &t.columns[1].name,
        JOIN_FIRST_COLUMN,
    ) && string_is(&t.columns[2].name, JOIN_SECOND_COLUMN)
}

pub fn is_join_table(t: &Table) -> (r: bool)
    ensures
        r == spec_is_join_table(*t),
{
    is_join_table_v1(t) || is_join_table_v2(t)
}

pub fn is_application_table(t: &Table) -> (r: bool)
    ensures
        r == spec_is_application_table(*t),
{
    !is_migration_table(t) && !is_join_table(t) && !is_relay_table(t)
}

} // verus!
