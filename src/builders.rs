use vstd::prelude::*;
use crate::connector_error::ConnectorError;
use crate::datamodel::{
    Field, FieldArity, FieldType, ModelIndex, RelationField, RelationInfo, ScalarField,
};
use crate::native_types::{
    native_type_check, reports, validate_native_type, ConnectorCapabilities, FieldAttributes, NativeTypeCheck,
};
use crate::schema::{
    column_has_unique_index, column_in_model_index, column_in_primary_key, fk_key, is_single_column_unique,
    Column, ForeignKey, Index, SqlSchema, Table,
};

verus! {

/// The attributes a column's field carries, as the table's keys and indexes give them.
pub open spec fn spec_column_attributes(t: Table, col: Column) -> FieldAttributes {
    FieldAttributes {
        is_unique: column_has_unique_index(t, col.name@),
        is_id: column_in_primary_key(t, col.name@),
        is_indexed: column_in_model_index(t, col.name@),
        has_static_default: col.default is Some,
    }
}

/// Whether the column's native type fails validation.
pub open spec fn column_unsupported(caps: ConnectorCapabilities, t: Table, col: Column) -> bool {
    !(native_type_check(caps, col, spec_column_attributes(t, col)) is Valid)
}

/// Whether some column of the table named `name` has a type that fails validation.
pub open spec fn named_column_unsupported(caps: ConnectorCapabilities, t: Table, name: Seq<char>) -> bool {
    exists|i: int|
        0 <= i < t.columns@.len() && (#[trigger] t.columns@[i]).name@ == name && column_unsupported(
            caps,
            t,
            t.columns@[i],
        )
}

/// Whether one of the foreign key's local columns has an unsupported type.
pub open spec fn fk_touches_unsupported(caps: ConnectorCapabilities, t: Table, fk: ForeignKey) -> bool {
    exists|j: int|
        0 <= j < fk.columns.deep_view().len() && named_column_unsupported(caps, t, #[trigger] fk.columns.deep_view()[j])
}

/// Whether some column named `name` is required (not nullable).
pub open spec fn named_column_required(t: Table, name: Seq<char>) -> bool {
    exists|i: int| 0 <= i < t.columns@.len() && (#[trigger] t.columns@[i]).name@ == name && !t.columns@[i].nullable
}

/// A relation is optional when none of its local columns is required.
pub open spec fn fk_arity(t: Table, fk: ForeignKey) -> FieldArity {
    if exists|j: int|
        0 <= j < fk.columns.deep_view().len() && named_column_required(t, #[trigger] fk.columns.deep_view()[j]) {
        FieldArity::Required
    } else {
        FieldArity::Optional
    }
}

/// The scalar field built for a column.
pub open spec fn scalar_field_matches(caps: ConnectorCapabilities, t: Table, col: Column, f: ScalarField) -> bool {
    let attrs = spec_column_attributes(t, col);
    &&& f.name@ == col.name@
    &&& f.is_unique == attrs.is_unique
    &&& f.is_id == attrs.is_id
    &&& f.arity == (if col.nullable { FieldArity::Optional } else { FieldArity::Required })
    &&& (f.default is Some <==> col.default is Some)
    &&& (col.default is Some ==> f.default->Some_0@ == col.default->Some_0@)
    &&& match native_type_check(caps, col, attrs) {
        NativeTypeCheck::Valid(st) => f.field_type == FieldType::Base(st),
        _ => f.field_type matches FieldType::Unsupported(raw) && raw@ == col.tpe.full_data_type@,
    }
}

/// The relation field built for a foreign key: named after and pointing to the
/// referenced table, over the key's columns.
pub open spec fn relation_field_matches(t: Table, fk: ForeignKey, f: RelationField) -> bool {
    &&& f.name@ == fk.referenced_table@
    &&& f.relation_info.to@ == fk.referenced_table@
    &&& f.relation_info.fields.deep_view() == fk.columns.deep_view()
    &&& f.relation_info.to_fields.deep_view() == fk.referenced_columns.deep_view()
    &&& f.relation_info.on_delete == fk.on_delete
    &&& f.arity == fk_arity(t, fk)
}

pub fn copy_strings(v: &Vec<String>) -> (r: Vec<String>)
    ensures
        r.deep_view() == v.deep_view(),
{
    let mut r: Vec<String> = Vec::new();
    let mut i: usize = 0;
    while i < v.len()
        invariant
            0 <= i <= v@.len(),
            r@.len() == i,
            forall|j: int| 0 <= j < i ==> r@[j]@ == v@[j]@,
        decreases v@.len() - i,
    {
        r.push(v[i].clone());
        i = i + 1;
    }
    assert(r.deep_view() =~= v.deep_view());
    r
}

fn contains_string(v: &Vec<String>, s: &String) -> (r: bool)
    ensures
        r == v.deep_view().contains(s@),
{
    let mut i: usize = 0;
    while i < v.len()
        invariant
            0 <= i <= v@.len(),
            forall|j: int| 0 <= j < i ==> v@[j]@ != s@,
        decreases v@.len() - i,
    {
        if v[i] == *s {
            assert(v.deep_view()[i as int] == s@);
            return true;
        }
        i = i + 1;
    }
    proof {
        if v.deep_view().contains(s@) {
            let j = choose|j: int| 0 <= j < v.deep_view().len() && v.deep_view()[j] == s@;
            assert(v@[j]@ == s@);
        }
    }
    false
}

fn has_unique_index(t: &Table, name: &String) -> (r: bool)
    ensures
        r == column_has_unique_index(*t, name@),
{
    let mut k: usize = 0;
    while k < t.indices.len()
        invariant
            0 <= k <= t.indices@.len(),
            forall|m: int|
                0 <= m < k ==> !(is_single_column_unique(#[trigger] t.indices@[m]) && t.indices@[m].columns@[0]@
                    == name@),
        decreases t.indices@.len() - k,
    {
        let idx = &t.indices[k];
        if idx.unique && idx.columns.len() == 1 && idx.columns[0] == *name {
            return true;
        }
        k = k + 1;
    }
    false
}

fn in_model_index(t: &Table, name: &String) -> (r: bool)
    ensures
        r == column_in_model_index(*t, name@),
{
    let mut k: usize = 0;
    while k < t.indices.len()
        invariant
            0 <= k <= t.indices@.len(),
            forall|m: int|
                0 <= m < k ==> !(!is_single_column_unique(#[trigger] t.indices@[m])
                    && t.indices@[m].columns.deep_view().contains(name@)),
        decreases t.indices@.len() - k,
    {
        let idx = &t.indices[k];
        if !(idx.unique && idx.columns.len() == 1) && contains_string(&idx.columns, name) {
            return true;
        }
        k = k + 1;
    }
    false
}

pub fn column_attributes(t: &Table, col: &Column) -> (r: FieldAttributes)
    ensures
        r == spec_column_attributes(*t, *col),
{
    FieldAttributes {
        is_unique: has_unique_index(t, &col.name),
        is_id: contains_string(&t.primary_key, &col.name),
        is_indexed: in_model_index(t, &col.name),
        has_static_default: col.default.is_some(),
    }
}

/// Builds the scalar field for a column; a native type that fails validation
/// makes the field `Unsupported` and hands the failure back beside it.
pub fn calculate_scalar_field(caps: &ConnectorCapabilities, t: &Table, col: &Column) -> (r: (
    ScalarField,
    Option<ConnectorError>,
))
    ensures
        scalar_field_matches(*caps, *t, *col, r.0),
        r.1 is Some <==> column_unsupported(*caps, *t, *col),
        r.1 matches Some(e) ==> reports(
            e.kind,
            native_type_check(*caps, *col, spec_column_attributes(*t, *col)),
            *caps,
            *col,
        ),
{
    let attrs = column_attributes(t, col);
    let checked = validate_native_type(caps, col, attrs);
    let (field_type, warning) = match checked {
        Ok(st) => (FieldType::Base(st), None),
        Err(e) => (FieldType::Unsupported(col.tpe.full_data_type.clone()), Some(e)),
    };
    let default = match &col.default {
        Some(d) => Some(d.clone()),
        None => None,
    };
    let field = ScalarField {
        name: col.name.clone(),
        field_type,
        arity: if col.nullable {
            FieldArity::Optional
        } else {
            FieldArity::Required
        },
        is_unique: attrs.is_unique,
        is_id: attrs.is_id,
        default,
    };
    (field, warning)
}

/// The model-level index kept for a table index.
pub fn calculate_index(idx: &Index) -> (r: ModelIndex)
    ensures
        r.name@ == idx.name@,
        r.fields.deep_view() == idx.columns.deep_view(),
        r.is_unique == idx.unique,
{
    ModelIndex { name: idx.name.clone(), fields: copy_strings(&idx.columns), is_unique: idx.unique }
}

fn column_required(t: &Table, name: &String) -> (r: bool)
    ensures
        r == named_column_required(*t, name@),
{
    let mut i: usize = 0;
    while i < t.columns.len()
        invariant
            0 <= i <= t.columns@.len(),
            forall|m: int| 0 <= m < i ==> !((#[trigger] t.columns@[m]).name@ == name@ && !t.columns@[m].nullable),
        decreases t.columns@.len() - i,
    {
        if t.columns[i].name == *name && !t.columns[i].nullable {
            return true;
        }
        i = i + 1;
    }
    false
}

fn relation_arity(t: &Table, fk: &ForeignKey) -> (r: FieldArity)
    ensures
        r == fk_arity(*t, *fk),
{
    let mut j: usize = 0;
    while j < fk.columns.len()
        invariant
            0 <= j <= fk.columns@.len(),
            forall|m: int| 0 <= m < j ==> !named_column_required(*t, #[trigger] fk.columns.deep_view()[m]),
        decreases fk.columns@.len() - j,
    {
        assert(fk.columns.deep_view()[j as int] == fk.columns@[j as int]@);
        if column_required(t, &fk.columns[j]) {
            assert(named_column_required(*t, fk.columns.deep_view()[j as int]));
            return FieldArity::Required;
        }
        j = j + 1;
    }
    FieldArity::Optional
}

/// The relation field for a foreign key of the table, under the given relation name.
pub fn calculate_relation_field(t: &Table, fk: &ForeignKey, relation_name: String) -> (r: RelationField)
    ensures
        relation_field_matches(*t, *fk, r),
        r.relation_info.name@ == relation_name@,
{
    RelationField {
        name: fk.referenced_table.clone(),
        arity: relation_arity(t, fk),
        relation_info: RelationInfo {
            to: fk.referenced_table.clone(),
            fields: copy_strings(&fk.columns),
            to_fields: copy_strings(&fk.referenced_columns),
            name: relation_name,
            on_delete: fk.on_delete,
        },
    }
}

} // verus!
