use vstd::prelude::*;
use crate::builders::{
    calculate_index, calculate_relation_field, calculate_scalar_field, column_unsupported, copy_strings,
    spec_column_attributes,
    fk_touches_unsupported, named_column_unsupported, relation_field_matches, scalar_field_matches,
};
use crate::connector_error::ConnectorError;
use crate::datamodel::{Field, FieldType, Model, ModelIndex, RelationField};
use crate::dedup::{clear_duplicates, dedup_fks, key_seen};
use crate::naming::{calculate_relation_name, count_refs, spec_relation_name};
use crate::native_types::{native_type_check, reports, ConnectorCapabilities};
use crate::schema::{fk_key, is_single_column_unique, ForeignKey, Index, SqlSchema, Table};

verus! {

/// Two foreign keys alike in everything that the model reads of them.
pub open spec fn fk_same(a: ForeignKey, b: ForeignKey) -> bool {
    fk_key(a) == fk_key(b) && a.on_delete == b.on_delete
}

pub open spec fn fks_same(a: Seq<ForeignKey>, b: Seq<ForeignKey>) -> bool {
    a.len() == b.len() && forall|i: int| 0 <= i < a.len() ==> fk_same(#[trigger] a[i], b[i])
}

/// The structural identity of a relation field: local columns, target, referenced columns.
pub open spec fn relation_key(f: RelationField) -> (Seq<Seq<char>>, Seq<char>, Seq<Seq<char>>) {
    (f.relation_info.fields.deep_view(), f.relation_info.to@, f.relation_info.to_fields.deep_view())
}

pub open spec fn index_matches(idx: Index, m: ModelIndex) -> bool {
    m.name@ == idx.name@ && m.fields.deep_view() == idx.columns.deep_view() && m.is_unique == idx.unique
}

proof fn lemma_key_seen_congruent(a: Seq<ForeignKey>, b: Seq<ForeignKey>, k: (Seq<Seq<char>>, Seq<char>, Seq<Seq<char>>))
    requires
        fks_same(a, b),
    ensures
        key_seen(a, k) == key_seen(b, k),
{
    if key_seen(a, k) {
        let j = choose|j: int| 0 <= j < a.len() && fk_key(#[trigger] a[j]) == k;
        assert(fk_same(a[j], b[j]));
    }
    if key_seen(b, k) {
        let j = choose|j: int| 0 <= j < b.len() && fk_key(#[trigger] b[j]) == k;
        assert(fk_same(a[j], b[j]));
    }
}

proof fn lemma_dedup_congruent(a: Seq<ForeignKey>, b: Seq<ForeignKey>)
    requires
        fks_same(a, b),
    ensures
        fks_same(dedup_fks(a), dedup_fks(b)),
    decreases a.len(),
{
    if a.len() > 0 {
        assert(fks_same(a.drop_last(), b.drop_last())) by {
            assert forall|i: int| 0 <= i < a.len() - 1 implies fk_same(
                #[trigger] a.drop_last()[i],
                b.drop_last()[i],
            ) by {
                assert(fk_same(a[i], b[i]));
            }
        };
        lemma_dedup_congruent(a.drop_last(), b.drop_last());
        assert(fk_same(a[a.len() - 1], b[b.len() - 1]));
        lemma_key_seen_congruent(a.drop_last(), b.drop_last(), fk_key(a.last()));
        let da = dedup_fks(a.drop_last());
        let db = dedup_fks(b.drop_last());
        if !key_seen(a.drop_last(), fk_key(a.last())) {
            assert forall|i: int| 0 <= i < da.len() + 1 implies fk_same(
                #[trigger] da.push(a.last())[i],
                db.push(b.last())[i],
            ) by {
                if i < da.len() {
                    assert(fk_same(da[i], db[i]));
                }
            }
        }
    }
}

proof fn lemma_count_refs_congruent(a: Seq<ForeignKey>, b: Seq<ForeignKey>, r: Seq<char>)
    requires
        fks_same(a, b),
    ensures
        count_refs(a, r) == count_refs(b, r),
    decreases a.len(),
{
    if a.len() > 0 {
        assert(fks_same(a.drop_last(), b.drop_last())) by {
            assert forall|i: int| 0 <= i < a.len() - 1 implies fk_same(#[trigger] a.drop_last()[i], b.drop_last()[i]) by {
                assert(fk_same(a[i], b[i]));
            }
        };
        lemma_count_refs_congruent(a.drop_last(), b.drop_last(), r);
        assert(fk_same(a[a.len() - 1], b[b.len() - 1]));
    }
}

fn copy_foreign_key(fk: &ForeignKey) -> (r: ForeignKey)
    ensures
        fk_same(r, *fk),
{
    ForeignKey {
        columns: copy_strings(&fk.columns),
        referenced_table: fk.referenced_table.clone(),
        referenced_columns: copy_strings(&fk.referenced_columns),
        on_delete: fk.on_delete,
    }
}

fn copy_foreign_keys(v: &Vec<ForeignKey>) -> (r: Vec<ForeignKey>)
    ensures
        fks_same(r@, v@),
{
    let mut r: Vec<ForeignKey> = Vec::new();
    let mut i: usize = 0;
    while i < v.len()
        invariant
            0 <= i <= v@.len(),
            r@.len() == i,
            forall|j: int| 0 <= j < i ==> fk_same(#[trigger] r@[j], v@[j]),
        decreases v@.len() - i,
    {
        r.push(copy_foreign_key(&v[i]));
        i = i + 1;
    }
    r
}

/// Whether one of the foreign key's columns has an `Unsupported` field among
/// the first `n` fields, which are the table's columns in order.
fn touches_unsupported(
    caps: &ConnectorCapabilities,
    t: &Table,
    fields: &Vec<Field>,
    fk: &ForeignKey,
) -> (r: bool)
    requires
        fields@.len() >= t.columns@.len(),
        forall|i: int|
            0 <= i < t.columns@.len() ==> (#[trigger] fields@[i]) is ScalarField && scalar_field_matches(
                *caps,
                *t,
                t.columns@[i],
                fields@[i]->ScalarField_0,
            ),
    ensures
        r == fk_touches_unsupported(*caps, *t, *fk),
{
    let mut j: usize = 0;
    while j < fk.columns.len()
        invariant
            0 <= j <= fk.columns@.len(),
            fields@.len() >= t.columns@.len(),
            forall|i: int|
                0 <= i < t.columns@.len() ==> (#[trigger] fields@[i]) is ScalarField && scalar_field_matches(
                    *caps,
                    *t,
                    t.columns@[i],
                    fields@[i]->ScalarField_0,
                ),
            forall|m: int| 0 <= m < j ==> !named_column_unsupported(*caps, *t, #[trigger] fk.columns.deep_view()[m]),
        decreases fk.columns@.len() - j,
    {
        assert(fk.columns.deep_view()[j as int] == fk.columns@[j as int]@);
        let mut i: usize = 0;
        while i < t.columns.len()
            invariant
                0 <= i <= t.columns@.len(),
                j < fk.columns@.len(),
                fields@.len() >= t.columns@.len(),
                forall|i: int|
                    0 <= i < t.columns@.len() ==> (#[trigger] fields@[i]) is ScalarField && scalar_field_matches(
                        *caps,
                        *t,
                        t.columns@[i],
                        fields@[i]->ScalarField_0,
                    ),
                forall|m: int|
                    0 <= m < i ==> !((#[trigger] t.columns@[m]).name@ == fk.columns@[j as int]@
                        && column_unsupported(*caps, *t, t.columns@[m])),
            decreases t.columns@.len() - i,
        {
            assert(fields@[i as int] is ScalarField);
            if t.columns[i].name == fk.columns[j] {
                if let Field::ScalarField(sf) = &fields[i] {
                    if let FieldType::Unsupported(_) = &sf.field_type {
                        assert(named_column_unsupported(*caps, *t, fk.columns.deep_view()[j as int]));
                        return true;
                    }
                }
            }
            i = i + 1;
        }
        j = j + 1;
    }
    false
}

fn build_scalar_fields(caps: &ConnectorCapabilities, t: &Table, warnings: &mut Vec<ConnectorError>) -> (fields:
    Vec<Field>)
    ensures
        fields@.len() == t.columns@.len(),
        forall|c: int|
            0 <= c < t.columns@.len() ==> (#[trigger] fields@[c]) is ScalarField && scalar_field_matches(
                *caps,
                *t,
                t.columns@[c],
                fields@[c]->ScalarField_0,
            ),
        final(warnings)@.len() >= old(warnings)@.len(),
        forall|c: int| 0 <= c < old(warnings)@.len() ==> final(warnings)@[c] == old(warnings)@[c],
        forall|c: int|
            0 <= c < t.columns@.len() && column_unsupported(*caps, *t, #[trigger] t.columns@[c]) ==> exists|w: int|
                0 <= w < final(warnings)@.len() && reports(
                    (#[trigger] final(warnings)@[w]).kind,
                    native_type_check(*caps, t.columns@[c], spec_column_attributes(*t, t.columns@[c])),
                    *caps,
                    t.columns@[c],
                ),
{
    let ghost w0 = warnings@;
    let mut fields: Vec<Field> = Vec::new();
    let mut i: usize = 0;
    while i < t.columns.len()
        invariant
            0 <= i <= t.columns@.len(),
            fields@.len() == i,
            forall|c: int|
                0 <= c < i ==> (#[trigger] fields@[c]) is ScalarField && scalar_field_matches(
                    *caps,
                    *t,
                    t.columns@[c],
                    fields@[c]->ScalarField_0,
                ),
            warnings@.len() >= w0.len(),
            forall|c: int| 0 <= c < w0.len() ==> warnings@[c] == w0[c],
            forall|c: int|
                0 <= c < i && column_unsupported(*caps, *t, #[trigger] t.columns@[c]) ==> exists|w: int|
                    0 <= w < warnings@.len() && reports(
                        (#[trigger] warnings@[w]).kind,
                        native_type_check(*caps, t.columns@[c], spec_column_attributes(*t, t.columns@[c])),
                        *caps,
                        t.columns@[c],
                    ),
        decreases t.columns@.len() - i,
    {
        let (field, warning) = calculate_scalar_field(caps, t, &t.columns[i]);
        fields.push(Field::ScalarField(field));
        let ghost before = warnings@;
        if let Some(e) = warning {
            warnings.push(e);
            proof {
                assert(reports(
                    warnings@[warnings@.len() - 1].kind,
                    native_type_check(*caps, t.columns@[i as int], spec_column_attributes(*t, t.columns@[i as int])),
                    *caps,
                    t.columns@[i as int],
                ));
                assert forall|c: int|
                    0 <= c < i && column_unsupported(*caps, *t, #[trigger] t.columns@[c]) implies exists|w: int|
                    0 <= w < warnings@.len() && reports(
                        (#[trigger] warnings@[w]).kind,
                        native_type_check(*caps, t.columns@[c], spec_column_attributes(*t, t.columns@[c])),
                        *caps,
                        t.columns@[c],
                    ) by {
                    let w = choose|w: int|
                        0 <= w < before.len() && reports(
                            (#[trigger] before[w]).kind,
                            native_type_check(*caps, t.columns@[c], spec_column_attributes(*t, t.columns@[c])),
                            *caps,
                            t.columns@[c],
                        );
                    assert(warnings@[w] == before[w]);
                }
            }
        }
        i = i + 1;
    }
    fields
}

/// The foreign keys of a table that become relation fields: the distinct ones
/// whose columns all have supported types, in order.
pub open spec fn kept_foreign_keys(caps: ConnectorCapabilities, t: Table) -> Seq<ForeignKey> {
    dedup_fks(t.foreign_keys@).filter(|fk: ForeignKey| !fk_touches_unsupported(caps, t, fk))
}

/// The indexes of a table kept at model level, in order.
pub open spec fn kept_indices(t: Table) -> Seq<Index> {
    t.indices@.filter(|i: Index| !is_single_column_unique(i))
}

/// The relation field for the `p`-th kept foreign key.
pub open spec fn relation_field_for(
    caps: ConnectorCapabilities,
    schema: SqlSchema,
    t: Table,
    p: int,
    f: Field,
) -> bool {
    f is RelationField && relation_field_matches(t, kept_foreign_keys(caps, t)[p], f->RelationField_0)
        && f->RelationField_0.relation_info.name@ == spec_relation_name(schema, t, kept_foreign_keys(caps, t)[p])
}

fn add_relation_fields(
    caps: &ConnectorCapabilities,
    schema: &SqlSchema,
    t: &Table,
    fields: &mut Vec<Field>,
)
    requires
        old(fields)@.len() == t.columns@.len(),
        forall|c: int|
            0 <= c < t.columns@.len() ==> (#[trigger] old(fields)@[c]) is ScalarField && scalar_field_matches(
                *caps,
                *t,
                t.columns@[c],
                old(fields)@[c]->ScalarField_0,
            ),
    ensures
        final(fields)@.len() == t.columns@.len() + kept_foreign_keys(*caps, *t).len(),
        forall|c: int| 0 <= c < t.columns@.len() ==> final(fields)@[c] == old(fields)@[c],
        forall|p: int|
            0 <= p < kept_foreign_keys(*caps, *t).len() ==> relation_field_for(
                *caps,
                *schema,
                *t,
                p,
                #[trigger] final(fields)@[t.columns@.len() + p],
            ),
{
    let ncols = t.columns.len();
    let mut fks = copy_foreign_keys(&t.foreign_keys);
    let ghost copied = fks@;
    clear_duplicates(&mut fks);
    let ghost d = dedup_fks(t.foreign_keys@);
    let ghost pred = |fk: ForeignKey| !fk_touches_unsupported(*caps, *t, fk);
    proof {
        lemma_dedup_congruent(copied, t.foreign_keys@);
    }
    let mut k: usize = 0;
    while k < fks.len()
        invariant
            0 <= k <= fks@.len(),
            fks_same(fks@, d),
            d == dedup_fks(t.foreign_keys@),
            pred == (|fk: ForeignKey| !fk_touches_unsupported(*caps, *t, fk)),
            ncols == t.columns@.len(),
            fields@.len() == ncols + d.take(k as int).filter(pred).len(),
            forall|c: int| 0 <= c < ncols ==> fields@[c] == old(fields)@[c],
            forall|c: int|
                0 <= c < ncols ==> (#[trigger] fields@[c]) is ScalarField && scalar_field_matches(
                    *caps,
                    *t,
                    t.columns@[c],
                    fields@[c]->ScalarField_0,
                ),
            forall|p: int|
                0 <= p < d.take(k as int).filter(pred).len() ==> (#[trigger] fields@[ncols + p]) is RelationField
                    && relation_field_matches(*t, d.take(k as int).filter(pred)[p], fields@[ncols + p]->RelationField_0)
                    && fields@[ncols + p]->RelationField_0.relation_info.name@ == spec_relation_name(
                    *schema,
                    *t,
                    d.take(k as int).filter(pred)[p],
                ),
        decreases fks@.len() - k,
    {
        let fk = &fks[k];
        let ghost before = d.take(k as int).filter(pred);
        proof {
            assert(fk_same(fks@[k as int], d[k as int]));
            assert(d.take(k as int + 1).drop_last() =~= d.take(k as int));
            assert(d.take(k as int + 1).last() == d[k as int]);
            reveal(Seq::filter);
        }
        let touches = touches_unsupported(caps, t, &fields, fk);
        assert(fk_touches_unsupported(*caps, *t, *fk) == fk_touches_unsupported(*caps, *t, d[k as int]));
        if !touches {
            proof {
                lemma_count_refs_congruent(fks@, d, fk.referenced_table@);
            }
            let name = calculate_relation_name(schema, t, &fks, fk);
            let rf = calculate_relation_field(t, fk, name);
            assert(spec_relation_name(*schema, *t, *fk) == spec_relation_name(*schema, *t, d[k as int]));
            fields.push(Field::RelationField(rf));
            proof {
                assert(d.take(k as int + 1).filter(pred) == before.push(d[k as int]));
                assert forall|p: int| 0 <= p < before.len() + 1 implies (#[trigger] fields@[ncols + p]) is RelationField
                    && relation_field_matches(*t, before.push(d[k as int])[p], fields@[ncols + p]->RelationField_0)
                    && fields@[ncols + p]->RelationField_0.relation_info.name@ == spec_relation_name(
                    *schema,
                    *t,
                    before.push(d[k as int])[p],
                ) by {
                    if p < before.len() {
                        assert(before.push(d[k as int])[p] == before[p]);
                    }
                }
            }
        } else {
            proof {
                assert(d.take(k as int + 1).filter(pred) == before);
            }
        }
        k = k + 1;
    }
    proof {
        assert(d.take(d.len() as int) =~= d);
    }
}

fn build_indices(t: &Table) -> (r: Vec<ModelIndex>)
    ensures
        r@.len() == kept_indices(*t).len(),
        forall|k: int| 0 <= k < r@.len() ==> index_matches(kept_indices(*t)[k], #[trigger] r@[k]),
{
    let ghost pred = |i: Index| !is_single_column_unique(i);
    let ghost s = t.indices@;
    let mut indices: Vec<ModelIndex> = Vec::new();
    let mut x: usize = 0;
    while x < t.indices.len()
        invariant
            0 <= x <= s.len(),
            s == t.indices@,
            pred == (|i: Index| !is_single_column_unique(i)),
            indices@.len() == s.take(x as int).filter(pred).len(),
            forall|k: int|
                0 <= k < indices@.len() ==> index_matches(s.take(x as int).filter(pred)[k], #[trigger] indices@[k]),
        decreases s.len() - x,
    {
        let ghost before = s.take(x as int).filter(pred);
        proof {
            assert(s.take(x as int + 1).drop_last() =~= s.take(x as int));
            assert(s.take(x as int + 1).last() == s[x as int]);
            reveal(Seq::filter);
        }
        let idx = &t.indices[x];
        if !(idx.unique && idx.columns.len() == 1) {
            indices.push(calculate_index(idx));
            proof {
                assert(s.take(x as int + 1).filter(pred) == before.push(s[x as int]));
                assert forall|k: int| 0 <= k < indices@.len() implies index_matches(
                    before.push(s[x as int])[k],
                    #[trigger] indices@[k],
                ) by {
                    if k < before.len() {
                        assert(before.push(s[x as int])[k] == before[k]);
                    }
                }
            }
        } else {
            proof {
                assert(s.take(x as int + 1).filter(pred) == before);
            }
        }
        x = x + 1;
    }
    proof {
        assert(s.take(s.len() as int) =~= s);
    }
    indices
}

/// `m` is the model that pass one builds for table `t`: a scalar field per
/// column, then a relation field per kept foreign key, then the kept indexes
/// and the composite id.
pub open spec fn model_built_from(caps: ConnectorCapabilities, schema: SqlSchema, t: Table, m: Model) -> bool {
    &&& m.name@ == t.name@
    &&& forall|i: int|
        0 <= i < t.columns@.len() ==> (#[trigger] m.fields@[i]) is ScalarField && scalar_field_matches(
            caps,
            t,
            t.columns@[i],
            m.fields@[i]->ScalarField_0,
        )
    &&& m.fields@.len() == t.columns@.len() + kept_foreign_keys(caps, t).len()
    &&& forall|p: int|
        0 <= p < kept_foreign_keys(caps, t).len() ==> relation_field_for(
            caps,
            schema,
            t,
            p,
            #[trigger] m.fields@[t.columns@.len() + p],
        )
    &&& m.indices@.len() == kept_indices(t).len()
    &&& forall|k: int| 0 <= k < m.indices@.len() ==> index_matches(kept_indices(t)[k], #[trigger] m.indices@[k])
    &&& t.primary_key@.len() > 1 ==> m.id_fields.deep_view() == t.primary_key.deep_view()
    &&& t.primary_key@.len() <= 1 ==> m.id_fields@.len() == 0
}

/// Builds the model of an application table: a scalar field per column, in
/// column order; then a relation field per distinct foreign key whose columns
/// all have supported types; the indexes that are not single-column unique
/// ones; and a composite id when the primary key spans several columns.
/// Each column whose type fails validation adds its failure to `warnings`.
pub fn build_model(
    caps: &ConnectorCapabilities,
    schema: &SqlSchema,
    t: &Table,
    warnings: &mut Vec<ConnectorError>,
) -> (m: Model)
    ensures
        model_built_from(*caps, *schema, *t, m),
        final(warnings)@.len() >= old(warnings)@.len(),
        forall|i: int| 0 <= i < old(warnings)@.len() ==> final(warnings)@[i] == old(warnings)@[i],
        forall|i: int|
            0 <= i < t.columns@.len() && column_unsupported(*caps, *t, #[trigger] t.columns@[i]) ==> exists|w: int|
                0 <= w < final(warnings)@.len() && reports(
                    (#[trigger] final(warnings)@[w]).kind,
                    native_type_check(*caps, t.columns@[i], spec_column_attributes(*t, t.columns@[i])),
                    *caps,
                    t.columns@[i],
                ),
{
    let mut fields = build_scalar_fields(caps, t, warnings);
    add_relation_fields(caps, schema, t, &mut fields);
    let indices = build_indices(t);
    let id_fields = if t.primary_key.len() > 1 {
        copy_strings(&t.primary_key)
    } else {
        Vec::new()
    };
    Model { name: t.name.clone(), fields, indices, id_fields }
}

} // verus!
