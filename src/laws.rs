use vstd::prelude::*;
use crate::builders::{fk_touches_unsupported, named_column_unsupported};
use crate::datamodel::Model;
use crate::dedup::{dedup_fks, lemma_dedup_distinct};
use crate::model_builder::{kept_foreign_keys, kept_indices, relation_key};
use crate::native_types::ConnectorCapabilities;
use crate::classify::{spec_is_application_table, spec_is_join_table};
use crate::introspection::{application_tables, introspected_model};
use crate::schema::{fk_key, is_single_column_unique, schema_well_formed, ForeignKey, Index, SqlSchema, Table};

verus! {

proof fn lemma_filter_keeps_distinct_keys(s: Seq<ForeignKey>, pred: spec_fn(ForeignKey) -> bool)
    requires
        forall|i: int, j: int| 0 <= i < j < s.len() ==> fk_key(#[trigger] s[i]) != fk_key(#[trigger] s[j]),
    ensures
        forall|i: int, j: int|
            0 <= i < j < s.filter(pred).len() ==> fk_key(#[trigger] s.filter(pred)[i]) != fk_key(
                #[trigger] s.filter(pred)[j],
            ),
    decreases s.len(),
{
    reveal(Seq::filter);
    if s.len() > 0 {
        let p = s.drop_last();
        assert forall|i: int, j: int| 0 <= i < j < p.len() implies fk_key(#[trigger] p[i]) != fk_key(
            #[trigger] p[j],
        ) by {
            assert(p[i] == s[i] && p[j] == s[j]);
        }
        lemma_filter_keeps_distinct_keys(p, pred);
        let f = p.filter(pred);
        if pred(s.last()) {
            assert forall|i: int, j: int| 0 <= i < j < f.len() + 1 implies fk_key(#[trigger] f.push(s.last())[i])
                != fk_key(#[trigger] f.push(s.last())[j]) by {
                assert(f.push(s.last())[i] == f[i]);
                if j == f.len() {
                    assert(f.contains(f[i]));
                    p.lemma_filter_contains_rev(pred, f[i]);
                    assert(p.contains(f[i]));
                    let q = choose|q: int| 0 <= q < p.len() && p[q] == f[i];
                    assert(s[q] == p[q]);
                    assert(fk_key(s[q]) != fk_key(s[s.len() - 1]));
                } else {
                    assert(f.push(s.last())[j] == f[j]);
                }
            }
        }
    }
}

/// Two structurally identical foreign keys of one table never give two
/// relation fields: in the model of a table in the run's output, the relation
/// fields built from its foreign keys have pairwise different local columns,
/// targets or referenced columns.
pub proof fn lemma_duplicate_foreign_keys_give_one_field(
    caps: ConnectorCapabilities,
    schema: SqlSchema,
    t: Table,
    m: Model,
)
    requires
        introspected_model(caps, schema, t, m),
    ensures
        forall|a: int, b: int|
            t.columns@.len() <= a < b < t.columns@.len() + kept_foreign_keys(caps, t).len() ==> relation_key(
                (#[trigger] m.fields@[a])->RelationField_0,
            ) != relation_key((#[trigger] m.fields@[b])->RelationField_0),
{
    let n = t.columns@.len() as int;
    let kept = kept_foreign_keys(caps, t);
    lemma_dedup_distinct(t.foreign_keys@);
    lemma_filter_keeps_distinct_keys(
        dedup_fks(t.foreign_keys@),
        |fk: ForeignKey| !fk_touches_unsupported(caps, t, fk),
    );
    assert forall|a: int, b: int| n <= a < b < n + kept.len() implies relation_key(
        (#[trigger] m.fields@[a])->RelationField_0,
    ) != relation_key((#[trigger] m.fields@[b])->RelationField_0) by {
        assert(m.fields@[n + (a - n)] == m.fields@[a]);
        assert(m.fields@[n + (b - n)] == m.fields@[b]);
        assert(fk_key(kept[a - n]) != fk_key(kept[b - n]));
    }
}

/// A single-column unique index is never kept as a model index of the run's
/// output: it shows only as the uniqueness flag of its column's field.
pub proof fn lemma_unique_index_not_duplicated(caps: ConnectorCapabilities, schema: SqlSchema, t: Table, m: Model)
    requires
        introspected_model(caps, schema, t, m),
    ensures
        forall|k: int|
            0 <= k < m.indices@.len() ==> !((#[trigger] m.indices@[k]).is_unique && m.indices@[k].fields@.len() == 1),
{
    assert forall|k: int| 0 <= k < m.indices@.len() implies !((#[trigger] m.indices@[k]).is_unique
        && m.indices@[k].fields@.len() == 1) by {
        let pred = |i: Index| !is_single_column_unique(i);
        t.indices@.lemma_filter_pred(pred, k);
        assert(m.indices@[k].fields.deep_view().len() == m.indices@[k].fields@.len());
        assert(kept_indices(t)[k].columns.deep_view().len() == kept_indices(t)[k].columns@.len());
    }
}

/// No relation field built from a foreign key rests on a column whose type is
/// unsupported, in the model of a table in the run's output.
pub proof fn lemma_unsupported_columns_give_no_relation(
    caps: ConnectorCapabilities,
    schema: SqlSchema,
    t: Table,
    m: Model,
)
    requires
        introspected_model(caps, schema, t, m),
    ensures
        forall|j: int, q: int|
            t.columns@.len() <= j < t.columns@.len() + kept_foreign_keys(caps, t).len() && 0 <= q < m.fields@[j]->RelationField_0.relation_info.fields.deep_view().len() ==> !named_column_unsupported(
                caps,
                t,
                #[trigger] m.fields@[j]->RelationField_0.relation_info.fields.deep_view()[q],
            ),
{
    let n = t.columns@.len() as int;
    let kept = kept_foreign_keys(caps, t);
    assert forall|j: int, q: int|
        n <= j < n + kept.len() && 0 <= q < m.fields@[j]->RelationField_0.relation_info.fields.deep_view().len() implies !named_column_unsupported(
        caps,
        t,
        #[trigger] m.fields@[j]->RelationField_0.relation_info.fields.deep_view()[q],
    ) by {
        assert(m.fields@[n + (j - n)] == m.fields@[j]);
        dedup_fks(t.foreign_keys@).lemma_filter_pred(|fk: ForeignKey| !fk_touches_unsupported(caps, t, fk), j - n);
        assert(!fk_touches_unsupported(caps, t, kept[j - n]));
        assert(kept[j - n].columns.deep_view()[q] == m.fields@[j]->RelationField_0.relation_info.fields.deep_view()[q]);
    }
}

/// No join table leaks into the output: in a snapshot whose table names are
/// distinct, no model named after the application tables, as a run names its
/// models, bears the name of a join table.
pub proof fn lemma_join_tables_are_not_models(schema: SqlSchema, models: Seq<Model>)
    requires
        schema_well_formed(schema),
        models.len() == application_tables(schema).len(),
        forall|p: int| 0 <= p < models.len() ==> (#[trigger] models[p]).name@ == application_tables(schema)[p].name@,
    ensures
        forall|y: int, p: int|
            0 <= y < schema.tables@.len() && spec_is_join_table(#[trigger] schema.tables@[y]) && 0 <= p < models.len()
                ==> (#[trigger] models[p]).name@ != schema.tables@[y].name@,
{
    let pred = |t: Table| spec_is_application_table(t);
    assert forall|y: int, p: int|
        0 <= y < schema.tables@.len() && spec_is_join_table(#[trigger] schema.tables@[y]) && 0 <= p < models.len()
            implies (#[trigger] models[p]).name@ != schema.tables@[y].name@ by {
        let app = application_tables(schema);
        schema.tables@.lemma_filter_pred(pred, p);
        assert(app.contains(app[p]));
        schema.tables@.lemma_filter_contains_rev(pred, app[p]);
        let x = choose|x: int| 0 <= x < schema.tables@.len() && schema.tables@[x] == app[p];
        assert(x != y);
    }
}

} // verus!
