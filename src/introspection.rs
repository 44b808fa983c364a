use vstd::prelude::*;
use crate::builders::copy_strings;
use crate::classify::{is_application_table, is_join_table, spec_is_application_table};
use crate::connector_error::ConnectorError;
use crate::datamodel::{all_relations_bidirectional, has_other_side, is_related, self_join_side, sides_pair, Datamodel, Enum, Field, FieldArity, Model, RelationField, RelationInfo};
use crate::builders::{column_unsupported, scalar_field_matches, spec_column_attributes};
use crate::classify::spec_is_join_table;
use crate::model_builder::{build_model, index_matches, kept_foreign_keys, kept_indices, model_built_from, relation_field_for};
use crate::native_types::{native_type_check, reports};
use crate::native_types::ConnectorCapabilities;
use crate::schema::{ForeignKey, ForeignKeyAction, SqlSchema};

verus! {

/// A structural failure that aborts a whole run.
pub enum IntrospectionError {
    /// A relation points at a table that did not become a model.
    ModelNotFound { name: String },
}

/// The model built by a run, with the native-type failures met on the way.
pub struct IntrospectionResult {
    pub datamodel: Datamodel,
    pub warnings: Vec<ConnectorError>,
}

/// The tables that become models, in schema order.
pub open spec fn application_tables(schema: SqlSchema) -> Seq<crate::schema::Table> {
    schema.tables@.filter(|t: crate::schema::Table| spec_is_application_table(t))
}

/// The index of the model named `name`, if there is one.
pub fn find_model(models: &Vec<Model>, name: &String) -> (r: Option<usize>)
    ensures
        r matches Some(i) ==> i < models@.len() && models@[i as int].name@ == name@,
        r is None ==> forall|i: int| 0 <= i < models@.len() ==> (#[trigger] models@[i]).name@ != name@,
{
    let mut i: usize = 0;
    while i < models.len()
        invariant
            0 <= i <= models@.len(),
            forall|k: int| 0 <= k < i ==> (#[trigger] models@[k]).name@ != name@,
        decreases models@.len() - i,
    {
        if models[i].name == *name {
            return Some(i);
        }
        i = i + 1;
    }
    None
}

/// Whether the model has a field named `name`.
fn has_field_named(m: &Model, name: &String) -> (r: bool)
    ensures
        r == exists|j: int| 0 <= j < m.fields@.len() && (#[trigger] m.fields@[j]).name_view() == name@,
{
    let mut j: usize = 0;
    while j < m.fields.len()
        invariant
            0 <= j <= m.fields@.len(),
            forall|k: int| 0 <= k < j ==> (#[trigger] m.fields@[k]).name_view() != name@,
        decreases m.fields@.len() - j,
    {
        let n = match &m.fields[j] {
            Field::ScalarField(f) => &f.name,
            Field::RelationField(f) => &f.name,
        };
        if *n == *name {
            return true;
        }
        j = j + 1;
    }
    false
}

/// Whether a pending addition to model `target` is named `name`.
fn pending_named(adds: &Vec<(usize, RelationField)>, target: usize, name: &String) -> (r: bool)
    ensures
        r == exists|k: int| 0 <= k < adds@.len() && (#[trigger] adds@[k]).0 == target && adds@[k].1.name@ == name@,
{
    let mut k: usize = 0;
    while k < adds.len()
        invariant
            0 <= k <= adds@.len(),
            forall|q: int| 0 <= q < k ==> !((#[trigger] adds@[q]).0 == target && adds@[q].1.name@ == name@),
        decreases adds@.len() - k,
    {
        if adds[k].0 == target && adds[k].1.name == *name {
            return true;
        }
        k = k + 1;
    }
    false
}

/// Whether model `b` has a field that is the other side of `r`, a field of model `a`.
fn has_related_field(a: &Model, r: &RelationField, b: &Model) -> (res: bool)
    ensures
        res ==> exists|l: int| 0 <= l < b.fields@.len() && is_related(a.name@, *r, b.name@, #[trigger] b.fields@[l]),
{
    let mut l: usize = 0;
    while l < b.fields.len()
        invariant
            0 <= l <= b.fields@.len(),
        decreases b.fields@.len() - l,
    {
        if let Field::RelationField(g) = &b.fields[l] {
            if r.relation_info.to == b.name && g.relation_info.to == a.name
                && g.relation_info.name == r.relation_info.name && (a.name != b.name || g.name != r.name) {
                assert(is_related(a.name@, *r, b.name@, b.fields@[l as int]));
                return true;
            }
        }
        l = l + 1;
    }
    false
}

/// The scalar field `f` of model `m` holds one value per row: it is unique,
/// or it is the model's only id column.
pub open spec fn field_unique_in(m: Model, f: Field) -> bool {
    f is ScalarField && (f->ScalarField_0.is_unique || (f->ScalarField_0.is_id && m.id_fields@.len() == 0))
}

/// A relation is to-one from the side of `m` when its local columns are a
/// single column whose field holds one value per row.
pub open spec fn spec_relation_is_to_one(m: Model, r: RelationField) -> bool {
    &&& r.relation_info.fields@.len() == 1
    &&& exists|j: int|
        0 <= j < m.fields@.len() && (#[trigger] m.fields@[j]).name_view() == r.relation_info.fields@[0]@
            && field_unique_in(m, m.fields@[j])
}

fn relation_is_to_one(m: &Model, r: &RelationField) -> (res: bool)
    ensures
        res == spec_relation_is_to_one(*m, *r),
{
    if r.relation_info.fields.len() != 1 {
        return false;
    }
    let mut j: usize = 0;
    while j < m.fields.len()
        invariant
            0 <= j <= m.fields@.len(),
            r.relation_info.fields@.len() == 1,
            forall|k: int|
                0 <= k < j ==> !((#[trigger] m.fields@[k]).name_view() == r.relation_info.fields@[0]@ && field_unique_in(
                    *m,
                    m.fields@[k],
                )),
        decreases m.fields@.len() - j,
    {
        if let Field::ScalarField(f) = &m.fields[j] {
            if f.name == r.relation_info.fields[0] && (f.is_unique || (f.is_id && m.id_fields.len() == 0)) {
                return true;
            }
        }
        j = j + 1;
    }
    false
}

/// The list field of a many-to-many relation that points, through the join
/// table's key `fk`, at the table that key references. In a self-relation the
/// field name and the relation name both take `_` and the key's column, so
/// that the two sides stay apart.
fn calculate_many_to_many_field(fk: &ForeignKey, relation_name: &String, is_self_relation: bool) -> (r:
    RelationField)
    requires
        fk.columns@.len() >= 1,
    ensures
        r.relation_info.to@ == fk.referenced_table@,
        !is_self_relation ==> r.relation_info.name@ == relation_name@,
        is_self_relation ==> r.relation_info.name@ == relation_name@ + "_"@ + fk.columns@[0]@,
        r.arity == FieldArity::List,
        r.relation_info.fields@.len() == 0,
        !is_self_relation ==> r.name@ == fk.referenced_table@,
        is_self_relation ==> r.name@ == fk.referenced_table@ + "_"@ + fk.columns@[0]@,
{
    let mut name = fk.referenced_table.clone();
    let mut rel = relation_name.clone();
    if is_self_relation {
        name.append("_");
        name.append(fk.columns[0].as_str());
        rel.append("_");
        rel.append(fk.columns[0].as_str());
    }
    RelationField {
        name,
        arity: FieldArity::List,
        relation_info: RelationInfo {
            to: fk.referenced_table.clone(),
            fields: Vec::new(),
            to_fields: copy_strings(&fk.referenced_columns),
            name: rel,
            on_delete: ForeignKeyAction::NoAction,
        },
    }
}

fn copy_enum_values(v: &Vec<String>) -> (r: Vec<String>)
    ensures
        r.deep_view() == v.deep_view(),
{
    copy_strings(v)
}

/// Some application table is named `n`.
pub open spec fn names_application_table(schema: SqlSchema, n: Seq<char>) -> bool {
    exists|q: int|
        0 <= q < application_tables(schema).len() && (#[trigger] application_tables(schema)[q]).name@ == n
}

/// The kept foreign keys of the first `a` application tables, and those of
/// table `a` before field `j` of its model, reference application tables.
pub open spec fn fks_resolve_upto(caps: ConnectorCapabilities, schema: SqlSchema, a: int, j: int) -> bool {
    forall|p: int, k: int|
        0 <= p < application_tables(schema).len() && 0 <= k < kept_foreign_keys(
            caps,
            application_tables(schema)[p],
        ).len() && (p < a || (p == a && application_tables(schema)[p].columns@.len() + k < j))
            ==> names_application_table(
            schema,
            (#[trigger] kept_foreign_keys(caps, application_tables(schema)[p])[k]).referenced_table@,
        )
}

/// Both foreign keys of the join tables among the first `x` tables reference application tables.
pub open spec fn joins_resolve_upto(schema: SqlSchema, x: int) -> bool {
    forall|y: int|
        0 <= y < x && y < schema.tables@.len() && spec_is_join_table(#[trigger] schema.tables@[y]) ==> names_application_table(
            schema,
            schema.tables@[y].foreign_keys@[0].referenced_table@,
        ) && names_application_table(schema, schema.tables@[y].foreign_keys@[1].referenced_table@)
}

/// Every relation target of the run names a model: each kept foreign key of
/// an application table, and each foreign key of a join table, references an
/// application table.
pub open spec fn refs_resolve(caps: ConnectorCapabilities, schema: SqlSchema) -> bool {
    fks_resolve_upto(caps, schema, application_tables(schema).len() as int, 0) && joins_resolve_upto(
        schema,
        schema.tables@.len() as int,
    )
}

/// The failure of every column of `t` whose type fails validation is among `ws`.
pub open spec fn warned(caps: ConnectorCapabilities, t: crate::schema::Table, ws: Seq<ConnectorError>) -> bool {
    forall|c: int|
        0 <= c < t.columns@.len() && column_unsupported(caps, t, #[trigger] t.columns@[c]) ==> exists|w: int|
            0 <= w < ws.len() && reports(
                (#[trigger] ws[w]).kind,
                native_type_check(caps, t.columns@[c], spec_column_attributes(t, t.columns@[c])),
                caps,
                t.columns@[c],
            )
}

/// `m` is the model of table `t` in the run's output: the model that pass one
/// builds for `t`, followed by relation fields that pass two added.
pub open spec fn introspected_model(caps: ConnectorCapabilities, schema: SqlSchema, t: crate::schema::Table, m: Model) -> bool {
    &&& m.name@ == t.name@
    &&& forall|i: int|
        0 <= i < t.columns@.len() ==> (#[trigger] m.fields@[i]) is ScalarField && scalar_field_matches(
            caps,
            t,
            t.columns@[i],
            m.fields@[i]->ScalarField_0,
        )
    &&& m.fields@.len() >= t.columns@.len() + kept_foreign_keys(caps, t).len()
    &&& forall|p: int|
        0 <= p < kept_foreign_keys(caps, t).len() ==> relation_field_for(
            caps,
            schema,
            t,
            p,
            #[trigger] m.fields@[t.columns@.len() + p],
        )
    &&& forall|l: int|
        t.columns@.len() + kept_foreign_keys(caps, t).len() <= l < m.fields@.len() ==> (
        #[trigger] m.fields@[l]) is RelationField
    &&& m.indices@.len() == kept_indices(t).len()
    &&& forall|k: int| 0 <= k < m.indices@.len() ==> index_matches(kept_indices(t)[k], #[trigger] m.indices@[k])
    &&& t.primary_key@.len() > 1 ==> m.id_fields.deep_view() == t.primary_key.deep_view()
    &&& t.primary_key@.len() <= 1 ==> m.id_fields@.len() == 0
}

proof fn lemma_warned_grows(
    caps: ConnectorCapabilities,
    t: crate::schema::Table,
    old_ws: Seq<ConnectorError>,
    ws: Seq<ConnectorError>,
)
    requires
        warned(caps, t, old_ws),
        ws.len() >= old_ws.len(),
        forall|i: int| 0 <= i < old_ws.len() ==> ws[i] == old_ws[i],
    ensures
        warned(caps, t, ws),
{
    assert forall|c: int| 0 <= c < t.columns@.len() && column_unsupported(caps, t, #[trigger] t.columns@[c]) implies exists|w: int|
        0 <= w < ws.len() && reports(
            (#[trigger] ws[w]).kind,
            native_type_check(caps, t.columns@[c], spec_column_attributes(t, t.columns@[c])),
            caps,
            t.columns@[c],
        ) by {
        let w = choose|w: int|
            0 <= w < old_ws.len() && reports(
                (#[trigger] old_ws[w]).kind,
                native_type_check(caps, t.columns@[c], spec_column_attributes(t, t.columns@[c])),
                caps,
                t.columns@[c],
            );
        assert(ws[w] == old_ws[w]);
    }
}

proof fn lemma_built_is_introspected(caps: ConnectorCapabilities, schema: SqlSchema, t: crate::schema::Table, m: Model)
    requires
        model_built_from(caps, schema, t, m),
    ensures
        introspected_model(caps, schema, t, m),
{
}

proof fn lemma_push_keeps_introspected(
    caps: ConnectorCapabilities,
    schema: SqlSchema,
    t: crate::schema::Table,
    m: Model,
    m2: Model,
    f: Field,
)
    requires
        introspected_model(caps, schema, t, m),
        f is RelationField,
        m2.name == m.name,
        m2.indices == m.indices,
        m2.id_fields == m.id_fields,
        m2.fields@ == m.fields@.push(f),
    ensures
        introspected_model(caps, schema, t, m2),
{
    let n = t.columns@.len() as int;
    assert forall|i: int| 0 <= i < n implies (#[trigger] m2.fields@[i]) is ScalarField && scalar_field_matches(
        caps,
        t,
        t.columns@[i],
        m2.fields@[i]->ScalarField_0,
    ) by {
        assert(m2.fields@[i] == m.fields@[i]);
    }
    assert forall|p: int| 0 <= p < kept_foreign_keys(caps, t).len() implies relation_field_for(
        caps,
        schema,
        t,
        p,
        #[trigger] m2.fields@[n + p],
    ) by {
        assert(m2.fields@[n + p] == m.fields@[n + p]);
    }
    assert forall|l: int| n + kept_foreign_keys(caps, t).len() <= l < m2.fields@.len() implies (
    #[trigger] m2.fields@[l]) is RelationField by {
        if l < m.fields@.len() {
            assert(m2.fields@[l] == m.fields@[l]);
        }
    }
}

/// Some pending addition is the other side of `r`, a field of the model named `a`.
pub open spec fn related_pending(d: Seq<Model>, adds: Seq<(usize, RelationField)>, a: Seq<char>, r: RelationField) -> bool {
    exists|q: int|
        0 <= q < adds.len() && (#[trigger] adds[q]).0 < d.len() && is_related(
            a,
            r,
            d[adds[q].0 as int].name@,
            Field::RelationField(adds[q].1),
        )
}

/// The other side of `r` is in the draft or among the pending additions.
pub open spec fn has_partner(d: Seq<Model>, adds: Seq<(usize, RelationField)>, a: Seq<char>, r: RelationField) -> bool {
    has_other_side(d, a, r) || related_pending(d, adds, a, r)
}

/// Every pending addition targets a model of the draft and has its other side.
pub open spec fn adds_partnered(d: Seq<Model>, adds: Seq<(usize, RelationField)>) -> bool {
    forall|q: int|
        0 <= q < adds.len() ==> (#[trigger] adds[q]).0 < d.len() && has_partner(d, adds, d[adds[q].0 as int].name@, adds[q].1)
}

/// The relation fields of the draft before field `j` of model `a` have their other side.
pub open spec fn draft_partnered_upto(d: Seq<Model>, adds: Seq<(usize, RelationField)>, a: int, j: int) -> bool {
    forall|i: int, l: int|
        0 <= i < d.len() && 0 <= l < d[i].fields@.len() && (i < a || (i == a && l < j)) && (
        #[trigger] d[i].fields@[l]) is RelationField ==> has_partner(d, adds, d[i].name@, d[i].fields@[l]->RelationField_0)
}

proof fn lemma_push_keeps_partners(d: Seq<Model>, adds: Seq<(usize, RelationField)>, x: (usize, RelationField))
    ensures
        forall|a: Seq<char>, r: RelationField|
            related_pending(d, adds, a, r) ==> #[trigger] related_pending(d, adds.push(x), a, r),
{
    assert forall|a: Seq<char>, r: RelationField| related_pending(d, adds, a, r) implies #[trigger] related_pending(
        d,
        adds.push(x),
        a,
        r,
    ) by {
        let q = choose|q: int|
            0 <= q < adds.len() && (#[trigger] adds[q]).0 < d.len() && is_related(
                a,
                r,
                d[adds[q].0 as int].name@,
                Field::RelationField(adds[q].1),
            );
        assert(adds.push(x)[q] == adds[q]);
    }
}

proof fn lemma_join_pair_partnered(
    d: Seq<Model>,
    a0: Seq<(usize, RelationField)>,
    sm: usize,
    fa: RelationField,
    fm: usize,
    fb: RelationField,
)
    requires
        sm < d.len(),
        fm < d.len(),
        is_related(d[sm as int].name@, fa, d[fm as int].name@, Field::RelationField(fb)),
        is_related(d[fm as int].name@, fb, d[sm as int].name@, Field::RelationField(fa)),
        adds_partnered(d, a0),
        draft_partnered_upto(d, a0, d.len() as int, 0),
    ensures
        adds_partnered(d, a0.push((sm, fa)).push((fm, fb))),
        draft_partnered_upto(d, a0.push((sm, fa)).push((fm, fb)), d.len() as int, 0),
{
    let a1 = a0.push((sm, fa));
    let a2 = a1.push((fm, fb));
    lemma_push_keeps_partners(d, a0, (sm, fa));
    lemma_push_keeps_partners(d, a1, (fm, fb));
    assert(a2[a0.len() as int] == (sm, fa));
    assert(a2[a0.len() as int + 1] == (fm, fb));
    assert(related_pending(d, a2, d[sm as int].name@, fa));
    assert(related_pending(d, a2, d[fm as int].name@, fb));
    assert forall|q: int| 0 <= q < a2.len() implies (#[trigger] a2[q]).0 < d.len() && has_partner(
        d,
        a2,
        d[a2[q].0 as int].name@,
        a2[q].1,
    ) by {
        if q < a0.len() {
            assert(a2[q] == a0[q]);
            assert(a1[q] == a0[q]);
        }
    }
}

proof fn lemma_draft_step(d: Seq<Model>, adds: Seq<(usize, RelationField)>, a: int, j: int)
    requires
        0 <= a < d.len(),
        0 <= j < d[a].fields@.len(),
        draft_partnered_upto(d, adds, a, j),
        d[a].fields@[j] is RelationField ==> has_partner(d, adds, d[a].name@, d[a].fields@[j]->RelationField_0),
    ensures
        draft_partnered_upto(d, adds, a, j + 1),
{
}

proof fn lemma_back_field_partnered(
    d: Seq<Model>,
    old_adds: Seq<(usize, RelationField)>,
    a: int,
    j: int,
    b: usize,
    back: RelationField,
)
    requires
        0 <= a < d.len(),
        b < d.len(),
        0 <= j < d[a].fields@.len(),
        d[a].fields@[j] is RelationField,
        is_related(d[b as int].name@, back, d[a].name@, d[a].fields@[j]),
        is_related(d[a].name@, d[a].fields@[j]->RelationField_0, d[b as int].name@, Field::RelationField(back)),
        adds_partnered(d, old_adds),
        draft_partnered_upto(d, old_adds, a, j),
    ensures
        adds_partnered(d, old_adds.push((b, back))),
        draft_partnered_upto(d, old_adds.push((b, back)), a, j),
        has_partner(d, old_adds.push((b, back)), d[a].name@, d[a].fields@[j]->RelationField_0),
{
    let x = (b, back);
    let adds = old_adds.push(x);
    lemma_push_keeps_partners(d, old_adds, x);
    assert(has_other_side(d, d[b as int].name@, back));
    assert(adds[old_adds.len() as int] == x);
    assert(related_pending(d, adds, d[a].name@, d[a].fields@[j]->RelationField_0));
    assert forall|q: int| 0 <= q < adds.len() implies (#[trigger] adds[q]).0 < d.len() && has_partner(
        d,
        adds,
        d[adds[q].0 as int].name@,
        adds[q].1,
    ) by {
        if q < old_adds.len() {
            assert(adds[q] == old_adds[q]);
        }
    }
}

/// `g` is the back-relation synthesized for relation field `j` of model `a`:
/// it points back at `a`, shares the relation's name, and is to-one exactly
/// when the relation's local columns hold one value per row of `a`.
pub open spec fn back_field_for(ms: Seq<Model>, a: int, j: int, g: RelationField) -> bool {
    &&& 0 <= a < ms.len()
    &&& 0 <= j < ms[a].fields@.len()
    &&& ms[a].fields@[j] is RelationField
    &&& g.relation_info.to@ == ms[a].name@
    &&& g.relation_info.name@ == ms[a].fields@[j]->RelationField_0.relation_info.name@
    &&& g.relation_info.fields@.len() == 0
    &&& g.relation_info.to_fields@.len() == 0
    &&& g.relation_info.on_delete == ForeignKeyAction::NoAction
    &&& g.arity == (if spec_relation_is_to_one(ms[a], ms[a].fields@[j]->RelationField_0) {
        FieldArity::Optional
    } else {
        FieldArity::List
    })
}

/// `g`, a field of the model named `owner`, is one that pass two adds: the
/// back-relation of a relation field of a model, standing on the model that
/// field targets; or one of the two list fields of a join table, standing
/// on the model that the join table's other key references.
pub open spec fn added_field_origin(schema: SqlSchema, ms: Seq<Model>, owner: Seq<char>, g: RelationField) -> bool {
    ||| exists|a: int, j: int|
        #[trigger] back_field_for(ms, a, j, g) && owner == ms[a].fields@[j]->RelationField_0.relation_info.to@
    ||| exists|y: int|
        0 <= y < schema.tables@.len() && spec_is_join_table(#[trigger] schema.tables@[y]) && ((join_field(
            schema.tables@[y],
            schema.tables@[y].foreign_keys@[0],
            g,
        ) && owner == schema.tables@[y].foreign_keys@[1].referenced_table@) || (join_field(
            schema.tables@[y],
            schema.tables@[y].foreign_keys@[1],
            g,
        ) && owner == schema.tables@[y].foreign_keys@[0].referenced_table@))
}

/// Every pending addition targets a model of `d` and is a field pass two adds.
pub open spec fn adds_have_origin(schema: SqlSchema, d: Seq<Model>, adds: Seq<(usize, RelationField)>) -> bool {
    forall|q: int|
        0 <= q < adds.len() ==> (#[trigger] adds[q]).0 < d.len() && added_field_origin(
            schema,
            d,
            d[adds[q].0 as int].name@,
            adds[q].1,
        )
}

proof fn lemma_origin_push(schema: SqlSchema, d: Seq<Model>, adds: Seq<(usize, RelationField)>, x: (usize, RelationField))
    requires
        adds_have_origin(schema, d, adds),
        x.0 < d.len(),
        added_field_origin(schema, d, d[x.0 as int].name@, x.1),
    ensures
        adds_have_origin(schema, d, adds.push(x)),
{
    assert forall|q: int| 0 <= q < adds.push(x).len() implies (#[trigger] adds.push(x)[q]).0 < d.len()
        && added_field_origin(schema, d, d[adds.push(x)[q].0 as int].name@, adds.push(x)[q].1) by {
        if q < adds.len() {
            assert(adds.push(x)[q] == adds[q]);
        }
    }
}

/// Pass one: the model of each application table, in schema order, each
/// built as `build_model` builds it, and the validation failures met.
fn build_draft(schema: &SqlSchema, caps: &ConnectorCapabilities, warnings: &mut Vec<ConnectorError>) -> (models:
    Vec<Model>)
    requires
        old(warnings)@.len() == 0,
    ensures
        models@.len() == application_tables(*schema).len(),
        forall|p: int|
            0 <= p < models@.len() ==> model_built_from(
                *caps,
                *schema,
                application_tables(*schema)[p],
                #[trigger] models@[p],
            ),
        forall|p: int|
            0 <= p < application_tables(*schema).len() ==> warned(
                *caps,
                #[trigger] application_tables(*schema)[p],
                final(warnings)@,
            ),
{
    let mut models: Vec<Model> = Vec::new();
    let ghost pred = |t: crate::schema::Table| spec_is_application_table(t);
    let ghost s = schema.tables@;
    let mut i: usize = 0;
    while i < schema.tables.len()
        invariant
            0 <= i <= s.len(),
            s == schema.tables@,
            pred == (|t: crate::schema::Table| spec_is_application_table(t)),
            models@.len() == s.take(i as int).filter(pred).len(),
            forall|p: int|
                0 <= p < models@.len() ==> model_built_from(
                    *caps,
                    *schema,
                    s.take(i as int).filter(pred)[p],
                    #[trigger] models@[p],
                ),
            forall|p: int|
                0 <= p < models@.len() ==> warned(*caps, #[trigger] s.take(i as int).filter(pred)[p], warnings@),
        decreases s.len() - i,
    {
        let ghost before = s.take(i as int).filter(pred);
        proof {
            assert(s.take(i as int + 1).drop_last() =~= s.take(i as int));
            assert(s.take(i as int + 1).last() == s[i as int]);
            reveal(Seq::filter);
        }
        let t = &schema.tables[i];
        if is_application_table(t) {
            let ghost old_ws = warnings@;
            let m = build_model(caps, schema, t, warnings);
            models.push(m);
            proof {
                let after = before.push(s[i as int]);
                assert(s.take(i as int + 1).filter(pred) == after);
                assert forall|p: int| 0 <= p < models@.len() implies model_built_from(
                    *caps,
                    *schema,
                    after[p],
                    #[trigger] models@[p],
                ) by {
                    if p < before.len() {
                        assert(after[p] == before[p]);
                    }
                }
                assert forall|p: int| 0 <= p < models@.len() implies warned(*caps, #[trigger] after[p], warnings@) by {
                    if p < before.len() {
                        assert(after[p] == before[p]);
                        lemma_warned_grows(*caps, before[p], old_ws, warnings@);
                    } else {
                        assert(after[p] == *t);
                    }
                }
            }
        } else {
            proof {
                assert(s.take(i as int + 1).filter(pred) == before);
            }
        }
        i = i + 1;
    }
    proof {
        assert(s.take(s.len() as int) =~= s);
    }
    models
}

/// The enums of the snapshot, copied in order.
fn copy_enums(schema: &SqlSchema) -> (enums: Vec<Enum>)
    ensures
        enums@.len() == schema.enums@.len(),
        forall|e: int|
            0 <= e < enums@.len() ==> (#[trigger] enums@[e]).name@ == schema.enums@[e].name@
                && enums@[e].values.deep_view() == schema.enums@[e].values.deep_view(),
{
    let mut enums: Vec<Enum> = Vec::new();
    let mut e: usize = 0;
    while e < schema.enums.len()
        invariant
            0 <= e <= schema.enums@.len(),
            enums@.len() == e,
            forall|q: int|
                0 <= q < e ==> (#[trigger] enums@[q]).name@ == schema.enums@[q].name@
                    && enums@[q].values.deep_view() == schema.enums@[q].values.deep_view(),
        decreases schema.enums@.len() - e,
    {
        enums.push(Enum { name: schema.enums[e].name.clone(), values: copy_enum_values(&schema.enums[e].values) });
        e = e + 1;
    }
    enums
}

/// Pass two, first half: the other side of every relation of the draft that
/// has none yet, as (model index, field) pairs.
fn back_relations(schema: &SqlSchema, caps: &ConnectorCapabilities, models: &Vec<Model>) -> (r: Result<
    Vec<(usize, RelationField)>,
    IntrospectionError,
>)
    requires
        models@.len() == application_tables(*schema).len(),
        forall|p: int|
            0 <= p < models@.len() ==> model_built_from(
                *caps,
                *schema,
                application_tables(*schema)[p],
                #[trigger] models@[p],
            ),
    ensures
        r is Ok <==> fks_resolve_upto(*caps, *schema, models@.len() as int, 0),
        r matches Ok(adds) ==> forall|k: int| 0 <= k < adds@.len() ==> (#[trigger] adds@[k]).0 < models@.len(),
        r matches Ok(adds) ==> adds_partnered(models@, adds@),
        r matches Ok(adds) ==> adds_have_origin(*schema, models@, adds@),
        r matches Ok(adds) ==> draft_partnered_upto(models@, adds@, models@.len() as int, 0),
{
    let ghost app = application_tables(*schema);
    let mut adds: Vec<(usize, RelationField)> = Vec::new();
    let mut a: usize = 0;
    while a < models.len()
        invariant
            0 <= a <= models@.len(),
            app == application_tables(*schema),
            models@.len() == app.len(),
            forall|p: int|
                0 <= p < models@.len() ==> model_built_from(*caps, *schema, app[p], #[trigger] models@[p]),
            forall|k: int| 0 <= k < adds@.len() ==> (#[trigger] adds@[k]).0 < models@.len(),
            fks_resolve_upto(*caps, *schema, a as int, 0),
            adds_partnered(models@, adds@),
            adds_have_origin(*schema, models@, adds@),
            draft_partnered_upto(models@, adds@, a as int, 0),
        decreases models@.len() - a,
    {
        let m = &models[a];
        let ghost t = app[a as int];
        let ghost n = t.columns@.len() as int;
        assert(model_built_from(*caps, *schema, t, models@[a as int]));
        let mut j: usize = 0;
        while j < m.fields.len()
            invariant
                0 <= j <= m.fields@.len(),
                a < models@.len(),
                *m == models@[a as int],
                app == application_tables(*schema),
                models@.len() == app.len(),
                t == app[a as int],
                n == t.columns@.len(),
                model_built_from(*caps, *schema, t, *m),
                forall|p: int|
                    0 <= p < models@.len() ==> model_built_from(*caps, *schema, app[p], #[trigger] models@[p]),
                forall|k: int| 0 <= k < adds@.len() ==> (#[trigger] adds@[k]).0 < models@.len(),
                fks_resolve_upto(*caps, *schema, a as int, j as int),
                adds_partnered(models@, adds@),
                adds_have_origin(*schema, models@, adds@),
                draft_partnered_upto(models@, adds@, a as int, j as int),
            decreases m.fields@.len() - j,
        {
            if let Field::RelationField(rf) = &m.fields[j] {
                let ghost k = j as int - n;
                proof {
                    assert(j as int >= n) by {
                        if (j as int) < n {
                            assert(m.fields@[j as int] is ScalarField);
                        }
                    };
                    assert(m.fields@[n + k] == m.fields@[j as int]);
                    assert(relation_field_for(*caps, *schema, t, k, m.fields@[n + k]));
                }
                let b = match find_model(models, &rf.relation_info.to) {
                    Some(b) => b,
                    None => {
                        proof {
                            let kf = kept_foreign_keys(*caps, t)[k];
                            assert(!names_application_table(*schema, kf.referenced_table@)) by {
                                if names_application_table(*schema, kf.referenced_table@) {
                                    let q = choose|q: int|
                                        0 <= q < app.len() && (#[trigger] app[q]).name@ == kf.referenced_table@;
                                    assert(model_built_from(*caps, *schema, app[q], models@[q]));
                                }
                            };
                            assert(!fks_resolve_upto(*caps, *schema, models@.len() as int, 0));
                        }
                        return Err(IntrospectionError::ModelNotFound { name: rf.relation_info.to.clone() });
                    },
                };
                proof {
                    assert(model_built_from(*caps, *schema, app[b as int], models@[b as int]));
                    assert(names_application_table(*schema, kept_foreign_keys(*caps, t)[k].referenced_table@));
                }
                let other = &models[b];
                proof {
                    assert(rf.name@ == rf.relation_info.to@);
                    assert(other.name@ == rf.relation_info.to@);
                }
                if !has_related_field(m, rf, other) {
                    let mut name = m.name.clone();
                    let collides = has_field_named(other, &name) || pending_named(&adds, b, &name) || name
                        == rf.name;
                    if collides {
                        name.append("_");
                        name.append(rf.relation_info.name.as_str());
                    }
                    proof {
                        reveal_strlit("_");
                        if collides {
                            assert(name@.len() > m.name@.len());
                        }
                    }
                    let arity = if relation_is_to_one(m, rf) {
                        FieldArity::Optional
                    } else {
                        FieldArity::List
                    };
                    let back = RelationField {
                        name,
                        arity,
                        relation_info: RelationInfo {
                            to: m.name.clone(),
                            fields: Vec::new(),
                            to_fields: Vec::new(),
                            name: rf.relation_info.name.clone(),
                            on_delete: ForeignKeyAction::NoAction,
                        },
                    };
                    let ghost old_adds = adds@;
                    adds.push((b, back));
                    proof {
                        assert(m.fields@[j as int] == models@[a as int].fields@[j as int]);
                        lemma_back_field_partnered(models@, old_adds, a as int, j as int, b, back);
                        assert(back_field_for(models@, a as int, j as int, back));
                        lemma_origin_push(*schema, models@, old_adds, (b, back));
                    }
                } else {
                    proof {
                        let l = choose|l: int| 0 <= l < other.fields@.len() && is_related(m.name@, *rf, other.name@, #[trigger] other.fields@[l]);
                        assert(has_other_side(models@, m.name@, *rf));
                    }
                }
                proof {
                    lemma_draft_step(models@, adds@, a as int, j as int);
                }
            } else {
                proof {
                    if j as int >= n {
                        assert(m.fields@[n + (j as int - n)] == m.fields@[j as int]);
                    }
                    lemma_draft_step(models@, adds@, a as int, j as int);
                }
            }
            j = j + 1;
        }
        a = a + 1;
    }
    Ok(adds)
}

/// The two list fields of join table `t`: the one for the model that its
/// second key references, then the one for the model that its first key references.
fn join_pair(t: &crate::schema::Table, models: &Vec<Model>, fm: usize, sm: usize) -> (r: (RelationField, RelationField))
    requires
        spec_is_join_table(*t),
        fm < models@.len(),
        sm < models@.len(),
        models@[fm as int].name@ == t.foreign_keys@[0].referenced_table@,
        models@[sm as int].name@ == t.foreign_keys@[1].referenced_table@,
    ensures
        join_field(*t, t.foreign_keys@[0], r.0),
        join_field(*t, t.foreign_keys@[1], r.1),
        is_related(models@[sm as int].name@, r.0, models@[fm as int].name@, Field::RelationField(r.1)),
        is_related(models@[fm as int].name@, r.1, models@[sm as int].name@, Field::RelationField(r.0)),
        t.foreign_keys@[0].referenced_table@ == t.foreign_keys@[1].referenced_table@ ==> r.0.name@ != r.1.name@
            && r.0.relation_info.name@ != r.1.relation_info.name@,
{
    let f = &t.foreign_keys[0];
    let s = &t.foreign_keys[1];
            let is_self_relation = f.referenced_table == s.referenced_table;
            let n = t.name.as_str();
            let relation_name = n.substring_char(1, n.unicode_len()).to_string();
            let fa = calculate_many_to_many_field(f, &relation_name, is_self_relation);
            let fb = calculate_many_to_many_field(s, &relation_name, is_self_relation);
            proof {
                assert(relation_name@ =~= t.name@.subrange(1, t.name@.len() as int));
                assert(f.columns.deep_view()[0] == f.columns@[0]@);
                assert(s.columns.deep_view()[0] == s.columns@[0]@);
                reveal_strlit("A");
                reveal_strlit("B");
                if is_self_relation {
                    assert(fa.name@.last() == 'A');
                    assert(fb.name@.last() == 'B');
                    assert(fa.relation_info.name@.last() == 'A');
                    assert(fb.relation_info.name@.last() == 'B');
                }
            }
            proof {
                assert(models@[fm as int].name@ == f.referenced_table@);
                assert(models@[sm as int].name@ == s.referenced_table@);
                if is_self_relation {
                    let base = relation_name@;
                    assert(fa.relation_info.name@.drop_last() =~= base + "_"@);
                    assert(fb.relation_info.name@.drop_last() =~= base + "_"@);
                    reveal_strlit("_");
                    assert(fa.relation_info.name@[fa.relation_info.name@.len() - 2] == '_');
                }
                if is_self_relation {
                    let a = f.referenced_table@;
                    assert(fa.name@ =~= a + "_"@ + seq![fa.relation_info.name@.last()]);
                    assert(fb.name@ =~= a + "_"@ + seq![fb.relation_info.name@.last()]);
                    assert(self_join_side(models@[fm as int].name@, fa));
                    assert(self_join_side(models@[fm as int].name@, fb));
                    assert(sides_pair(fb.relation_info.name@, fa.relation_info.name@));
                    assert(sides_pair(fa.relation_info.name@, fb.relation_info.name@));
                }
            }
    (fa, fb)
}

proof fn lemma_join_pending_step(
    schema: SqlSchema,
    d: Seq<Model>,
    a0: Seq<(usize, RelationField)>,
    x: int,
    sm: usize,
    fa: RelationField,
    fm: usize,
    fb: RelationField,
)
    requires
        0 <= x < schema.tables@.len(),
        spec_is_join_table(schema.tables@[x]),
        sm < d.len(),
        fm < d.len(),
        d[fm as int].name@ == schema.tables@[x].foreign_keys@[0].referenced_table@,
        d[sm as int].name@ == schema.tables@[x].foreign_keys@[1].referenced_table@,
        join_field(schema.tables@[x], schema.tables@[x].foreign_keys@[0], fa),
        join_field(schema.tables@[x], schema.tables@[x].foreign_keys@[1], fb),
        schema.tables@[x].foreign_keys@[0].referenced_table@ == schema.tables@[x].foreign_keys@[1].referenced_table@
            ==> fa.name@ != fb.name@ && fa.relation_info.name@ != fb.relation_info.name@,
        forall|y: int|
            0 <= y < x && spec_is_join_table(#[trigger] schema.tables@[y]) ==> join_fields_pending(schema.tables@[y], d, a0),
    ensures
        forall|y: int|
            0 <= y < x + 1 && spec_is_join_table(#[trigger] schema.tables@[y]) ==> join_fields_pending(
                schema.tables@[y],
                d,
                a0.push((sm, fa)).push((fm, fb)),
            ),
{
    let a1 = a0.push((sm, fa));
    let a2 = a1.push((fm, fb));
    assert forall|y: int| 0 <= y < x + 1 && spec_is_join_table(#[trigger] schema.tables@[y]) implies join_fields_pending(
        schema.tables@[y],
        d,
        a2,
    ) by {
        if y < x {
            lemma_join_pending_grows(schema.tables@[y], d, a0, (sm, fa));
            lemma_join_pending_grows(schema.tables@[y], d, a1, (fm, fb));
        } else {
            let t = schema.tables@[x];
            assert(a2[a0.len() as int] == (sm, fa));
            assert(a2[a0.len() as int + 1] == (fm, fb));
            assert(pending_holds(d, a2, t.foreign_keys@[1].referenced_table@, fa));
            assert(pending_holds(d, a2, t.foreign_keys@[0].referenced_table@, fb));
        }
    }
}

/// Pass two, second half: the list fields of each many-to-many join table.
fn join_relations(schema: &SqlSchema, models: &Vec<Model>, adds: &mut Vec<(usize, RelationField)>) -> (r: Result<
    (),
    IntrospectionError,
>)
    requires
        models@.len() == application_tables(*schema).len(),
        forall|p: int|
            0 <= p < models@.len() ==> (#[trigger] models@[p]).name@ == application_tables(*schema)[p].name@,
        forall|k: int| 0 <= k < old(adds)@.len() ==> (#[trigger] old(adds)@[k]).0 < models@.len(),
        adds_partnered(models@, old(adds)@),
        adds_have_origin(*schema, models@, old(adds)@),
        draft_partnered_upto(models@, old(adds)@, models@.len() as int, 0),
    ensures
        r is Ok ==> adds_have_origin(*schema, models@, final(adds)@),
        r is Ok ==> adds_partnered(models@, final(adds)@),
        r is Ok ==> draft_partnered_upto(models@, final(adds)@, models@.len() as int, 0),
        r is Ok <==> joins_resolve_upto(*schema, schema.tables@.len() as int),
        forall|k: int| 0 <= k < final(adds)@.len() ==> (#[trigger] final(adds)@[k]).0 < models@.len(),
        r is Ok ==> forall|y: int|
            0 <= y < schema.tables@.len() && spec_is_join_table(#[trigger] schema.tables@[y]) ==> join_fields_pending(
                schema.tables@[y],
                models@,
                final(adds)@,
            ),
{
    let ghost app = application_tables(*schema);
    let mut x: usize = 0;
    while x < schema.tables.len()
        invariant
            0 <= x <= schema.tables@.len(),
            app == application_tables(*schema),
            models@.len() == app.len(),
            forall|p: int| 0 <= p < models@.len() ==> (#[trigger] models@[p]).name@ == app[p].name@,
            forall|k: int| 0 <= k < adds@.len() ==> (#[trigger] adds@[k]).0 < models@.len(),
            joins_resolve_upto(*schema, x as int),
            adds_partnered(models@, adds@),
            adds_have_origin(*schema, models@, adds@),
            draft_partnered_upto(models@, adds@, models@.len() as int, 0),
            forall|y: int|
                0 <= y < x && spec_is_join_table(#[trigger] schema.tables@[y]) ==> join_fields_pending(
                    schema.tables@[y],
                    models@,
                    adds@,
                ),
        decreases schema.tables@.len() - x,
    {
        let t = &schema.tables[x];
        if is_join_table(t) {
            let f = &t.foreign_keys[0];
            let s = &t.foreign_keys[1];
            let fm = match find_model(models, &f.referenced_table) {
                Some(k) => k,
                None => {
                    proof {
                        assert(!names_application_table(*schema, f.referenced_table@)) by {
                            if names_application_table(*schema, f.referenced_table@) {
                                let q = choose|q: int| 0 <= q < app.len() && (#[trigger] app[q]).name@ == f.referenced_table@;
                                assert(models@[q].name@ == app[q].name@);
                            }
                        };
                        assert(!joins_resolve_upto(*schema, schema.tables@.len() as int));
                    }
                    return Err(IntrospectionError::ModelNotFound { name: f.referenced_table.clone() });
                },
            };
            let sm = match find_model(models, &s.referenced_table) {
                Some(k) => k,
                None => {
                    proof {
                        assert(!names_application_table(*schema, s.referenced_table@)) by {
                            if names_application_table(*schema, s.referenced_table@) {
                                let q = choose|q: int| 0 <= q < app.len() && (#[trigger] app[q]).name@ == s.referenced_table@;
                                assert(models@[q].name@ == app[q].name@);
                            }
                        };
                        assert(!joins_resolve_upto(*schema, schema.tables@.len() as int));
                    }
                    return Err(IntrospectionError::ModelNotFound { name: s.referenced_table.clone() });
                },
            };
            proof {
                assert(models@[fm as int].name@ == app[fm as int].name@);
                assert(models@[sm as int].name@ == app[sm as int].name@);
                assert(names_application_table(*schema, f.referenced_table@));
                assert(names_application_table(*schema, s.referenced_table@));
            }
            let (fa, fb) = join_pair(t, models, fm, sm);
            let ghost a0 = adds@;
            adds.push((sm, fa));
            let ghost a1 = adds@;
            adds.push((fm, fb));
            proof {
                lemma_join_pair_partnered(models@, a0, sm, fa, fm, fb);
                lemma_join_pending_step(*schema, models@, a0, x as int, sm, fa, fm, fb);
                assert(added_field_origin(*schema, models@, models@[sm as int].name@, fa));
                lemma_origin_push(*schema, models@, a0, (sm, fa));
                assert(added_field_origin(*schema, models@, models@[fm as int].name@, fb));
                lemma_origin_push(*schema, models@, a1, (fm, fb));
            }
        }
        x = x + 1;
    }
    Ok(())
}

/// The pending field `x` stands on the model it is meant for.
pub open spec fn placed(ms: Seq<Model>, x: (usize, RelationField)) -> bool {
    exists|l: int|
        0 <= l < ms[x.0 as int].fields@.len() && #[trigger] ms[x.0 as int].fields@[l] == Field::RelationField(x.1)
}

proof fn lemma_update_keeps_placed(ms: Seq<Model>, target: int, m: Model, f: Field, x: (usize, RelationField))
    requires
        0 <= target < ms.len(),
        x.0 < ms.len(),
        placed(ms, x),
        m.fields@ == ms[target].fields@.push(f),
    ensures
        placed(ms.update(target, m), x),
{
    let l = choose|l: int|
        0 <= l < ms[x.0 as int].fields@.len() && #[trigger] ms[x.0 as int].fields@[l] == Field::RelationField(x.1);
    if x.0 as int == target {
        assert(ms.update(target, m)[x.0 as int].fields@[l] == ms[x.0 as int].fields@[l]);
    } else {
        assert(ms.update(target, m)[x.0 as int] == ms[x.0 as int]);
    }
}

proof fn lemma_pending_present(
    t: crate::schema::Table,
    ms0: Seq<Model>,
    adds: Seq<(usize, RelationField)>,
    ms1: Seq<Model>,
)
    requires
        join_fields_pending(t, ms0, adds),
        ms1.len() == ms0.len(),
        forall|p: int| 0 <= p < ms0.len() ==> (#[trigger] ms1[p]).name == ms0[p].name,
        forall|q: int| 0 <= q < adds.len() ==> placed(ms1, #[trigger] adds[q]),
    ensures
        join_fields_present(t, ms1),
{
    let f = t.foreign_keys@[0];
    let s = t.foreign_keys@[1];
    let (a, b) = choose|a: RelationField, b: RelationField|
        join_field(t, f, a) && join_field(t, s, b) && #[trigger] pending_holds(ms0, adds, s.referenced_table@, a)
            && #[trigger] pending_holds(ms0, adds, f.referenced_table@, b) && (f.referenced_table@ == s.referenced_table@
            ==> a.name@ != b.name@ && a.relation_info.name@ != b.relation_info.name@);
    let qa = choose|q: int|
        0 <= q < adds.len() && (#[trigger] adds[q]).1 == a && adds[q].0 < ms0.len() && ms0[adds[q].0 as int].name@
            == s.referenced_table@;
    let qb = choose|q: int|
        0 <= q < adds.len() && (#[trigger] adds[q]).1 == b && adds[q].0 < ms0.len() && ms0[adds[q].0 as int].name@
            == f.referenced_table@;
    assert(placed(ms1, adds[qa]));
    assert(placed(ms1, adds[qb]));
    let pa = adds[qa].0 as int;
    let pb = adds[qb].0 as int;
    assert(ms1[pa].name == ms0[pa].name);
    assert(ms1[pb].name == ms0[pb].name);
    let la = choose|l: int| 0 <= l < ms1[pa].fields@.len() && #[trigger] ms1[pa].fields@[l] == Field::RelationField(a);
    let lb = choose|l: int| 0 <= l < ms1[pb].fields@.len() && #[trigger] ms1[pb].fields@[l] == Field::RelationField(b);
    assert(holds_field(ms1, s.referenced_table@, a));
    assert(holds_field(ms1, f.referenced_table@, b));
}

/// Each model of `ms` starts with the fields of the same model of `d`.
pub open spec fn keeps_draft(d: Seq<Model>, ms: Seq<Model>) -> bool {
    &&& ms.len() == d.len()
    &&& forall|p: int|
        0 <= p < d.len() ==> (#[trigger] ms[p]).fields@.len() >= d[p].fields@.len() && forall|l: int|
            0 <= l < d[p].fields@.len() ==> ms[p].fields@[l] == #[trigger] d[p].fields@[l]
}

/// Every field of `ms` past the draft's is one of the first `c` additions, on its target.
pub open spec fn extras_from(d: Seq<Model>, ms: Seq<Model>, all: Seq<(usize, RelationField)>, c: int) -> bool {
    forall|p: int, l: int|
        #![trigger ms[p].fields@[l]]
        0 <= p < d.len() && d[p].fields@.len() <= l < ms[p].fields@.len() ==> exists|q: int|
            #![trigger all[q]]
            0 <= q < c && all[q].0 == p && ms[p].fields@[l] == Field::RelationField(all[q].1)
}

proof fn lemma_apply_step(
    d: Seq<Model>,
    ms: Seq<Model>,
    all: Seq<(usize, RelationField)>,
    c: int,
    target: int,
    m: Model,
)
    requires
        0 <= c < all.len(),
        all[c].0 == target,
        0 <= target < ms.len(),
        keeps_draft(d, ms),
        extras_from(d, ms, all, c),
        m.fields@ == ms[target].fields@.push(Field::RelationField(all[c].1)),
    ensures
        keeps_draft(d, ms.update(target, m)),
        extras_from(d, ms.update(target, m), all, c + 1),
{
    let ms2 = ms.update(target, m);
    assert forall|p: int| 0 <= p < d.len() implies (#[trigger] ms2[p]).fields@.len() >= d[p].fields@.len() && forall|l: int|
        0 <= l < d[p].fields@.len() ==> ms2[p].fields@[l] == #[trigger] d[p].fields@[l] by {
        assert forall|l: int| 0 <= l < d[p].fields@.len() implies ms2[p].fields@[l] == #[trigger] d[p].fields@[l] by {
            assert(ms[p].fields@[l] == d[p].fields@[l]);
        }
    }
    assert forall|p: int, l: int|
        #![trigger ms2[p].fields@[l]]
        0 <= p < d.len() && d[p].fields@.len() <= l < ms2[p].fields@.len() implies exists|q: int|
        #![trigger all[q]]
        0 <= q < c + 1 && all[q].0 == p && ms2[p].fields@[l] == Field::RelationField(all[q].1) by {
        if p == target && l == ms[p].fields@.len() {
            assert(all[c].0 == p);
        } else {
            assert(ms2[p].fields@[l] == ms[p].fields@[l]);
            assert(ms[p].fields@[l] == ms[p].fields@[l]);
            let q = choose|q: int| #![trigger all[q]] 0 <= q < c && all[q].0 == p && ms[p].fields@[l] == Field::RelationField(all[q].1);
            assert(all[q].0 == p);
        }
    }
}

proof fn lemma_partner_placed(d: Seq<Model>, all: Seq<(usize, RelationField)>, ms: Seq<Model>, a: Seq<char>, r: RelationField)
    requires
        has_partner(d, all, a, r),
        keeps_draft(d, ms),
        forall|p: int| 0 <= p < d.len() ==> (#[trigger] ms[p]).name == d[p].name,
        forall|q: int| 0 <= q < all.len() ==> placed(ms, #[trigger] all[q]),
    ensures
        has_other_side(ms, a, r),
{
    if has_other_side(d, a, r) {
        let (k, l) = choose|k: int, l: int|
            0 <= k < d.len() && 0 <= l < d[k].fields@.len() && is_related(a, r, d[k].name@, #[trigger] d[k].fields@[l]);
        assert(ms[k].fields@[l] == d[k].fields@[l]);
        assert(ms[k].name == d[k].name);
        assert(is_related(a, r, ms[k].name@, ms[k].fields@[l]));
    } else {
        let q = choose|q: int|
            0 <= q < all.len() && (#[trigger] all[q]).0 < d.len() && is_related(
                a,
                r,
                d[all[q].0 as int].name@,
                Field::RelationField(all[q].1),
            );
        let k = all[q].0 as int;
        assert(placed(ms, all[q]));
        let l = choose|l: int| 0 <= l < ms[k].fields@.len() && #[trigger] ms[k].fields@[l] == Field::RelationField(all[q].1);
        assert(ms[k].name == d[k].name);
        assert(is_related(a, r, ms[k].name@, ms[k].fields@[l]));
    }
}

proof fn lemma_partners_placed(d: Seq<Model>, all: Seq<(usize, RelationField)>, ms: Seq<Model>)
    requires
        adds_partnered(d, all),
        draft_partnered_upto(d, all, d.len() as int, 0),
        keeps_draft(d, ms),
        forall|p: int| 0 <= p < d.len() ==> (#[trigger] ms[p]).name == d[p].name,
        forall|q: int| 0 <= q < all.len() ==> placed(ms, #[trigger] all[q]),
        extras_from(d, ms, all, all.len() as int),
    ensures
        all_relations_bidirectional(ms),
{
    assert forall|i: int, j: int|
        0 <= i < ms.len() && 0 <= j < ms[i].fields@.len() && (#[trigger] ms[i].fields@[j]) is RelationField implies has_other_side(
        ms,
        ms[i].name@,
        ms[i].fields@[j]->RelationField_0,
    ) by {
        assert(ms[i].name == d[i].name);
        if j < d[i].fields@.len() {
            assert(ms[i].fields@[j] == d[i].fields@[j]);
            lemma_partner_placed(d, all, ms, d[i].name@, d[i].fields@[j]->RelationField_0);
        } else {
            let q = choose|q: int| #![trigger all[q]] 0 <= q < all.len() && all[q].0 == i && ms[i].fields@[j] == Field::RelationField(all[q].1);
            assert(all[q].0 < d.len());
            lemma_partner_placed(d, all, ms, d[i].name@, all[q].1);
        }
    }
}

proof fn lemma_to_one_same(d: Model, m: Model, r: RelationField)
    requires
        m.id_fields == d.id_fields,
        m.fields@.len() >= d.fields@.len(),
        forall|l: int| 0 <= l < d.fields@.len() ==> m.fields@[l] == #[trigger] d.fields@[l],
        forall|l: int| d.fields@.len() <= l < m.fields@.len() ==> (#[trigger] m.fields@[l]) is RelationField,
    ensures
        spec_relation_is_to_one(m, r) == spec_relation_is_to_one(d, r),
{
    if spec_relation_is_to_one(d, r) {
        let j = choose|j: int|
            0 <= j < d.fields@.len() && (#[trigger] d.fields@[j]).name_view() == r.relation_info.fields@[0]@
                && field_unique_in(d, d.fields@[j]);
        assert(m.fields@[j] == d.fields@[j]);
    }
    if spec_relation_is_to_one(m, r) {
        let j = choose|j: int|
            0 <= j < m.fields@.len() && (#[trigger] m.fields@[j]).name_view() == r.relation_info.fields@[0]@
                && field_unique_in(m, m.fields@[j]);
        if j < d.fields@.len() {
            assert(m.fields@[j] == d.fields@[j]);
        } else {
            assert(m.fields@[j] is RelationField);
        }
    }
}

proof fn lemma_origin_transfer(schema: SqlSchema, d: Seq<Model>, ms: Seq<Model>, all: Seq<(usize, RelationField)>, owner: Seq<char>, g: RelationField)
    requires
        added_field_origin(schema, d, owner, g),
        keeps_draft(d, ms),
        forall|p: int| 0 <= p < d.len() ==> (#[trigger] ms[p]).name == d[p].name,
        forall|p: int| 0 <= p < d.len() ==> (#[trigger] ms[p]).id_fields == d[p].id_fields,
        extras_from(d, ms, all, all.len() as int),
    ensures
        added_field_origin(schema, ms, owner, g),
{
    if exists|a: int, j: int| #[trigger] back_field_for(d, a, j, g) && owner == d[a].fields@[j]->RelationField_0.relation_info.to@ {
        let (a, j) = choose|a: int, j: int|
            #[trigger] back_field_for(d, a, j, g) && owner == d[a].fields@[j]->RelationField_0.relation_info.to@;
        assert(ms[a].fields@[j] == d[a].fields@[j]);
        assert(ms[a].name == d[a].name);
        assert forall|l: int| d[a].fields@.len() <= l < ms[a].fields@.len() implies (#[trigger] ms[a].fields@[l]) is RelationField by {
            let q = choose|q: int| #![trigger all[q]] 0 <= q < all.len() && all[q].0 == a && ms[a].fields@[l] == Field::RelationField(all[q].1);
        }
        assert forall|l: int| 0 <= l < d[a].fields@.len() implies ms[a].fields@[l] == #[trigger] d[a].fields@[l] by {}
        lemma_to_one_same(d[a], ms[a], d[a].fields@[j]->RelationField_0);
        assert(back_field_for(ms, a, j, g));
    }
}

proof fn lemma_tail_origin(
    schema: SqlSchema,
    caps: ConnectorCapabilities,
    ms0: Seq<Model>,
    all: Seq<(usize, RelationField)>,
    ms: Seq<Model>,
)
    requires
        ms0.len() == application_tables(schema).len(),
        forall|p: int|
            0 <= p < ms0.len() ==> model_built_from(caps, schema, application_tables(schema)[p], #[trigger] ms0[p]),
        adds_have_origin(schema, ms0, all),
        keeps_draft(ms0, ms),
        forall|p: int| 0 <= p < ms0.len() ==> (#[trigger] ms[p]).name == ms0[p].name,
        forall|p: int| 0 <= p < ms0.len() ==> (#[trigger] ms[p]).id_fields == ms0[p].id_fields,
        extras_from(ms0, ms, all, all.len() as int),
    ensures
        forall|p: int, l: int|
            0 <= p < ms.len() && application_tables(schema)[p].columns@.len() + kept_foreign_keys(
                caps,
                application_tables(schema)[p],
            ).len() <= l < ms[p].fields@.len() ==> (#[trigger] ms[p].fields@[l]) is RelationField
                && added_field_origin(schema, ms, ms[p].name@, ms[p].fields@[l]->RelationField_0),
{
        assert forall|p: int, l: int|
            0 <= p < ms.len() && application_tables(schema)[p].columns@.len() + kept_foreign_keys(
                caps,
                application_tables(schema)[p],
            ).len() <= l < ms[p].fields@.len() implies (#[trigger] ms[p].fields@[l]) is RelationField
            && added_field_origin(schema, ms, ms[p].name@, ms[p].fields@[l]->RelationField_0) by {
            assert(model_built_from(caps, schema, application_tables(schema)[p], ms0[p]));
            let q = choose|q: int| #![trigger all[q]] 0 <= q < all.len() && all[q].0 == p && ms[p].fields@[l] == Field::RelationField(all[q].1);
            assert(adds_have_origin(schema, ms0, all));
            assert(all[q].0 < ms0.len());
            assert(ms[p].name == ms0[p].name);
            lemma_origin_transfer(schema, ms0, ms, all, ms0[p].name@, all[q].1);
        }
}

/// Appends each pending field to the model it is meant for, in order.
fn apply_additions(
    schema: &SqlSchema,
    caps: &ConnectorCapabilities,
    models: &mut Vec<Model>,
    adds: Vec<(usize, RelationField)>,
)
    requires
        old(models)@.len() == application_tables(*schema).len(),
        forall|p: int|
            0 <= p < old(models)@.len() ==> introspected_model(
                *caps,
                *schema,
                application_tables(*schema)[p],
                #[trigger] old(models)@[p],
            ),
        forall|k: int| 0 <= k < adds@.len() ==> (#[trigger] adds@[k]).0 < old(models)@.len(),
    ensures
        forall|p: int| 0 <= p < old(models)@.len() ==> (#[trigger] final(models)@[p]).name == old(models)@[p].name,
        forall|p: int| 0 <= p < old(models)@.len() ==> (#[trigger] final(models)@[p]).id_fields == old(models)@[p].id_fields,
        final(models)@.len() == application_tables(*schema).len(),
        forall|p: int|
            0 <= p < final(models)@.len() ==> introspected_model(
                *caps,
                *schema,
                application_tables(*schema)[p],
                #[trigger] final(models)@[p],
            ),
        forall|q: int| 0 <= q < adds@.len() ==> placed(final(models)@, #[trigger] adds@[q]),
        keeps_draft(old(models)@, final(models)@),
        extras_from(old(models)@, final(models)@, adds@, adds@.len() as int),
{
    let ghost all = adds@;
    let ghost c: int = 0;
    let mut adds = adds;
    while adds.len() > 0
        invariant
            0 <= c <= all.len(),
            adds@ == all.skip(c),
            forall|k: int| 0 <= k < all.len() ==> (#[trigger] all[k]).0 < models@.len(),
            forall|q: int| 0 <= q < c ==> placed(models@, #[trigger] all[q]),
            keeps_draft(old(models)@, models@),
            extras_from(old(models)@, models@, all, c),
            models@.len() == old(models)@.len(),
            forall|p: int| 0 <= p < old(models)@.len() ==> (#[trigger] models@[p]).name == old(models)@[p].name,
            forall|p: int| 0 <= p < old(models)@.len() ==> (#[trigger] models@[p]).id_fields == old(models)@[p].id_fields,
            models@.len() == application_tables(*schema).len(),
            forall|p: int|
                0 <= p < models@.len() ==> introspected_model(
                    *caps,
                    *schema,
                    application_tables(*schema)[p],
                    #[trigger] models@[p],
                ),
        decreases adds@.len(),
    {
        let ghost old_adds = adds@;
        let (target, field) = adds.remove(0);
        proof {
            assert(old_adds[0] == all[c]);
            assert(all[c].0 == target);
        }
        let ghost old_models = models@;
        let mut m = models.remove(target);
        let ghost m0 = m;
        let f = Field::RelationField(field);
        m.fields.push(f);
        proof {
            lemma_push_keeps_introspected(*caps, *schema, application_tables(*schema)[target as int], m0, m, f);
            lemma_apply_step(old(models)@, old_models, all, c, target as int, m);
        }
        models.insert(target, m);
        proof {
            assert(models@ =~= old_models.update(target as int, m));
            assert forall|q: int| 0 <= q < c + 1 implies placed(models@, #[trigger] all[q]) by {
                if q < c {
                    lemma_update_keeps_placed(old_models, target as int, m, f, all[q]);
                } else {
                    assert(models@[target as int].fields@[m.fields@.len() - 1] == f);
                }
            }
            assert(adds@ =~= all.skip(c + 1));
            c = c + 1;
        }
    }
    assert(c == all.len()) by {
        if c < all.len() {
            assert(all.skip(c).len() > 0);
        }
    };
}

/// The relation name of the list field that join table `t` gives through its key `fk`:
/// the table's name without its leading marker, followed by `_` and the key's
/// column when both keys reference the same table.
pub open spec fn join_relation_name(t: crate::schema::Table, fk: ForeignKey) -> Seq<char> {
    let base = t.name@.subrange(1, t.name@.len() as int);
    if t.foreign_keys@[0].referenced_table@ == t.foreign_keys@[1].referenced_table@ {
        base + "_"@ + fk.columns@[0]@
    } else {
        base
    }
}

/// `f` is the list field that join table `t` gives through its key `via`,
/// pointing at the table that key references.
pub open spec fn join_field(t: crate::schema::Table, via: ForeignKey, f: RelationField) -> bool {
    &&& f.arity == FieldArity::List
    &&& f.name@ == (if t.foreign_keys@[0].referenced_table@ == t.foreign_keys@[1].referenced_table@ {
        via.referenced_table@ + "_"@ + via.columns@[0]@
    } else {
        via.referenced_table@
    })
    &&& f.relation_info.to@ == via.referenced_table@
    &&& f.relation_info.name@ == join_relation_name(t, via)
}

/// Model `ms[p]`, named `owner`, holds field `f` at some position.
pub open spec fn holds_field(ms: Seq<Model>, owner: Seq<char>, f: RelationField) -> bool {
    exists|p: int, l: int|
        0 <= p < ms.len() && ms[p].name@ == owner && 0 <= l < ms[p].fields@.len() && (#[trigger] ms[p].fields@[l])
            == Field::RelationField(f)
}

/// The two list fields of join table `t` stand on the two models it links.
pub open spec fn join_fields_present(t: crate::schema::Table, ms: Seq<Model>) -> bool {
    let f = t.foreign_keys@[0];
    let s = t.foreign_keys@[1];
    exists|a: RelationField, b: RelationField|
        join_field(t, f, a) && join_field(t, s, b) && #[trigger] holds_field(ms, s.referenced_table@, a)
            && #[trigger] holds_field(ms, f.referenced_table@, b) && (f.referenced_table@ == s.referenced_table@
            ==> a.name@ != b.name@ && a.relation_info.name@ != b.relation_info.name@)
}

/// Some pending addition is `f`, meant for a model named `owner`.
pub open spec fn pending_holds(ms: Seq<Model>, adds: Seq<(usize, RelationField)>, owner: Seq<char>, f: RelationField) -> bool {
    exists|q: int| 0 <= q < adds.len() && (#[trigger] adds[q]).1 == f && adds[q].0 < ms.len() && ms[adds[q].0 as int].name@ == owner
}

/// The two list fields of join table `t` are among the pending additions.
pub open spec fn join_fields_pending(t: crate::schema::Table, ms: Seq<Model>, adds: Seq<(usize, RelationField)>) -> bool {
    let f = t.foreign_keys@[0];
    let s = t.foreign_keys@[1];
    exists|a: RelationField, b: RelationField|
        join_field(t, f, a) && join_field(t, s, b) && #[trigger] pending_holds(ms, adds, s.referenced_table@, a)
            && #[trigger] pending_holds(ms, adds, f.referenced_table@, b) && (f.referenced_table@ == s.referenced_table@
            ==> a.name@ != b.name@ && a.relation_info.name@ != b.relation_info.name@)
}

proof fn lemma_pending_grows(ms: Seq<Model>, adds: Seq<(usize, RelationField)>, x: (usize, RelationField))
    ensures
        forall|o: Seq<char>, f: RelationField| pending_holds(ms, adds, o, f) ==> #[trigger] pending_holds(ms, adds.push(x), o, f),
{
    assert forall|o: Seq<char>, f: RelationField| pending_holds(ms, adds, o, f) implies #[trigger] pending_holds(ms, adds.push(x), o, f) by {
        let q = choose|q: int| 0 <= q < adds.len() && (#[trigger] adds[q]).1 == f && adds[q].0 < ms.len() && ms[adds[q].0 as int].name@ == o;
        assert(adds.push(x)[q] == adds[q]);
    }
}

proof fn lemma_join_pending_grows(t: crate::schema::Table, ms: Seq<Model>, adds: Seq<(usize, RelationField)>, x: (usize, RelationField))
    requires
        join_fields_pending(t, ms, adds),
    ensures
        join_fields_pending(t, ms, adds.push(x)),
{
    lemma_pending_grows(ms, adds, x);
    let f = t.foreign_keys@[0];
    let s = t.foreign_keys@[1];
    let (a, b) = choose|a: RelationField, b: RelationField|
        join_field(t, f, a) && join_field(t, s, b) && #[trigger] pending_holds(ms, adds, s.referenced_table@, a)
            && #[trigger] pending_holds(ms, adds, f.referenced_table@, b) && (f.referenced_table@ == s.referenced_table@
            ==> a.name@ != b.name@ && a.relation_info.name@ != b.relation_info.name@);
    assert(pending_holds(ms, adds.push(x), s.referenced_table@, a));
    assert(pending_holds(ms, adds.push(x), f.referenced_table@, b));
}

/// Reconstructs the logical data model of a schema snapshot: a model for each
/// application table, in schema order; the enums as they are; then, on the
/// finished draft, the other side of every relation that lacks one, and the
/// list fields of each many-to-many join table. The run fails exactly when a
/// relation points at a table that is no model.
pub fn introspect(schema: &SqlSchema, caps: &ConnectorCapabilities) -> (r: Result<
    IntrospectionResult,
    IntrospectionError,
>)
    ensures
        r is Ok <==> refs_resolve(*caps, *schema),
        r matches Ok(res) ==> {
            &&& res.datamodel.models@.len() == application_tables(*schema).len()
            &&& forall|p: int|
                0 <= p < res.datamodel.models@.len() ==> introspected_model(
                    *caps,
                    *schema,
                    application_tables(*schema)[p],
                    #[trigger] res.datamodel.models@[p],
                )
            &&& res.datamodel.enums@.len() == schema.enums@.len()
            &&& forall|e: int|
                0 <= e < schema.enums@.len() ==> (#[trigger] res.datamodel.enums@[e]).name@ == schema.enums@[e].name@
                    && res.datamodel.enums@[e].values.deep_view() == schema.enums@[e].values.deep_view()
            &&& forall|p: int|
                0 <= p < application_tables(*schema).len() ==> warned(
                    *caps,
                    #[trigger] application_tables(*schema)[p],
                    res.warnings@,
                )
            &&& all_relations_bidirectional(res.datamodel.models@)
            &&& forall|p: int, l: int|
                0 <= p < res.datamodel.models@.len() && application_tables(*schema)[p].columns@.len() + kept_foreign_keys(
                    *caps,
                    application_tables(*schema)[p],
                ).len() <= l < res.datamodel.models@[p].fields@.len() ==> (
                #[trigger] res.datamodel.models@[p].fields@[l]) is RelationField && added_field_origin(
                    *schema,
                    res.datamodel.models@,
                    res.datamodel.models@[p].name@,
                    res.datamodel.models@[p].fields@[l]->RelationField_0,
                )
            &&& forall|y: int|
                0 <= y < schema.tables@.len() && spec_is_join_table(#[trigger] schema.tables@[y]) ==> join_fields_present(
                    schema.tables@[y],
                    res.datamodel.models@,
                )
        },
{
    let mut warnings: Vec<ConnectorError> = Vec::new();
    let mut models = build_draft(schema, caps, &mut warnings);
    let enums = copy_enums(schema);
    let mut adds = match back_relations(schema, caps, &models) {
        Ok(adds) => adds,
        Err(e) => {
            return Err(e);
        },
    };
    proof {
        assert forall|p: int| 0 <= p < models@.len() implies (#[trigger] models@[p]).name@ == application_tables(
            *schema,
        )[p].name@ by {
            assert(model_built_from(*caps, *schema, application_tables(*schema)[p], models@[p]));
        }
    }
    match join_relations(schema, &models, &mut adds) {
        Ok(()) => {},
        Err(e) => {
            return Err(e);
        },
    }
    proof {
        assert forall|p: int| 0 <= p < models@.len() implies introspected_model(
            *caps,
            *schema,
            application_tables(*schema)[p],
            #[trigger] models@[p],
        ) by {
            lemma_built_is_introspected(*caps, *schema, application_tables(*schema)[p], models@[p]);
        }
    }
    let ghost ms0 = models@;
    let ghost all = adds@;
    apply_additions(schema, caps, &mut models, adds);
    proof {
        assert forall|y: int|
            0 <= y < schema.tables@.len() && spec_is_join_table(#[trigger] schema.tables@[y]) implies join_fields_present(
            schema.tables@[y],
            models@,
        ) by {
            lemma_pending_present(schema.tables@[y], ms0, all, models@);
        }
        lemma_partners_placed(ms0, all, models@);
        lemma_tail_origin(*schema, *caps, ms0, all, models@);
    }
    Ok(IntrospectionResult { datamodel: Datamodel { models, enums }, warnings })
}

} // verus!
