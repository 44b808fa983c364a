use vstd::prelude::*;
use crate::dedup::dedup_fks;
use crate::schema::{ForeignKey, SqlSchema, Table};

verus! {

/// The names joined with `_` between them.
pub open spec fn join_underscore(s: Seq<Seq<char>>) -> Seq<char>
    decreases s.len(),
{
    if s.len() == 0 {
        Seq::empty()
    } else if s.len() == 1 {
        s[0]
    } else {
        join_underscore(s.drop_last()) + "_"@ + s.last()
    }
}

/// How many of the foreign keys reference the table named `r`.
pub open spec fn count_refs(s: Seq<ForeignKey>, r: Seq<char>) -> nat
    decreases s.len(),
{
    if s.len() == 0 {
        0
    } else {
        count_refs(s.drop_last(), r) + if s.last().referenced_table@ == r { 1nat } else { 0nat }
    }
}

/// Whether a table named `from` has a foreign key referencing the table named `to`.
pub open spec fn references_back(schema: SqlSchema, from: Seq<char>, to: Seq<char>) -> bool {
    exists|i: int, j: int|
        0 <= i < schema.tables@.len() && (#[trigger] schema.tables@[i]).name@ == from && 0 <= j
            < schema.tables@[i].foreign_keys@.len()
            && (#[trigger] schema.tables@[i].foreign_keys@[j]).referenced_table@ == to
}

/// The relation name of a foreign key of table `t`: `<table>To<referenced>`,
/// followed by `_` and the key's columns when the pair of tables is linked by
/// more than this one key. Keys are counted after duplicates are removed.
pub open spec fn spec_relation_name(schema: SqlSchema, t: Table, fk: ForeignKey) -> Seq<char> {
    let base = t.name@ + "To"@ + fk.referenced_table@;
    if count_refs(dedup_fks(t.foreign_keys@), fk.referenced_table@) < 2 && !references_back(
        schema,
        fk.referenced_table@,
        t.name@,
    ) {
        base
    } else {
        base + "_"@ + join_underscore(fk.columns.deep_view())
    }
}

fn joined_columns(cols: &Vec<String>) -> (r: String)
    ensures
        r@ == join_underscore(cols.deep_view()),
{
    let mut r = String::new();
    let mut i: usize = 0;
    while i < cols.len()
        invariant
            0 <= i <= cols@.len(),
            r@ == join_underscore(cols.deep_view().take(i as int)),
        decreases cols@.len() - i,
    {
        proof {
            assert(cols.deep_view().take(i as int + 1).drop_last() =~= cols.deep_view().take(i as int));
            assert(cols.deep_view()[i as int] == cols@[i as int]@);
        }
        if i > 0 {
            r.append("_");
        }
        r.append(cols[i].as_str());
        proof {
            if i == 0 {
                assert(r@ =~= cols.deep_view().take(1)[0]);
            }
        }
        i = i + 1;
    }
    assert(cols.deep_view().take(cols@.len() as int) =~= cols.deep_view());
    r
}

fn count_references(s: &Vec<ForeignKey>, name: &String) -> (r: usize)
    ensures
        r == count_refs(s@, name@),
{
    let mut c: usize = 0;
    let mut i: usize = 0;
    while i < s.len()
        invariant
            0 <= i <= s@.len(),
            c == count_refs(s@.take(i as int), name@),
            c <= i,
        decreases s@.len() - i,
    {
        assert(s@.take(i as int + 1).drop_last() =~= s@.take(i as int));
        if s[i].referenced_table == *name {
            c = c + 1;
        }
        i = i + 1;
    }
    assert(s@.take(s@.len() as int) =~= s@);
    c
}

fn has_reference_back(schema: &SqlSchema, from: &String, to: &String) -> (r: bool)
    ensures
        r == references_back(*schema, from@, to@),
{
    let mut i: usize = 0;
    while i < schema.tables.len()
        invariant
            0 <= i <= schema.tables@.len(),
            forall|a: int, b: int|
                0 <= a < i && (#[trigger] schema.tables@[a]).name@ == from@ && 0 <= b
                    < schema.tables@[a].foreign_keys@.len() ==> (
                #[trigger] schema.tables@[a].foreign_keys@[b]).referenced_table@ != to@,
        decreases schema.tables@.len() - i,
    {
        let t = &schema.tables[i];
        if t.name == *from {
            let mut j: usize = 0;
            while j < t.foreign_keys.len()
                invariant
                    0 <= j <= t.foreign_keys@.len(),
                    i < schema.tables@.len(),
                    *t == schema.tables@[i as int],
                    t.name@ == from@,
                    forall|b: int| 0 <= b < j ==> (#[trigger] t.foreign_keys@[b]).referenced_table@ != to@,
                decreases t.foreign_keys@.len() - j,
            {
                if t.foreign_keys[j].referenced_table == *to {
                    assert(schema.tables@[i as int].name@ == from@);
                    assert(schema.tables@[i as int].foreign_keys@[j as int].referenced_table@ == to@);
                    return true;
                }
                j = j + 1;
            }
        }
        i = i + 1;
    }
    false
}

/// Names the relation that a foreign key of table `t` stands for.
pub fn calculate_relation_name(schema: &SqlSchema, t: &Table, kept: &Vec<ForeignKey>, fk: &ForeignKey) -> (r:
    String)
    requires
        count_refs(kept@, fk.referenced_table@) == count_refs(dedup_fks(t.foreign_keys@), fk.referenced_table@),
    ensures
        r@ == spec_relation_name(*schema, *t, *fk),
{
    let mut name = t.name.clone();
    name.append("To");
    name.append(fk.referenced_table.as_str());
    let same = count_references(kept, &fk.referenced_table);
    if same < 2 && !has_reference_back(schema, &fk.referenced_table, &t.name) {
        name
    } else {
        name.append("_");
        let cols = joined_columns(&fk.columns);
        name.append(cols.as_str());
        name
    }
}

} // verus!
