use vstd::prelude::*;
use crate::schema::ForeignKeyAction;

verus! {

/// The logical scalar kinds of the data model.
#[derive(Clone, Copy, Debug, PartialEq, Eq, Structural)]
pub enum ScalarType {
    Int,
    BigInt,
    Float,
    Decimal,
    Boolean,
    String,
    DateTime,
    Json,
    Bytes,
}

#[derive(Debug, PartialEq, Eq)]
pub enum FieldType {
    Base(ScalarType),
    /// A column type that could not be validated, kept as written.
    Unsupported(String),
}

#[derive(Clone, Copy, Debug, PartialEq, Eq, Structural)]
pub enum FieldArity {
    Required,
    Optional,
    List,
}

pub struct ScalarField {
    pub name: String,
    pub field_type: FieldType,
    pub arity: FieldArity,
    pub is_unique: bool,
    pub is_id: bool,
    pub default: Option<String>,
}

pub struct RelationInfo {
    /// The name of the model the relation points to.
    pub to: String,
    pub fields: Vec<String>,
    pub to_fields: Vec<String>,
    /// The relation's name; the two sides of one relation share it.
    pub name: String,
    pub on_delete: ForeignKeyAction,
}

pub struct RelationField {
    pub name: String,
    pub arity: FieldArity,
    pub relation_info: RelationInfo,
}

pub enum Field {
    ScalarField(ScalarField),
    RelationField(RelationField),
}

pub struct ModelIndex {
    pub name: String,
    pub fields: Vec<String>,
    pub is_unique: bool,
}

pub struct Model {
    pub name: String,
    pub fields: Vec<Field>,
    pub indices: Vec<ModelIndex>,
    /// The columns of a composite primary key; empty otherwise.
    pub id_fields: Vec<String>,
}

pub struct Enum {
    pub name: String,
    pub values: Vec<String>,
}

pub struct Datamodel {
    pub models: Vec<Model>,
    pub enums: Vec<Enum>,
}

impl Field {
    pub open spec fn name_view(self) -> Seq<char> {
        match self {
            Field::ScalarField(f) => f.name@,
            Field::RelationField(f) => f.name@,
        }
    }
}

/// `g`, on the model named `b`, is the other side of `r`, on the model named `a`.
pub open spec fn is_back_side(a: Seq<char>, r: RelationField, b: Seq<char>, g: RelationField) -> bool {
    &&& r.relation_info.to@ == b
    &&& g.relation_info.to@ == a
    &&& (g.relation_info.name@ == r.relation_info.name@ || (a == b && self_join_side(a, r) && self_join_side(a, g)
        && sides_pair(g.relation_info.name@, r.relation_info.name@)))
    &&& (a == b ==> g.name@ != r.name@)
}

/// `f`, a field of the model named `a`, has the shape of one side of a
/// self-relation join table: a list field with no local columns, named after
/// the model, `_` and the last character of its relation name.
pub open spec fn self_join_side(a: Seq<char>, f: RelationField) -> bool {
    &&& f.arity == FieldArity::List
    &&& f.relation_info.fields@.len() == 0
    &&& f.relation_info.name@.len() >= 1
    &&& f.name@ == a + "_"@ + seq![f.relation_info.name@.last()]
}

/// The relation names of the two sides of a self-relation join table: one
/// base followed by `_A` and by `_B`.
pub open spec fn sides_pair(x: Seq<char>, y: Seq<char>) -> bool {
    (x.len() == y.len() && x.len() >= 2 && x.drop_last() == y.drop_last() && x[x.len() - 2] == '_' && ((
    x.last() == 'A' && y.last() == 'B') || (x.last() == 'B' && y.last() == 'A')))
}

/// `g`, a field of the model named `b`, is the other side of the relation
/// field `r` of the model named `a`.
pub open spec fn is_related(a: Seq<char>, r: RelationField, b: Seq<char>, g: Field) -> bool {
    g is RelationField && is_back_side(a, r, b, g->RelationField_0)
}

/// Some model carries the other side of `r`, a relation field of the model named `a`.
pub open spec fn has_other_side(models: Seq<Model>, a: Seq<char>, r: RelationField) -> bool {
    exists|k: int, l: int|
        0 <= k < models.len() && 0 <= l < models[k].fields@.len() && is_related(
            a,
            r,
            models[k].name@,
            #[trigger] models[k].fields@[l],
        )
}

/// Every relation field of every model has its other side on the model it names.
pub open spec fn all_relations_bidirectional(models: Seq<Model>) -> bool {
    forall|i: int, j: int|
        0 <= i < models.len() && 0 <= j < models[i].fields@.len() && (#[trigger] models[i].fields@[j]) is RelationField
            ==> has_other_side(models, models[i].name@, models[i].fields@[j]->RelationField_0)
}

} // verus!
