use vstd::prelude::*;

verus! {

/// A location in the text of a schema file.
#[derive(Clone, Copy, Debug, PartialEq, Eq, Structural)]
pub struct Span {
    pub start: usize,
    pub end: usize,
}

pub struct Identifier {
    pub name: String,
    pub span: Span,
}

pub struct Comment {
    pub text: String,
}

pub struct Attribute {
    pub name: Identifier,
    pub span: Span,
}

/// A field declaration.
pub struct Field {
    pub name: Identifier,
    pub field_type: Identifier,
    pub attributes: Vec<Attribute>,
    pub span: Span,
}

/// A model declaration.
pub struct Embed {
    /// The name of the model.
    pub name: Identifier,
    /// The fields of the model.
    pub fields: Vec<Field>,
    /// The attributes of this model.
    pub attributes: Vec<Attribute>,
    /// The documentation for this model.
    pub documentation: Option<Comment>,
    /// The location of this model in the text representation.
    pub span: Span,
    /// Should this be commented out.
    pub commented_out: bool,
}

impl Embed {
    /// The first field named `name`; one must exist.
    pub fn find_field(&self, name: &str) -> (r: &Field)
        requires
            exists|i: int| 0 <= i < self.fields@.len() && (#[trigger] self.fields@[i]).name.name@ == name@,
        ensures
            r.name.name@ == name@,
            exists|i: int|
                0 <= i < self.fields@.len() && *r == self.fields@[i] && forall|k: int|
                    0 <= k < i ==> (#[trigger] self.fields@[k]).name.name@ != name@,
    {
        let target = name.to_string();
        let mut i: usize = 0;
        while i < self.fields.len()
            invariant
                0 <= i <= self.fields@.len(),
                target@ == name@,
                forall|k: int| 0 <= k < i ==> (#[trigger] self.fields@[k]).name.name@ != name@,
            decreases self.fields@.len() - i,
        {
            if self.fields[i].name.name == target {
                return &self.fields[i];
            }
            i = i + 1;
        }
        proof {
            let w = choose|w: int| 0 <= w < self.fields@.len() && (#[trigger] self.fields@[w]).name.name@ == name@;
            assert(self.fields@[w].name.name@ != name@);
        }
        &self.fields[0]
    }

    pub fn identifier(&self) -> (r: &Identifier)
        ensures
            *r == self.name,
    {
        &self.name
    }

    pub fn span(&self) -> (r: &Span)
        ensures
            *r == self.span,
    {
        &self.span
    }

    pub fn attributes(&self) -> (r: &Vec<Attribute>)
        ensures
            *r == self.attributes,
    {
        &self.attributes
    }

    pub fn documentation(&self) -> (r: &Option<Comment>)
        ensures
            *r == self.documentation,
    {
        &self.documentation
    }

    pub fn is_commented_out(&self) -> (r: bool)
        ensures
            r == self.commented_out,
    {
        self.commented_out
    }
}

} // verus!
