//! Tabular data resources: the description of one CSV file of a package.

use vstd::prelude::*;
use crate::package::descriptor::Name;
use crate::package::descriptor::names;
use crate::package::descriptor::Profile;

verus! {

/// Whether a column must hold a value, and whether its values are unique.
#[derive(Debug, Clone, Copy, PartialEq, Eq)]
pub struct Constraint {
    pub required: bool,
    pub unique: bool,
}

/// A column of a resource.
#[derive(Debug)]
pub struct Field {
    pub name: Name,
    pub description: String,
    pub datatype: String,
    pub format: Option<String>,
    pub constraints: Vec<Constraint>,
}

/// What a foreign key refers to.
#[derive(Debug)]
pub struct Reference {
    pub resource: Name,
    pub fields: Vec<Name>,
}

/// Columns whose values must occur in the columns of another resource.
#[derive(Debug)]
pub struct ForeignKey {
    pub fields: Vec<Name>,
    pub reference: Reference,
}

/// The columns and keys of a resource.
#[derive(Debug)]
pub struct Schema {
    pub fields: Vec<Field>,
    pub primary_key: Vec<Name>,
    pub foreign_keys: Vec<ForeignKey>,
}

/// The encoding of the file of a resource.
#[derive(Debug, Clone, Copy, PartialEq, Eq)]
pub enum Encoding {
    Utf8,
}

/// A tabular data resource.
#[derive(Debug)]
pub struct Resource {
    pub profile: Profile,
    pub name: Name,
    pub title: String,
    pub description: String,
    pub path: String,
    pub encoding: Encoding,
    pub schema: Schema,
}

/// The names of the columns of a list of fields.
pub open spec fn field_names_of(fields: Seq<Field>) -> Seq<Seq<char>> {
    Seq::new(fields.len(), |i: int| fields[i].name@)
}

impl Resource {
    pub fn id(&self) -> (res: &Name)
        ensures
            *res == self.name,
    {
        &self.name
    }

    pub fn path(&self) -> (res: &str)
        ensures
            res@ == self.path@,
    {
        self.path.as_str()
    }

    /// The names of the columns, in their order.
    pub fn field_names(&self) -> (res: Vec<Name>)
        ensures
            names(res@) == field_names_of(self.schema.fields@),
    {
        let mut out: Vec<Name> = Vec::new();
        let mut i: usize = 0;
        while i < self.schema.fields.len()
            invariant
                i <= self.schema.fields@.len(),
                out@.len() == i,
                forall|k: int| 0 <= k < i ==> out@[k]@ == self.schema.fields@[k].name@,
            decreases self.schema.fields@.len() - i,
        {
            out.push(self.schema.fields[i].name.clone());
            i += 1;
        }
        assert(names(out@) =~= field_names_of(self.schema.fields@));
        out
    }
}

/// Collects the fields of a resource one by one.
#[derive(Debug)]
pub struct ResourceBuilder {
    pub name: Option<Name>,
    pub title: Option<String>,
    pub description: Option<String>,
    pub path: Option<String>,
    pub schema: Option<Schema>,
}

impl ResourceBuilder {
    pub fn new() -> (res: Self)
        ensures
            res.name.is_none(),
            res.title.is_none(),
            res.description.is_none(),
            res.path.is_none(),
            res.schema.is_none(),
    {
        ResourceBuilder { name: None, title: None, description: None, path: None, schema: None }
    }

    /// Whether every field has been given.
    pub open spec fn complete(&self) -> bool {
        self.name.is_some() && self.title.is_some() && self.description.is_some()
            && self.path.is_some() && self.schema.is_some()
    }

    /// Whether every field has been given.
    pub fn is_complete(&self) -> (res: bool)
        ensures
            res == self.complete(),
    {
        self.name.is_some() && self.title.is_some() && self.description.is_some()
            && self.path.is_some() && self.schema.is_some()
    }

    /// The resource made of the fields, all of which must have been given.
    pub fn build(self) -> (res: Resource)
        requires
            self.complete(),
        ensures
            res.profile@ == "tabular-data-resource"@,
            Some(res.name) == self.name,
            Some(res.title) == self.title,
            Some(res.description) == self.description,
            Some(res.path) == self.path,
            res.encoding == Encoding::Utf8,
            Some(res.schema) == self.schema,
    {
        Resource {
            profile: Profile::new("tabular-data-resource"),
            name: self.name.unwrap(),
            title: self.title.unwrap(),
            description: self.description.unwrap(),
            path: self.path.unwrap(),
            encoding: Encoding::Utf8,
            schema: self.schema.unwrap(),
        }
    }

    pub fn with_name(&mut self, value: Name)
        ensures
            *final(self) == (ResourceBuilder { name: Some(value), ..*old(self) }),
    {
        self.name = Some(value);
    }

    pub fn with_title(&mut self, value: &str)
        ensures
            final(self).title matches Some(text) && text@ == value@,
            final(self).name == old(self).name,
            final(self).description == old(self).description,
            final(self).path == old(self).path,
            final(self).schema == old(self).schema,
    {
        self.title = Some(value.to_owned());
    }

    pub fn with_description(&mut self, value: &str)
        ensures
            final(self).description matches Some(text) && text@ == value@,
            final(self).name == old(self).name,
            final(self).title == old(self).title,
            final(self).path == old(self).path,
            final(self).schema == old(self).schema,
    {
        self.description = Some(value.to_owned());
    }

    pub fn with_path(&mut self, value: &str)
        ensures
            final(self).path matches Some(text) && text@ == value@,
            final(self).name == old(self).name,
            final(self).title == old(self).title,
            final(self).description == old(self).description,
            final(self).schema == old(self).schema,
    {
        self.path = Some(value.to_owned());
    }

    pub fn with_schema(&mut self, value: Schema)
        ensures
            *final(self) == (ResourceBuilder { schema: Some(value), ..*old(self) }),
    {
        self.schema = Some(value);
    }
}

} // verus!
