//! The descriptor of a package: a plain version of a tabular data package.

use vstd::prelude::*;
use crate::clock::now;
use crate::package::descriptor::Contributor;
use crate::package::descriptor::Licence;
use crate::package::descriptor::Name;
use crate::package::descriptor::PackageError;
use crate::package::descriptor::Profile;
use crate::package::descriptor::valid_name;
use crate::package::resource::Resource;

pub mod descriptor;
pub mod resource;

verus! {

/// The file that holds the descriptor of a package.
pub const DESCRIPTOR_PATH: &'static str = "datapackage.json";

/// The directory that holds the CSV files of a package.
pub const DATA_PATH: &'static str = "data/";

/// A tabular data package.
#[derive(Debug)]
pub struct Package {
    pub profile: Profile,
    pub id: String,
    pub name: Name,
    pub title: String,
    pub description: String,
    /// The time of creation, as RFC 3339 text.
    pub created: String,
    pub resources: Vec<Resource>,
    pub licenses: Vec<Licence>,
    pub homepage: Option<String>,
    pub contributors: Vec<Contributor>,
    pub keywords: Vec<String>,
}

impl Package {
    pub fn name(&self) -> (res: &Name)
        ensures
            *res == self.name,
    {
        &self.name
    }

    pub fn description(&self) -> (res: &str)
        ensures
            res@ == self.description@,
    {
        self.description.as_str()
    }

    pub fn resources(&self) -> (res: &Vec<Resource>)
        ensures
            *res == self.resources,
    {
        &self.resources
    }
}

/// Collects the fields of a package one by one. Only `build` can fail.
#[derive(Debug)]
pub struct PackageBuilder {
    pub id: Option<String>,
    pub name: Option<Name>,
    pub title: Option<String>,
    pub description: Option<String>,
    pub licenses: Vec<Licence>,
    pub homepage: Option<String>,
    pub resources: Vec<Resource>,
    pub created: Option<String>,
    pub contributors: Vec<Contributor>,
    pub keywords: Vec<String>,
}

/// The first required field that a builder lacks, if it lacks one.
pub open spec fn missing_field(b: PackageBuilder) -> Option<Seq<char>> {
    if b.name.is_none() {
        Some("name"@)
    } else if b.title.is_none() {
        Some("title"@)
    } else if b.description.is_none() {
        Some("description"@)
    } else if b.resources@.len() == 0 {
        Some("resources"@)
    } else {
        None
    }
}

/// The package is made of the fields of the builder, with the given
/// identifier and time of creation.
pub open spec fn built_from(p: Package, b: PackageBuilder, id: String, created: String) -> bool {
    &&& p.profile@ == "tabular-data-package"@
    &&& p.id == id
    &&& Some(p.name) == b.name
    &&& Some(p.title) == b.title
    &&& Some(p.description) == b.description
    &&& p.created == created
    &&& p.resources == b.resources
    &&& p.licenses == b.licenses
    &&& p.homepage == b.homepage
    &&& p.contributors == b.contributors
    &&& p.keywords == b.keywords
}

/// Calls `uuid::Uuid::new_v4` and writes the identifier as text. The
/// identifier is random: nothing is promised of it. Where the system gives
/// no random numbers `new_v4` does not return.
#[verifier::external_body]
fn fresh_id() -> (res: String) {
    uuid::Uuid::new_v4().to_string()
}

impl Default for PackageBuilder {
    fn default() -> (res: Self)
        ensures
            res.id.is_none(),
            res.name.is_none(),
            res.title.is_none(),
            res.description.is_none(),
            res.homepage.is_none(),
            res.created.is_none(),
            res.licenses@.len() == 0,
            res.resources@.len() == 0,
            res.contributors@.len() == 0,
            res.keywords@.len() == 0,
    {
        PackageBuilder {
            id: None,
            name: None,
            title: None,
            description: None,
            licenses: Vec::new(),
            homepage: None,
            resources: Vec::new(),
            created: None,
            contributors: Vec::new(),
            keywords: Vec::new(),
        }
    }
}

impl PackageBuilder {
    /// A builder with nothing but the given name, which must be valid.
    pub fn new(value: &str) -> (res: Result<Self, PackageError>)
        ensures
            valid_name(value@) ==> (res matches Ok(b) && (b.name matches Some(name) && name@
                == value@) && b.id.is_none() && b.title.is_none() && b.description.is_none()
                && b.homepage.is_none() && b.created.is_none() && b.licenses@.len() == 0
                && b.resources@.len() == 0 && b.contributors@.len() == 0 && b.keywords@.len()
                == 0),
            !valid_name(value@) ==> (res matches Err(PackageError::MalformedName(text)) && text@
                == value@),
    {
        let name = match Name::from_str(value) {
            Ok(name) => name,
            Err(e) => {
                return Err(e);
            },
        };
        Ok(
            PackageBuilder {
                id: None,
                name: Some(name),
                title: None,
                description: None,
                licenses: Vec::new(),
                homepage: None,
                resources: Vec::new(),
                created: None,
                contributors: Vec::new(),
                keywords: Vec::new(),
            },
        )
    }

    /// Sets the identifier. Without one, `build` makes a random one.
    pub fn id(self, value: String) -> (res: Self)
        ensures
            res == (PackageBuilder { id: Some(value), ..self }),
    {
        PackageBuilder { id: Some(value), ..self }
    }

    /// Sets the name, unchecked.
    pub fn name(self, value: Name) -> (res: Self)
        ensures
            res == (PackageBuilder { name: Some(value), ..self }),
    {
        PackageBuilder { name: Some(value), ..self }
    }

    pub fn title(self, value: String) -> (res: Self)
        ensures
            res == (PackageBuilder { title: Some(value), ..self }),
    {
        PackageBuilder { title: Some(value), ..self }
    }

    pub fn description(self, value: String) -> (res: Self)
        ensures
            res == (PackageBuilder { description: Some(value), ..self }),
    {
        PackageBuilder { description: Some(value), ..self }
    }

    pub fn licenses(self, value: Vec<Licence>) -> (res: Self)
        ensures
            res == (PackageBuilder { licenses: value, ..self }),
    {
        PackageBuilder { licenses: value, ..self }
    }

    pub fn homepage(self, value: String) -> (res: Self)
        ensures
            res == (PackageBuilder { homepage: Some(value), ..self }),
    {
        PackageBuilder { homepage: Some(value), ..self }
    }

    pub fn resources(self, value: Vec<Resource>) -> (res: Self)
        ensures
            res == (PackageBuilder { resources: value, ..self }),
    {
        PackageBuilder { resources: value, ..self }
    }

    /// Sets the time of creation, as RFC 3339 text. Without one, `build`
    /// reads the clock.
    pub fn timestamp(self, value: String) -> (res: Self)
        ensures
            res == (PackageBuilder { created: Some(value), ..self }),
    {
        PackageBuilder { created: Some(value), ..self }
    }

    pub fn contributors(self, value: Vec<Contributor>) -> (res: Self)
        ensures
            res == (PackageBuilder { contributors: value, ..self }),
    {
        PackageBuilder { contributors: value, ..self }
    }

    pub fn keywords(self, value: Vec<String>) -> (res: Self)
        ensures
            res == (PackageBuilder { keywords: value, ..self }),
    {
        PackageBuilder { keywords: value, ..self }
    }

    /// The package made of the fields given so far, with `id` and `created`
    /// standing in where the builder has no identifier or no time of
    /// creation. The first of name, title, description and resources that
    /// is absent is reported.
    pub fn build_with(self, id: String, created: String) -> (res: Result<Package, PackageError>)
        ensures
            match missing_field(self) {
                Some(field) => res matches Err(PackageError::RequiredField(text)) && text@
                    == field,
                None => res matches Ok(p) && built_from(
                    p,
                    self,
                    if self.id.is_some() {
                        self.id.unwrap()
                    } else {
                        id
                    },
                    if self.created.is_some() {
                        self.created.unwrap()
                    } else {
                        created
                    },
                ),
            },
    {
        let name = match self.name {
            Some(value) => value,
            None => {
                return Err(PackageError::RequiredField("name".to_owned()));
            },
        };
        let title = match self.title {
            Some(value) => value,
            None => {
                return Err(PackageError::RequiredField("title".to_owned()));
            },
        };
        let description = match self.description {
            Some(value) => value,
            None => {
                return Err(PackageError::RequiredField("description".to_owned()));
            },
        };
        if self.resources.len() == 0 {
            return Err(PackageError::RequiredField("resources".to_owned()));
        }
        let id = match self.id {
            Some(value) => value,
            None => id,
        };
        let created = match self.created {
            Some(value) => value,
            None => created,
        };
        Ok(
            Package {
                profile: Profile::new("tabular-data-package"),
                id,
                name,
                title,
                description,
                created,
                resources: self.resources,
                licenses: self.licenses,
                homepage: self.homepage,
                contributors: self.contributors,
                keywords: self.keywords,
            },
        )
    }

    /// The package made of the fields given so far. Without an identifier
    /// a random one is made; without a time of creation the clock is read.
    /// The first of name, title, description and resources that is absent
    /// is reported.
    pub fn build(self) -> (res: Result<Package, PackageError>)
        ensures
            match missing_field(self) {
                Some(field) => res matches Err(PackageError::RequiredField(text)) && text@
                    == field,
                None => res matches Ok(p) && exists|id: String, created: String|
                    built_from(p, self, id, created) && (self.id matches Some(given) ==> id
                        == given) && (self.created matches Some(given) ==> created == given),
            },
    {
        let id = match &self.id {
            Some(value) => value.clone(),
            None => fresh_id(),
        };
        let created = match &self.created {
            Some(value) => value.clone(),
            None => now().1,
        };
        let ghost wanted_id = if self.id.is_some() { self.id.unwrap() } else { id };
        let ghost wanted_created = if self.created.is_some() {
            self.created.unwrap()
        } else {
            created
        };
        let res = self.build_with(id, created);
        proof {
            if res.is_ok() {
                assert(built_from(res.unwrap(), self, wanted_id, wanted_created));
            }
        }
        res
    }
}

} // verus!
