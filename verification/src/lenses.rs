//! The three resources of a package: things, tags and the relation between
//! them.

use vstd::prelude::*;
use crate::package::descriptor::Licence;
use crate::package::descriptor::Name;
use crate::package::descriptor::names;
use crate::package::resource::Constraint;
use crate::package::resource::Encoding;
use crate::package::resource::Field;
use crate::package::resource::field_names_of;
use crate::package::resource::ForeignKey;
use crate::package::resource::Reference;
use crate::package::resource::Resource;
use crate::package::resource::ResourceBuilder;
use crate::package::resource::Schema;
use crate::relation::lemma_filter_none;
use crate::relation::lemma_filter_step;
use crate::SomeError;
use crate::table::csv_lines;
use crate::table::encode_rows;
use crate::table::tables;
use crate::tag::opt_view;
use crate::tag::tag_header;
use crate::text::contains_text;
use crate::text::join;
use crate::text::joined;
use crate::text::texts;
use crate::thing::thing_header;
use crate::thingtag::thingtag_header;

verus! {

/// A column of text with one constraint.
pub open spec fn field_shape(
    f: Field,
    name: Seq<char>,
    description: Seq<char>,
    format: Option<Seq<char>>,
    required: bool,
    unique: bool,
) -> bool {
    &&& f.name@ == name
    &&& f.description@ == description
    &&& f.datatype@ == "string"@
    &&& opt_view(f.format) == format
    &&& f.constraints@ == seq![Constraint { required, unique }]
}

/// A foreign key of one column to one column of another resource.
pub open spec fn key_shape(k: ForeignKey, field: Seq<char>, resource: Seq<char>, target: Seq<char>) -> bool {
    &&& names(k.fields@) == seq![field]
    &&& k.reference.resource@ == resource
    &&& names(k.reference.fields@) == seq![target]
}

/// A resource of the given name, title, description and path.
pub open spec fn resource_shape(
    r: Resource,
    name: Seq<char>,
    title: Seq<char>,
    description: Seq<char>,
    path: Seq<char>,
) -> bool {
    &&& r.profile@ == "tabular-data-resource"@
    &&& r.name@ == name
    &&& r.title@ == title
    &&& r.description@ == description
    &&& r.path@ == path
    &&& r.encoding == Encoding::Utf8
}

/// The resource of the tags. Only the identifier is required and unique: a
/// tag may be without a name and without a summary.
pub open spec fn is_tag_resource(r: Resource) -> bool {
    &&& resource_shape(
        r,
        "tag"@,
        "Tag"@,
        "The set of tags to classify the collection of things."@,
        "data/tag.csv"@,
    )
    &&& r.schema.fields@.len() == 3
    &&& field_shape(r.schema.fields@[0], "id"@, "The tag identifier."@, None, true, true)
    &&& field_shape(
        r.schema.fields@[1],
        "name"@,
        "The tag human readable name."@,
        None,
        false,
        false,
    )
    &&& field_shape(r.schema.fields@[2], "summary"@, "The tag description."@, None, false, false)
    &&& names(r.schema.primary_key@) == seq!["id"@]
    &&& r.schema.foreign_keys@.len() == 0
}

/// The resource of the things. The URL is required and unique; the name and
/// the category are required, and may be those of other things as well.
pub open spec fn is_thing_resource(r: Resource) -> bool {
    &&& resource_shape(
        r,
        "thing"@,
        "Thing"@,
        "The set of things for the collection."@,
        "data/thing.csv"@,
    )
    &&& r.schema.fields@.len() == 4
    &&& field_shape(r.schema.fields@[0], "url"@, "The URL of the thing."@, Some("uri"@), true, true)
    &&& field_shape(r.schema.fields@[1], "name"@, "The name of the thing."@, None, true, false)
    &&& field_shape(
        r.schema.fields@[2],
        "summary"@,
        "The description of the thing."@,
        None,
        false,
        false,
    )
    &&& field_shape(
        r.schema.fields@[3],
        "category_id"@,
        "The category of the thing."@,
        None,
        true,
        false,
    )
    &&& names(r.schema.primary_key@) == seq!["url"@]
    &&& r.schema.foreign_keys@.len() == 1
    &&& key_shape(r.schema.foreign_keys@[0], "category_id"@, "tag"@, "id"@)
}

/// The resource of the relation between things and tags.
pub open spec fn is_thing_tag_resource(r: Resource) -> bool {
    &&& resource_shape(
        r,
        "thing_tag"@,
        "Thing tags"@,
        "The set of tags to further classify the collection of things."@,
        "data/thing_tag.csv"@,
    )
    &&& r.schema.fields@.len() == 2
    &&& field_shape(
        r.schema.fields@[0],
        "thing_id"@,
        "The reference to a thing."@,
        Some("uri"@),
        true,
        false,
    )
    &&& field_shape(r.schema.fields@[1], "tag_id"@, "The reference to a tag."@, None, true, false)
    &&& names(r.schema.primary_key@) == seq!["thing_id"@, "tag_id"@]
    &&& r.schema.foreign_keys@.len() == 2
    &&& key_shape(r.schema.foreign_keys@[0], "thing_id"@, "thing"@, "url"@)
    &&& key_shape(r.schema.foreign_keys@[1], "tag_id"@, "tag"@, "id"@)
}

/// A column of text with one constraint.
fn field(name: &str, description: &str, format: Option<&str>, required: bool, unique: bool) -> (res:
    Field)
    ensures
        field_shape(
            res,
            name@,
            description@,
            match format {
                Some(text) => Some(text@),
                None => None,
            },
            required,
            unique,
        ),
{
    let mut constraints: Vec<Constraint> = Vec::new();
    constraints.push(Constraint { required, unique });
    assert(constraints@ =~= seq![Constraint { required, unique }]);
    Field {
        name: Name::new(name),
        description: description.to_owned(),
        datatype: "string".to_owned(),
        format: match format {
            Some(text) => Some(text.to_owned()),
            None => None,
        },
        constraints,
    }
}

/// A list of one name.
fn one_name(name: &str) -> (res: Vec<Name>)
    ensures
        names(res@) == seq![name@],
{
    let mut list: Vec<Name> = Vec::new();
    list.push(Name::new(name));
    assert(names(list@) =~= seq![name@]);
    list
}

/// A foreign key of one column to one column of another resource.
fn foreign_key(name: &str, resource: &str, target: &str) -> (res: ForeignKey)
    ensures
        key_shape(res, name@, resource@, target@),
{
    ForeignKey {
        fields: one_name(name),
        reference: Reference { resource: Name::new(resource), fields: one_name(target) },
    }
}

/// A resource of all its parts.
fn resource(name: &str, title: &str, description: &str, path: &str, schema: Schema) -> (res:
    Resource)
    ensures
        resource_shape(res, name@, title@, description@, path@),
        res.schema == schema,
{
    let mut builder = ResourceBuilder::new();
    builder.with_name(Name::new(name));
    builder.with_title(title);
    builder.with_description(description);
    builder.with_path(path);
    builder.with_schema(schema);
    builder.build()
}

/// The resources of a package: the things, the tags and the relation
/// between them, in this order.
pub fn resources() -> (res: Vec<Resource>)
    ensures
        res@.len() == 3,
        is_thing_resource(res@[0]),
        is_tag_resource(res@[1]),
        is_thing_tag_resource(res@[2]),
{
    let mut list: Vec<Resource> = Vec::new();
    list.push(thing_resource());
    list.push(tag_resource());
    list.push(thing_tag_resource());
    list
}

/// The tag resource. Its columns are those of the header of the tag file.
pub fn tag_resource() -> (res: Resource)
    ensures
        is_tag_resource(res),
        field_names_of(res.schema.fields@) == tag_header(),
{
    let mut fields: Vec<Field> = Vec::new();
    fields.push(field("id", "The tag identifier.", None, true, true));
    fields.push(field("name", "The tag human readable name.", None, false, false));
    fields.push(field("summary", "The tag description.", None, false, false));
    assert(field_names_of(fields@) =~= tag_header());
    let schema = Schema { fields, primary_key: one_name("id"), foreign_keys: Vec::new() };
    resource(
        "tag",
        "Tag",
        "The set of tags to classify the collection of things.",
        "data/tag.csv",
        schema,
    )
}

/// The thing resource. Its columns are those of the header of the thing
/// file.
pub fn thing_resource() -> (res: Resource)
    ensures
        is_thing_resource(res),
        field_names_of(res.schema.fields@) == thing_header(),
{
    let mut fields: Vec<Field> = Vec::new();
    fields.push(field("url", "The URL of the thing.", Some("uri"), true, true));
    fields.push(field("name", "The name of the thing.", None, true, false));
    fields.push(field("summary", "The description of the thing.", None, false, false));
    fields.push(field("category_id", "The category of the thing.", None, true, false));
    assert(field_names_of(fields@) =~= thing_header());
    let mut foreign_keys: Vec<ForeignKey> = Vec::new();
    foreign_keys.push(foreign_key("category_id", "tag", "id"));
    let schema = Schema { fields, primary_key: one_name("url"), foreign_keys };
    resource("thing", "Thing", "The set of things for the collection.", "data/thing.csv", schema)
}

/// The resource of the relation between things and tags. Its columns are
/// those of the header of the relation file.
pub fn thing_tag_resource() -> (res: Resource)
    ensures
        is_thing_tag_resource(res),
        field_names_of(res.schema.fields@) == thingtag_header(),
{
    let mut fields: Vec<Field> = Vec::new();
    fields.push(field("thing_id", "The reference to a thing.", Some("uri"), true, false));
    fields.push(field("tag_id", "The reference to a tag.", None, true, false));
    assert(field_names_of(fields@) =~= thingtag_header());
    let mut primary_key: Vec<Name> = Vec::new();
    primary_key.push(Name::new("thing_id"));
    primary_key.push(Name::new("tag_id"));
    assert(names(primary_key@) =~= seq!["thing_id"@, "tag_id"@]);
    let mut foreign_keys: Vec<ForeignKey> = Vec::new();
    foreign_keys.push(foreign_key("thing_id", "thing", "url"));
    foreign_keys.push(foreign_key("tag_id", "tag", "id"));
    let schema = Schema { fields, primary_key, foreign_keys };
    resource(
        "thing_tag",
        "Thing tags",
        "The set of tags to further classify the collection of things.",
        "data/thing_tag.csv",
        schema,
    )
}

/// The rows that the file of a new resource starts with: the names of its
/// columns and, in the file of the tags, the tag for what fits nowhere else.
pub open spec fn seed_of(r: Resource) -> Seq<Seq<Seq<char>>> {
    if r.name@ == "tag"@ {
        seq![
            field_names_of(r.schema.fields@),
            seq!["miscellaneous"@, "Miscellaneous"@, "The unclassifiable."@],
        ]
    } else {
        seq![field_names_of(r.schema.fields@)]
    }
}

/// The rows that the file of a new resource starts with.
pub fn seed_rows(resource: &Resource) -> (res: Vec<Vec<String>>)
    ensures
        tables(res@) == seed_of(*resource),
{
    let fields = resource.field_names();
    let mut header: Vec<String> = Vec::new();
    let mut i: usize = 0;
    while i < fields.len()
        invariant
            i <= fields@.len(),
            header@.len() == i,
            forall|k: int| 0 <= k < i ==> header@[k]@ == fields@[k]@,
        decreases fields@.len() - i,
    {
        header.push(fields[i].to_string());
        i += 1;
    }
    assert(texts(header@) =~= names(fields@));
    let mut rows: Vec<Vec<String>> = Vec::new();
    rows.push(header);
    if resource.id().is("tag") {
        let mut tag: Vec<String> = Vec::new();
        tag.push("miscellaneous".to_owned());
        tag.push("Miscellaneous".to_owned());
        tag.push("The unclassifiable.".to_owned());
        assert(texts(tag@) =~= seq!["miscellaneous"@, "Miscellaneous"@, "The unclassifiable."@]);
        rows.push(tag);
    }
    assert(tables(rows@) =~= seed_of(*resource));
    rows
}

/// The CSV text that the file of a new resource starts with.
pub fn seed(resource: &Resource) -> (res: Result<Vec<u8>, SomeError>)
    ensures
        match csv_lines(seed_of(*resource)) {
            Some(bytes) => res matches Ok(out) && out@ == bytes,
            None => res matches Err(SomeError::Csv(_)),
        },
{
    let rows = seed_rows(resource);
    match encode_rows(&rows) {
        Ok(out) => Ok(out),
        Err(e) => Err(SomeError::Csv(e)),
    }
}

/// A licence as the register of open licences describes it.
#[derive(Debug)]
pub struct FullLicence {
    pub id: String,
    pub domain_content: bool,
    pub domain_data: bool,
    pub domain_software: bool,
    pub od_conformance: String,
    pub osd_conformance: String,
    pub status: String,
    pub title: String,
    pub url: String,
}

/// The licence of a package for an entry of the register: its identifier
/// for the name, its address for the path, and its title.
pub fn licence_of(full: FullLicence) -> (res: Licence)
    ensures
        res == (Licence { name: full.id, path: full.url, title: full.title }),
{
    Licence { name: full.id, path: full.url, title: full.title }
}

/// The licences whose name is one of `names`.
pub open spec fn named_in(names: Seq<Seq<char>>) -> spec_fn(Licence) -> bool {
    |l: Licence| names.contains(l.name@)
}

/// The licences whose name was chosen, in the order of the list.
pub fn chosen_licences(items: &Vec<Licence>, choices: &Vec<String>) -> (res: Vec<Licence>)
    ensures
        res@ == items@.filter(named_in(texts(choices@))),
{
    let ghost pred = named_in(texts(choices@));
    let mut out: Vec<Licence> = Vec::new();
    let mut i: usize = 0;
    proof {
        lemma_filter_none(items@, pred);
        assert(out@ =~= Seq::<Licence>::empty());
    }
    while i < items.len()
        invariant
            i <= items@.len(),
            pred == named_in(texts(choices@)),
            out@ == items@.take(i as int).filter(pred),
        decreases items@.len() - i,
    {
        proof {
            lemma_filter_step(items@, pred, i as int);
        }
        if contains_text(choices, &items[i].name) {
            out.push(items[i].clone());
        }
        i += 1;
    }
    assert(items@.take(i as int) =~= items@);
    out
}

/// A list of licences, in the order in which they were given.
#[derive(Debug)]
pub struct LicenceSet(Vec<Licence>);

impl View for LicenceSet {
    type V = Seq<Licence>;

    closed spec fn view(&self) -> Seq<Licence> {
        self.0@
    }
}

impl LicenceSet {
    pub fn new(raw: Vec<Licence>) -> (res: Self)
        ensures
            res@ == raw@,
    {
        Self(raw)
    }

    pub fn as_slice(&self) -> (res: &[Licence])
        ensures
            res@ == self@,
    {
        self.0.as_slice()
    }

    pub fn to_vec(&self) -> (res: Vec<Licence>)
        ensures
            res@ == self@,
    {
        let mut out: Vec<Licence> = Vec::new();
        let mut i: usize = 0;
        while i < self.0.len()
            invariant
                i <= self.0@.len(),
                out@ == self.0@.take(i as int),
            decreases self.0@.len() - i,
        {
            out.push(self.0[i].clone());
            assert(out@ =~= self.0@.take(i + 1));
            i += 1;
        }
        assert(self.0@.take(i as int) =~= self.0@);
        out
    }

    pub fn len(&self) -> (res: usize)
        ensures
            res == self@.len(),
    {
        self.0.len()
    }

    /// The names of the licences, in their order.
    pub fn labels(&self) -> (res: Vec<String>)
        ensures
            texts(res@) == Seq::new(self@.len(), |i: int| self@[i].name@),
    {
        let mut out: Vec<String> = Vec::new();
        let mut i: usize = 0;
        while i < self.0.len()
            invariant
                i <= self.0@.len(),
                out@.len() == i,
                forall|k: int| 0 <= k < i ==> out@[k]@ == self.0@[k].name@,
            decreases self.0@.len() - i,
        {
            out.push(self.0[i].name.clone());
            i += 1;
        }
        assert(texts(out@) =~= Seq::new(self@.len(), |i: int| self@[i].name@));
        out
    }

    /// The names of the licences on one line, with `;` between them.
    pub fn to_string(&self) -> (res: String)
        ensures
            res@ == joined(Seq::new(self@.len(), |i: int| self@[i].name@), ";"@),
    {
        join(&self.labels(), ";")
    }

    /// The names of the licences, one on each line.
    pub fn to_lines(&self) -> (res: String)
        ensures
            res@ == joined(Seq::new(self@.len(), |i: int| self@[i].name@), "\n"@),
    {
        join(&self.labels(), "\n")
    }

    pub fn first(&self) -> (res: Option<&Licence>)
        ensures
            match res {
                Some(licence) => self@.len() > 0 && *licence == self@[0],
                None => self@.len() == 0,
            },
    {
        if self.0.len() == 0 {
            None
        } else {
            Some(&self.0[0])
        }
    }
}

} // verus!
