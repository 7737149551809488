//! Tags: the labels that classify things. A category is a tag as well.

use vstd::prelude::*;
use crate::table::blank_to_none;
use crate::table::none_to_blank;
use crate::table::optional;
use crate::table::or_blank;
use crate::text::texts;

verus! {

/// What a tag record holds, as mathematical values.
pub struct TagView {
    pub id: Seq<char>,
    pub name: Option<Seq<char>>,
    pub summary: Option<Seq<char>>,
}

/// The view of an optional string.
pub open spec fn opt_view(value: Option<String>) -> Option<Seq<char>> {
    match value {
        Some(s) => Some(s@),
        None => None,
    }
}

/// The view of an optional borrowed string.
pub open spec fn opt_ref_view(value: Option<&String>) -> Option<Seq<char>> {
    match value {
        Some(s) => Some(s@),
        None => None,
    }
}

/// Copies an optional string.
pub fn clone_opt(value: &Option<String>) -> (res: Option<String>)
    ensures
        opt_view(res) == opt_view(*value),
{
    match value {
        Some(s) => Some(s.clone()),
        None => None,
    }
}

/// One row of the tag relation.
#[derive(Debug, PartialEq, Eq)]
pub struct Record {
    id: String,
    name: Option<String>,
    summary: Option<String>,
}

impl View for Record {
    type V = TagView;

    closed spec fn view(&self) -> TagView {
        TagView { id: self.id@, name: opt_view(self.name), summary: opt_view(self.summary) }
    }
}

impl Clone for Record {
    fn clone(&self) -> (res: Self)
        ensures
            res@ == self@,
    {
        Record {
            id: self.id.clone(),
            name: clone_opt(&self.name),
            summary: clone_opt(&self.summary),
        }
    }
}

impl Record {
    pub fn new(id: String, name: Option<String>, summary: Option<String>) -> (res: Self)
        ensures
            res@ == (TagView { id: id@, name: opt_view(name), summary: opt_view(summary) }),
    {
        Self { id, name, summary }
    }

    pub fn id(&self) -> (res: &String)
        ensures
            res@ == self@.id,
    {
        &self.id
    }

    pub fn name(&self) -> (res: Option<&String>)
        ensures
            opt_ref_view(res) == self@.name,
    {
        self.name.as_ref()
    }

    pub fn summary(&self) -> (res: Option<&String>)
        ensures
            opt_ref_view(res) == self@.summary,
    {
        self.summary.as_ref()
    }

    /// The column names of the tag relation, in their order.
    pub fn header() -> (res: Vec<String>)
        ensures
            texts(res@) == tag_header(),
    {
        let mut names: Vec<String> = Vec::new();
        names.push("id".to_owned());
        names.push("name".to_owned());
        names.push("summary".to_owned());
        assert(texts(names@) =~= tag_header());
        names
    }

    /// The record that a row of three fields stands for. An empty name or
    /// summary is absent.
    pub fn from_row(row: &Vec<String>) -> (res: Option<Record>)
        ensures
            row@.len() != 3 ==> res.is_none(),
            row@.len() == 3 ==> res.is_some() && res.unwrap()@ == tag_of_row(texts(row@)),
    {
        if row.len() != 3 {
            return None;
        }
        Some(Record { id: row[0].clone(), name: optional(&row[1]), summary: optional(&row[2]) })
    }

    /// The row of three fields that stands for the record. An absent name or
    /// summary is an empty field.
    pub fn to_row(&self) -> (res: Vec<String>)
        ensures
            texts(res@) == row_of_tag(self@),
    {
        let mut row: Vec<String> = Vec::new();
        row.push(self.id.clone());
        row.push(or_blank(&self.name));
        row.push(or_blank(&self.summary));
        assert(texts(row@) =~= row_of_tag(self@));
        row
    }

    /// The text shown for a tag: its identifier.
    pub fn to_string(&self) -> (res: String)
        ensures
            res@ == self@.id,
    {
        self.id.clone()
    }
}

/// The column names of the tag relation.
pub open spec fn tag_header() -> Seq<Seq<char>> {
    seq!["id"@, "name"@, "summary"@]
}

/// The tag that a row of three fields stands for.
pub open spec fn tag_of_row(row: Seq<Seq<char>>) -> TagView {
    TagView { id: row[0], name: blank_to_none(row[1]), summary: blank_to_none(row[2]) }
}

/// The row of three fields that stands for a tag.
pub open spec fn row_of_tag(tag: TagView) -> Seq<Seq<char>> {
    seq![tag.id, none_to_blank(tag.name), none_to_blank(tag.summary)]
}

/// Reading a row and writing the record back gives the row again: an empty
/// summary is read as absent, and an absent summary is written as empty.
pub proof fn lemma_tag_row_round_trip(row: Seq<Seq<char>>)
    requires
        row.len() == 3,
    ensures
        row_of_tag(tag_of_row(row)) == row,
        row[2].len() == 0 ==> tag_of_row(row).summary.is_none(),
        tag_of_row(row).summary.is_none() ==> row_of_tag(tag_of_row(row))[2].len() == 0,
{
    let back = row_of_tag(tag_of_row(row));
    assert(back[1] =~= row[1]);
    assert(back[2] =~= row[2]);
    assert(back =~= row);
}

/// Writing a record and reading the row back gives the record again, unless
/// it holds an empty text where it could hold none.
pub proof fn lemma_tag_record_round_trip(tag: TagView)
    requires
        tag.name != Some(Seq::<char>::empty()),
        tag.summary != Some(Seq::<char>::empty()),
    ensures
        tag_of_row(row_of_tag(tag)) == tag,
{
    let back = tag_of_row(row_of_tag(tag));
    if tag.name.is_some() {
        assert(tag.name.unwrap().len() != 0) by {
            if tag.name.unwrap().len() == 0 {
                assert(tag.name.unwrap() =~= Seq::<char>::empty());
            }
        }
    }
    if tag.summary.is_some() {
        assert(tag.summary.unwrap().len() != 0) by {
            if tag.summary.unwrap().len() == 0 {
                assert(tag.summary.unwrap() =~= Seq::<char>::empty());
            }
        }
    }
}

/// Why a tag could not be read or staged.
#[derive(Debug)]
pub enum TagError {
    /// A tag with this identifier already exists.
    Duplicate(String),
    /// The CSV text could not be read.
    Csv(csv::Error),
    /// The first row does not hold the column names `id,name,summary`.
    Header,
    /// The row at this place, counted from the header at 0, has not three fields.
    Row(usize),
}

} // verus!
