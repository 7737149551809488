//! Things: the bookmarked entities of the collection.

use vstd::prelude::*;
use crate::table::blank_to_none;
use crate::table::none_to_blank;
use crate::table::optional;
use crate::table::or_blank;
use crate::table::trim;
use crate::table::trimmed;
use crate::tag::clone_opt;
use crate::tag::opt_view;
use crate::text::lemma_text_lt_irreflexive;
use crate::text::lemma_text_lt_total;
use crate::text::lemma_text_lt_transitive;
use crate::text::less_than;
use crate::text::same_text;
use crate::text::text_lt;
use crate::text::texts;

verus! {

/// What a thing record holds, as mathematical values.
pub struct RecordView {
    pub url: Seq<char>,
    pub name: Seq<char>,
    pub summary: Option<Seq<char>>,
    pub category_id: Seq<char>,
}

/// One row of the thing relation.
#[derive(Debug, PartialEq, Eq, PartialOrd, Ord)]
pub struct Record {
    url: String,
    name: String,
    summary: Option<String>,
    category_id: String,
}

impl View for Record {
    type V = RecordView;

    closed spec fn view(&self) -> RecordView {
        RecordView {
            url: self.url@,
            name: self.name@,
            summary: opt_view(self.summary),
            category_id: self.category_id@,
        }
    }
}

impl Clone for Record {
    fn clone(&self) -> (res: Self)
        ensures
            res@ == self@,
    {
        Record {
            url: self.url.clone(),
            name: self.name.clone(),
            summary: clone_opt(&self.summary),
            category_id: self.category_id.clone(),
        }
    }
}

impl Record {
    pub fn new(url: String, name: String, summary: Option<String>, category_id: String) -> (res:
        Self)
        ensures
            res@ == (RecordView {
                url: url@,
                name: name@,
                summary: opt_view(summary),
                category_id: category_id@,
            }),
    {
        Self { url, name, summary, category_id }
    }

    pub fn url(&self) -> (res: &str)
        ensures
            res@ == self@.url,
    {
        self.url.as_str()
    }

    pub fn name(&self) -> (res: &str)
        ensures
            res@ == self@.name,
    {
        self.name.as_str()
    }

    pub fn summary(&self) -> (res: Option<String>)
        ensures
            opt_view(res) == self@.summary,
    {
        clone_opt(&self.summary)
    }

    pub fn category_id(&self) -> (res: &String)
        ensures
            res@ == self@.category_id,
    {
        &self.category_id
    }

    /// The column names of the thing relation, in their order.
    pub fn header() -> (res: Vec<String>)
        ensures
            texts(res@) == thing_header(),
    {
        let mut names: Vec<String> = Vec::new();
        names.push("url".to_owned());
        names.push("name".to_owned());
        names.push("summary".to_owned());
        names.push("category_id".to_owned());
        assert(texts(names@) =~= thing_header());
        names
    }

    /// The record that a row of four fields stands for. An empty summary is
    /// absent.
    pub fn from_row(row: &Vec<String>) -> (res: Option<Record>)
        ensures
            row@.len() != 4 ==> res.is_none(),
            row@.len() == 4 ==> res.is_some() && res.unwrap()@ == thing_of_row(texts(row@)),
    {
        if row.len() != 4 {
            return None;
        }
        Some(
            Record {
                url: row[0].clone(),
                name: row[1].clone(),
                summary: optional(&row[2]),
                category_id: row[3].clone(),
            },
        )
    }

    /// The record that a row of four fields stands for, read leniently: a
    /// summary of nothing but whitespace is absent, and any other is kept
    /// without the whitespace around it.
    pub fn from_row_trimmed(row: &Vec<String>) -> (res: Option<Record>)
        ensures
            row@.len() != 4 ==> res.is_none(),
            row@.len() == 4 ==> res.is_some() && res.unwrap()@ == thing_of_row_trimmed(
                texts(row@),
            ),
    {
        if row.len() != 4 {
            return None;
        }
        let text = trim(row[2].as_str());
        let summary = if text.as_str().is_empty() {
            None
        } else {
            Some(text)
        };
        Some(
            Record {
                url: row[0].clone(),
                name: row[1].clone(),
                summary,
                category_id: row[3].clone(),
            },
        )
    }

    /// The row of four fields that stands for the record. An absent summary
    /// is an empty field.
    pub fn to_row(&self) -> (res: Vec<String>)
        ensures
            texts(res@) == row_of_thing(self@),
    {
        let mut row: Vec<String> = Vec::new();
        row.push(self.url.clone());
        row.push(self.name.clone());
        row.push(or_blank(&self.summary));
        row.push(self.category_id.clone());
        assert(texts(row@) =~= row_of_thing(self@));
        row
    }

    /// Whether the thing comes before another: by URL, then by name, then
    /// by summary, then by category.
    pub fn comes_before(&self, other: &Record) -> (res: bool)
        ensures
            res == record_lt(self@, other@),
    {
        if !same_text(&self.url, &other.url) {
            return less_than(&self.url, &other.url);
        }
        if !same_text(&self.name, &other.name) {
            return less_than(&self.name, &other.name);
        }
        match (&self.summary, &other.summary) {
            (None, None) => {},
            (None, Some(_)) => {
                return true;
            },
            (Some(_), None) => {
                return false;
            },
            (Some(x), Some(y)) => {
                if !same_text(x, y) {
                    return less_than(x, y);
                }
            },
        }
        less_than(&self.category_id, &other.category_id)
    }

    /// The text shown for a thing: its name.
    pub fn to_string(&self) -> (res: String)
        ensures
            res@ == self@.name,
    {
        self.name.clone()
    }
}

/// Whether an optional text comes before another: an absent one comes
/// before every text, and texts come in their own order.
pub open spec fn opt_lt(a: Option<Seq<char>>, b: Option<Seq<char>>) -> bool {
    match (a, b) {
        (None, Some(_)) => true,
        (Some(x), Some(y)) => text_lt(x, y),
        _ => false,
    }
}

/// Whether a thing comes before another: by URL, then by name, then by
/// summary, then by category.
pub open spec fn record_lt(a: RecordView, b: RecordView) -> bool {
    if a.url != b.url {
        text_lt(a.url, b.url)
    } else if a.name != b.name {
        text_lt(a.name, b.name)
    } else if a.summary != b.summary {
        opt_lt(a.summary, b.summary)
    } else {
        text_lt(a.category_id, b.category_id)
    }
}

/// No thing comes before itself.
pub proof fn lemma_record_lt_irreflexive(a: RecordView)
    ensures
        !record_lt(a, a),
{
    lemma_text_lt_irreflexive(a.category_id);
}

/// The order of things is transitive.
pub proof fn lemma_record_lt_transitive(a: RecordView, b: RecordView, c: RecordView)
    requires
        record_lt(a, b),
        record_lt(b, c),
    ensures
        record_lt(a, c),
{
    lemma_text_lt_irreflexive(a.url);
    lemma_text_lt_irreflexive(a.name);
    lemma_text_lt_irreflexive(a.category_id);
    if text_lt(a.url, b.url) && text_lt(b.url, c.url) {
        lemma_text_lt_transitive(a.url, b.url, c.url);
    }
    if text_lt(a.name, b.name) && text_lt(b.name, c.name) {
        lemma_text_lt_transitive(a.name, b.name, c.name);
    }
    if text_lt(a.category_id, b.category_id) && text_lt(b.category_id, c.category_id) {
        lemma_text_lt_transitive(a.category_id, b.category_id, c.category_id);
    }
    if a.summary.is_some() && b.summary.is_some() && c.summary.is_some() {
        let x = a.summary.unwrap();
        let y = b.summary.unwrap();
        let z = c.summary.unwrap();
        lemma_text_lt_irreflexive(x);
        if text_lt(x, y) && text_lt(y, z) {
            lemma_text_lt_transitive(x, y, z);
        }
    }
}

/// Of two different things one comes before the other.
pub proof fn lemma_record_lt_total(a: RecordView, b: RecordView)
    requires
        a != b,
    ensures
        record_lt(a, b) || record_lt(b, a),
{
    if a.url != b.url {
        lemma_text_lt_total(a.url, b.url);
    } else if a.name != b.name {
        lemma_text_lt_total(a.name, b.name);
    } else if a.summary != b.summary {
        if a.summary.is_some() && b.summary.is_some() {
            lemma_text_lt_total(a.summary.unwrap(), b.summary.unwrap());
        }
    } else {
        lemma_text_lt_total(a.category_id, b.category_id);
    }
}

/// The column names of the thing relation.
pub open spec fn thing_header() -> Seq<Seq<char>> {
    seq!["url"@, "name"@, "summary"@, "category_id"@]
}

/// The summary that a field stands for when it is read without the
/// whitespace around it.
pub open spec fn summary_of_field(field: Seq<char>) -> Option<Seq<char>> {
    if trimmed(field).len() == 0 {
        None
    } else {
        Some(trimmed(field))
    }
}

/// The thing record that a row of four fields stands for.
pub open spec fn thing_of_row(row: Seq<Seq<char>>) -> RecordView {
    RecordView { url: row[0], name: row[1], summary: blank_to_none(row[2]), category_id: row[3] }
}

/// The thing record that a row of four fields stands for when its summary is
/// read without the whitespace around it.
pub open spec fn thing_of_row_trimmed(row: Seq<Seq<char>>) -> RecordView {
    RecordView { url: row[0], name: row[1], summary: summary_of_field(row[2]), category_id: row[3] }
}

/// Reading a row and writing the record back gives the row again.
pub proof fn lemma_thing_row_round_trip(row: Seq<Seq<char>>)
    requires
        row.len() == 4,
    ensures
        row_of_thing(thing_of_row(row)) == row,
        row[2].len() == 0 ==> thing_of_row(row).summary.is_none(),
{
    let back = row_of_thing(thing_of_row(row));
    assert(back[2] =~= row[2]);
    assert(back =~= row);
}

/// Writing a record and reading the row back gives the record again, unless
/// its summary is an empty text where it could be absent.
pub proof fn lemma_thing_record_round_trip(thing: RecordView)
    requires
        thing.summary != Some(Seq::<char>::empty()),
    ensures
        thing_of_row(row_of_thing(thing)) == thing,
{
    if thing.summary.is_some() {
        assert(thing.summary.unwrap().len() != 0) by {
            if thing.summary.unwrap().len() == 0 {
                assert(thing.summary.unwrap() =~= Seq::<char>::empty());
            }
        }
    }
}

/// The row of four fields that stands for a thing record.
pub open spec fn row_of_thing(thing: RecordView) -> Seq<Seq<char>> {
    seq![thing.url, thing.name, none_to_blank(thing.summary), thing.category_id]
}

/// What a thing with its tags holds, as mathematical values.
pub struct ThingView {
    pub url: Seq<char>,
    pub name: Seq<char>,
    pub summary: Option<Seq<char>>,
    pub category: Seq<char>,
    pub tags: Seq<Seq<char>>,
}

/// A self contained thing: its record together with the tags joined to it.
#[derive(Debug, PartialEq, Eq, PartialOrd, Ord)]
pub struct Thing {
    pub url: String,
    pub name: String,
    pub summary: Option<String>,
    pub category: String,
    pub tags: Vec<String>,
}

impl View for Thing {
    type V = ThingView;

    open spec fn view(&self) -> ThingView {
        ThingView {
            url: self.url@,
            name: self.name@,
            summary: opt_view(self.summary),
            category: self.category@,
            tags: texts(self.tags@),
        }
    }
}

/// Copies a list of strings.
pub fn clone_texts(list: &Vec<String>) -> (res: Vec<String>)
    ensures
        texts(res@) == texts(list@),
{
    let mut out: Vec<String> = Vec::new();
    let mut i: usize = 0;
    while i < list.len()
        invariant
            i <= list@.len(),
            out@.len() == i,
            forall|k: int| 0 <= k < i ==> out@[k]@ == list@[k]@,
        decreases list@.len() - i,
    {
        out.push(list[i].clone());
        i += 1;
    }
    assert(texts(out@) =~= texts(list@));
    out
}

impl Clone for Thing {
    fn clone(&self) -> (res: Self)
        ensures
            res@ == self@,
    {
        Thing {
            url: self.url.clone(),
            name: self.name.clone(),
            summary: clone_opt(&self.summary),
            category: self.category.clone(),
            tags: clone_texts(&self.tags),
        }
    }
}

/// Why a thing could not be built, read or staged.
#[derive(Debug)]
pub enum ThingError {
    /// A thing with this URL already exists.
    Duplicate(String),
    /// The CSV text could not be read.
    Csv(csv::Error),
    /// 'url' is a required field.
    MissingUrl,
    /// 'name' is a required field.
    MissingName,
    /// 'category_id' is a required field.
    MissingCategory,
    /// The first row does not hold the column names `url,name,summary,category_id`.
    Header,
    /// The row at this place, counted from the header at 0, has not four fields.
    Row(usize),
}

/// Collects the fields of a new thing one by one. Only `build` can fail.
#[derive(Debug)]
pub struct NewThingBuilder {
    pub url: Option<String>,
    pub name: Option<String>,
    pub summary: Option<String>,
    pub category: Option<String>,
    pub tags: Vec<String>,
}

impl NewThingBuilder {
    pub fn new() -> (res: Self)
        ensures
            res.url.is_none(),
            res.name.is_none(),
            res.summary.is_none(),
            res.category.is_none(),
            res.tags@.len() == 0,
    {
        NewThingBuilder { url: None, name: None, summary: None, category: None, tags: Vec::new() }
    }

    pub fn url(self, value: String) -> (res: Self)
        ensures
            res == (NewThingBuilder { url: Some(value), ..self }),
    {
        NewThingBuilder { url: Some(value), ..self }
    }

    pub fn name(self, value: String) -> (res: Self)
        ensures
            res == (NewThingBuilder { name: Some(value), ..self }),
    {
        NewThingBuilder { name: Some(value), ..self }
    }

    pub fn summary(self, value: String) -> (res: Self)
        ensures
            res == (NewThingBuilder { summary: Some(value), ..self }),
    {
        NewThingBuilder { summary: Some(value), ..self }
    }

    pub fn category(self, value: String) -> (res: Self)
        ensures
            res == (NewThingBuilder { category: Some(value), ..self }),
    {
        NewThingBuilder { category: Some(value), ..self }
    }

    pub fn tags(self, value: Vec<String>) -> (res: Self)
        ensures
            res == (NewThingBuilder { tags: value, ..self }),
    {
        NewThingBuilder { tags: value, ..self }
    }

    /// The thing made of the fields given so far. The first of url, name and
    /// category that is absent is reported; summary and tags may be absent.
    pub fn build(self) -> (res: Result<Thing, ThingError>)
        ensures
            self.url.is_none() ==> res == Err::<Thing, ThingError>(ThingError::MissingUrl),
            self.url.is_some() && self.name.is_none() ==> res == Err::<Thing, ThingError>(
                ThingError::MissingName,
            ),
            self.url.is_some() && self.name.is_some() && self.category.is_none() ==> res == Err::<
                Thing,
                ThingError,
            >(ThingError::MissingCategory),
            self.url.is_some() && self.name.is_some() && self.category.is_some() ==> res == Ok::<
                Thing,
                ThingError,
            >(
                Thing {
                    url: self.url.unwrap(),
                    name: self.name.unwrap(),
                    summary: self.summary,
                    category: self.category.unwrap(),
                    tags: self.tags,
                },
            ),
    {
        let url = match self.url {
            Some(value) => value,
            None => {
                return Err(ThingError::MissingUrl);
            },
        };
        let name = match self.name {
            Some(value) => value,
            None => {
                return Err(ThingError::MissingName);
            },
        };
        let category = match self.category {
            Some(value) => value,
            None => {
                return Err(ThingError::MissingCategory);
            },
        };
        Ok(Thing { url, name, summary: self.summary, category, tags: self.tags })
    }
}

} // verus!
