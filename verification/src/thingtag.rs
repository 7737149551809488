//! The relation between things and tags.

use vstd::prelude::*;
use crate::text::texts;

verus! {

/// One row of the relation between a thing and a tag.
#[derive(Debug, PartialEq, Eq)]
pub struct Thingtag {
    thing_id: String,
    tag_id: String,
}

impl View for Thingtag {
    type V = (Seq<char>, Seq<char>);

    closed spec fn view(&self) -> (Seq<char>, Seq<char>) {
        (self.thing_id@, self.tag_id@)
    }
}

impl Clone for Thingtag {
    fn clone(&self) -> (res: Self)
        ensures
            res@ == self@,
    {
        Thingtag { thing_id: self.thing_id.clone(), tag_id: self.tag_id.clone() }
    }
}

impl Thingtag {
    pub fn new(thing_id: String, tag_id: String) -> (res: Self)
        ensures
            res@ == (thing_id@, tag_id@),
    {
        Self { thing_id, tag_id }
    }

    /// The column names of the relation, in their order.
    pub fn header() -> (res: Vec<String>)
        ensures
            texts(res@) == thingtag_header(),
    {
        let mut names: Vec<String> = Vec::new();
        names.push("thing_id".to_owned());
        names.push("tag_id".to_owned());
        assert(texts(names@) =~= thingtag_header());
        names
    }

    /// The relation row that a row of two fields stands for.
    pub fn from_row(row: &Vec<String>) -> (res: Option<Thingtag>)
        ensures
            row@.len() != 2 ==> res.is_none(),
            row@.len() == 2 ==> res.is_some() && res.unwrap()@ == thingtag_of_row(texts(row@)),
    {
        if row.len() != 2 {
            return None;
        }
        Some(Thingtag { thing_id: row[0].clone(), tag_id: row[1].clone() })
    }

    /// The row of two fields that stands for the relation row.
    pub fn to_row(&self) -> (res: Vec<String>)
        ensures
            texts(res@) == row_of_thingtag(self@),
    {
        let mut row: Vec<String> = Vec::new();
        row.push(self.thing_id.clone());
        row.push(self.tag_id.clone());
        assert(texts(row@) =~= row_of_thingtag(self@));
        row
    }

    pub fn thing_id(&self) -> (res: &str)
        ensures
            res@ == self@.0,
    {
        self.thing_id.as_str()
    }

    pub fn tag_id(&self) -> (res: &String)
        ensures
            res@ == self@.1,
    {
        &self.tag_id
    }
}

/// The column names of the relation.
pub open spec fn thingtag_header() -> Seq<Seq<char>> {
    seq!["thing_id"@, "tag_id"@]
}

/// The relation row that a row of two fields stands for.
pub open spec fn thingtag_of_row(row: Seq<Seq<char>>) -> (Seq<char>, Seq<char>) {
    (row[0], row[1])
}

/// The row of two fields that stands for a relation row.
pub open spec fn row_of_thingtag(pair: (Seq<char>, Seq<char>)) -> Seq<Seq<char>> {
    seq![pair.0, pair.1]
}

/// Reading a row and writing the relation row back gives the row again, and
/// the other way round.
pub proof fn lemma_thingtag_row_round_trip(row: Seq<Seq<char>>, pair: (Seq<char>, Seq<char>))
    requires
        row.len() == 2,
    ensures
        row_of_thingtag(thingtag_of_row(row)) == row,
        thingtag_of_row(row_of_thingtag(pair)) == pair,
{
    assert(row_of_thingtag(thingtag_of_row(row)) =~= row);
}

/// Why a relation row could not be read.
#[derive(Debug)]
pub enum ThingtagError {
    /// The relation row of this thing and this tag already exists.
    Duplicate(String, String),
    /// The CSV text could not be read.
    Csv(csv::Error),
    /// The first row does not hold the column names `thing_id,tag_id`.
    Header,
    /// The row at this place, counted from the header at 0, has not two fields.
    Row(usize),
}

} // verus!
