//! Lists of tags.

use vstd::prelude::*;
use crate::table::csv_rows;
use crate::table::first_bad_row;
use crate::table::first_uneven;
use crate::table::header_ok;
use crate::table::read_rows;
use crate::table::row_is;
use crate::table::rows_even;
use crate::table::tables;
use crate::tag::Record;
use crate::tag::tag_header;
use crate::tag::tag_of_row;
use crate::tag::TagError;
use crate::tag::TagView;
use crate::text::join;
use crate::text::joined;
use crate::text::texts;
use crate::text::views;

verus! {

/// A list of tags, in the order in which they were given or read.
#[derive(Debug)]
pub struct TagSet(Vec<Record>);

impl View for TagSet {
    type V = Seq<TagView>;

    closed spec fn view(&self) -> Seq<TagView> {
        views(self.0@)
    }
}

/// The tags below the header of a table.
pub open spec fn tags_of_table(table: Seq<Seq<Seq<char>>>) -> Seq<TagView> {
    Seq::new((table.len() - 1) as nat, |i: int| tag_of_row(table[i + 1]))
}

/// What reading a table of tags gives: the tags below a well-formed header,
/// or the first fault of the table.
pub open spec fn tag_set_outcome(table: Seq<Seq<Seq<char>>>, res: Result<TagSet, TagError>) -> bool {
    if !header_ok(table, tag_header()) {
        res matches Err(TagError::Header)
    } else if !rows_even(table, 3) {
        res matches Err(TagError::Row(i)) && first_bad_row(table, 3, i as int)
    } else {
        res matches Ok(set) && set@ == tags_of_table(table)
    }
}

/// Copies a list of tags.
pub fn clone_tags(list: &Vec<Record>) -> (res: Vec<Record>)
    ensures
        views(res@) == views(list@),
{
    let mut out: Vec<Record> = Vec::new();
    let mut i: usize = 0;
    while i < list.len()
        invariant
            i <= list@.len(),
            out@.len() == i,
            forall|k: int| 0 <= k < i ==> out@[k]@ == list@[k]@,
        decreases list@.len() - i,
    {
        out.push(list[i].clone());
        i += 1;
    }
    assert(views(out@) =~= views(list@));
    out
}

impl TagSet {
    pub fn new(raw: Vec<Record>) -> (res: Self)
        ensures
            res@ == views(raw@),
    {
        Self(raw)
    }

    pub fn as_slice(&self) -> (res: &[Record])
        ensures
            views(res@) == self@,
    {
        self.0.as_slice()
    }

    pub fn to_vec(&self) -> (res: Vec<Record>)
        ensures
            views(res@) == self@,
    {
        clone_tags(&self.0)
    }

    pub fn len(&self) -> (res: usize)
        ensures
            res == self@.len(),
    {
        self.0.len()
    }

    pub fn first(&self) -> (res: Option<&Record>)
        ensures
            match res {
                Some(tag) => self@.len() > 0 && tag@ == self@[0],
                None => self@.len() == 0,
            },
    {
        if self.0.len() == 0 {
            None
        } else {
            Some(&self.0[0])
        }
    }

    /// The tags of a table whose first row is the header `id,name,summary`.
    pub fn from_rows(rows: &Vec<Vec<String>>) -> (res: Result<Self, TagError>)
        ensures
            tag_set_outcome(tables(rows@), res),
    {
        let header = Record::header();
        if rows.len() == 0 || !row_is(&rows[0], &header) {
            return Err(TagError::Header);
        }
        if let Some(bad) = first_uneven(rows, 1, 3) {
            assert(tables(rows@)[bad as int].len() != 3);
            return Err(TagError::Row(bad));
        }
        let mut set: Vec<Record> = Vec::new();
        let mut i: usize = 1;
        while i < rows.len()
            invariant
                1 <= i <= rows@.len(),
                set@.len() == i - 1,
                forall|k: int| 1 <= k < rows@.len() ==> (#[trigger] rows@[k])@.len() == 3,
                forall|k: int| 0 <= k < i - 1 ==> set@[k]@ == tag_of_row(tables(rows@)[k + 1]),
            decreases rows@.len() - i,
        {
            match Record::from_row(&rows[i]) {
                Some(record) => {
                    set.push(record);
                },
                None => {
                    assert(false);
                },
            }
            i += 1;
        }
        assert(views(set@) =~= tags_of_table(tables(rows@)));
        Ok(Self(set))
    }

    /// The identifiers of the tags, in their order.
    pub fn labels(&self) -> (res: Vec<String>)
        ensures
            texts(res@) == Seq::new(self@.len(), |i: int| self@[i].id),
    {
        let mut out: Vec<String> = Vec::new();
        let mut i: usize = 0;
        while i < self.0.len()
            invariant
                i <= self.0@.len(),
                out@.len() == i,
                forall|k: int| 0 <= k < i ==> out@[k]@ == self.0@[k]@.id,
            decreases self.0@.len() - i,
        {
            out.push(self.0[i].id().clone());
            i += 1;
        }
        assert(texts(out@) =~= Seq::new(self@.len(), |i: int| self@[i].id));
        out
    }

    /// The identifiers of the tags on one line, with `;` between them.
    pub fn to_string(&self) -> (res: String)
        ensures
            res@ == joined(Seq::new(self@.len(), |i: int| self@[i].id), ";"@),
    {
        join(&self.labels(), ";")
    }

    /// The identifiers of the tags, one on each line.
    pub fn to_lines(&self) -> (res: String)
        ensures
            res@ == joined(Seq::new(self@.len(), |i: int| self@[i].id), "\n"@),
    {
        join(&self.labels(), "\n")
    }

    /// Reads a list of tags from CSV text with a header row.
    pub fn from_reader(data: &[u8]) -> (res: Result<Self, TagError>)
        ensures
            match csv_rows(data@) {
                Some(table) => tag_set_outcome(table, res),
                None => res matches Err(TagError::Csv(_)),
            },
    {
        match read_rows(data) {
            Ok(rows) => Self::from_rows(&rows),
            Err(e) => Err(TagError::Csv(e)),
        }
    }
}

} // verus!
