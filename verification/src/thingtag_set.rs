//! Lists of relation rows between things and tags.

use vstd::prelude::*;
use crate::table::csv_rows;
use crate::table::first_bad_row;
use crate::table::first_uneven;
use crate::table::header_ok;
use crate::table::read_rows;
use crate::table::row_is;
use crate::table::rows_even;
use crate::table::tables;
use crate::text::views;
use crate::thingtag::Thingtag;
use crate::thingtag::thingtag_header;
use crate::thingtag::thingtag_of_row;
use crate::thingtag::ThingtagError;

verus! {

/// A list of relation rows, in the order in which they were given or read.
#[derive(Debug)]
pub struct ThingtagSet(Vec<Thingtag>);

impl View for ThingtagSet {
    type V = Seq<(Seq<char>, Seq<char>)>;

    closed spec fn view(&self) -> Seq<(Seq<char>, Seq<char>)> {
        views(self.0@)
    }
}

/// The relation rows below the header of a table.
pub open spec fn thingtags_of_table(table: Seq<Seq<Seq<char>>>) -> Seq<(Seq<char>, Seq<char>)> {
    Seq::new((table.len() - 1) as nat, |i: int| thingtag_of_row(table[i + 1]))
}

/// What reading a table of relation rows gives: the rows below a well-formed header,
/// or the first fault of the table.
pub open spec fn thingtag_set_outcome(table: Seq<Seq<Seq<char>>>, res: Result<ThingtagSet, ThingtagError>) -> bool {
    if !header_ok(table, thingtag_header()) {
        res matches Err(ThingtagError::Header)
    } else if !rows_even(table, 2) {
        res matches Err(ThingtagError::Row(i)) && first_bad_row(table, 2, i as int)
    } else {
        res matches Ok(set) && set@ == thingtags_of_table(table)
    }
}

/// Copies a list of relation rows.
pub fn clone_thingtags(list: &Vec<Thingtag>) -> (res: Vec<Thingtag>)
    ensures
        views(res@) == views(list@),
{
    let mut out: Vec<Thingtag> = Vec::new();
    let mut i: usize = 0;
    while i < list.len()
        invariant
            i <= list@.len(),
            out@.len() == i,
            forall|k: int| 0 <= k < i ==> out@[k]@ == list@[k]@,
        decreases list@.len() - i,
    {
        out.push(list[i].clone());
        i += 1;
    }
    assert(views(out@) =~= views(list@));
    out
}

impl ThingtagSet {
    pub fn new(raw: Vec<Thingtag>) -> (res: Self)
        ensures
            res@ == views(raw@),
    {
        Self(raw)
    }

    pub fn as_slice(&self) -> (res: &[Thingtag])
        ensures
            views(res@) == self@,
    {
        self.0.as_slice()
    }

    pub fn to_vec(&self) -> (res: Vec<Thingtag>)
        ensures
            views(res@) == self@,
    {
        clone_thingtags(&self.0)
    }

    pub fn len(&self) -> (res: usize)
        ensures
            res == self@.len(),
    {
        self.0.len()
    }

    pub fn first(&self) -> (res: Option<&Thingtag>)
        ensures
            match res {
                Some(row) => self@.len() > 0 && row@ == self@[0],
                None => self@.len() == 0,
            },
    {
        if self.0.len() == 0 {
            None
        } else {
            Some(&self.0[0])
        }
    }

    /// The relation rows of a table whose first row is the header `thing_id,tag_id`.
    pub fn from_rows(rows: &Vec<Vec<String>>) -> (res: Result<Self, ThingtagError>)
        ensures
            thingtag_set_outcome(tables(rows@), res),
    {
        let header = Thingtag::header();
        if rows.len() == 0 || !row_is(&rows[0], &header) {
            return Err(ThingtagError::Header);
        }
        if let Some(bad) = first_uneven(rows, 1, 2) {
            assert(tables(rows@)[bad as int].len() != 2);
            return Err(ThingtagError::Row(bad));
        }
        let mut set: Vec<Thingtag> = Vec::new();
        let mut i: usize = 1;
        while i < rows.len()
            invariant
                1 <= i <= rows@.len(),
                set@.len() == i - 1,
                forall|k: int| 1 <= k < rows@.len() ==> (#[trigger] rows@[k])@.len() == 2,
                forall|k: int| 0 <= k < i - 1 ==> set@[k]@ == thingtag_of_row(tables(rows@)[k + 1]),
            decreases rows@.len() - i,
        {
            match Thingtag::from_row(&rows[i]) {
                Some(record) => {
                    set.push(record);
                },
                None => {
                    assert(false);
                },
            }
            i += 1;
        }
        assert(views(set@) =~= thingtags_of_table(tables(rows@)));
        Ok(Self(set))
    }

    /// Reads a list of relation rows from CSV text with a header row.
    pub fn from_reader(data: &[u8]) -> (res: Result<Self, ThingtagError>)
        ensures
            match csv_rows(data@) {
                Some(table) => thingtag_set_outcome(table, res),
                None => res matches Err(ThingtagError::Csv(_)),
            },
    {
        match read_rows(data) {
            Ok(rows) => Self::from_rows(&rows),
            Err(e) => Err(ThingtagError::Csv(e)),
        }
    }
}

} // verus!
