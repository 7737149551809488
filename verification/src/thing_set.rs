//! Lists of things.

use vstd::prelude::*;
use vstd::seq_lib::to_multiset_build;
use vstd::seq_lib::to_multiset_insert;
use crate::table::csv_rows;
use crate::table::first_bad_row;
use crate::table::first_uneven;
use crate::table::header_ok;
use crate::table::read_rows;
use crate::table::row_is;
use crate::table::rows_even;
use crate::table::tables;
use crate::text::join;
use crate::text::joined;
use crate::text::texts;
use crate::text::views;
use crate::thing::Record;
use crate::thing::RecordView;
use crate::thing::lemma_record_lt_irreflexive;
use crate::thing::lemma_record_lt_transitive;
use crate::thing::record_lt;
use crate::thing::thing_header;
use crate::thing::thing_of_row;
use crate::thing::thing_of_row_trimmed;
use crate::thing::ThingError;

verus! {

/// A list of things, in the order in which they were given, or in the order
/// of things where they were read.
#[derive(Debug)]
pub struct ThingSet(Vec<Record>);

impl View for ThingSet {
    type V = Seq<RecordView>;

    closed spec fn view(&self) -> Seq<RecordView> {
        views(self.0@)
    }
}

/// The things below the header of a table.
pub open spec fn things_of_table(table: Seq<Seq<Seq<char>>>) -> Seq<RecordView> {
    Seq::new((table.len() - 1) as nat, |i: int| thing_of_row(table[i + 1]))
}

/// No thing comes after one that comes behind it in the order of things: by
/// URL, then by name, then by summary, then by category.
pub open spec fn in_order(list: Seq<RecordView>) -> bool {
    forall|i: int, j: int| 0 <= i < j < list.len() ==> !record_lt(#[trigger] list[j], #[trigger] list[i])
}

/// The things below the header of a table, each summary read without the
/// whitespace around it.
pub open spec fn things_of_table_trimmed(table: Seq<Seq<Seq<char>>>) -> Seq<RecordView> {
    Seq::new((table.len() - 1) as nat, |i: int| thing_of_row_trimmed(table[i + 1]))
}

/// What reading a table of things gives: the things below a well-formed
/// header, in the order of things, or the first fault of the table.
pub open spec fn thing_set_outcome(table: Seq<Seq<Seq<char>>>, res: Result<ThingSet, ThingError>) -> bool {
    if !header_ok(table, thing_header()) {
        res matches Err(ThingError::Header)
    } else if !rows_even(table, 4) {
        res matches Err(ThingError::Row(i)) && first_bad_row(table, 4, i as int)
    } else {
        res matches Ok(set) && in_order(set@) && set@.to_multiset() == things_of_table_trimmed(
            table,
        ).to_multiset()
    }
}

/// What reading the rows of a table of things gives: the things below a
/// well-formed header, in the order of the rows, or the first fault of the
/// table. Where `trimmed` is set each summary is read without the whitespace
/// around it.
pub open spec fn thing_rows_outcome(
    table: Seq<Seq<Seq<char>>>,
    trimmed: bool,
    res: Result<Vec<Record>, ThingError>,
) -> bool {
    if !header_ok(table, thing_header()) {
        res matches Err(ThingError::Header)
    } else if !rows_even(table, 4) {
        res matches Err(ThingError::Row(i)) && first_bad_row(table, 4, i as int)
    } else {
        res matches Ok(list) && views(list@) == if trimmed {
            things_of_table_trimmed(table)
        } else {
            things_of_table(table)
        }
    }
}

/// The things of a table whose first row is the header
/// `url,name,summary,category_id`, in the order of the rows. Where `trimmed`
/// is set each summary is read without the whitespace around it.
pub fn things_in_order(rows: &Vec<Vec<String>>, trimmed: bool) -> (res: Result<
    Vec<Record>,
    ThingError,
>)
    ensures
        thing_rows_outcome(tables(rows@), trimmed, res),
{
    let header = Record::header();
    if rows.len() == 0 || !row_is(&rows[0], &header) {
        return Err(ThingError::Header);
    }
    if let Some(bad) = first_uneven(rows, 1, 4) {
        assert(tables(rows@)[bad as int].len() != 4);
        return Err(ThingError::Row(bad));
    }
    let mut list: Vec<Record> = Vec::new();
    let mut i: usize = 1;
    while i < rows.len()
        invariant
            1 <= i <= rows@.len(),
            list@.len() == i - 1,
            forall|k: int| 1 <= k < rows@.len() ==> (#[trigger] rows@[k])@.len() == 4,
            forall|k: int|
                0 <= k < i - 1 ==> list@[k]@ == if trimmed {
                    thing_of_row_trimmed(tables(rows@)[k + 1])
                } else {
                    thing_of_row(tables(rows@)[k + 1])
                },
        decreases rows@.len() - i,
    {
        let read = if trimmed {
            Record::from_row_trimmed(&rows[i])
        } else {
            Record::from_row(&rows[i])
        };
        match read {
            Some(record) => {
                list.push(record);
            },
            None => {
                assert(false);
            },
        }
        i += 1;
    }
    if trimmed {
        assert(views(list@) =~= things_of_table_trimmed(tables(rows@)));
    } else {
        assert(views(list@) =~= things_of_table(tables(rows@)));
    }
    Ok(list)
}

/// The things in the order of things.
pub fn sort_things(list: Vec<Record>) -> (res: Vec<Record>)
    ensures
        in_order(views(res@)),
        views(res@).to_multiset() == views(list@).to_multiset(),
{
    let ghost all = views(list@);
    let mut set: Vec<Record> = Vec::new();
    let mut i: usize = 0;
    assert(all.take(0) =~= views(set@));
    while i < list.len()
        invariant
            i <= list@.len(),
            all == views(list@),
            in_order(views(set@)),
            views(set@).to_multiset() == all.take(i as int).to_multiset(),
        decreases list@.len() - i,
    {
        proof {
            assert(all.take(i + 1) =~= all.take(i as int).push(list@[i as int]@));
            to_multiset_build(all.take(i as int), list@[i as int]@);
        }
        insert_in_order(&mut set, list[i].clone());
        i += 1;
    }
    assert(all.take(i as int) =~= all);
    set
}

/// Copies a list of things.
pub fn clone_things(list: &Vec<Record>) -> (res: Vec<Record>)
    ensures
        views(res@) == views(list@),
{
    let mut out: Vec<Record> = Vec::new();
    let mut i: usize = 0;
    while i < list.len()
        invariant
            i <= list@.len(),
            out@.len() == i,
            forall|k: int| 0 <= k < i ==> out@[k]@ == list@[k]@,
        decreases list@.len() - i,
    {
        out.push(list[i].clone());
        i += 1;
    }
    assert(views(out@) =~= views(list@));
    out
}

/// Puts a thing behind the last one that does not come behind it.
pub fn insert_in_order(list: &mut Vec<Record>, item: Record)
    requires
        in_order(views(old(list)@)),
    ensures
        in_order(views(final(list)@)),
        views(final(list)@).to_multiset() == views(old(list)@).to_multiset().insert(item@),
{
    let ghost before = views(list@);
    let mut p: usize = 0;
    while p < list.len() && !item.comes_before(&list[p])
        invariant
            p <= list@.len(),
            list@ == old(list)@,
            before == views(list@),
            forall|k: int| 0 <= k < p ==> !record_lt(item@, #[trigger] before[k]),
        decreases list@.len() - p,
    {
        p += 1;
    }
    let ghost shown = item@;
    list.insert(p, item);
    proof {
        let after = views(list@);
        assert(after =~= before.insert(p as int, shown));
        to_multiset_insert(before, p as int, shown);
        assert forall|i: int, j: int| 0 <= i < j < after.len() implies !record_lt(
            #[trigger] after[j],
            #[trigger] after[i],
        ) by {
            assert(after[p as int] == shown);
            if i == p {
                // after[j] is an old element at or behind the place of insertion
                assert(after[j] == before[j - 1]);
                assert(record_lt(shown, before[p as int]));
                if record_lt(before[j - 1], shown) {
                    lemma_record_lt_transitive(before[j - 1], shown, before[p as int]);
                    if j - 1 == p {
                        lemma_record_lt_irreflexive(before[p as int]);
                    } else {
                        assert(!record_lt(before[j - 1], before[p as int]));
                    }
                }
            } else if j == p {
                assert(after[i] == before[i]);
            } else {
                let bi = if i < p { i } else { i - 1 };
                let bj = if j < p { j } else { j - 1 };
                assert(after[i] == before[bi] && after[j] == before[bj]);
            }
        }
    }
}

impl ThingSet {
    pub fn new(raw: Vec<Record>) -> (res: Self)
        ensures
            res@ == views(raw@),
    {
        Self(raw)
    }

    pub fn as_slice(&self) -> (res: &[Record])
        ensures
            views(res@) == self@,
    {
        self.0.as_slice()
    }

    pub fn to_vec(&self) -> (res: Vec<Record>)
        ensures
            views(res@) == self@,
    {
        clone_things(&self.0)
    }

    pub fn len(&self) -> (res: usize)
        ensures
            res == self@.len(),
    {
        self.0.len()
    }

    pub fn first(&self) -> (res: Option<&Record>)
        ensures
            match res {
                Some(thing) => self@.len() > 0 && thing@ == self@[0],
                None => self@.len() == 0,
            },
    {
        if self.0.len() == 0 {
            None
        } else {
            Some(&self.0[0])
        }
    }

    /// The things of a table whose first row is the header
    /// `url,name,summary,category_id`, in the order of things, each summary read
    /// without the whitespace around it.
    pub fn from_rows(rows: &Vec<Vec<String>>) -> (res: Result<Self, ThingError>)
        ensures
            thing_set_outcome(tables(rows@), res),
    {
        match things_in_order(rows, true) {
            Ok(list) => Ok(Self(sort_things(list))),
            Err(e) => Err(e),
        }
    }

    /// The names of the things, in their order.
    pub fn labels(&self) -> (res: Vec<String>)
        ensures
            texts(res@) == Seq::new(self@.len(), |i: int| self@[i].name),
    {
        let mut out: Vec<String> = Vec::new();
        let mut i: usize = 0;
        while i < self.0.len()
            invariant
                i <= self.0@.len(),
                out@.len() == i,
                forall|k: int| 0 <= k < i ==> out@[k]@ == self.0@[k]@.name,
            decreases self.0@.len() - i,
        {
            out.push(self.0[i].name().to_owned());
            i += 1;
        }
        assert(texts(out@) =~= Seq::new(self@.len(), |i: int| self@[i].name));
        out
    }

    /// The names of the things on one line, with `;` between them.
    pub fn to_string(&self) -> (res: String)
        ensures
            res@ == joined(Seq::new(self@.len(), |i: int| self@[i].name), ";"@),
    {
        join(&self.labels(), ";")
    }

    /// The names of the things, one on each line.
    pub fn to_lines(&self) -> (res: String)
        ensures
            res@ == joined(Seq::new(self@.len(), |i: int| self@[i].name), "\n"@),
    {
        join(&self.labels(), "\n")
    }

    /// Reads a list of things from CSV text with a header row.
    pub fn from_reader(data: &[u8]) -> (res: Result<Self, ThingError>)
        ensures
            match csv_rows(data@) {
                Some(table) => thing_set_outcome(table, res),
                None => res matches Err(ThingError::Csv(_)),
            },
    {
        match read_rows(data) {
            Ok(rows) => Self::from_rows(&rows),
            Err(e) => Err(ThingError::Csv(e)),
        }
    }
}

} // verus!
