//! The store: two rings of relations and the overlay that reads both.
//!
//! The source ring holds the rows of the CSV files and is never written by a
//! repository. The staging ring holds the rows that are not durable yet and
//! the changelog. The overlay of a relation is what a reader sees: the staged
//! rows, then the source rows that no staged row of the same key shadows.

use vstd::prelude::*;
use crate::change::Change;
use crate::change::ChangeView;
use crate::change::Event;
use crate::change::EventView;
use crate::change::names_event;
use crate::relation::any_match;
use crate::relation::distinct_by;
use crate::relation::first_repeat;
use crate::relation::first_match;
use crate::SomeError;
use crate::table::csv_rows;
use crate::table::first_bad_row;
use crate::table::header_ok;
use crate::table::is_text;
use crate::table::read_rows;
use crate::table::rows_even;
use crate::tag::tag_header;
use crate::tag::TagError;
use crate::tag::TagView;
use crate::tag;
use crate::tag_set::clone_tags;
use crate::tag_set::tags_of_table;
use crate::tag_set::TagSet;
use crate::text::ascending;
use crate::text::insert_sorted;
use crate::text::same_text;
use crate::text::texts;
use crate::text::views;
use crate::thing::RecordView;
use crate::thing::Thing;
use crate::thing::thing_header;
use crate::thing::ThingError;
use crate::thing::ThingView;
use crate::thing;
use crate::thing_set::clone_things;
use crate::thing_set::things_in_order;
use crate::thing_set::things_of_table;
use crate::thingtag::Thingtag;
use crate::thingtag::thingtag_header;
use crate::thingtag::ThingtagError;
use crate::thingtag_set::clone_thingtags;
use crate::thingtag_set::thingtags_of_table;
use crate::thingtag_set::ThingtagSet;

mod change_store;
mod tag_store;
mod thing_store;
mod thingtag_store;

verus! {

/// The token that names the in-memory strategy.
pub const DEFAULT_PATH: &'static str = ":memory:";

/// Where the staging ring lives.
#[derive(Debug, PartialEq, Eq)]
pub enum Strategy {
    Memory,
    Disk(String),
}

impl Clone for Strategy {
    fn clone(&self) -> (res: Self)
        ensures
            res.disk() == self.disk(),
    {
        match self {
            Strategy::Memory => Strategy::Memory,
            Strategy::Disk(path) => Strategy::Disk(path.clone()),
        }
    }
}

impl Strategy {
    /// The file that the strategy names, or `None` for the memory.
    pub open spec fn disk(&self) -> Option<Seq<char>> {
        match *self {
            Strategy::Memory => None,
            Strategy::Disk(path) => Some(path@),
        }
    }

    /// The strategy that a text names: the token `:memory:` names the memory,
    /// any other text is the path of a file.
    pub fn from_str(s: &str) -> (res: Result<Strategy, StoreError>)
        ensures
            res matches Ok(strategy) && strategy.disk() == if s@ == ":memory:"@ {
                None
            } else {
                Some(s@)
            },
    {
        let text = s.to_owned();
        if is_text(&text, ":memory:") {
            Ok(Strategy::Memory)
        } else {
            Ok(Strategy::Disk(text))
        }
    }
}

/// Why the store refused an operation.
#[derive(Debug)]
pub enum StoreError {
    /// The staging ring already holds a row with this key.
    Duplicate(String),
    /// A row refers to this key, which no row of the overlay has.
    Reference(String),
    /// The changelog holds an operation that cannot be made durable.
    Unsupported,
    /// A row to make durable has the key of a durable row, or of another row
    /// to make durable.
    Conflict,
    /// What was saved of a staging ring holds a key twice, or its changelog
    /// is not in the order of time.
    Saved,
}

/// Whether CSV text was read into a table with the given header whose rows
/// all have `width` fields.
pub open spec fn readable(
    table: Option<Seq<Seq<Seq<char>>>>,
    header: Seq<Seq<char>>,
    width: nat,
) -> bool {
    table matches Some(t) && header_ok(t, header) && rows_even(t, width)
}

/// Why CSV text is not readable as a relation.
pub enum ReadFault {
    /// The text is no CSV.
    Csv,
    /// The first row is not the header of the relation.
    Header,
    /// The row at this place has not as many fields as the header.
    Row(usize),
    /// None of these.
    Other,
}

/// The fault that an error of the tags stands for.
pub open spec fn fault_of_tag(e: TagError) -> ReadFault {
    match e {
        TagError::Csv(_) => ReadFault::Csv,
        TagError::Header => ReadFault::Header,
        TagError::Row(i) => ReadFault::Row(i),
        TagError::Duplicate(_) => ReadFault::Other,
    }
}

/// The fault that an error of the things stands for.
pub open spec fn fault_of_thing(e: ThingError) -> ReadFault {
    match e {
        ThingError::Csv(_) => ReadFault::Csv,
        ThingError::Header => ReadFault::Header,
        ThingError::Row(i) => ReadFault::Row(i),
        _ => ReadFault::Other,
    }
}

/// The fault that an error of the relation rows stands for.
pub open spec fn fault_of_thingtag(e: ThingtagError) -> ReadFault {
    match e {
        ThingtagError::Csv(_) => ReadFault::Csv,
        ThingtagError::Header => ReadFault::Header,
        ThingtagError::Row(i) => ReadFault::Row(i),
        ThingtagError::Duplicate(_, _) => ReadFault::Other,
    }
}

/// The first fault of CSV text that is not readable as a relation: it is
/// no CSV, or its header is another, or one of its rows is uneven.
pub open spec fn read_fault(
    table: Option<Seq<Seq<Seq<char>>>>,
    header: Seq<Seq<char>>,
    width: nat,
    fault: ReadFault,
) -> bool {
    match table {
        None => fault is Csv,
        Some(t) => if !header_ok(t, header) {
            fault is Header
        } else {
            fault matches ReadFault::Row(i) && first_bad_row(t, width, i as int)
        },
    }
}

/// The three relations of a ring, as mathematical values.
pub struct RingView {
    pub tags: Seq<TagView>,
    pub things: Seq<RecordView>,
    pub thing_tags: Seq<(Seq<char>, Seq<char>)>,
}

/// The store as mathematical values.
pub struct StoreView {
    /// The directory of the package.
    pub path: Seq<char>,
    /// The file of the staging ring, or `None` where it lives in memory.
    pub disk: Option<Seq<char>>,
    pub source: RingView,
    pub staging: RingView,
    pub changelog: Seq<EventView>,
}

/// The store: the source ring, the staging ring and its changelog.
#[derive(Debug)]
pub struct Store {
    strategy: Strategy,
    path: String,
    source_tags: Vec<tag::Record>,
    source_things: Vec<thing::Record>,
    source_thing_tags: Vec<Thingtag>,
    staged_tags: Vec<tag::Record>,
    staged_things: Vec<thing::Record>,
    staged_thing_tags: Vec<Thingtag>,
    changelog: Vec<Event>,
}

/// What the staging ring and the changelog held when a unit of writes began.
#[derive(Debug)]
pub struct Tx {
    staged_tags: Vec<tag::Record>,
    staged_things: Vec<thing::Record>,
    staged_thing_tags: Vec<Thingtag>,
    changelog: Vec<Event>,
}

impl View for Tx {
    type V = (RingView, Seq<EventView>);

    closed spec fn view(&self) -> (RingView, Seq<EventView>) {
        (
            RingView {
                tags: views(self.staged_tags@),
                things: views(self.staged_things@),
                thing_tags: views(self.staged_thing_tags@),
            },
            views(self.changelog@),
        )
    }
}

impl View for Store {
    type V = StoreView;

    closed spec fn view(&self) -> StoreView {
        StoreView {
            path: self.path@,
            disk: self.strategy.disk(),
            source: RingView {
                tags: views(self.source_tags@),
                things: views(self.source_things@),
                thing_tags: views(self.source_thing_tags@),
            },
            staging: RingView {
                tags: views(self.staged_tags@),
                things: views(self.staged_things@),
                thing_tags: views(self.staged_thing_tags@),
            },
            changelog: views(self.changelog@),
        }
    }
}

/// The tags with the identifier `id`.
pub open spec fn tag_with(id: Seq<char>) -> spec_fn(TagView) -> bool {
    |t: TagView| t.id == id
}

/// The tags with another identifier than `id`.
pub open spec fn tag_without(id: Seq<char>) -> spec_fn(TagView) -> bool {
    |t: TagView| t.id != id
}

/// The tags whose identifier is none of `ids`.
pub open spec fn tag_outside(ids: Seq<Seq<char>>) -> spec_fn(TagView) -> bool {
    |t: TagView| !ids.contains(t.id)
}

/// The tags that no row of `staged` shadows.
pub open spec fn tag_unshadowed(staged: Seq<TagView>) -> spec_fn(TagView) -> bool {
    |t: TagView| !any_match(staged, tag_with(t.id))
}

/// The things with the URL `url`.
pub open spec fn thing_with(url: Seq<char>) -> spec_fn(RecordView) -> bool {
    |t: RecordView| t.url == url
}

/// The things with another URL than `url`.
pub open spec fn thing_without(url: Seq<char>) -> spec_fn(RecordView) -> bool {
    |t: RecordView| t.url != url
}

/// The things of the category `id`.
pub open spec fn thing_in(id: Seq<char>) -> spec_fn(RecordView) -> bool {
    |t: RecordView| t.category_id == id
}

/// The things that no row of `staged` shadows.
pub open spec fn thing_unshadowed(staged: Seq<RecordView>) -> spec_fn(RecordView) -> bool {
    |t: RecordView| !any_match(staged, thing_with(t.url))
}

/// The relation rows equal to `pair`.
pub open spec fn pair_with(pair: (Seq<char>, Seq<char>)) -> spec_fn((Seq<char>, Seq<char>)) -> bool {
    |p: (Seq<char>, Seq<char>)| p == pair
}

/// The relation rows other than `pair`.
pub open spec fn pair_without(pair: (Seq<char>, Seq<char>)) -> spec_fn(
    (Seq<char>, Seq<char>),
) -> bool {
    |p: (Seq<char>, Seq<char>)| p != pair
}

/// The relation rows of another thing than `url`.
pub open spec fn pair_off_thing(url: Seq<char>) -> spec_fn((Seq<char>, Seq<char>)) -> bool {
    |p: (Seq<char>, Seq<char>)| p.0 != url
}

/// The relation rows of another tag than `id`.
pub open spec fn pair_off_tag(id: Seq<char>) -> spec_fn((Seq<char>, Seq<char>)) -> bool {
    |p: (Seq<char>, Seq<char>)| p.1 != id
}

/// The relation rows that no row of `staged` repeats.
pub open spec fn pair_unshadowed(staged: Seq<(Seq<char>, Seq<char>)>) -> spec_fn(
    (Seq<char>, Seq<char>),
) -> bool {
    |p: (Seq<char>, Seq<char>)| !staged.contains(p)
}

/// The tags a reader sees: the staged ones, then the source ones that no
/// staged tag shadows.
pub open spec fn overlay_tags(s: StoreView) -> Seq<TagView> {
    s.staging.tags + s.source.tags.filter(tag_unshadowed(s.staging.tags))
}

/// The things a reader sees: the staged ones, then the source ones that no
/// staged thing shadows.
pub open spec fn overlay_things(s: StoreView) -> Seq<RecordView> {
    s.staging.things + s.source.things.filter(thing_unshadowed(s.staging.things))
}

/// The relation rows a reader sees: the staged ones, then the source ones
/// that are not staged as well.
pub open spec fn overlay_thing_tags(s: StoreView) -> Seq<(Seq<char>, Seq<char>)> {
    s.staging.thing_tags + s.source.thing_tags.filter(pair_unshadowed(s.staging.thing_tags))
}

/// The tag that `id` resolves to: the first staged tag with that identifier,
/// or else the first source tag with it.
pub open spec fn get_tag(s: StoreView, id: Seq<char>) -> Option<TagView> {
    match first_match(s.staging.tags, tag_with(id)) {
        Some(t) => Some(t),
        None => first_match(s.source.tags, tag_with(id)),
    }
}

/// The thing that `url` resolves to: the first staged thing with that URL,
/// or else the first source thing with it.
pub open spec fn get_thing(s: StoreView, url: Seq<char>) -> Option<RecordView> {
    match first_match(s.staging.things, thing_with(url)) {
        Some(t) => Some(t),
        None => first_match(s.source.things, thing_with(url)),
    }
}

/// The store once a tag is staged behind the staged ones.
pub open spec fn with_tag(s: StoreView, t: TagView) -> StoreView {
    StoreView { staging: RingView { tags: s.staging.tags.push(t), ..s.staging }, ..s }
}

/// The store once a tag has left the staging ring, with the staged relation
/// rows of that tag.
pub open spec fn without_tag(s: StoreView, id: Seq<char>) -> StoreView {
    StoreView {
        staging: RingView {
            tags: s.staging.tags.filter(tag_without(id)),
            thing_tags: s.staging.thing_tags.filter(pair_off_tag(id)),
            ..s.staging
        },
        ..s
    }
}

/// The store once a tag is staged in place of the staged tags of its
/// identifier.
pub open spec fn with_tag_replaced(s: StoreView, t: TagView) -> StoreView {
    StoreView {
        staging: RingView { tags: s.staging.tags.filter(tag_without(t.id)).push(t), ..s.staging },
        ..s
    }
}

/// The store once a thing is staged behind the staged ones.
pub open spec fn with_thing(s: StoreView, t: RecordView) -> StoreView {
    StoreView { staging: RingView { things: s.staging.things.push(t), ..s.staging }, ..s }
}

/// The store once a thing has left the staging ring, with the staged
/// relation rows of that thing.
pub open spec fn without_thing(s: StoreView, url: Seq<char>) -> StoreView {
    StoreView {
        staging: RingView {
            things: s.staging.things.filter(thing_without(url)),
            thing_tags: s.staging.thing_tags.filter(pair_off_thing(url)),
            ..s.staging
        },
        ..s
    }
}

/// The store once a thing is staged in place of the staged things of its
/// URL.
pub open spec fn with_thing_replaced(s: StoreView, t: RecordView) -> StoreView {
    StoreView {
        staging: RingView {
            things: s.staging.things.filter(thing_without(t.url)).push(t),
            ..s.staging
        },
        ..s
    }
}

/// The store once a relation row is staged behind the staged ones.
pub open spec fn with_pair(s: StoreView, pair: (Seq<char>, Seq<char>)) -> StoreView {
    StoreView { staging: RingView { thing_tags: s.staging.thing_tags.push(pair), ..s.staging }, ..s }
}

/// The store once a relation row has left the staging ring.
pub open spec fn without_pair(s: StoreView, pair: (Seq<char>, Seq<char>)) -> StoreView {
    StoreView {
        staging: RingView {
            thing_tags: s.staging.thing_tags.filter(pair_without(pair)),
            ..s.staging
        },
        ..s
    }
}

/// The store once a relation row is staged in place of the same row.
pub open spec fn with_pair_replaced(s: StoreView, pair: (Seq<char>, Seq<char>)) -> StoreView {
    StoreView {
        staging: RingView {
            thing_tags: s.staging.thing_tags.filter(pair_without(pair)).push(pair),
            ..s.staging
        },
        ..s
    }
}

/// The identifier of a tag.
pub open spec fn tag_key() -> spec_fn(TagView) -> Seq<char> {
    |t: TagView| t.id
}

/// The URL of a thing.
pub open spec fn thing_key() -> spec_fn(RecordView) -> Seq<char> {
    |t: RecordView| t.url
}

/// A relation row is its own key.
pub open spec fn pair_key() -> spec_fn((Seq<char>, Seq<char>)) -> (Seq<char>, Seq<char>) {
    |p: (Seq<char>, Seq<char>)| p
}

/// No key comes twice in a relation of the ring.
pub open spec fn distinct_ring(r: RingView) -> bool {
    &&& distinct_by(r.tags, tag_key())
    &&& distinct_by(r.things, thing_key())
    &&& distinct_by(r.thing_tags, pair_key())
}

/// What a store is held to: no key comes twice in a relation of the source
/// ring, none is staged twice in a relation, and the changelog is in the
/// order of time. A store is opened so, and every write and every commit
/// leaves it so.
pub open spec fn well_formed(s: StoreView) -> bool {
    &&& distinct_ring(s.source)
    &&& distinct_ring(s.staging)
    &&& by_time(s.changelog)
}

/// What opening a store over source rows gives: the store with nothing
/// staged, or the first key that comes twice in a relation, the tags looked
/// at first, then the things, then the relation rows.
pub open spec fn source_outcome(
    path: Seq<char>,
    disk: Option<Seq<char>>,
    source: RingView,
    res: Result<Store, SomeError>,
) -> bool {
    if !distinct_by(source.tags, tag_key()) {
        res matches Err(SomeError::Tag(TagError::Duplicate(id))) && exists|i: int|
            first_repeat(source.tags, tag_key(), i) && id@ == (#[trigger] source.tags[i]).id
    } else if !distinct_by(source.things, thing_key()) {
        res matches Err(SomeError::Thing(ThingError::Duplicate(url))) && exists|i: int|
            first_repeat(source.things, thing_key(), i) && url@ == (#[trigger] source.things[i]).url
    } else if !distinct_by(source.thing_tags, pair_key()) {
        res matches Err(SomeError::Thingtag(ThingtagError::Duplicate(thing, tag))) && exists|i: int|
            first_repeat(source.thing_tags, pair_key(), i) && (thing@, tag@)
                == #[trigger] source.thing_tags[i]
    } else {
        res matches Ok(store) && store@ == (StoreView {
            path,
            disk,
            source,
            staging: RingView { tags: Seq::empty(), things: Seq::empty(), thing_tags: Seq::empty() },
            changelog: Seq::empty(),
        })
    }
}

/// What was saved of a staging ring is well formed: no key twice in a
/// relation, and the changelog in the order of time.
pub open spec fn saved_ok(saved: (RingView, Seq<EventView>)) -> bool {
    distinct_ring(saved.0) && by_time(saved.1)
}

/// A first repeat among rows shows that their keys are not all different.
pub proof fn lemma_repeat_is_not_distinct<A, K>(rows: Seq<A>, key: spec_fn(A) -> K, i: int)
    requires
        first_repeat(rows, key, i),
    ensures
        !distinct_by(rows, key),
{
    let j = choose|j: int| 0 <= j < i && key(#[trigger] rows[j]) == key(rows[i]);
    assert(key(rows[j]) == key(rows[i]));
}

/// The first place, if any, whose tag has the identifier of an earlier one.
pub fn repeated_tag(rows: &Vec<tag::Record>) -> (res: Option<usize>)
    ensures
        match res {
            Some(i) => first_repeat(views(rows@), tag_key(), i as int),
            None => distinct_by(views(rows@), tag_key()),
        },
{
    let ghost all = views(rows@);
    let mut i: usize = 0;
    while i < rows.len()
        invariant
            i <= rows@.len(),
            all == views(rows@),
            distinct_by(all.take(i as int), tag_key()),
        decreases rows@.len() - i,
    {
        let mut j: usize = 0;
        while j < i
            invariant
                j <= i,
                i < rows@.len(),
                all == views(rows@),
                distinct_by(all.take(i as int), tag_key()),
                forall|k: int| 0 <= k < j ==> tag_key()(#[trigger] all[k]) != tag_key()(all[i as int]),
            decreases i - j,
        {
            if same_text(rows[j].id(), rows[i].id()) {
                assert(tag_key()(all[j as int]) == tag_key()(all[i as int]));
                return Some(i);
            }
            j += 1;
        }
        proof {
            let a = all.take(i as int);
            let b = all.take(i + 1);
            assert forall|p: int, q: int| 0 <= p < q < b.len() implies tag_key()(#[trigger] b[p])
                != tag_key()(#[trigger] b[q]) by {
                if q < i {
                    assert(b[p] == a[p] && b[q] == a[q]);
                } else {
                    assert(b[p] == all[p] && b[q] == all[i as int]);
                }
            }
        }
        i += 1;
    }
    assert(all.take(i as int) =~= all);
    None
}

/// The first place, if any, whose thing has the URL of an earlier one.
pub fn repeated_thing(rows: &Vec<thing::Record>) -> (res: Option<usize>)
    ensures
        match res {
            Some(i) => first_repeat(views(rows@), thing_key(), i as int),
            None => distinct_by(views(rows@), thing_key()),
        },
{
    let ghost all = views(rows@);
    let mut i: usize = 0;
    while i < rows.len()
        invariant
            i <= rows@.len(),
            all == views(rows@),
            distinct_by(all.take(i as int), thing_key()),
        decreases rows@.len() - i,
    {
        let url = rows[i].url().to_owned();
        let mut j: usize = 0;
        while j < i
            invariant
                j <= i,
                i < rows@.len(),
                all == views(rows@),
                url@ == all[i as int].url,
                distinct_by(all.take(i as int), thing_key()),
                forall|k: int|
                    0 <= k < j ==> thing_key()(#[trigger] all[k]) != thing_key()(all[i as int]),
            decreases i - j,
        {
            if is_text(&url, rows[j].url()) {
                assert(thing_key()(all[j as int]) == thing_key()(all[i as int]));
                return Some(i);
            }
            j += 1;
        }
        proof {
            let a = all.take(i as int);
            let b = all.take(i + 1);
            assert forall|p: int, q: int| 0 <= p < q < b.len() implies thing_key()(#[trigger] b[p])
                != thing_key()(#[trigger] b[q]) by {
                if q < i {
                    assert(b[p] == a[p] && b[q] == a[q]);
                } else {
                    assert(b[p] == all[p] && b[q] == all[i as int]);
                }
            }
        }
        i += 1;
    }
    assert(all.take(i as int) =~= all);
    None
}

/// The first place, if any, whose relation row is an earlier one again.
pub fn repeated_pair(rows: &Vec<Thingtag>) -> (res: Option<usize>)
    ensures
        match res {
            Some(i) => first_repeat(views(rows@), pair_key(), i as int),
            None => distinct_by(views(rows@), pair_key()),
        },
{
    let ghost all = views(rows@);
    let mut i: usize = 0;
    while i < rows.len()
        invariant
            i <= rows@.len(),
            all == views(rows@),
            distinct_by(all.take(i as int), pair_key()),
        decreases rows@.len() - i,
    {
        let url = rows[i].thing_id().to_owned();
        let mut j: usize = 0;
        while j < i
            invariant
                j <= i,
                i < rows@.len(),
                all == views(rows@),
                url@ == all[i as int].0,
                distinct_by(all.take(i as int), pair_key()),
                forall|k: int|
                    0 <= k < j ==> pair_key()(#[trigger] all[k]) != pair_key()(all[i as int]),
            decreases i - j,
        {
            if is_text(&url, rows[j].thing_id()) && same_text(rows[j].tag_id(), rows[i].tag_id()) {
                assert(pair_key()(all[j as int]) == pair_key()(all[i as int]));
                return Some(i);
            }
            j += 1;
        }
        proof {
            let a = all.take(i as int);
            let b = all.take(i + 1);
            assert forall|p: int, q: int| 0 <= p < q < b.len() implies pair_key()(#[trigger] b[p])
                != pair_key()(#[trigger] b[q]) by {
                if q < i {
                    assert(b[p] == a[p] && b[q] == a[q]);
                } else {
                    assert(b[p] == all[p] && b[q] == all[i as int]);
                }
            }
        }
        i += 1;
    }
    assert(all.take(i as int) =~= all);
    None
}

/// Whether the changelog is in the order of time.
pub fn in_time_order(log: &Vec<Event>) -> (res: bool)
    ensures
        res == by_time(views(log@)),
{
    let ghost all = views(log@);
    let mut i: usize = 1;
    if log.len() == 0 {
        return true;
    }
    while i < log.len()
        invariant
            1 <= i <= log@.len(),
            all == views(log@),
            forall|a: int, b: int|
                0 <= a < b < i ==> (#[trigger] all[a]).timestamp <= (#[trigger] all[b]).timestamp,
        decreases log@.len() - i,
    {
        if log[i - 1].timestamp > log[i].timestamp {
            assert(all[i - 1].timestamp > all[i as int].timestamp);
            return false;
        }
        proof {
            assert forall|a: int, b: int| 0 <= a < b < i + 1 implies (#[trigger] all[a]).timestamp <= (
            #[trigger] all[b]).timestamp by {
                if b == i && a < i - 1 {
                    assert(all[a].timestamp <= all[i - 1].timestamp);
                }
            }
        }
        i += 1;
    }
    true
}

/// What was saved of a staging ring and its changelog, as plain values.
#[derive(Debug)]
pub struct Saved {
    pub tags: Vec<tag::Record>,
    pub things: Vec<thing::Record>,
    pub thing_tags: Vec<Thingtag>,
    pub changelog: Vec<Event>,
}

impl View for Saved {
    type V = (RingView, Seq<EventView>);

    open spec fn view(&self) -> (RingView, Seq<EventView>) {
        (
            RingView {
                tags: views(self.tags@),
                things: views(self.things@),
                thing_tags: views(self.thing_tags@),
            },
            views(self.changelog@),
        )
    }
}

/// The view of an optional tag.
pub open spec fn opt_tag(value: Option<tag::Record>) -> Option<TagView> {
    match value {
        Some(t) => Some(t@),
        None => None,
    }
}

/// The view of an optional thing record.
pub open spec fn opt_thing(value: Option<thing::Record>) -> Option<RecordView> {
    match value {
        Some(t) => Some(t@),
        None => None,
    }
}

/// The repository of tags.
#[derive(Debug)]
pub struct TagStore;

impl Store {
    /// A store over the given source rows, with nothing staged. Rows of one
    /// key in a relation are refused: the source ring holds each key once.
    pub fn with_source(
        path: String,
        strategy: &Strategy,
        tags: TagSet,
        things: Vec<thing::Record>,
        thing_tags: ThingtagSet,
    ) -> (res: Result<Store, SomeError>)
        ensures
            source_outcome(
                path@,
                strategy.disk(),
                RingView { tags: tags@, things: views(things@), thing_tags: thing_tags@ },
                res,
            ),
            res matches Ok(store) ==> well_formed(store@),
    {
        let tags = tags.to_vec();
        let thing_tags = thing_tags.to_vec();
        if let Some(i) = repeated_tag(&tags) {
            proof {
                lemma_repeat_is_not_distinct(views(tags@), tag_key(), i as int);
            }
            return Err(SomeError::Tag(TagError::Duplicate(tags[i].id().clone())));
        }
        if let Some(i) = repeated_thing(&things) {
            proof {
                lemma_repeat_is_not_distinct(views(things@), thing_key(), i as int);
            }
            return Err(SomeError::Thing(ThingError::Duplicate(things[i].url().to_owned())));
        }
        if let Some(i) = repeated_pair(&thing_tags) {
            proof {
                lemma_repeat_is_not_distinct(views(thing_tags@), pair_key(), i as int);
            }
            return Err(
                SomeError::Thingtag(
                    ThingtagError::Duplicate(
                        thing_tags[i].thing_id().to_owned(),
                        thing_tags[i].tag_id().clone(),
                    ),
                ),
            );
        }
        let store = Store {
            strategy: strategy.clone(),
            path,
            source_tags: tags,
            source_things: things,
            source_thing_tags: thing_tags,
            staged_tags: Vec::new(),
            staged_things: Vec::new(),
            staged_thing_tags: Vec::new(),
            changelog: Vec::new(),
        };
        assert(views(store.staged_tags@) =~= Seq::<TagView>::empty());
        assert(views(store.staged_things@) =~= Seq::<RecordView>::empty());
        assert(views(store.staged_thing_tags@) =~= Seq::<(Seq<char>, Seq<char>)>::empty());
        assert(views(store.changelog@) =~= Seq::<EventView>::empty());
        Ok(store)
    }

    /// Opens the store of a package over the text of its three CSV files:
    /// the tags, the things and the relation between them. Each text must
    /// start with the header of its relation, and no key may come twice in
    /// a file. Nothing is staged.
    pub fn open(
        path: String,
        strategy: &Strategy,
        tag_csv: &[u8],
        thing_csv: &[u8],
        thing_tag_csv: &[u8],
    ) -> (res: Result<Store, SomeError>)
        ensures
            !readable(csv_rows(tag_csv@), tag_header(), 3) ==> (res matches Err(SomeError::Tag(e))
                && read_fault(csv_rows(tag_csv@), tag_header(), 3, fault_of_tag(e))),
            readable(csv_rows(tag_csv@), tag_header(), 3) && !readable(
                csv_rows(thing_csv@),
                thing_header(),
                4,
            ) ==> (res matches Err(SomeError::Thing(e)) && read_fault(
                csv_rows(thing_csv@),
                thing_header(),
                4,
                fault_of_thing(e),
            )),
            readable(csv_rows(tag_csv@), tag_header(), 3) && readable(
                csv_rows(thing_csv@),
                thing_header(),
                4,
            ) && !readable(csv_rows(thing_tag_csv@), thingtag_header(), 2) ==> (res matches Err(
                SomeError::Thingtag(e),
            ) && read_fault(
                csv_rows(thing_tag_csv@),
                thingtag_header(),
                2,
                fault_of_thingtag(e),
            )),
            readable(csv_rows(tag_csv@), tag_header(), 3) && readable(
                csv_rows(thing_csv@),
                thing_header(),
                4,
            ) && readable(csv_rows(thing_tag_csv@), thingtag_header(), 2) ==> source_outcome(
                path@,
                strategy.disk(),
                RingView {
                    tags: tags_of_table(csv_rows(tag_csv@).unwrap()),
                    things: things_of_table(csv_rows(thing_csv@).unwrap()),
                    thing_tags: thingtags_of_table(csv_rows(thing_tag_csv@).unwrap()),
                },
                res,
            ),
            res matches Ok(store) ==> well_formed(store@),
    {
        let tags = match TagSet::from_reader(tag_csv) {
            Ok(set) => set,
            Err(e) => {
                return Err(SomeError::Tag(e));
            },
        };
        let thing_rows = match read_rows(thing_csv) {
            Ok(rows) => rows,
            Err(e) => {
                return Err(SomeError::Thing(ThingError::Csv(e)));
            },
        };
        let things = match things_in_order(&thing_rows, false) {
            Ok(list) => list,
            Err(e) => {
                return Err(SomeError::Thing(e));
            },
        };
        let thing_tags = match ThingtagSet::from_reader(thing_tag_csv) {
            Ok(set) => set,
            Err(e) => {
                return Err(SomeError::Thingtag(e));
            },
        };
        Self::with_source(path, strategy, tags, things, thing_tags)
    }

    /// Takes rows into the source ring, behind those it holds, and empties
    /// the changelog.
    pub(crate) fn absorb(
        &mut self,
        tags: Vec<tag::Record>,
        things: Vec<thing::Record>,
        thing_tags: Vec<Thingtag>,
    )
        ensures
            final(self)@ == (StoreView {
                source: RingView {
                    tags: old(self)@.source.tags + views(tags@),
                    things: old(self)@.source.things + views(things@),
                    thing_tags: old(self)@.source.thing_tags + views(thing_tags@),
                },
                changelog: Seq::empty(),
                ..old(self)@
            }),
    {
        let mut tags = tags;
        let mut things = things;
        let mut thing_tags = thing_tags;
        let ghost a = views(self.source_tags@);
        let ghost b = views(self.source_things@);
        let ghost c = views(self.source_thing_tags@);
        let ghost x = views(tags@);
        let ghost y = views(things@);
        let ghost z = views(thing_tags@);
        self.source_tags.append(&mut tags);
        self.source_things.append(&mut things);
        self.source_thing_tags.append(&mut thing_tags);
        self.changelog = Vec::new();
        assert(views(self.source_tags@) =~= a + x);
        assert(views(self.source_things@) =~= b + y);
        assert(views(self.source_thing_tags@) =~= c + z);
        assert(views(self.changelog@) =~= Seq::<EventView>::empty());
    }

    /// Whether the source ring would still hold each key once with the
    /// given rows behind its own.
    pub fn holds_apart(
        &self,
        tags: &Vec<tag::Record>,
        things: &Vec<thing::Record>,
        thing_tags: &Vec<Thingtag>,
    ) -> (res: bool)
        ensures
            res == distinct_ring(
                RingView {
                    tags: self@.source.tags + views(tags@),
                    things: self@.source.things + views(things@),
                    thing_tags: self@.source.thing_tags + views(thing_tags@),
                },
            ),
    {
        let mut all_tags = clone_tags(&self.source_tags);
        let mut more_tags = clone_tags(tags);
        let ghost a = views(all_tags@);
        let ghost x = views(more_tags@);
        all_tags.append(&mut more_tags);
        assert(views(all_tags@) =~= a + x);
        let mut all_things = clone_things(&self.source_things);
        let mut more_things = clone_things(things);
        let ghost b = views(all_things@);
        let ghost y = views(more_things@);
        all_things.append(&mut more_things);
        assert(views(all_things@) =~= b + y);
        let mut all_pairs = clone_thingtags(&self.source_thing_tags);
        let mut more_pairs = clone_thingtags(thing_tags);
        let ghost c = views(all_pairs@);
        let ghost z = views(more_pairs@);
        all_pairs.append(&mut more_pairs);
        assert(views(all_pairs@) =~= c + z);
        let first = repeated_tag(&all_tags);
        let second = repeated_thing(&all_things);
        let third = repeated_pair(&all_pairs);
        proof {
            if first.is_some() {
                lemma_repeat_is_not_distinct(views(all_tags@), tag_key(), first.unwrap() as int);
            }
            if second.is_some() {
                lemma_repeat_is_not_distinct(
                    views(all_things@),
                    thing_key(),
                    second.unwrap() as int,
                );
            }
            if third.is_some() {
                lemma_repeat_is_not_distinct(views(all_pairs@), pair_key(), third.unwrap() as int);
            }
        }
        first.is_none() && second.is_none() && third.is_none()
    }

    /// What the staging ring and the changelog hold, as plain values to
    /// save where the staging ring is to outlast the store.
    pub fn staged(&self) -> (res: Saved)
        ensures
            res@ == (self@.staging, self@.changelog),
    {
        let tx = self.transaction();
        Saved {
            tags: tx.staged_tags,
            things: tx.staged_things,
            thing_tags: tx.staged_thing_tags,
            changelog: tx.changelog,
        }
    }

    /// Takes what was saved of a staging ring and its changelog in place of
    /// what is staged and recorded. What holds a key twice in a relation, or
    /// a changelog out of the order of time, is refused and nothing changes.
    pub fn restore(&mut self, saved: Saved) -> (res: Result<(), SomeError>)
        ensures
            saved_ok(saved@) ==> res.is_ok() && final(self)@ == (StoreView {
                staging: saved@.0,
                changelog: saved@.1,
                ..old(self)@
            }),
            !saved_ok(saved@) ==> (res matches Err(SomeError::StoreError(StoreError::Saved)))
                && final(self)@ == old(self)@,
            well_formed(old(self)@) ==> well_formed(final(self)@),
    {
        let first = repeated_tag(&saved.tags);
        let second = repeated_thing(&saved.things);
        let third = repeated_pair(&saved.thing_tags);
        let ordered = in_time_order(&saved.changelog);
        proof {
            if first.is_some() {
                lemma_repeat_is_not_distinct(views(saved.tags@), tag_key(), first.unwrap() as int);
            }
            if second.is_some() {
                lemma_repeat_is_not_distinct(
                    views(saved.things@),
                    thing_key(),
                    second.unwrap() as int,
                );
            }
            if third.is_some() {
                lemma_repeat_is_not_distinct(
                    views(saved.thing_tags@),
                    pair_key(),
                    third.unwrap() as int,
                );
            }
        }
        if first.is_some() || second.is_some() || third.is_some() || !ordered {
            return Err(SomeError::StoreError(StoreError::Saved));
        }
        self.staged_tags = saved.tags;
        self.staged_things = saved.things;
        self.staged_thing_tags = saved.thing_tags;
        self.changelog = saved.changelog;
        Ok(())
    }

    /// Begins a unit of writes: keeps what the staging ring and the
    /// changelog hold now, to go back to if the unit is given up.
    pub fn transaction(&self) -> (res: Tx)
        ensures
            res@ == (self@.staging, self@.changelog),
            well_formed(self@) ==> saved_ok(res@),
    {
        let mut changelog: Vec<Event> = Vec::new();
        let mut i: usize = 0;
        while i < self.changelog.len()
            invariant
                i <= self.changelog@.len(),
                changelog@.len() == i,
                forall|k: int| 0 <= k < i ==> changelog@[k]@ == self.changelog@[k]@,
            decreases self.changelog@.len() - i,
        {
            changelog.push(self.changelog[i].clone());
            i += 1;
        }
        assert(views(changelog@) =~= views(self.changelog@));
        Tx {
            staged_tags: clone_tags(&self.staged_tags),
            staged_things: clone_things(&self.staged_things),
            staged_thing_tags: clone_thingtags(&self.staged_thing_tags),
            changelog,
        }
    }

    /// Gives up a unit of writes: the staging ring and the changelog are
    /// again what they were when the unit began. The source ring is left
    /// as it is.
    pub fn rollback(&mut self, tx: Tx)
        ensures
            final(self)@ == (StoreView { staging: tx@.0, changelog: tx@.1, ..old(self)@ }),
            well_formed(old(self)@) && saved_ok(tx@) ==> well_formed(final(self)@),
    {
        self.staged_tags = tx.staged_tags;
        self.staged_things = tx.staged_things;
        self.staged_thing_tags = tx.staged_thing_tags;
        self.changelog = tx.changelog;
    }

    /// The directory of the package.
    pub fn path(&self) -> (res: &String)
        ensures
            res@ == self@.path,
    {
        &self.path
    }

    /// Where the staging ring lives.
    pub fn strategy(&self) -> (res: &Strategy)
        ensures
            res.disk() == self@.disk,
    {
        &self.strategy
    }
}

/// Adds to an ascending list the tags that `rows` join to the thing `url`.
fn collect_tags(rows: &Vec<Thingtag>, url: &String, out: &mut Vec<String>)
    requires
        ascending(texts(old(out)@)),
    ensures
        ascending(texts(final(out)@)),
        forall|t: Seq<char>|
            texts(final(out)@).contains(t) <==> (texts(old(out)@).contains(t) || views(
                rows@,
            ).contains((url@, t))),
{
    let mut i: usize = 0;
    while i < rows.len()
        invariant
            i <= rows@.len(),
            ascending(texts(out@)),
            forall|t: Seq<char>|
                texts(out@).contains(t) <==> (texts(old(out)@).contains(t) || views(rows@).take(
                    i as int,
                ).contains((url@, t))),
        decreases rows@.len() - i,
    {
        let ghost seen = views(rows@).take(i as int);
        let ghost next = views(rows@).take(i + 1);
        let ghost listed = texts(out@);
        proof {
            assert(next =~= seen.push(views(rows@)[i as int]));
            assert forall|p: (Seq<char>, Seq<char>)|
                next.contains(p) <==> (seen.contains(p) || p == views(rows@)[i as int]) by {
                if next.contains(p) {
                    let k = choose|k: int| 0 <= k < next.len() && next[k] == p;
                    if k < i {
                        assert(seen[k] == p);
                    }
                }
                if seen.contains(p) {
                    let k = choose|k: int| 0 <= k < seen.len() && seen[k] == p;
                    assert(next[k] == p);
                }
                assert(next[i as int] == views(rows@)[i as int]);
            }
        }
        if is_text(url, rows[i].thing_id()) {
            insert_sorted(out, rows[i].tag_id().clone());
        }
        i += 1;
    }
    assert(views(rows@).take(i as int) =~= views(rows@));
}

/// A thing of the overlay together with the tags joined to it, in ascending
/// order and each once.
pub open spec fn thing_joined(s: StoreView, record: RecordView, thing: ThingView) -> bool {
    &&& thing.url == record.url
    &&& thing.name == record.name
    &&& thing.summary == record.summary
    &&& thing.category == record.category_id
    &&& ascending(thing.tags)
    &&& forall|t: Seq<char>| #[trigger]
        thing.tags.contains(t) <==> overlay_thing_tags(s).contains((record.url, t))
}

/// A relation row is in the overlay exactly where a ring holds it.
pub proof fn lemma_overlay_pair(s: StoreView, pair: (Seq<char>, Seq<char>))
    ensures
        overlay_thing_tags(s).contains(pair) <==> (s.staging.thing_tags.contains(pair)
            || s.source.thing_tags.contains(pair)),
{
    let staged = s.staging.thing_tags;
    let kept = s.source.thing_tags.filter(pair_unshadowed(staged));
    crate::relation::lemma_filter_members(s.source.thing_tags, pair_unshadowed(staged));
    let all = overlay_thing_tags(s);
    if all.contains(pair) {
        let k = choose|k: int| 0 <= k < all.len() && all[k] == pair;
        if k < staged.len() {
            assert(staged[k] == pair);
        } else {
            assert(kept[k - staged.len()] == pair);
            assert(kept.contains(pair));
        }
    }
    if staged.contains(pair) {
        let k = choose|k: int| 0 <= k < staged.len() && staged[k] == pair;
        assert(all[k] == pair);
    } else if s.source.thing_tags.contains(pair) {
        assert(kept.contains(pair));
        let k = choose|k: int| 0 <= k < kept.len() && kept[k] == pair;
        assert(all[staged.len() + k] == pair);
    }
}

/// The tags joined to the thing `thing_id` in the overlay, in ascending
/// order and each once.
pub fn tags_for(store: &Store, thing_id: &String) -> (res: Result<Vec<String>, SomeError>)
    ensures
        res matches Ok(list) && ascending(texts(list@)) && forall|t: Seq<char>| #[trigger]
            texts(list@).contains(t) <==> overlay_thing_tags(store@).contains((thing_id@, t)),
{
    let mut out: Vec<String> = Vec::new();
    assert(texts(out@) =~= Seq::<Seq<char>>::empty());
    collect_tags(&store.staged_thing_tags, thing_id, &mut out);
    collect_tags(&store.source_thing_tags, thing_id, &mut out);
    proof {
        assert forall|t: Seq<char>| #[trigger]
            texts(out@).contains(t) <==> overlay_thing_tags(store@).contains((thing_id@, t)) by {
            lemma_overlay_pair(store@, (thing_id@, t));
        }
    }
    Ok(out)
}

/// The repository of things.
#[derive(Debug)]
pub struct ThingStore;

/// The repository of the relation between things and tags.
#[derive(Debug)]
pub struct ThingtagStore;

/// Why a relation row cannot be staged.
pub enum PairFault {
    /// The row is staged already.
    Staged,
    /// Its thing does not resolve.
    NoThing,
    /// Its tag does not resolve.
    NoTag,
}

/// The first reason, if any, for which a relation row cannot be staged.
pub open spec fn thingtag_fault(s: StoreView, pair: (Seq<char>, Seq<char>)) -> Option<PairFault> {
    if s.staging.thing_tags.contains(pair) {
        Some(PairFault::Staged)
    } else if get_thing(s, pair.0).is_none() {
        Some(PairFault::NoThing)
    } else if get_tag(s, pair.1).is_none() {
        Some(PairFault::NoTag)
    } else {
        None
    }
}

/// The identifiers of a list of tags.
pub open spec fn tag_ids(list: Seq<TagView>) -> Seq<Seq<char>> {
    Seq::new(list.len(), |i: int| list[i].id)
}

/// The tags that some thing of the overlay has for its category: each one
/// resolves from its identifier, each category that resolves is among them,
/// and they stand in the ascending order of their identifiers.
pub open spec fn categories(s: StoreView, list: Seq<TagView>) -> bool {
    &&& ascending(tag_ids(list))
    &&& forall|i: int|
        0 <= i < list.len() ==> get_tag(s, (#[trigger] list[i]).id) == Some(list[i]) && any_match(
            overlay_things(s),
            thing_in(list[i].id),
        )
    &&& forall|j: int|
        0 <= j < overlay_things(s).len() ==> (get_tag(
            s,
            (#[trigger] overlay_things(s)[j]).category_id,
        ) matches Some(t) ==> list.contains(t))
}

/// A tag that resolves from an identifier has that identifier.
pub proof fn lemma_get_tag_id(s: StoreView, id: Seq<char>)
    ensures
        get_tag(s, id) matches Some(t) ==> t.id == id,
{
    crate::relation::lemma_first_match_is_some(s.staging.tags, tag_with(id));
    crate::relation::lemma_first_match_is_some(s.source.tags, tag_with(id));
}

/// A thing that resolves from a URL has that URL.
pub proof fn lemma_get_thing_url(s: StoreView, url: Seq<char>)
    ensures
        get_thing(s, url) matches Some(t) ==> t.url == url,
{
    crate::relation::lemma_first_match_is_some(s.staging.things, thing_with(url));
    crate::relation::lemma_first_match_is_some(s.source.things, thing_with(url));
}

/// The events that the four parts of an identifier name.
pub open spec fn event_with(
    timestamp: usize,
    operation: Seq<char>,
    kind: Seq<char>,
    id: Seq<char>,
) -> spec_fn(EventView) -> bool {
    |e: EventView| names_event(e, timestamp, operation, kind, id)
}

/// The events that the four parts of an identifier do not name.
pub open spec fn event_without(
    timestamp: usize,
    operation: Seq<char>,
    kind: Seq<char>,
    id: Seq<char>,
) -> spec_fn(EventView) -> bool {
    |e: EventView| !names_event(e, timestamp, operation, kind, id)
}

/// No event comes after one that was recorded later.
pub open spec fn by_time(log: Seq<EventView>) -> bool {
    forall|i: int, j: int|
        0 <= i < j < log.len() ==> (#[trigger] log[i]).timestamp <= (#[trigger] log[j]).timestamp
}

/// The place of a new event of the time `timestamp`: behind every event that
/// is not later, and before the first that is.
pub open spec fn is_place(log: Seq<EventView>, timestamp: usize, k: int) -> bool {
    &&& 0 <= k <= log.len()
    &&& forall|j: int| 0 <= j < k ==> (#[trigger] log[j]).timestamp <= timestamp
    &&& k < log.len() ==> log[k].timestamp > timestamp
}

/// The view of an optional change.
pub open spec fn opt_change(value: Option<Change>) -> Option<ChangeView> {
    match value {
        Some(c) => Some(c@),
        None => None,
    }
}

/// The change of an optional event.
pub open spec fn change_of(value: Option<EventView>) -> Option<ChangeView> {
    match value {
        Some(e) => Some(e.change),
        None => None,
    }
}

/// The time of an event for a reading of the clock: the reading itself
/// where it is a count of seconds that fits, the nearest bound otherwise.
pub fn stamp(seconds: i64) -> (res: usize)
    ensures
        seconds < 0 ==> res == 0,
        0 <= seconds <= usize::MAX ==> res == seconds,
        seconds > usize::MAX ==> res == usize::MAX,
{
    if seconds < 0 {
        0
    } else if seconds as u64 > usize::MAX as u64 {
        usize::MAX
    } else {
        seconds as usize
    }
}

/// The repository of the changelog.
#[derive(Debug)]
pub struct ChangeStore;

} // verus!
