//! Staging a new entity and making the changelog durable.
//!
//! A new entity is checked against the overlay, staged and recorded in the
//! changelog. A commit turns the inserts of the changelog into CSV records to
//! append to the three files, takes the rows into the source ring and empties
//! the changelog. An operation that cannot be made durable stops the commit
//! before anything changes.

use vstd::prelude::*;
use crate::change::Change;
use crate::change::ChangeView;
use crate::change::Data;
use crate::change::DataView;
use crate::change::Event;
use crate::change::EventView;
use crate::clock::now;
use crate::guarantees::lemma_staging_keeps_well_formed;
use crate::relation::lemma_first_match_is_some;
use crate::SomeError;
use crate::store::ChangeStore;
use crate::store::distinct_ring;
use crate::store::get_tag;
use crate::store::get_thing;
use crate::store::is_place;
use crate::store::pair_without;
use crate::store::RingView;
use crate::store::stamp;
use crate::store::Store;
use crate::store::StoreError;
use crate::store::StoreView;
use crate::store::tag_with;
use crate::store::TagStore;
use crate::store::thing_with;
use crate::store::ThingStore;
use crate::store::ThingtagStore;
use crate::store::well_formed;
use crate::table::csv_lines;
use crate::table::encode_rows;
use crate::table::tables;
use crate::tag::clone_opt;
use crate::tag::row_of_tag;
use crate::tag::TagError;
use crate::tag::TagView;
use crate::tag;
use crate::text::texts;
use crate::text::views;
use crate::thing::RecordView;
use crate::thing::row_of_thing;
use crate::thing::ThingError;
use crate::thing::ThingView;
use crate::thing;
use crate::thingtag::row_of_thingtag;
use crate::thingtag::Thingtag;

verus! {

/// The record of a thing, without its tags.
pub open spec fn record_of(t: ThingView) -> RecordView {
    RecordView { url: t.url, name: t.name, summary: t.summary, category_id: t.category }
}

/// The staged relation rows once the thing `url` is joined to each of `tags`
/// in turn, a row that is staged already moving behind the others.
pub open spec fn put_pairs(
    staged: Seq<(Seq<char>, Seq<char>)>,
    url: Seq<char>,
    tags: Seq<Seq<char>>,
) -> Seq<(Seq<char>, Seq<char>)>
    decreases tags.len(),
{
    if tags.len() == 0 {
        staged
    } else {
        let pair = (url, tags.last());
        put_pairs(staged, url, tags.drop_last()).filter(pair_without(pair)).push(pair)
    }
}

/// Tag `i` is the first of `tags` that does not resolve.
pub open spec fn first_unknown(s: StoreView, tags: Seq<Seq<char>>, i: int) -> bool {
    &&& 0 <= i < tags.len()
    &&& get_tag(s, tags[i]).is_none()
    &&& forall|j: int| 0 <= j < i ==> get_tag(s, #[trigger] tags[j]).is_some()
}

/// Every one of `tags` resolves.
pub open spec fn all_known(s: StoreView, tags: Seq<Seq<char>>) -> bool {
    forall|j: int| 0 <= j < tags.len() ==> get_tag(s, #[trigger] tags[j]).is_some()
}

/// The store once `data` is staged and its insert is recorded at place `k`
/// of the changelog.
pub open spec fn staged(s: StoreView, data: DataView, timestamp: usize, k: int) -> StoreView {
    let event = EventView { timestamp, change: ChangeView::Insert(data) };
    match data {
        DataView::Tag(t) => StoreView {
            staging: RingView { tags: s.staging.tags.push(t), ..s.staging },
            changelog: s.changelog.insert(k, event),
            ..s
        },
        DataView::Thing(t) => StoreView {
            staging: RingView {
                things: s.staging.things.push(record_of(t)),
                thing_tags: put_pairs(s.staging.thing_tags, t.url, t.tags),
                ..s.staging
            },
            changelog: s.changelog.insert(k, event),
            ..s
        },
    }
}

/// The identifier of the entity resolves to nothing yet.
pub open spec fn unknown(s: StoreView, data: DataView) -> bool {
    match data {
        DataView::Tag(t) => get_tag(s, t.id).is_none(),
        DataView::Thing(t) => get_thing(s, t.url).is_none(),
    }
}

/// What staging `data` gives: the first fault with the store as it was, or
/// the store with the entity staged and recorded.
pub open spec fn add_outcome(
    s: StoreView,
    data: DataView,
    timestamp: usize,
    res: Result<(), SomeError>,
    after: StoreView,
) -> bool {
    match data {
        DataView::Tag(t) => if get_tag(s, t.id).is_some() {
            after == s && (res matches Err(SomeError::Tag(TagError::Duplicate(id))) && id@ == t.id)
        } else {
            res.is_ok() && exists|k: int|
                is_place(s.changelog, timestamp, k) && after == staged(s, data, timestamp, k)
        },
        DataView::Thing(t) => if get_thing(s, t.url).is_some() {
            after == s && (res matches Err(SomeError::Thing(ThingError::Duplicate(id))) && id@
                == t.url)
        } else if get_tag(s, t.category).is_none() {
            after == s && (res matches Err(SomeError::StoreError(StoreError::Reference(id)))
                && id@ == t.category)
        } else if !all_known(s, t.tags) {
            after == s && (res matches Err(SomeError::StoreError(StoreError::Reference(id)))
                && exists|i: int| first_unknown(s, t.tags, i) && id@ == t.tags[i])
        } else {
            res.is_ok() && exists|k: int|
                is_place(s.changelog, timestamp, k) && after == staged(s, data, timestamp, k)
        },
    }
}

/// Stages a new entity and records its insert at the time `timestamp`.
///
/// An entity whose identifier resolves already is a duplicate. A thing
/// whose category, or one of whose tags, does not resolve is refused. In
/// both cases nothing changes.
pub fn add_at(store: &mut Store, data: Data, timestamp: usize) -> (res: Result<(), SomeError>)
    ensures
        add_outcome(old(store)@, data@, timestamp, res, final(store)@),
        well_formed(old(store)@) ==> well_formed(final(store)@),
{
    proof {
        if well_formed(store@) {
            assert forall|k: int|
                is_place(store@.changelog, timestamp, k) && unknown(store@, data@) implies well_formed(
                #[trigger] staged(store@, data@, timestamp, k),
            ) by {
                lemma_staging_keeps_well_formed(store@, data@, timestamp, k);
            }
        }
    }
    match &data {
        Data::Tag { id, name, summary } => {
            let known = match TagStore::contains(store, id) {
                Ok(b) => b,
                Err(e) => {
                    return Err(e);
                },
            };
            if known {
                return Err(SomeError::Tag(TagError::Duplicate(id.clone())));
            }
            let record = tag::Record::new(id.clone(), clone_opt(name), clone_opt(summary));
            proof {
                lemma_first_match_is_some(store@.staging.tags, tag_with(id@));
            }
            match TagStore::add(store, &record) {
                Ok(()) => {},
                Err(e) => {
                    return Err(e);
                },
            }
        },
        Data::Thing { url, name, summary, category, tags } => {
            let known = match ThingStore::contains(store, url) {
                Ok(b) => b,
                Err(e) => {
                    return Err(e);
                },
            };
            if known {
                return Err(SomeError::Thing(ThingError::Duplicate(url.clone())));
            }
            let filed = match TagStore::contains(store, category) {
                Ok(b) => b,
                Err(e) => {
                    return Err(e);
                },
            };
            if !filed {
                return Err(SomeError::StoreError(StoreError::Reference(category.clone())));
            }
            let ghost t = ThingView {
                url: url@,
                name: name@,
                summary: crate::tag::opt_view(*summary),
                category: category@,
                tags: texts(tags@),
            };
            assert(data@ == DataView::Thing(t));
            let mut i: usize = 0;
            while i < tags.len()
                invariant
                    i <= tags@.len(),
                    *store == *old(store),
                    data@ == DataView::Thing(t),
                    t.tags == texts(tags@),
                    get_thing(store@, t.url).is_none(),
                    get_tag(store@, t.category).is_some(),
                    forall|j: int|
                        0 <= j < i ==> get_tag(store@, #[trigger] texts(tags@)[j]).is_some(),
                decreases tags@.len() - i,
            {
                let found = match TagStore::contains(store, &tags[i]) {
                    Ok(b) => b,
                    Err(e) => {
                        return Err(e);
                    },
                };
                if !found {
                    assert(tags@[i as int]@ == texts(tags@)[i as int]);
                    assert(get_tag(store@, texts(tags@)[i as int]).is_none());
                    assert(first_unknown(store@, texts(tags@), i as int));
                    assert(!all_known(store@, texts(tags@)));
                    return Err(SomeError::StoreError(StoreError::Reference(tags[i].clone())));
                }
                i += 1;
            }
            let record = thing::Record::new(
                url.clone(),
                name.clone(),
                clone_opt(summary),
                category.clone(),
            );
            proof {
                lemma_first_match_is_some(store@.staging.things, thing_with(url@));
            }
            match ThingStore::add(store, &record) {
                Ok(()) => {},
                Err(e) => {
                    return Err(e);
                },
            }
            proof {
                let rows = store@.staging.things;
                assert(rows[rows.len() - 1] == record@);
                assert(thing_with(url@)(rows[rows.len() - 1]));
                lemma_first_match_is_some(rows, thing_with(url@));
            }
            let ghost base = store@;
            assert(all_known(base, texts(tags@))) by {
                assert forall|j: int| 0 <= j < tags@.len() implies get_tag(
                    base,
                    #[trigger] texts(tags@)[j],
                ).is_some() by {
                    assert(get_tag(old(store)@, texts(tags@)[j]).is_some());
                }
            }
            let mut m: usize = 0;
            while m < tags.len()
                invariant
                    m <= tags@.len(),
                    get_thing(base, url@).is_some(),
                    all_known(base, texts(tags@)),
                    data@ == DataView::Thing(t),
                    t.tags == texts(tags@),
                    t.url == url@,
                    get_thing(old(store)@, t.url).is_none(),
                    get_tag(old(store)@, t.category).is_some(),
                    all_known(old(store)@, t.tags),
                    base == (StoreView {
                        staging: RingView {
                            things: old(store)@.staging.things.push(record_of(t)),
                            ..old(store)@.staging
                        },
                        ..old(store)@
                    }),
                    store@ == (StoreView {
                        staging: RingView {
                            thing_tags: put_pairs(
                                base.staging.thing_tags,
                                url@,
                                texts(tags@).take(m as int),
                            ),
                            ..base.staging
                        },
                        ..base
                    }),
                decreases tags@.len() - m,
            {
                let pair = Thingtag::new(url.clone(), tags[m].clone());
                proof {
                    let next = texts(tags@).take(m + 1);
                    assert(next.drop_last() =~= texts(tags@).take(m as int));
                    assert(next.last() == tags@[m as int]@);
                    assert(get_tag(base, texts(tags@)[m as int]).is_some());
                }
                match ThingtagStore::replace(store, &pair) {
                    Ok(()) => {},
                    Err(e) => {
                        return Err(e);
                    },
                }
                m += 1;
            }
            assert(texts(tags@).take(m as int) =~= texts(tags@));
        },
    }
    let change = Change::Insert(data);
    ChangeStore::add_at(store, &change, timestamp)
}

/// Stages a new entity and records its insert at the time that the
/// machine's clock shows.
pub fn add(store: &mut Store, data: Data) -> (res: Result<(), SomeError>)
    ensures
        exists|timestamp: usize| add_outcome(old(store)@, data@, timestamp, res, final(store)@),
        well_formed(old(store)@) ==> well_formed(final(store)@),
{
    let timestamp = stamp(now().0);
    add_at(store, data, timestamp)
}

/// Every event of the changelog is an insert.
pub open spec fn supported(log: Seq<EventView>) -> bool {
    forall|i: int| 0 <= i < log.len() ==> (#[trigger] log[i]).change is Insert
}

/// The relation rows that join the thing `url` to each of `tags`.
pub open spec fn pairs_of(url: Seq<char>, tags: Seq<Seq<char>>) -> Seq<(Seq<char>, Seq<char>)> {
    Seq::new(tags.len(), |i: int| (url, tags[i]))
}

/// The tags that the changelog inserts, in its order.
pub open spec fn flushed_tags(log: Seq<EventView>) -> Seq<TagView>
    decreases log.len(),
{
    if log.len() == 0 {
        Seq::empty()
    } else {
        let head = flushed_tags(log.drop_last());
        match log.last().change {
            ChangeView::Insert(DataView::Tag(t)) => head.push(t),
            _ => head,
        }
    }
}

/// The things that the changelog inserts, in its order.
pub open spec fn flushed_things(log: Seq<EventView>) -> Seq<RecordView>
    decreases log.len(),
{
    if log.len() == 0 {
        Seq::empty()
    } else {
        let head = flushed_things(log.drop_last());
        match log.last().change {
            ChangeView::Insert(DataView::Thing(t)) => head.push(record_of(t)),
            _ => head,
        }
    }
}

/// The relation rows of the things that the changelog inserts, in its order.
pub open spec fn flushed_pairs(log: Seq<EventView>) -> Seq<(Seq<char>, Seq<char>)>
    decreases log.len(),
{
    if log.len() == 0 {
        Seq::empty()
    } else {
        let head = flushed_pairs(log.drop_last());
        match log.last().change {
            ChangeView::Insert(DataView::Thing(t)) => head + pairs_of(t.url, t.tags),
            _ => head,
        }
    }
}

/// The rows of fields of a list of tags.
pub open spec fn tag_rows(list: Seq<TagView>) -> Seq<Seq<Seq<char>>> {
    Seq::new(list.len(), |i: int| row_of_tag(list[i]))
}

/// The rows of fields of a list of things.
pub open spec fn thing_rows(list: Seq<RecordView>) -> Seq<Seq<Seq<char>>> {
    Seq::new(list.len(), |i: int| row_of_thing(list[i]))
}

/// The rows of fields of a list of relation rows.
pub open spec fn pair_rows(list: Seq<(Seq<char>, Seq<char>)>) -> Seq<Seq<Seq<char>>> {
    Seq::new(list.len(), |i: int| row_of_thingtag(list[i]))
}

/// The CSV records of a list of tags.
pub open spec fn tag_lines(list: Seq<TagView>) -> Option<Seq<u8>> {
    csv_lines(tag_rows(list))
}

/// The CSV records of a list of things.
pub open spec fn thing_lines(list: Seq<RecordView>) -> Option<Seq<u8>> {
    csv_lines(thing_rows(list))
}

/// The CSV records of a list of relation rows.
pub open spec fn pair_lines(list: Seq<(Seq<char>, Seq<char>)>) -> Option<Seq<u8>> {
    csv_lines(pair_rows(list))
}

/// The store once the inserts of its changelog are durable: the rows stand
/// behind those of the source ring and the changelog is empty.
pub open spec fn settled(s: StoreView) -> StoreView {
    StoreView {
        source: RingView {
            tags: s.source.tags + flushed_tags(s.changelog),
            things: s.source.things + flushed_things(s.changelog),
            thing_tags: s.source.thing_tags + flushed_pairs(s.changelog),
        },
        changelog: Seq::empty(),
        ..s
    }
}

/// The rows that a changelog inserts, relation by relation.
pub struct Drained {
    pub tags: Vec<tag::Record>,
    pub things: Vec<thing::Record>,
    pub thing_tags: Vec<Thingtag>,
}

/// The bytes to append to each of the three CSV files.
#[derive(Debug)]
pub struct Flushed {
    pub tag_csv: Vec<u8>,
    pub thing_csv: Vec<u8>,
    pub thing_tag_csv: Vec<u8>,
}

/// The rows that the events insert, in the order of the events. An event
/// that replaces or deletes is not supported and ends the work.
pub fn drain(events: &Vec<Event>) -> (res: Result<Drained, SomeError>)
    ensures
        !supported(views(events@)) ==> res matches Err(
            SomeError::StoreError(StoreError::Unsupported),
        ),
        supported(views(events@)) ==> (res matches Ok(rows) && views(rows.tags@) == flushed_tags(
            views(events@),
        ) && views(rows.things@) == flushed_things(views(events@)) && views(rows.thing_tags@)
            == flushed_pairs(views(events@))),
{
    let ghost log = views(events@);
    let mut tags: Vec<tag::Record> = Vec::new();
    let mut things: Vec<thing::Record> = Vec::new();
    let mut pairs: Vec<Thingtag> = Vec::new();
    let mut i: usize = 0;
    proof {
        assert(log.take(0) =~= Seq::<EventView>::empty());
        assert(views(tags@) =~= flushed_tags(log.take(0)));
        assert(views(things@) =~= flushed_things(log.take(0)));
        assert(views(pairs@) =~= flushed_pairs(log.take(0)));
    }
    while i < events.len()
        invariant
            i <= events@.len(),
            log == views(events@),
            supported(log.take(i as int)),
            views(tags@) == flushed_tags(log.take(i as int)),
            views(things@) == flushed_things(log.take(i as int)),
            views(pairs@) == flushed_pairs(log.take(i as int)),
        decreases events@.len() - i,
    {
        let ghost seen = log.take(i as int);
        let ghost next = log.take(i + 1);
        let ghost a = views(tags@);
        let ghost b = views(things@);
        let ghost c = views(pairs@);
        proof {
            assert(next.drop_last() =~= seen);
            assert(next.last() == log[i as int]);
            assert(log[i as int] == events@[i as int]@);
        }
        match &events[i].change {
            Change::Insert(Data::Tag { id, name, summary }) => {
                tags.push(tag::Record::new(id.clone(), clone_opt(name), clone_opt(summary)));
                assert(views(tags@) =~= a.push(views(tags@)[a.len() as int]));
            },
            Change::Insert(Data::Thing { url, name, summary, category, tags: labels }) => {
                things.push(
                    thing::Record::new(
                        url.clone(),
                        name.clone(),
                        clone_opt(summary),
                        category.clone(),
                    ),
                );
                assert(views(things@) =~= b.push(views(things@)[b.len() as int]));
                let mut m: usize = 0;
                while m < labels.len()
                    invariant
                        m <= labels@.len(),
                        views(pairs@) == c + pairs_of(url@, texts(labels@)).take(m as int),
                    decreases labels@.len() - m,
                {
                    let ghost before = views(pairs@);
                    pairs.push(Thingtag::new(url.clone(), labels[m].clone()));
                    proof {
                        let all = pairs_of(url@, texts(labels@));
                        assert(all.take(m + 1) =~= all.take(m as int).push((url@, labels@[m as int]@)));
                        assert(views(pairs@) =~= before.push((url@, labels@[m as int]@)));
                    }
                    m += 1;
                }
                proof {
                    let all = pairs_of(url@, texts(labels@));
                    assert(all.take(m as int) =~= all);
                }
            },
            _ => {
                assert(!(log[i as int].change is Insert));
                return Err(SomeError::StoreError(StoreError::Unsupported));
            },
        }
        proof {
            assert forall|k: int| 0 <= k < next.len() implies (#[trigger] next[k]).change is Insert by {
                if k < i {
                    assert(next[k] == seen[k]);
                }
            }
        }
        i += 1;
    }
    assert(log.take(i as int) =~= log);
    Ok(Drained { tags, things, thing_tags: pairs })
}

/// The CSV records of a list of tags, one after the other.
pub fn encode_tags(list: &Vec<tag::Record>) -> (res: Result<Vec<u8>, SomeError>)
    ensures
        match tag_lines(views(list@)) {
            Some(bytes) => res matches Ok(out) && out@ == bytes,
            None => res matches Err(SomeError::Csv(_)),
        },
{
    let mut rows: Vec<Vec<String>> = Vec::new();
    let mut i: usize = 0;
    while i < list.len()
        invariant
            i <= list@.len(),
            rows@.len() == i,
            forall|k: int| 0 <= k < i ==> texts(rows@[k]@) == row_of_tag(list@[k]@),
        decreases list@.len() - i,
    {
        rows.push(list[i].to_row());
        i += 1;
    }
    assert(tables(rows@) =~= tag_rows(views(list@)));
    match encode_rows(&rows) {
        Ok(out) => Ok(out),
        Err(e) => Err(SomeError::Csv(e)),
    }
}

/// The CSV records of a list of things, one after the other.
pub fn encode_things(list: &Vec<thing::Record>) -> (res: Result<Vec<u8>, SomeError>)
    ensures
        match thing_lines(views(list@)) {
            Some(bytes) => res matches Ok(out) && out@ == bytes,
            None => res matches Err(SomeError::Csv(_)),
        },
{
    let mut rows: Vec<Vec<String>> = Vec::new();
    let mut i: usize = 0;
    while i < list.len()
        invariant
            i <= list@.len(),
            rows@.len() == i,
            forall|k: int| 0 <= k < i ==> texts(rows@[k]@) == row_of_thing(list@[k]@),
        decreases list@.len() - i,
    {
        rows.push(list[i].to_row());
        i += 1;
    }
    assert(tables(rows@) =~= thing_rows(views(list@)));
    match encode_rows(&rows) {
        Ok(out) => Ok(out),
        Err(e) => Err(SomeError::Csv(e)),
    }
}

/// The CSV records of a list of relation rows, one after the other.
pub fn encode_thing_tags(list: &Vec<Thingtag>) -> (res: Result<Vec<u8>, SomeError>)
    ensures
        match pair_lines(views(list@)) {
            Some(bytes) => res matches Ok(out) && out@ == bytes,
            None => res matches Err(SomeError::Csv(_)),
        },
{
    let mut rows: Vec<Vec<String>> = Vec::new();
    let mut i: usize = 0;
    while i < list.len()
        invariant
            i <= list@.len(),
            rows@.len() == i,
            forall|k: int| 0 <= k < i ==> texts(rows@[k]@) == row_of_thingtag(list@[k]@),
        decreases list@.len() - i,
    {
        rows.push(list[i].to_row());
        i += 1;
    }
    assert(tables(rows@) =~= pair_rows(views(list@)));
    match encode_rows(&rows) {
        Ok(out) => Ok(out),
        Err(e) => Err(SomeError::Csv(e)),
    }
}

/// Whether the rows that a changelog inserts can all be written as CSV.
pub open spec fn writable(log: Seq<EventView>) -> bool {
    &&& tag_lines(flushed_tags(log)).is_some()
    &&& thing_lines(flushed_things(log)).is_some()
    &&& pair_lines(flushed_pairs(log)).is_some()
}

/// The source ring would still hold each key once with the rows that the
/// changelog inserts behind its own.
pub open spec fn fits(s: StoreView) -> bool {
    distinct_ring(
        RingView {
            tags: s.source.tags + flushed_tags(s.changelog),
            things: s.source.things + flushed_things(s.changelog),
            thing_tags: s.source.thing_tags + flushed_pairs(s.changelog),
        },
    )
}

/// What is to append to the three files for the changelog as it stands:
/// one CSV record for each inserted tag and thing, and one for each tag of
/// an inserted thing. An operation other than an insert, a row whose key
/// is durable already or comes twice, or a row that cannot be written, is
/// an error.
pub open spec fn pending_outcome(s: StoreView, res: Result<Flushed, SomeError>) -> bool {
    let log = s.changelog;
    if !supported(log) {
        res matches Err(SomeError::StoreError(StoreError::Unsupported))
    } else if !fits(s) {
        res matches Err(SomeError::StoreError(StoreError::Conflict))
    } else if !writable(log) {
        res matches Err(SomeError::Csv(_))
    } else {
        res matches Ok(out) && Some(out.tag_csv@) == tag_lines(flushed_tags(log)) && Some(
            out.thing_csv@,
        ) == thing_lines(flushed_things(log)) && Some(out.thing_tag_csv@) == pair_lines(
            flushed_pairs(log),
        )
    }
}

/// The bytes to append to the three files for the given rows.
pub fn encode(rows: &Drained) -> (res: Result<Flushed, SomeError>)
    ensures
        tag_lines(views(rows.tags@)).is_none() || thing_lines(views(rows.things@)).is_none()
            || pair_lines(views(rows.thing_tags@)).is_none() ==> res matches Err(
            SomeError::Csv(_),
        ),
        tag_lines(views(rows.tags@)).is_some() && thing_lines(views(rows.things@)).is_some()
            && pair_lines(views(rows.thing_tags@)).is_some() ==> (res matches Ok(out) && Some(
            out.tag_csv@,
        ) == tag_lines(views(rows.tags@)) && Some(out.thing_csv@) == thing_lines(
            views(rows.things@),
        ) && Some(out.thing_tag_csv@) == pair_lines(views(rows.thing_tags@))),
{
    let tag_csv = match encode_tags(&rows.tags) {
        Ok(bytes) => bytes,
        Err(e) => {
            return Err(e);
        },
    };
    let thing_csv = match encode_things(&rows.things) {
        Ok(bytes) => bytes,
        Err(e) => {
            return Err(e);
        },
    };
    let thing_tag_csv = match encode_thing_tags(&rows.thing_tags) {
        Ok(bytes) => bytes,
        Err(e) => {
            return Err(e);
        },
    };
    Ok(Flushed { tag_csv, thing_csv, thing_tag_csv })
}

/// What a commit would append to the three files. The store is not changed.
pub fn pending(store: &Store) -> (res: Result<Flushed, SomeError>)
    ensures
        pending_outcome(store@, res),
{
    let events = match ChangeStore::to_vec(store) {
        Ok(list) => list,
        Err(e) => {
            return Err(e);
        },
    };
    let rows = match drain(&events) {
        Ok(rows) => rows,
        Err(e) => {
            return Err(e);
        },
    };
    if !store.holds_apart(&rows.tags, &rows.things, &rows.thing_tags) {
        return Err(SomeError::StoreError(StoreError::Conflict));
    }
    encode(&rows)
}

/// Takes the rows that the changelog inserts into the source ring and
/// empties the changelog. A changelog with an operation other than an
/// insert, or with a row whose key is durable already or comes twice, is
/// left as it is, with the rest of the store.
pub fn settle(store: &mut Store) -> (res: Result<(), SomeError>)
    ensures
        !supported(old(store)@.changelog) ==> (res matches Err(
            SomeError::StoreError(StoreError::Unsupported),
        )) && final(store)@ == old(store)@,
        supported(old(store)@.changelog) && !fits(old(store)@) ==> (res matches Err(
            SomeError::StoreError(StoreError::Conflict),
        )) && final(store)@ == old(store)@,
        supported(old(store)@.changelog) && fits(old(store)@) ==> res.is_ok() && final(store)@
            == settled(old(store)@),
        well_formed(old(store)@) ==> well_formed(final(store)@),
{
    let events = match ChangeStore::to_vec(store) {
        Ok(list) => list,
        Err(e) => {
            return Err(e);
        },
    };
    let rows = match drain(&events) {
        Ok(rows) => rows,
        Err(e) => {
            return Err(e);
        },
    };
    if !store.holds_apart(&rows.tags, &rows.things, &rows.thing_tags) {
        return Err(SomeError::StoreError(StoreError::Conflict));
    }
    store.absorb(rows.tags, rows.things, rows.thing_tags);
    Ok(())
}

/// Consumes the changelog: gives the bytes to append to the three files,
/// takes the inserted rows into the source ring and empties the changelog.
/// On any error the store, changelog included, is left as it was.
pub fn commit(store: &mut Store) -> (res: Result<Flushed, SomeError>)
    ensures
        pending_outcome(old(store)@, res),
        res.is_ok() ==> final(store)@ == settled(old(store)@),
        res.is_err() ==> final(store)@ == old(store)@,
        well_formed(old(store)@) ==> well_formed(final(store)@),
{
    let out = match pending(store) {
        Ok(out) => out,
        Err(e) => {
            return Err(e);
        },
    };
    match settle(store) {
        Ok(()) => Ok(out),
        Err(e) => Err(e),
    }
}

} // verus!
