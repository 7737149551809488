//! The repository of things.

use vstd::prelude::*;
use crate::guarantees::lemma_thing_removal_keeps_well_formed;
use crate::guarantees::lemma_thing_writes_keep_well_formed;
use crate::relation::any_match;
use crate::relation::first_match;
use crate::relation::lemma_filter_none;
use crate::relation::lemma_filter_step;
use crate::relation::lemma_first_match_at;
use crate::relation::lemma_first_match_none;
use crate::SomeError;
use crate::store::get_tag;
use crate::store::get_thing;
use crate::store::opt_thing;
use crate::store::overlay_things;
use crate::store::pair_off_thing;
use crate::store::Store;
use crate::store::StoreError;
use crate::store::tags_for;
use crate::store::TagStore;
use crate::store::thing_in;
use crate::store::thing_joined;
use crate::store::thing_unshadowed;
use crate::store::thing_with;
use crate::store::thing_without;
use crate::store::ThingStore;
use crate::store::well_formed;
use crate::store::with_thing;
use crate::store::with_thing_replaced;
use crate::store::without_thing;
use crate::table::is_text;
use crate::text::same_text;
use crate::text::views;
use crate::thing::RecordView;
use crate::thing::Thing;
use crate::thing;
use crate::thing_set::clone_things;
use crate::thingtag::Thingtag;

verus! {

/// The place of the first thing with the URL `url`.
fn find_thing(rows: &Vec<thing::Record>, url: &String) -> (res: Option<usize>)
    ensures
        match res {
            Some(i) => i < rows@.len() && first_match(views(rows@), thing_with(url@)) == Some(
                rows@[i as int]@,
            ),
            None => first_match(views(rows@), thing_with(url@)).is_none(),
        },
        res.is_some() == any_match(views(rows@), thing_with(url@)),
{
    let mut i: usize = 0;
    while i < rows.len()
        invariant
            i <= rows@.len(),
            forall|j: int| 0 <= j < i ==> !thing_with(url@)(#[trigger] views(rows@)[j]),
        decreases rows@.len() - i,
    {
        if is_text(url, rows[i].url()) {
            proof {
                lemma_first_match_at(views(rows@), thing_with(url@), i as int);
            }
            return Some(i);
        }
        i += 1;
    }
    proof {
        lemma_first_match_none(views(rows@), thing_with(url@));
    }
    None
}

/// The things with another URL than `url`, in their order.
fn things_without(rows: &Vec<thing::Record>, url: &String) -> (res: Vec<thing::Record>)
    ensures
        views(res@) == views(rows@).filter(thing_without(url@)),
{
    let mut out: Vec<thing::Record> = Vec::new();
    let mut i: usize = 0;
    proof {
        lemma_filter_none(views(rows@), thing_without(url@));
        assert(views(out@) =~= Seq::<RecordView>::empty());
    }
    while i < rows.len()
        invariant
            i <= rows@.len(),
            views(out@) == views(rows@).take(i as int).filter(thing_without(url@)),
        decreases rows@.len() - i,
    {
        let ghost before = views(out@);
        proof {
            lemma_filter_step(views(rows@), thing_without(url@), i as int);
        }
        if !is_text(url, rows[i].url()) {
            out.push(rows[i].clone());
            assert(views(out@) =~= before.push(rows@[i as int]@));
        }
        i += 1;
    }
    assert(views(rows@).take(i as int) =~= views(rows@));
    out
}

/// The relation rows of another thing than `url`, in their order.
fn pairs_off_thing(rows: &Vec<Thingtag>, url: &String) -> (res: Vec<Thingtag>)
    ensures
        views(res@) == views(rows@).filter(pair_off_thing(url@)),
{
    let mut out: Vec<Thingtag> = Vec::new();
    let mut i: usize = 0;
    proof {
        lemma_filter_none(views(rows@), pair_off_thing(url@));
        assert(views(out@) =~= Seq::<(Seq<char>, Seq<char>)>::empty());
    }
    while i < rows.len()
        invariant
            i <= rows@.len(),
            views(out@) == views(rows@).take(i as int).filter(pair_off_thing(url@)),
        decreases rows@.len() - i,
    {
        let ghost before = views(out@);
        proof {
            lemma_filter_step(views(rows@), pair_off_thing(url@), i as int);
        }
        if !is_text(url, rows[i].thing_id()) {
            out.push(rows[i].clone());
            assert(views(out@) =~= before.push(rows@[i as int]@));
        }
        i += 1;
    }
    assert(views(rows@).take(i as int) =~= views(rows@));
    out
}

impl ThingStore {
    /// The thing that `entity_id` resolves to. A staged thing wins over a
    /// source thing with the same URL.
    pub fn get(store: &Store, entity_id: &String) -> (res: Result<Option<thing::Record>, SomeError>)
        ensures
            res matches Ok(found) && opt_thing(found) == get_thing(store@, entity_id@),
    {
        match find_thing(&store.staged_things, entity_id) {
            Some(i) => Ok(Some(store.staged_things[i].clone())),
            None => match find_thing(&store.source_things, entity_id) {
                Some(i) => Ok(Some(store.source_things[i].clone())),
                None => Ok(None),
            },
        }
    }

    /// Every thing of the overlay.
    pub fn to_vec(store: &Store) -> (res: Result<Vec<thing::Record>, SomeError>)
        ensures
            res matches Ok(list) && views(list@) == overlay_things(store@),
    {
        let mut out = clone_things(&store.staged_things);
        let ghost staged = views(store.staged_things@);
        let ghost source = views(store.source_things@);
        let mut i: usize = 0;
        proof {
            lemma_filter_none(source, thing_unshadowed(staged));
            assert(views(out@) =~= staged + source.take(0).filter(thing_unshadowed(staged)));
        }
        while i < store.source_things.len()
            invariant
                i <= store.source_things@.len(),
                staged == views(store.staged_things@),
                source == views(store.source_things@),
                views(out@) == staged + source.take(i as int).filter(thing_unshadowed(staged)),
            decreases store.source_things@.len() - i,
        {
            let ghost before = views(out@);
            proof {
                lemma_filter_step(source, thing_unshadowed(staged), i as int);
            }
            let url = store.source_things[i].url().to_owned();
            if find_thing(&store.staged_things, &url).is_none() {
                out.push(store.source_things[i].clone());
                assert(views(out@) =~= before.push(source[i as int]));
            }
            i += 1;
        }
        assert(source.take(i as int) =~= source);
        Ok(out)
    }

    /// The number of things of the overlay.
    pub fn len(store: &Store) -> (res: Result<usize, SomeError>)
        ensures
            res matches Ok(n) && n == overlay_things(store@).len(),
    {
        match Self::to_vec(store) {
            Ok(list) => Ok(list.len()),
            Err(e) => Err(e),
        }
    }

    /// Whether the overlay holds no thing.
    pub fn is_empty(store: &Store) -> (res: Result<bool, SomeError>)
        ensures
            res matches Ok(b) && b == (overlay_things(store@).len() == 0),
    {
        match Self::len(store) {
            Ok(n) => Ok(n == 0),
            Err(e) => Err(e),
        }
    }

    /// Whether `entity_id` resolves to a thing.
    pub fn contains(store: &Store, entity_id: &String) -> (res: Result<bool, SomeError>)
        ensures
            res matches Ok(b) && b == get_thing(store@, entity_id@).is_some(),
    {
        match Self::get(store, entity_id) {
            Ok(found) => Ok(found.is_some()),
            Err(e) => Err(e),
        }
    }

    /// Stages a thing behind the staged ones. A thing whose URL is staged
    /// already, or whose category resolves to no tag, is refused and nothing
    /// changes.
    pub fn add(store: &mut Store, entity: &thing::Record) -> (res: Result<(), SomeError>)
        ensures
            any_match(old(store)@.staging.things, thing_with(entity@.url)) ==> (res matches Err(
                SomeError::StoreError(StoreError::Duplicate(id)),
            ) && id@ == entity@.url) && final(store)@ == old(store)@,
            !any_match(old(store)@.staging.things, thing_with(entity@.url)) && get_tag(
                old(store)@,
                entity@.category_id,
            ).is_none() ==> (res matches Err(SomeError::StoreError(StoreError::Reference(id)))
                && id@ == entity@.category_id) && final(store)@ == old(store)@,
            !any_match(old(store)@.staging.things, thing_with(entity@.url)) && get_tag(
                old(store)@,
                entity@.category_id,
            ).is_some() ==> res.is_ok() && final(store)@ == with_thing(old(store)@, entity@),
            well_formed(old(store)@) ==> well_formed(final(store)@),
    {
        proof {
            if well_formed(store@) {
                lemma_thing_writes_keep_well_formed(store@, entity@);
            }
        }
        let url = entity.url().to_owned();
        if find_thing(&store.staged_things, &url).is_some() {
            return Err(SomeError::StoreError(StoreError::Duplicate(url)));
        }
        let known = match TagStore::contains(store, entity.category_id()) {
            Ok(b) => b,
            Err(e) => {
                return Err(e);
            },
        };
        if !known {
            return Err(SomeError::StoreError(StoreError::Reference(entity.category_id().clone())));
        }
        let ghost before = views(store.staged_things@);
        store.staged_things.push(entity.clone());
        assert(views(store.staged_things@) =~= before.push(entity@));
        Ok(())
    }

    /// Takes the thing out of the staging ring, and with it every staged
    /// relation row of that thing. The source ring is left as it is: a thing
    /// of the source ring, and the relation rows that the source ring holds
    /// of it, are seen in the overlay as before.
    pub fn remove(store: &mut Store, entity_id: &String) -> (res: Result<(), SomeError>)
        ensures
            res.is_ok(),
            final(store)@ == without_thing(old(store)@, entity_id@),
            well_formed(old(store)@) ==> well_formed(final(store)@),
    {
        proof {
            if well_formed(store@) {
                lemma_thing_removal_keeps_well_formed(store@, entity_id@);
            }
        }
        let things = things_without(&store.staged_things, entity_id);
        let pairs = pairs_off_thing(&store.staged_thing_tags, entity_id);
        store.staged_things = things;
        store.staged_thing_tags = pairs;
        Ok(())
    }

    /// Stages a thing in place of any staged thing with the same URL. A
    /// thing whose category resolves to no tag is refused and nothing changes.
    pub fn replace(store: &mut Store, entity: &thing::Record) -> (res: Result<(), SomeError>)
        ensures
            get_tag(old(store)@, entity@.category_id).is_none() ==> (res matches Err(
                SomeError::StoreError(StoreError::Reference(id)),
            ) && id@ == entity@.category_id) && final(store)@ == old(store)@,
            get_tag(old(store)@, entity@.category_id).is_some() ==> res.is_ok() && final(store)@
                == with_thing_replaced(old(store)@, entity@),
            well_formed(old(store)@) ==> well_formed(final(store)@),
    {
        proof {
            if well_formed(store@) {
                lemma_thing_writes_keep_well_formed(store@, entity@);
            }
        }
        let known = match TagStore::contains(store, entity.category_id()) {
            Ok(b) => b,
            Err(e) => {
                return Err(e);
            },
        };
        if !known {
            return Err(SomeError::StoreError(StoreError::Reference(entity.category_id().clone())));
        }
        let url = entity.url().to_owned();
        let mut things = things_without(&store.staged_things, &url);
        let ghost before = views(things@);
        things.push(entity.clone());
        assert(views(things@) =~= before.push(entity@));
        store.staged_things = things;
        Ok(())
    }

    /// The things of the overlay that belong to a category, in the order of
    /// the overlay, each with the tags joined to it.
    pub fn list_categorised(store: &Store, category_id: &String) -> (res: Result<
        Vec<Thing>,
        SomeError,
    >)
        ensures
            res matches Ok(list) && list@.len() == overlay_things(store@).filter(
                thing_in(category_id@),
            ).len() && forall|i: int|
                0 <= i < list@.len() ==> thing_joined(
                    store@,
                    overlay_things(store@).filter(thing_in(category_id@))[i],
                    (#[trigger] list@[i])@,
                ),
    {
        let all = match Self::to_vec(store) {
            Ok(list) => list,
            Err(e) => {
                return Err(e);
            },
        };
        let ghost rows = views(all@);
        let ghost pred = thing_in(category_id@);
        let mut out: Vec<Thing> = Vec::new();
        let mut i: usize = 0;
        proof {
            lemma_filter_none(rows, pred);
        }
        while i < all.len()
            invariant
                i <= all@.len(),
                rows == views(all@),
                rows == overlay_things(store@),
                pred == thing_in(category_id@),
                out@.len() == rows.take(i as int).filter(pred).len(),
                forall|k: int|
                    0 <= k < out@.len() ==> thing_joined(
                        store@,
                        rows.take(i as int).filter(pred)[k],
                        (#[trigger] out@[k])@,
                    ),
            decreases all@.len() - i,
        {
            proof {
                lemma_filter_step(rows, pred, i as int);
            }
            if same_text(all[i].category_id(), category_id) {
                let url = all[i].url().to_owned();
                let tags = match tags_for(store, &url) {
                    Ok(tags) => tags,
                    Err(e) => {
                        return Err(e);
                    },
                };
                let thing = Thing {
                    url,
                    name: all[i].name().to_owned(),
                    summary: all[i].summary(),
                    category: all[i].category_id().clone(),
                    tags,
                };
                assert(thing_joined(store@, rows[i as int], thing@));
                out.push(thing);
            }
            i += 1;
        }
        assert(rows.take(i as int) =~= rows);
        Ok(out)
    }
}

} // verus!
