//! The repository of the relation between things and tags.

use vstd::prelude::*;
use crate::guarantees::lemma_pair_writes_keep_well_formed;
use crate::relation::lemma_filter_none;
use crate::relation::lemma_filter_step;
use crate::SomeError;
use crate::store::get_tag;
use crate::store::get_thing;
use crate::store::lemma_overlay_pair;
use crate::store::overlay_thing_tags;
use crate::store::pair_unshadowed;
use crate::store::pair_without;
use crate::store::PairFault;
use crate::store::Store;
use crate::store::StoreError;
use crate::store::TagStore;
use crate::store::ThingStore;
use crate::store::thingtag_fault;
use crate::store::ThingtagStore;
use crate::store::well_formed;
use crate::store::with_pair;
use crate::store::with_pair_replaced;
use crate::store::without_pair;
use crate::table::is_text;
use crate::text::same_text;
use crate::text::views;
use crate::thingtag::Thingtag;
use crate::thingtag_set::clone_thingtags;

verus! {

/// Whether a relation row joins the thing `url` and the tag `id`.
fn pair_is(row: &Thingtag, url: &String, id: &String) -> (res: bool)
    ensures
        res == (row@ == (url@, id@)),
{
    is_text(url, row.thing_id()) && same_text(row.tag_id(), id)
}

/// Whether the rows hold the relation row of `url` and `id`.
fn has_pair(rows: &Vec<Thingtag>, url: &String, id: &String) -> (res: bool)
    ensures
        res == views(rows@).contains((url@, id@)),
{
    let mut i: usize = 0;
    while i < rows.len()
        invariant
            i <= rows@.len(),
            forall|j: int| 0 <= j < i ==> views(rows@)[j] != (url@, id@),
        decreases rows@.len() - i,
    {
        if pair_is(&rows[i], url, id) {
            assert(views(rows@)[i as int] == (url@, id@));
            return true;
        }
        i += 1;
    }
    false
}

/// The relation rows other than the one of `url` and `id`, in their order.
fn pairs_without(rows: &Vec<Thingtag>, url: &String, id: &String) -> (res: Vec<Thingtag>)
    ensures
        views(res@) == views(rows@).filter(pair_without((url@, id@))),
{
    let mut out: Vec<Thingtag> = Vec::new();
    let mut i: usize = 0;
    let ghost pred = pair_without((url@, id@));
    proof {
        lemma_filter_none(views(rows@), pred);
        assert(views(out@) =~= Seq::<(Seq<char>, Seq<char>)>::empty());
    }
    while i < rows.len()
        invariant
            i <= rows@.len(),
            pred == pair_without((url@, id@)),
            views(out@) == views(rows@).take(i as int).filter(pred),
        decreases rows@.len() - i,
    {
        let ghost before = views(out@);
        proof {
            lemma_filter_step(views(rows@), pred, i as int);
        }
        if !pair_is(&rows[i], url, id) {
            out.push(rows[i].clone());
            assert(views(out@) =~= before.push(rows@[i as int]@));
        }
        i += 1;
    }
    assert(views(rows@).take(i as int) =~= views(rows@));
    out
}

impl ThingtagStore {
    /// Every relation row of the overlay.
    pub fn to_vec(store: &Store) -> (res: Result<Vec<Thingtag>, SomeError>)
        ensures
            res matches Ok(list) && views(list@) == overlay_thing_tags(store@),
    {
        let mut out = clone_thingtags(&store.staged_thing_tags);
        let ghost staged = views(store.staged_thing_tags@);
        let ghost source = views(store.source_thing_tags@);
        let mut i: usize = 0;
        proof {
            lemma_filter_none(source, pair_unshadowed(staged));
            assert(views(out@) =~= staged + source.take(0).filter(pair_unshadowed(staged)));
        }
        while i < store.source_thing_tags.len()
            invariant
                i <= store.source_thing_tags@.len(),
                staged == views(store.staged_thing_tags@),
                source == views(store.source_thing_tags@),
                views(out@) == staged + source.take(i as int).filter(pair_unshadowed(staged)),
            decreases store.source_thing_tags@.len() - i,
        {
            let ghost before = views(out@);
            proof {
                lemma_filter_step(source, pair_unshadowed(staged), i as int);
            }
            let url = store.source_thing_tags[i].thing_id().to_owned();
            if !has_pair(&store.staged_thing_tags, &url, store.source_thing_tags[i].tag_id()) {
                out.push(store.source_thing_tags[i].clone());
                assert(views(out@) =~= before.push(source[i as int]));
            }
            i += 1;
        }
        assert(source.take(i as int) =~= source);
        Ok(out)
    }

    /// The number of relation rows of the overlay.
    pub fn len(store: &Store) -> (res: Result<usize, SomeError>)
        ensures
            res matches Ok(n) && n == overlay_thing_tags(store@).len(),
    {
        match Self::to_vec(store) {
            Ok(list) => Ok(list.len()),
            Err(e) => Err(e),
        }
    }

    /// The relation row of a thing and a tag, where the overlay holds it.
    pub fn get(store: &Store, entity_id: &(String, String)) -> (res: Result<
        Option<Thingtag>,
        SomeError,
    >)
        ensures
            res matches Ok(found) && match found {
                Some(row) => row@ == (entity_id.0@, entity_id.1@) && overlay_thing_tags(
                    store@,
                ).contains(row@),
                None => !overlay_thing_tags(store@).contains((entity_id.0@, entity_id.1@)),
            },
    {
        proof {
            lemma_overlay_pair(store@, (entity_id.0@, entity_id.1@));
        }
        if has_pair(&store.staged_thing_tags, &entity_id.0, &entity_id.1) || has_pair(
            &store.source_thing_tags,
            &entity_id.0,
            &entity_id.1,
        ) {
            Ok(Some(Thingtag::new(entity_id.0.clone(), entity_id.1.clone())))
        } else {
            Ok(None)
        }
    }

    /// Stages a relation row behind the staged ones. A row that is staged
    /// already, or whose thing or tag does not resolve, is refused and
    /// nothing changes.
    pub fn add(store: &mut Store, entity: &Thingtag) -> (res: Result<(), SomeError>)
        ensures
            match thingtag_fault(old(store)@, entity@) {
                Some(fault) => final(store)@ == old(store)@ && match fault {
                    PairFault::Staged => res matches Err(
                        SomeError::StoreError(StoreError::Duplicate(id)),
                    ) && id@ == entity@.0,
                    PairFault::NoThing => res matches Err(
                        SomeError::StoreError(StoreError::Reference(id)),
                    ) && id@ == entity@.0,
                    PairFault::NoTag => res matches Err(
                        SomeError::StoreError(StoreError::Reference(id)),
                    ) && id@ == entity@.1,
                },
                None => res.is_ok() && final(store)@ == with_pair(old(store)@, entity@),
            },
            well_formed(old(store)@) ==> well_formed(final(store)@),
    {
        proof {
            if well_formed(store@) {
                lemma_pair_writes_keep_well_formed(store@, entity@);
            }
        }
        let url = entity.thing_id().to_owned();
        if has_pair(&store.staged_thing_tags, &url, entity.tag_id()) {
            return Err(SomeError::StoreError(StoreError::Duplicate(url)));
        }
        let thing_known = match ThingStore::contains(store, &url) {
            Ok(b) => b,
            Err(e) => {
                return Err(e);
            },
        };
        if !thing_known {
            return Err(SomeError::StoreError(StoreError::Reference(url)));
        }
        let tag_known = match TagStore::contains(store, entity.tag_id()) {
            Ok(b) => b,
            Err(e) => {
                return Err(e);
            },
        };
        if !tag_known {
            return Err(SomeError::StoreError(StoreError::Reference(entity.tag_id().clone())));
        }
        let ghost before = views(store.staged_thing_tags@);
        store.staged_thing_tags.push(entity.clone());
        assert(views(store.staged_thing_tags@) =~= before.push(entity@));
        Ok(())
    }

    /// Stages a relation row in place of the same row, if it is staged. A
    /// row whose thing or tag does not resolve is refused and nothing
    /// changes.
    pub fn replace(store: &mut Store, entity: &Thingtag) -> (res: Result<(), SomeError>)
        ensures
            get_thing(old(store)@, entity@.0).is_none() ==> (res matches Err(
                SomeError::StoreError(StoreError::Reference(id)),
            ) && id@ == entity@.0) && final(store)@ == old(store)@,
            get_thing(old(store)@, entity@.0).is_some() && get_tag(old(store)@, entity@.1).is_none()
                ==> (res matches Err(SomeError::StoreError(StoreError::Reference(id))) && id@
                == entity@.1) && final(store)@ == old(store)@,
            get_thing(old(store)@, entity@.0).is_some() && get_tag(old(store)@, entity@.1).is_some()
                ==> res.is_ok() && final(store)@ == with_pair_replaced(old(store)@, entity@),
            well_formed(old(store)@) ==> well_formed(final(store)@),
    {
        proof {
            if well_formed(store@) {
                lemma_pair_writes_keep_well_formed(store@, entity@);
            }
        }
        let url = entity.thing_id().to_owned();
        let thing_known = match ThingStore::contains(store, &url) {
            Ok(b) => b,
            Err(e) => {
                return Err(e);
            },
        };
        if !thing_known {
            return Err(SomeError::StoreError(StoreError::Reference(url)));
        }
        let tag_known = match TagStore::contains(store, entity.tag_id()) {
            Ok(b) => b,
            Err(e) => {
                return Err(e);
            },
        };
        if !tag_known {
            return Err(SomeError::StoreError(StoreError::Reference(entity.tag_id().clone())));
        }
        let mut pairs = pairs_without(&store.staged_thing_tags, &url, entity.tag_id());
        let ghost before = views(pairs@);
        pairs.push(entity.clone());
        assert(views(pairs@) =~= before.push(entity@));
        store.staged_thing_tags = pairs;
        Ok(())
    }

    /// Takes the relation row of a thing and a tag out of the staging ring.
    /// The source ring is left as it is: a row that it holds is seen in the
    /// overlay as before.
    pub fn remove(store: &mut Store, entity_id: &(String, String)) -> (res: Result<(), SomeError>)
        ensures
            res.is_ok(),
            final(store)@ == without_pair(old(store)@, (entity_id.0@, entity_id.1@)),
            well_formed(old(store)@) ==> well_formed(final(store)@),
    {
        proof {
            if well_formed(store@) {
                lemma_pair_writes_keep_well_formed(store@, (entity_id.0@, entity_id.1@));
            }
        }
        let pairs = pairs_without(&store.staged_thing_tags, &entity_id.0, &entity_id.1);
        store.staged_thing_tags = pairs;
        Ok(())
    }
}

} // verus!
