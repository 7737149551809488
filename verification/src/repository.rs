//! The contract that the repositories of tags, things and relation rows
//! share: reads see the overlay, writes reach the staging ring only.

use vstd::prelude::*;
use crate::relation::any_match;
use crate::SomeError;
use crate::store::get_tag;
use crate::store::get_thing;
use crate::store::overlay_tags;
use crate::store::overlay_thing_tags;
use crate::store::overlay_things;
use crate::store::PairFault;
use crate::store::Store;
use crate::store::StoreError;
use crate::store::StoreView;
use crate::store::TagStore;
use crate::store::ThingStore;
use crate::store::ThingtagStore;
use crate::store::tag_with;
use crate::store::thing_with;
use crate::store::thingtag_fault;
use crate::store::well_formed;
use crate::store::with_pair;
use crate::store::with_pair_replaced;
use crate::store::with_tag;
use crate::store::with_tag_replaced;
use crate::store::with_thing;
use crate::store::with_thing_replaced;
use crate::store::without_pair;
use crate::store::without_tag;
use crate::store::without_thing;
use crate::tag;
use crate::thing;
use crate::thingtag::Thingtag;

verus! {

/// What every repository offers: reads over the overlay, and writes whose
/// outcome each repository spells out for its own relation.
pub trait Repository {
    type Entity;

    type EntityId;

    /// Whether an identifier resolves to an entity of the overlay.
    spec fn resolves(s: StoreView, id: Self::EntityId) -> bool;

    /// The number of entities of the overlay.
    spec fn count(s: StoreView) -> nat;

    /// What staging an entity gives: the store with the entity staged behind
    /// the staged ones, or the fault for which it is refused with the store
    /// as it was.
    spec fn add_outcome(
        s: StoreView,
        entity: Self::Entity,
        res: Result<(), SomeError>,
        after: StoreView,
    ) -> bool;

    /// The store once the entity of an identifier has left the staging ring.
    spec fn removed(s: StoreView, id: Self::EntityId) -> StoreView;

    /// What staging an entity in place of the staged one of its key gives:
    /// the store with the entity staged so, or the fault for which it is
    /// refused with the store as it was.
    spec fn replace_outcome(
        s: StoreView,
        entity: Self::Entity,
        res: Result<(), SomeError>,
        after: StoreView,
    ) -> bool;

    /// The entity that an identifier resolves to.
    fn get(store: &Store, entity_id: &Self::EntityId) -> (res: Result<
        Option<Self::Entity>,
        SomeError,
    >)
        ensures
            res matches Ok(found) && found.is_some() == Self::resolves(store@, *entity_id),
    ;

    /// Every entity of the overlay.
    fn to_vec(store: &Store) -> (res: Result<Vec<Self::Entity>, SomeError>)
        ensures
            res matches Ok(list) && list@.len() == Self::count(store@),
    ;

    /// The number of entities of the overlay.
    fn len(store: &Store) -> (res: Result<usize, SomeError>)
        ensures
            res matches Ok(n) && n == Self::count(store@),
    ;

    /// Whether the overlay holds no entity.
    fn is_empty(store: &Store) -> (res: Result<bool, SomeError>)
        ensures
            res matches Ok(b) && b == (Self::count(store@) == 0),
    {
        match Self::len(store) {
            Ok(n) => Ok(n == 0),
            Err(e) => Err(e),
        }
    }

    /// Whether an identifier resolves to an entity of the overlay.
    fn contains(store: &Store, entity_id: &Self::EntityId) -> (res: Result<bool, SomeError>)
        ensures
            res matches Ok(b) && b == Self::resolves(store@, *entity_id),
    {
        match Self::get(store, entity_id) {
            Ok(found) => Ok(found.is_some()),
            Err(e) => Err(e),
        }
    }

    /// Stages an entity. The source ring stays as it is, and so does the
    /// whole store where the entity is refused. A well-formed store stays
    /// well formed.
    fn add(store: &mut Store, entity: &Self::Entity) -> (res: Result<(), SomeError>)
        ensures
            Self::add_outcome(old(store)@, *entity, res, final(store)@),
            final(store)@.source == old(store)@.source,
            res.is_err() ==> final(store)@ == old(store)@,
            well_formed(old(store)@) ==> well_formed(final(store)@),
    ;

    /// Takes an entity out of the staging ring. The source ring stays as it
    /// is, and a well-formed store stays well formed.
    fn remove(store: &mut Store, entity_id: &Self::EntityId) -> (res: Result<(), SomeError>)
        ensures
            res.is_ok(),
            final(store)@ == Self::removed(old(store)@, *entity_id),
            final(store)@.source == old(store)@.source,
            well_formed(old(store)@) ==> well_formed(final(store)@),
    ;

    /// Stages an entity in place of the staged one of its key. The source
    /// ring stays as it is, and so does the whole store where the entity is
    /// refused. A well-formed store stays well formed.
    fn replace(store: &mut Store, entity: &Self::Entity) -> (res: Result<(), SomeError>)
        ensures
            Self::replace_outcome(old(store)@, *entity, res, final(store)@),
            final(store)@.source == old(store)@.source,
            res.is_err() ==> final(store)@ == old(store)@,
            well_formed(old(store)@) ==> well_formed(final(store)@),
    ;
}

impl Repository for TagStore {
    type Entity = tag::Record;

    type EntityId = String;

    open spec fn resolves(s: StoreView, id: String) -> bool {
        get_tag(s, id@).is_some()
    }

    open spec fn count(s: StoreView) -> nat {
        overlay_tags(s).len()
    }

    /// A tag whose identifier is staged already is a duplicate; any other is
    /// staged behind the staged tags.
    open spec fn add_outcome(
        s: StoreView,
        entity: tag::Record,
        res: Result<(), SomeError>,
        after: StoreView,
    ) -> bool {
        if any_match(s.staging.tags, tag_with(entity@.id)) {
            after == s && (res matches Err(SomeError::StoreError(StoreError::Duplicate(id))) && id@
                == entity@.id)
        } else {
            res.is_ok() && after == with_tag(s, entity@)
        }
    }

    /// The tag leaves the staging ring with the staged relation rows of it.
    open spec fn removed(s: StoreView, id: String) -> StoreView {
        without_tag(s, id@)
    }

    /// Every tag can take the place of the staged tags of its identifier.
    open spec fn replace_outcome(
        s: StoreView,
        entity: tag::Record,
        res: Result<(), SomeError>,
        after: StoreView,
    ) -> bool {
        res.is_ok() && after == with_tag_replaced(s, entity@)
    }

    fn get(store: &Store, entity_id: &String) -> (res: Result<Option<tag::Record>, SomeError>) {
        TagStore::get(store, entity_id)
    }

    fn to_vec(store: &Store) -> (res: Result<Vec<tag::Record>, SomeError>) {
        TagStore::to_vec(store)
    }

    fn len(store: &Store) -> (res: Result<usize, SomeError>) {
        TagStore::len(store)
    }

    fn add(store: &mut Store, entity: &tag::Record) -> (res: Result<(), SomeError>) {
        TagStore::add(store, entity)
    }

    fn remove(store: &mut Store, entity_id: &String) -> (res: Result<(), SomeError>) {
        TagStore::remove(store, entity_id)
    }

    fn replace(store: &mut Store, entity: &tag::Record) -> (res: Result<(), SomeError>) {
        TagStore::replace(store, entity)
    }
}

impl Repository for ThingStore {
    type Entity = thing::Record;

    type EntityId = String;

    open spec fn resolves(s: StoreView, id: String) -> bool {
        get_thing(s, id@).is_some()
    }

    open spec fn count(s: StoreView) -> nat {
        overlay_things(s).len()
    }

    /// A thing whose URL is staged already is a duplicate; one whose category
    /// resolves to no tag refers to nothing; any other is staged behind the
    /// staged things.
    open spec fn add_outcome(
        s: StoreView,
        entity: thing::Record,
        res: Result<(), SomeError>,
        after: StoreView,
    ) -> bool {
        if any_match(s.staging.things, thing_with(entity@.url)) {
            after == s && (res matches Err(SomeError::StoreError(StoreError::Duplicate(id))) && id@
                == entity@.url)
        } else if get_tag(s, entity@.category_id).is_none() {
            after == s && (res matches Err(SomeError::StoreError(StoreError::Reference(id))) && id@
                == entity@.category_id)
        } else {
            res.is_ok() && after == with_thing(s, entity@)
        }
    }

    /// The thing leaves the staging ring with the staged relation rows of it.
    open spec fn removed(s: StoreView, id: String) -> StoreView {
        without_thing(s, id@)
    }

    /// A thing whose category resolves to no tag refers to nothing; any other
    /// takes the place of the staged things of its URL.
    open spec fn replace_outcome(
        s: StoreView,
        entity: thing::Record,
        res: Result<(), SomeError>,
        after: StoreView,
    ) -> bool {
        if get_tag(s, entity@.category_id).is_none() {
            after == s && (res matches Err(SomeError::StoreError(StoreError::Reference(id))) && id@
                == entity@.category_id)
        } else {
            res.is_ok() && after == with_thing_replaced(s, entity@)
        }
    }

    fn get(store: &Store, entity_id: &String) -> (res: Result<Option<thing::Record>, SomeError>) {
        ThingStore::get(store, entity_id)
    }

    fn to_vec(store: &Store) -> (res: Result<Vec<thing::Record>, SomeError>) {
        ThingStore::to_vec(store)
    }

    fn len(store: &Store) -> (res: Result<usize, SomeError>) {
        ThingStore::len(store)
    }

    fn add(store: &mut Store, entity: &thing::Record) -> (res: Result<(), SomeError>) {
        ThingStore::add(store, entity)
    }

    fn remove(store: &mut Store, entity_id: &String) -> (res: Result<(), SomeError>) {
        ThingStore::remove(store, entity_id)
    }

    fn replace(store: &mut Store, entity: &thing::Record) -> (res: Result<(), SomeError>) {
        ThingStore::replace(store, entity)
    }
}

impl Repository for ThingtagStore {
    type Entity = Thingtag;

    type EntityId = (String, String);

    open spec fn resolves(s: StoreView, id: (String, String)) -> bool {
        overlay_thing_tags(s).contains((id.0@, id.1@))
    }

    open spec fn count(s: StoreView) -> nat {
        overlay_thing_tags(s).len()
    }

    /// A relation row that is staged already is a duplicate; one whose thing
    /// or tag does not resolve refers to nothing; any other is staged behind
    /// the staged rows.
    open spec fn add_outcome(
        s: StoreView,
        entity: Thingtag,
        res: Result<(), SomeError>,
        after: StoreView,
    ) -> bool {
        match thingtag_fault(s, entity@) {
            Some(PairFault::Staged) => after == s && (res matches Err(
                SomeError::StoreError(StoreError::Duplicate(id)),
            ) && id@ == entity@.0),
            Some(PairFault::NoThing) => after == s && (res matches Err(
                SomeError::StoreError(StoreError::Reference(id)),
            ) && id@ == entity@.0),
            Some(PairFault::NoTag) => after == s && (res matches Err(
                SomeError::StoreError(StoreError::Reference(id)),
            ) && id@ == entity@.1),
            None => res.is_ok() && after == with_pair(s, entity@),
        }
    }

    /// The relation row of the thing and the tag leaves the staging ring.
    open spec fn removed(s: StoreView, id: (String, String)) -> StoreView {
        without_pair(s, (id.0@, id.1@))
    }

    /// A relation row whose thing or tag does not resolve refers to nothing;
    /// any other takes the place of the same row, if that is staged.
    open spec fn replace_outcome(
        s: StoreView,
        entity: Thingtag,
        res: Result<(), SomeError>,
        after: StoreView,
    ) -> bool {
        if get_thing(s, entity@.0).is_none() {
            after == s && (res matches Err(SomeError::StoreError(StoreError::Reference(id))) && id@
                == entity@.0)
        } else if get_tag(s, entity@.1).is_none() {
            after == s && (res matches Err(SomeError::StoreError(StoreError::Reference(id))) && id@
                == entity@.1)
        } else {
            res.is_ok() && after == with_pair_replaced(s, entity@)
        }
    }

    fn get(store: &Store, entity_id: &(String, String)) -> (res: Result<
        Option<Thingtag>,
        SomeError,
    >) {
        ThingtagStore::get(store, entity_id)
    }

    fn to_vec(store: &Store) -> (res: Result<Vec<Thingtag>, SomeError>) {
        ThingtagStore::to_vec(store)
    }

    fn len(store: &Store) -> (res: Result<usize, SomeError>) {
        ThingtagStore::len(store)
    }

    fn add(store: &mut Store, entity: &Thingtag) -> (res: Result<(), SomeError>) {
        ThingtagStore::add(store, entity)
    }

    fn remove(store: &mut Store, entity_id: &(String, String)) -> (res: Result<(), SomeError>) {
        ThingtagStore::remove(store, entity_id)
    }

    fn replace(store: &mut Store, entity: &Thingtag) -> (res: Result<(), SomeError>) {
        ThingtagStore::replace(store, entity)
    }
}

} // verus!
