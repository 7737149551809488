//! The repository of the changelog.

use vstd::prelude::*;
use crate::change::Change;
use crate::change::Event;
use crate::change::EventId;
use crate::change::EventView;
use crate::clock::now;
use crate::guarantees::lemma_recording_keeps_time_order;
use crate::guarantees::lemma_removal_keeps_time_order;
use crate::relation::first_match;
use crate::relation::lemma_filter_none;
use crate::relation::lemma_filter_step;
use crate::relation::lemma_first_match_at;
use crate::relation::lemma_first_match_none;
use crate::SomeError;
use crate::store::by_time;
use crate::store::change_of;
use crate::store::ChangeStore;
use crate::store::event_with;
use crate::store::event_without;
use crate::store::is_place;
use crate::store::opt_change;
use crate::store::stamp;
use crate::store::Store;
use crate::store::StoreView;
use crate::store::well_formed;
use crate::text::views;

verus! {

impl ChangeStore {
    /// The change of the first event that `event_id` names.
    pub fn get(store: &Store, event_id: &EventId) -> (res: Result<Option<Change>, SomeError>)
        ensures
            res matches Ok(found) && opt_change(found) == change_of(
                first_match(
                    store@.changelog,
                    event_with(
                        event_id.timestamp,
                        event_id.operation@,
                        event_id.kind@,
                        event_id.id@,
                    ),
                ),
            ),
    {
        let ghost pred = event_with(
            event_id.timestamp,
            event_id.operation@,
            event_id.kind@,
            event_id.id@,
        );
        let mut i: usize = 0;
        while i < store.changelog.len()
            invariant
                i <= store.changelog@.len(),
                pred == event_with(
                    event_id.timestamp,
                    event_id.operation@,
                    event_id.kind@,
                    event_id.id@,
                ),
                forall|j: int| 0 <= j < i ==> !pred(#[trigger] views(store.changelog@)[j]),
            decreases store.changelog@.len() - i,
        {
            if store.changelog[i].is(event_id) {
                proof {
                    lemma_first_match_at(views(store.changelog@), pred, i as int);
                }
                return Ok(Some(store.changelog[i].change.clone()));
            }
            i += 1;
        }
        proof {
            lemma_first_match_none(views(store.changelog@), pred);
        }
        Ok(None)
    }

    /// Every event of the changelog, in the order in which it is kept.
    pub fn to_vec(store: &Store) -> (res: Result<Vec<Event>, SomeError>)
        ensures
            res matches Ok(list) && views(list@) == store@.changelog,
    {
        let mut out: Vec<Event> = Vec::new();
        let mut i: usize = 0;
        while i < store.changelog.len()
            invariant
                i <= store.changelog@.len(),
                out@.len() == i,
                forall|k: int| 0 <= k < i ==> out@[k]@ == store.changelog@[k]@,
            decreases store.changelog@.len() - i,
        {
            out.push(store.changelog[i].clone());
            i += 1;
        }
        assert(views(out@) =~= views(store.changelog@));
        Ok(out)
    }

    /// The number of events of the changelog.
    pub fn len(store: &Store) -> (res: Result<usize, SomeError>)
        ensures
            res matches Ok(n) && n == store@.changelog.len(),
    {
        Ok(store.changelog.len())
    }

    /// Records a change at the time `timestamp`: behind every event that is
    /// not later, before the first that is. A well-formed store stays well
    /// formed: its changelog stays in the order of time.
    pub fn add_at(store: &mut Store, entity: &Change, timestamp: usize) -> (res: Result<
        (),
        SomeError,
    >)
        ensures
            res.is_ok(),
            exists|k: int|
                is_place(old(store)@.changelog, timestamp, k) && final(store)@ == (StoreView {
                    changelog: old(store)@.changelog.insert(
                        k,
                        EventView { timestamp, change: entity@ },
                    ),
                    ..old(store)@
                }),
            well_formed(old(store)@) ==> well_formed(final(store)@),
    {
        let ghost log = views(store.changelog@);
        let mut k: usize = 0;
        while k < store.changelog.len() && store.changelog[k].timestamp <= timestamp
            invariant
                k <= store.changelog@.len(),
                *store == *old(store),
                log == views(store.changelog@),
                forall|j: int| 0 <= j < k ==> (#[trigger] log[j]).timestamp <= timestamp,
            decreases store.changelog@.len() - k,
        {
            k += 1;
        }
        let event = Event { timestamp, change: entity.clone() };
        let ghost shown = event@;
        store.changelog.insert(k, event);
        proof {
            let after = views(store.changelog@);
            assert(after =~= log.insert(k as int, shown));
            assert(is_place(log, timestamp, k as int));
            assert(store@ == (StoreView {
                changelog: old(store)@.changelog.insert(
                    k as int,
                    EventView { timestamp, change: entity@ },
                ),
                ..old(store)@
            }));
            if by_time(log) {
                lemma_recording_keeps_time_order(log, shown, k as int);
            }
        }
        Ok(())
    }

    /// Records a change at the time that the machine's clock shows.
    pub fn add(store: &mut Store, entity: &Change) -> (res: Result<(), SomeError>)
        ensures
            res.is_ok(),
            exists|timestamp: usize, k: int|
                is_place(old(store)@.changelog, timestamp, k) && final(store)@ == (StoreView {
                    changelog: old(store)@.changelog.insert(
                        k,
                        EventView { timestamp, change: entity@ },
                    ),
                    ..old(store)@
                }),
            well_formed(old(store)@) ==> well_formed(final(store)@),
    {
        let timestamp = stamp(now().0);
        Self::add_at(store, entity, timestamp)
    }

    /// Takes every event that `event_id` names out of the changelog. A
    /// well-formed store stays well formed.
    pub fn remove(store: &mut Store, event_id: &EventId) -> (res: Result<(), SomeError>)
        ensures
            res.is_ok(),
            final(store)@ == (StoreView {
                changelog: old(store)@.changelog.filter(
                    event_without(
                        event_id.timestamp,
                        event_id.operation@,
                        event_id.kind@,
                        event_id.id@,
                    ),
                ),
                ..old(store)@
            }),
            well_formed(old(store)@) ==> well_formed(final(store)@),
    {
        let ghost pred = event_without(
            event_id.timestamp,
            event_id.operation@,
            event_id.kind@,
            event_id.id@,
        );
        let ghost log = views(store.changelog@);
        let mut out: Vec<Event> = Vec::new();
        let mut i: usize = 0;
        proof {
            lemma_filter_none(log, pred);
            assert(views(out@) =~= Seq::<EventView>::empty());
        }
        while i < store.changelog.len()
            invariant
                i <= store.changelog@.len(),
                *store == *old(store),
                log == views(store.changelog@),
                pred == event_without(
                    event_id.timestamp,
                    event_id.operation@,
                    event_id.kind@,
                    event_id.id@,
                ),
                views(out@) == log.take(i as int).filter(pred),
            decreases store.changelog@.len() - i,
        {
            let ghost before = views(out@);
            proof {
                lemma_filter_step(log, pred, i as int);
            }
            if !store.changelog[i].is(event_id) {
                out.push(store.changelog[i].clone());
                assert(views(out@) =~= before.push(log[i as int]));
            }
            i += 1;
        }
        assert(log.take(i as int) =~= log);
        proof {
            if by_time(log) {
                lemma_removal_keeps_time_order(log, pred);
            }
        }
        store.changelog = out;
        Ok(())
    }

    /// Empties the changelog.
    pub fn flush(store: &mut Store) -> (res: Result<(), SomeError>)
        ensures
            res.is_ok(),
            final(store)@ == (StoreView { changelog: Seq::empty(), ..old(store)@ }),
            well_formed(old(store)@) ==> well_formed(final(store)@),
    {
        store.changelog = Vec::new();
        assert(views(store.changelog@) =~= Seq::<EventView>::empty());
        Ok(())
    }
}

} // verus!
