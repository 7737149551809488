//! The repository of tags.

use vstd::prelude::*;
use crate::guarantees::lemma_tag_removal_keeps_well_formed;
use crate::guarantees::lemma_tag_writes_keep_well_formed;
use crate::relation::any_match;
use crate::relation::first_match;
use crate::relation::lemma_filter_none;
use crate::relation::lemma_filter_step;
use crate::relation::lemma_first_match_at;
use crate::relation::lemma_first_match_none;
use crate::SomeError;
use crate::store::categories;
use crate::store::get_tag;
use crate::store::lemma_get_tag_id;
use crate::store::opt_tag;
use crate::store::overlay_tags;
use crate::store::overlay_things;
use crate::store::pair_off_tag;
use crate::store::Store;
use crate::store::StoreError;
use crate::store::tag_ids;
use crate::store::tag_outside;
use crate::store::tag_unshadowed;
use crate::store::tag_with;
use crate::store::tag_without;
use crate::store::TagStore;
use crate::store::thing_in;
use crate::store::ThingStore;
use crate::store::well_formed;
use crate::store::with_tag;
use crate::store::with_tag_replaced;
use crate::store::without_tag;
use crate::tag::TagView;
use crate::tag;
use crate::tag_set::clone_tags;
use crate::text::ascending;
use crate::text::contains_text;
use crate::text::insert_sorted;
use crate::text::same_text;
use crate::text::texts;
use crate::text::views;
use crate::thingtag::Thingtag;

verus! {

/// The place of the first tag with the identifier `id`.
fn find_tag(rows: &Vec<tag::Record>, id: &String) -> (res: Option<usize>)
    ensures
        match res {
            Some(i) => i < rows@.len() && first_match(views(rows@), tag_with(id@)) == Some(
                rows@[i as int]@,
            ),
            None => first_match(views(rows@), tag_with(id@)).is_none(),
        },
        res.is_some() == any_match(views(rows@), tag_with(id@)),
{
    let mut i: usize = 0;
    while i < rows.len()
        invariant
            i <= rows@.len(),
            forall|j: int| 0 <= j < i ==> !tag_with(id@)(#[trigger] views(rows@)[j]),
        decreases rows@.len() - i,
    {
        if same_text(rows[i].id(), id) {
            proof {
                lemma_first_match_at(views(rows@), tag_with(id@), i as int);
            }
            return Some(i);
        }
        i += 1;
    }
    proof {
        lemma_first_match_none(views(rows@), tag_with(id@));
    }
    None
}

/// The tags with another identifier than `id`, in their order.
fn tags_without(rows: &Vec<tag::Record>, id: &String) -> (res: Vec<tag::Record>)
    ensures
        views(res@) == views(rows@).filter(tag_without(id@)),
{
    let mut out: Vec<tag::Record> = Vec::new();
    let mut i: usize = 0;
    proof {
        lemma_filter_none(views(rows@), tag_without(id@));
        assert(views(out@) =~= Seq::<TagView>::empty());
    }
    while i < rows.len()
        invariant
            i <= rows@.len(),
            views(out@) == views(rows@).take(i as int).filter(tag_without(id@)),
        decreases rows@.len() - i,
    {
        let ghost before = views(out@);
        proof {
            lemma_filter_step(views(rows@), tag_without(id@), i as int);
        }
        if !same_text(rows[i].id(), id) {
            out.push(rows[i].clone());
            assert(views(out@) =~= before.push(rows@[i as int]@));
        }
        i += 1;
    }
    assert(views(rows@).take(i as int) =~= views(rows@));
    out
}

impl TagStore {
    /// The tag that `entity_id` resolves to. A staged tag wins over a source
    /// tag with the same identifier.
    pub fn get(store: &Store, entity_id: &String) -> (res: Result<Option<tag::Record>, SomeError>)
        ensures
            res matches Ok(found) && opt_tag(found) == get_tag(store@, entity_id@),
    {
        match find_tag(&store.staged_tags, entity_id) {
            Some(i) => Ok(Some(store.staged_tags[i].clone())),
            None => match find_tag(&store.source_tags, entity_id) {
                Some(i) => Ok(Some(store.source_tags[i].clone())),
                None => Ok(None),
            },
        }
    }

    /// Every tag of the overlay.
    pub fn to_vec(store: &Store) -> (res: Result<Vec<tag::Record>, SomeError>)
        ensures
            res matches Ok(list) && views(list@) == overlay_tags(store@),
    {
        let mut out = clone_tags(&store.staged_tags);
        let ghost staged = views(store.staged_tags@);
        let ghost source = views(store.source_tags@);
        let mut i: usize = 0;
        proof {
            lemma_filter_none(source, tag_unshadowed(staged));
            assert(views(out@) =~= staged + source.take(0).filter(tag_unshadowed(staged)));
        }
        while i < store.source_tags.len()
            invariant
                i <= store.source_tags@.len(),
                staged == views(store.staged_tags@),
                source == views(store.source_tags@),
                views(out@) == staged + source.take(i as int).filter(tag_unshadowed(staged)),
            decreases store.source_tags@.len() - i,
        {
            let ghost before = views(out@);
            proof {
                lemma_filter_step(source, tag_unshadowed(staged), i as int);
            }
            if find_tag(&store.staged_tags, store.source_tags[i].id()).is_none() {
                out.push(store.source_tags[i].clone());
                assert(views(out@) =~= before.push(source[i as int]));
            }
            i += 1;
        }
        assert(source.take(i as int) =~= source);
        Ok(out)
    }

    /// The number of tags of the overlay.
    pub fn len(store: &Store) -> (res: Result<usize, SomeError>)
        ensures
            res matches Ok(n) && n == overlay_tags(store@).len(),
    {
        match Self::to_vec(store) {
            Ok(list) => Ok(list.len()),
            Err(e) => Err(e),
        }
    }

    /// Whether the overlay holds no tag.
    pub fn is_empty(store: &Store) -> (res: Result<bool, SomeError>)
        ensures
            res matches Ok(b) && b == (overlay_tags(store@).len() == 0),
    {
        match Self::len(store) {
            Ok(n) => Ok(n == 0),
            Err(e) => Err(e),
        }
    }

    /// Whether `entity_id` resolves to a tag.
    pub fn contains(store: &Store, entity_id: &String) -> (res: Result<bool, SomeError>)
        ensures
            res matches Ok(b) && b == get_tag(store@, entity_id@).is_some(),
    {
        match Self::get(store, entity_id) {
            Ok(found) => Ok(found.is_some()),
            Err(e) => Err(e),
        }
    }

    /// Stages a tag behind the staged ones. A tag whose identifier is staged
    /// already is refused and nothing changes.
    pub fn add(store: &mut Store, entity: &tag::Record) -> (res: Result<(), SomeError>)
        ensures
            any_match(old(store)@.staging.tags, tag_with(entity@.id)) ==> (res matches Err(
                SomeError::StoreError(StoreError::Duplicate(id)),
            ) && id@ == entity@.id) && final(store)@ == old(store)@,
            !any_match(old(store)@.staging.tags, tag_with(entity@.id)) ==> res.is_ok()
                && final(store)@ == with_tag(old(store)@, entity@),
            well_formed(old(store)@) ==> well_formed(final(store)@),
    {
        proof {
            if well_formed(store@) {
                lemma_tag_writes_keep_well_formed(store@, entity@);
            }
        }
        if find_tag(&store.staged_tags, entity.id()).is_some() {
            return Err(SomeError::StoreError(StoreError::Duplicate(entity.id().clone())));
        }
        let ghost before = views(store.staged_tags@);
        store.staged_tags.push(entity.clone());
        assert(views(store.staged_tags@) =~= before.push(entity@));
        Ok(())
    }

    /// Takes the tag out of the staging ring, and with it every staged
    /// relation row of that tag. The source ring is left as it is: a tag of
    /// the source ring, and the relation rows that the source ring holds of
    /// it, are seen in the overlay as before.
    pub fn remove(store: &mut Store, entity_id: &String) -> (res: Result<(), SomeError>)
        ensures
            res.is_ok(),
            final(store)@ == without_tag(old(store)@, entity_id@),
            well_formed(old(store)@) ==> well_formed(final(store)@),
    {
        proof {
            if well_formed(store@) {
                lemma_tag_removal_keeps_well_formed(store@, entity_id@);
            }
        }
        let tags = tags_without(&store.staged_tags, entity_id);
        let pairs = pairs_off_tag(&store.staged_thing_tags, entity_id);
        store.staged_tags = tags;
        store.staged_thing_tags = pairs;
        Ok(())
    }

    /// Stages a tag in place of any staged tag with the same identifier.
    pub fn replace(store: &mut Store, entity: &tag::Record) -> (res: Result<(), SomeError>)
        ensures
            res.is_ok(),
            final(store)@ == with_tag_replaced(old(store)@, entity@),
            well_formed(old(store)@) ==> well_formed(final(store)@),
    {
        proof {
            if well_formed(store@) {
                lemma_tag_writes_keep_well_formed(store@, entity@);
            }
        }
        let mut tags = tags_without(&store.staged_tags, entity.id());
        let ghost before = views(tags@);
        tags.push(entity.clone());
        assert(views(tags@) =~= before.push(entity@));
        store.staged_tags = tags;
        Ok(())
    }

    /// Every tag of the overlay.
    pub fn list(store: &Store) -> (res: Result<Vec<tag::Record>, SomeError>)
        ensures
            res matches Ok(list) && views(list@) == overlay_tags(store@),
    {
        Self::to_vec(store)
    }

    /// The tags of the overlay whose identifier is none of `ids`, in the
    /// order of the overlay. The identifiers are compared as texts, so none
    /// of them can change what is asked.
    pub fn list_without(store: &Store, ids: &Vec<String>) -> (res: Result<
        Vec<tag::Record>,
        SomeError,
    >)
        ensures
            res matches Ok(list) && views(list@) == overlay_tags(store@).filter(
                tag_outside(texts(ids@)),
            ),
    {
        let all = match Self::to_vec(store) {
            Ok(list) => list,
            Err(e) => {
                return Err(e);
            },
        };
        let ghost rows = views(all@);
        let ghost pred = tag_outside(texts(ids@));
        let mut out: Vec<tag::Record> = Vec::new();
        let mut i: usize = 0;
        proof {
            lemma_filter_none(rows, pred);
            assert(views(out@) =~= Seq::<TagView>::empty());
        }
        while i < all.len()
            invariant
                i <= all@.len(),
                rows == views(all@),
                pred == tag_outside(texts(ids@)),
                views(out@) == rows.take(i as int).filter(pred),
            decreases all@.len() - i,
        {
            let ghost before = views(out@);
            proof {
                lemma_filter_step(rows, pred, i as int);
            }
            if !contains_text(ids, all[i].id()) {
                out.push(all[i].clone());
                assert(views(out@) =~= before.push(rows[i as int]));
            }
            i += 1;
        }
        assert(rows.take(i as int) =~= rows);
        Ok(out)
    }
}

/// The relation rows of another tag than `id`, in their order.
fn pairs_off_tag(rows: &Vec<Thingtag>, id: &String) -> (res: Vec<Thingtag>)
    ensures
        views(res@) == views(rows@).filter(pair_off_tag(id@)),
{
    let mut out: Vec<Thingtag> = Vec::new();
    let mut i: usize = 0;
    proof {
        lemma_filter_none(views(rows@), pair_off_tag(id@));
        assert(views(out@) =~= Seq::<(Seq<char>, Seq<char>)>::empty());
    }
    while i < rows.len()
        invariant
            i <= rows@.len(),
            views(out@) == views(rows@).take(i as int).filter(pair_off_tag(id@)),
        decreases rows@.len() - i,
    {
        let ghost before = views(out@);
        proof {
            lemma_filter_step(views(rows@), pair_off_tag(id@), i as int);
        }
        if !same_text(rows[i].tag_id(), id) {
            out.push(rows[i].clone());
            assert(views(out@) =~= before.push(rows@[i as int]@));
        }
        i += 1;
    }
    assert(views(rows@).take(i as int) =~= views(rows@));
    out
}

impl TagStore {
    /// The tags that are the category of some thing of the overlay, each
    /// once, in the ascending order of their identifiers.
    pub fn list_categories(store: &Store) -> (res: Result<Vec<tag::Record>, SomeError>)
        ensures
            res matches Ok(list) && categories(store@, views(list@)),
    {
        let things = match ThingStore::to_vec(store) {
            Ok(list) => list,
            Err(e) => {
                return Err(e);
            },
        };
        let ghost rows = views(things@);
        let mut ids: Vec<String> = Vec::new();
        let mut i: usize = 0;
        assert(texts(ids@) =~= Seq::<Seq<char>>::empty());
        while i < things.len()
            invariant
                i <= things@.len(),
                rows == views(things@),
                ascending(texts(ids@)),
                forall|x: Seq<char>| #[trigger]
                    texts(ids@).contains(x) <==> exists|k: int|
                        0 <= k < i && (#[trigger] rows[k]).category_id == x,
            decreases things@.len() - i,
        {
            let ghost before = texts(ids@);
            insert_sorted(&mut ids, things[i].category_id().clone());
            proof {
                assert forall|x: Seq<char>| #[trigger]
                    texts(ids@).contains(x) <==> exists|k: int|
                        0 <= k < i + 1 && (#[trigger] rows[k]).category_id == x by {
                    if texts(ids@).contains(x) {
                        if before.contains(x) {
                            let k = choose|k: int|
                                0 <= k < i && (#[trigger] rows[k]).category_id == x;
                            assert(0 <= k < i + 1 && rows[k].category_id == x);
                        } else {
                            assert(rows[i as int].category_id == x);
                        }
                    }
                    if exists|k: int| 0 <= k < i + 1 && (#[trigger] rows[k]).category_id == x {
                        let k = choose|k: int|
                            0 <= k < i + 1 && (#[trigger] rows[k]).category_id == x;
                        if k < i {
                            assert(before.contains(x));
                        }
                    }
                }
            }
            i += 1;
        }
        let ghost names = texts(ids@);
        let mut out: Vec<tag::Record> = Vec::new();
        let mut m: usize = 0;
        assert(tag_ids(views(out@)) =~= Seq::<Seq<char>>::empty());
        while m < ids.len()
            invariant
                m <= ids@.len(),
                names == texts(ids@),
                ascending(names),
                ascending(tag_ids(views(out@))),
                forall|k: int|
                    0 <= k < out@.len() ==> get_tag(store@, (#[trigger] views(out@)[k]).id) == Some(
                        views(out@)[k],
                    ) && exists|p: int| 0 <= p < m && #[trigger] names[p] == views(out@)[k].id,
                forall|p: int|
                    0 <= p < m ==> (get_tag(store@, #[trigger] names[p]) matches Some(t) ==> views(
                        out@,
                    ).contains(t)),
            decreases ids@.len() - m,
        {
            let ghost listed = views(out@);
            let found = match Self::get(store, &ids[m]) {
                Ok(found) => found,
                Err(e) => {
                    return Err(e);
                },
            };
            assert(names[m as int] == ids@[m as int]@);
            match found {
                Some(tag) => {
                    proof {
                        lemma_get_tag_id(store@, names[m as int]);
                    }
                    let ghost shown = tag@;
                    out.push(tag);
                    proof {
                        let after = views(out@);
                        assert(after =~= listed.push(shown));
                        assert forall|a: int, b: int|
                            0 <= a < b < tag_ids(after).len() implies crate::text::text_lt(
                            #[trigger] tag_ids(after)[a],
                            #[trigger] tag_ids(after)[b],
                        ) by {
                            if b < listed.len() {
                                assert(tag_ids(after)[a] == tag_ids(listed)[a]);
                                assert(tag_ids(after)[b] == tag_ids(listed)[b]);
                            } else {
                                assert(after[a] == listed[a]);
                                let p = choose|p: int|
                                    0 <= p < m && #[trigger] names[p] == listed[a].id;
                                assert(crate::text::text_lt(names[p], names[m as int]));
                            }
                        }
                        assert forall|k: int| 0 <= k < after.len() implies get_tag(
                            store@,
                            (#[trigger] after[k]).id,
                        ) == Some(after[k]) && exists|p: int|
                            0 <= p < m + 1 && #[trigger] names[p] == after[k].id by {
                            if k < listed.len() {
                                assert(after[k] == listed[k]);
                                let p = choose|p: int|
                                    0 <= p < m && #[trigger] names[p] == listed[k].id;
                                assert(0 <= p < m + 1 && names[p] == after[k].id);
                            } else {
                                assert(names[m as int] == after[k].id);
                            }
                        }
                        assert forall|p: int| 0 <= p < m + 1 implies (get_tag(
                            store@,
                            #[trigger] names[p],
                        ) matches Some(t) ==> after.contains(t)) by {
                            if let Some(t) = get_tag(store@, names[p]) {
                                if p < m {
                                    assert(listed.contains(t));
                                    let k = choose|k: int| 0 <= k < listed.len() && listed[k] == t;
                                    assert(after[k] == t);
                                } else {
                                    assert(after[listed.len() as int] == t);
                                }
                            }
                        }
                    }
                },
                None => {},
            }
            m += 1;
        }
        proof {
            let list = views(out@);
            let all = overlay_things(store@);
            assert forall|k: int| 0 <= k < list.len() implies any_match(
                all,
                thing_in((#[trigger] list[k]).id),
            ) by {
                let p = choose|p: int| 0 <= p < m && #[trigger] names[p] == list[k].id;
                assert(names.contains(names[p]));
                let j = choose|j: int|
                    0 <= j < things@.len() && (#[trigger] rows[j]).category_id == names[p];
                assert(thing_in(list[k].id)(all[j]));
            }
            assert forall|j: int| 0 <= j < all.len() implies (get_tag(
                store@,
                (#[trigger] all[j]).category_id,
            ) matches Some(t) ==> list.contains(t)) by {
                let x = all[j].category_id;
                assert(rows[j].category_id == x);
                assert(names.contains(x));
                let p = choose|p: int| 0 <= p < names.len() && names[p] == x;
                assert(names[p] == x);
            }
        }
        Ok(out)
    }
}

} // verus!
