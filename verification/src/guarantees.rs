//! What holds of the store across its operations.

use vstd::prelude::*;
use crate::change::ChangeView;
use crate::change::DataView;
use crate::change::EventView;
use crate::relation::any_match;
use crate::relation::distinct_by;
use crate::relation::lemma_filter_distinct;
use crate::relation::lemma_filter_members;
use crate::relation::lemma_first_match_at;
use crate::relation::lemma_push_distinct;
use crate::staging::fits;
use crate::staging::flushed_pairs;
use crate::staging::flushed_tags;
use crate::staging::flushed_things;
use crate::staging::pair_lines;
use crate::staging::pair_rows;
use crate::staging::pairs_of;
use crate::staging::put_pairs;
use crate::staging::record_of;
use crate::staging::settled;
use crate::staging::staged;
use crate::staging::supported;
use crate::staging::tag_lines;
use crate::staging::tag_rows;
use crate::staging::thing_lines;
use crate::staging::thing_rows;
use crate::staging::unknown;
use crate::staging::writable;
use crate::store::by_time;
use crate::store::distinct_ring;
use crate::store::get_tag;
use crate::store::get_thing;
use crate::store::is_place;
use crate::store::lemma_overlay_pair;
use crate::store::overlay_tags;
use crate::store::overlay_thing_tags;
use crate::store::overlay_things;
use crate::store::pair_key;
use crate::store::pair_off_tag;
use crate::store::pair_off_thing;
use crate::store::pair_without;
use crate::store::StoreView;
use crate::store::tag_key;
use crate::store::tag_outside;
use crate::store::tag_unshadowed;
use crate::store::tag_with;
use crate::store::tag_without;
use crate::store::thing_key;
use crate::store::thing_unshadowed;
use crate::store::thing_with;
use crate::store::thing_without;
use crate::store::well_formed;
use crate::store::with_pair;
use crate::store::with_pair_replaced;
use crate::store::with_tag;
use crate::store::with_tag_replaced;
use crate::store::with_thing;
use crate::store::with_thing_replaced;
use crate::store::without_pair;
use crate::store::without_tag;
use crate::store::without_thing;
use crate::tag::lemma_tag_record_round_trip;
use crate::tag::TagView;
use crate::tag_set::tags_of_table;
use crate::thing::lemma_thing_record_round_trip;
use crate::thing::RecordView;
use crate::thing_set::things_of_table;
use crate::thingtag_set::thingtags_of_table;

verus! {

/// A tag that was staged is what its identifier resolves to at once, before
/// any commit, whatever the source ring holds under that identifier.
pub proof fn lemma_added_tag_resolves(s: StoreView, t: TagView)
    requires
        !any_match(s.staging.tags, tag_with(t.id)),
    ensures
        get_tag(with_tag(s, t), t.id) == Some(t),
{
    let rows = s.staging.tags.push(t);
    assert forall|j: int| 0 <= j < rows.len() - 1 implies !tag_with(t.id)(#[trigger] rows[j]) by {
        assert(rows[j] == s.staging.tags[j]);
    }
    lemma_first_match_at(rows, tag_with(t.id), rows.len() - 1);
}

/// A thing that was staged is what its URL resolves to at once, before any
/// commit, whatever the source ring holds under that URL.
pub proof fn lemma_added_thing_resolves(s: StoreView, t: RecordView)
    requires
        !any_match(s.staging.things, thing_with(t.url)),
    ensures
        get_thing(with_thing(s, t), t.url) == Some(t),
{
    let rows = s.staging.things.push(t);
    assert forall|j: int| 0 <= j < rows.len() - 1 implies !thing_with(t.url)(
        #[trigger] rows[j],
    ) by {
        assert(rows[j] == s.staging.things[j]);
    }
    lemma_first_match_at(rows, thing_with(t.url), rows.len() - 1);
}

/// A tag that replaced another is what its identifier resolves to.
pub proof fn lemma_replaced_tag_resolves(s: StoreView, t: TagView)
    ensures
        get_tag(with_tag_replaced(s, t), t.id) == Some(t),
{
    let kept = s.staging.tags.filter(tag_without(t.id));
    let rows = kept.push(t);
    lemma_filter_members(s.staging.tags, tag_without(t.id));
    assert forall|j: int| 0 <= j < rows.len() - 1 implies !tag_with(t.id)(#[trigger] rows[j]) by {
        assert(rows[j] == kept[j]);
        assert(kept.contains(kept[j]));
    }
    lemma_first_match_at(rows, tag_with(t.id), rows.len() - 1);
}

/// A thing that replaced another is what its URL resolves to.
pub proof fn lemma_replaced_thing_resolves(s: StoreView, t: RecordView)
    ensures
        get_thing(with_thing_replaced(s, t), t.url) == Some(t),
{
    let kept = s.staging.things.filter(thing_without(t.url));
    let rows = kept.push(t);
    lemma_filter_members(s.staging.things, thing_without(t.url));
    assert forall|j: int| 0 <= j < rows.len() - 1 implies !thing_with(t.url)(
        #[trigger] rows[j],
    ) by {
        assert(rows[j] == kept[j]);
        assert(kept.contains(kept[j]));
    }
    lemma_first_match_at(rows, thing_with(t.url), rows.len() - 1);
}

/// A new tag or thing that was staged and recorded resolves at once.
pub proof fn lemma_staged_resolves(s: StoreView, data: DataView, timestamp: usize, k: int)
    requires
        unknown(s, data),
    ensures
        data matches DataView::Tag(t) ==> get_tag(staged(s, data, timestamp, k), t.id) == Some(t),
        data matches DataView::Thing(t) ==> get_thing(staged(s, data, timestamp, k), t.url) == Some(
            record_of(t),
        ),
{
    match data {
        DataView::Tag(t) => {
            crate::relation::lemma_first_match_is_some(s.staging.tags, tag_with(t.id));
            lemma_added_tag_resolves(s, t);
        },
        DataView::Thing(t) => {
            crate::relation::lemma_first_match_is_some(s.staging.things, thing_with(t.url));
            lemma_added_thing_resolves(s, record_of(t));
        },
    }
}

/// A list of tags without some identifiers holds no tag of those
/// identifiers; so a tag that was removed is not in the list that leaves
/// its identifier out, even where the source ring still holds it.
pub proof fn lemma_removed_tag_not_listed(s: StoreView, id: Seq<char>, ids: Seq<Seq<char>>)
    requires
        ids.contains(id),
    ensures
        forall|i: int|
            0 <= i < overlay_tags(without_tag(s, id)).filter(tag_outside(ids)).len() ==> (
            #[trigger] overlay_tags(without_tag(s, id)).filter(tag_outside(ids))[i]).id != id,
{
    let listed = overlay_tags(without_tag(s, id)).filter(tag_outside(ids));
    lemma_filter_members(overlay_tags(without_tag(s, id)), tag_outside(ids));
    assert forall|i: int| 0 <= i < listed.len() implies (#[trigger] listed[i]).id != id by {
        assert(listed.contains(listed[i]));
    }
}

/// Once a thing is removed the staging ring holds no relation row of it.
pub proof fn lemma_removed_thing_unstaged(s: StoreView, url: Seq<char>)
    ensures
        forall|i: int|
            0 <= i < without_thing(s, url).staging.thing_tags.len() ==> (
            #[trigger] without_thing(s, url).staging.thing_tags[i]).0 != url,
{
    let kept = s.staging.thing_tags.filter(pair_off_thing(url));
    lemma_filter_members(s.staging.thing_tags, pair_off_thing(url));
    assert forall|i: int| 0 <= i < kept.len() implies (#[trigger] kept[i]).0 != url by {
        assert(kept.contains(kept[i]));
    }
}

/// Once a thing is removed the overlay holds no relation row of it, as far
/// as the source ring holds none: a removal does not reach the source ring.
pub proof fn lemma_removed_thing_has_no_pair(s: StoreView, url: Seq<char>)
    requires
        forall|i: int|
            0 <= i < s.source.thing_tags.len() ==> (#[trigger] s.source.thing_tags[i]).0 != url,
    ensures
        forall|i: int|
            0 <= i < overlay_thing_tags(without_thing(s, url)).len() ==> (
            #[trigger] overlay_thing_tags(without_thing(s, url))[i]).0 != url,
{
    let after = without_thing(s, url);
    let all = overlay_thing_tags(after);
    lemma_removed_thing_unstaged(s, url);
    assert forall|i: int| 0 <= i < all.len() implies (#[trigger] all[i]).0 != url by {
        let pair = all[i];
        assert(all.contains(pair));
        lemma_overlay_pair(after, pair);
        if after.staging.thing_tags.contains(pair) {
            let k = choose|k: int|
                0 <= k < after.staging.thing_tags.len() && after.staging.thing_tags[k] == pair;
            assert(after.staging.thing_tags[k].0 != url);
        } else {
            let k = choose|k: int|
                0 <= k < s.source.thing_tags.len() && s.source.thing_tags[k] == pair;
            assert(s.source.thing_tags[k].0 != url);
        }
    }
}

/// A commit of an empty changelog does nothing: there is nothing to append
/// to any file, and the store, its empty changelog included, stays as it is.
/// Over a source ring that holds each key once it is not refused.
pub proof fn lemma_commit_of_nothing(s: StoreView)
    requires
        s.changelog.len() == 0,
    ensures
        supported(s.changelog),
        distinct_ring(s.source) ==> fits(s),
        writable(s.changelog),
        tag_lines(flushed_tags(s.changelog)) == Some(Seq::<u8>::empty()),
        thing_lines(flushed_things(s.changelog)) == Some(Seq::<u8>::empty()),
        pair_lines(flushed_pairs(s.changelog)) == Some(Seq::<u8>::empty()),
        settled(s) == s,
{
    let after = settled(s);
    assert(s.source.tags + flushed_tags(s.changelog) =~= s.source.tags);
    assert(s.source.things + flushed_things(s.changelog) =~= s.source.things);
    assert(s.source.thing_tags + flushed_pairs(s.changelog) =~= s.source.thing_tags);
    assert(after.source.tags =~= s.source.tags);
    assert(after.source.things =~= s.source.things);
    assert(after.source.thing_tags =~= s.source.thing_tags);
    assert(after.changelog =~= s.changelog);
}

/// After a commit the source ring holds its rows of before, and behind them
/// the rows that the changelog inserted; the staging relations are as they
/// were and the changelog is empty. Nothing else is durable.
pub proof fn lemma_commit_extends_source(s: StoreView)
    ensures
        settled(s).source.tags == s.source.tags + flushed_tags(s.changelog),
        settled(s).source.things == s.source.things + flushed_things(s.changelog),
        settled(s).source.thing_tags == s.source.thing_tags + flushed_pairs(s.changelog),
        settled(s).staging == s.staging,
        settled(s).changelog.len() == 0,
{
}

/// What is staged and recorded into an empty changelog is what the next
/// commit makes durable: the tag, or the thing with one relation row for
/// each of its tags.
pub proof fn lemma_staged_is_flushed(s: StoreView, data: DataView, timestamp: usize)
    requires
        s.changelog.len() == 0,
    ensures
        data matches DataView::Tag(t) ==> flushed_tags(staged(s, data, timestamp, 0).changelog)
            == seq![t] && flushed_things(staged(s, data, timestamp, 0).changelog).len() == 0,
        data matches DataView::Thing(t) ==> flushed_things(
            staged(s, data, timestamp, 0).changelog,
        ) == seq![record_of(t)] && flushed_pairs(staged(s, data, timestamp, 0).changelog)
            == pairs_of(t.url, t.tags),
{
    reveal_with_fuel(flushed_tags, 2);
    reveal_with_fuel(flushed_things, 2);
    reveal_with_fuel(flushed_pairs, 2);
    let log = staged(s, data, timestamp, 0).changelog;
    let event = EventView { timestamp, change: ChangeView::Insert(data) };
    assert(log =~= seq![event]);
    assert(log.drop_last() =~= Seq::<EventView>::empty());
    assert(log.last() == event);
    match data {
        DataView::Tag(t) => {
            assert(flushed_tags(log) =~= seq![t]);
        },
        DataView::Thing(t) => {
            assert(flushed_things(log) =~= seq![record_of(t)]);
            assert(flushed_pairs(log) =~= pairs_of(t.url, t.tags));
        },
    }
}

/// No name or summary of the tags is an empty text: such a text is written
/// as an empty field, which is read as an absent value.
pub open spec fn plain_tags(list: Seq<TagView>) -> bool {
    forall|i: int|
        0 <= i < list.len() ==> (#[trigger] list[i]).name != Some(Seq::<char>::empty())
            && list[i].summary != Some(Seq::<char>::empty())
}

/// No summary of the things is an empty text.
pub open spec fn plain_things(list: Seq<RecordView>) -> bool {
    forall|i: int|
        0 <= i < list.len() ==> (#[trigger] list[i]).summary != Some(Seq::<char>::empty())
}

/// A store that is opened again after a commit holds in its source ring what
/// the committed store holds there: the rows of before and the flushed
/// rows. This is stated for files that read as their old rows followed by
/// the rows that were written, and for flushed rows without an empty text
/// where a value could be absent.
pub proof fn lemma_reopened_after_commit(
    s: StoreView,
    tags: Seq<Seq<Seq<char>>>,
    things: Seq<Seq<Seq<char>>>,
    pairs: Seq<Seq<Seq<char>>>,
)
    requires
        tags.len() > 0,
        things.len() > 0,
        pairs.len() > 0,
        s.source.tags == tags_of_table(tags),
        s.source.things == things_of_table(things),
        s.source.thing_tags == thingtags_of_table(pairs),
        plain_tags(flushed_tags(s.changelog)),
        plain_things(flushed_things(s.changelog)),
    ensures
        tags_of_table(tags + tag_rows(flushed_tags(s.changelog))) == settled(s).source.tags,
        things_of_table(things + thing_rows(flushed_things(s.changelog))) == settled(
            s,
        ).source.things,
        thingtags_of_table(pairs + pair_rows(flushed_pairs(s.changelog))) == settled(
            s,
        ).source.thing_tags,
{
    let new_tags = flushed_tags(s.changelog);
    let new_things = flushed_things(s.changelog);
    let new_pairs = flushed_pairs(s.changelog);
    let a = tags_of_table(tags + tag_rows(new_tags));
    let b = things_of_table(things + thing_rows(new_things));
    let c = thingtags_of_table(pairs + pair_rows(new_pairs));
    assert forall|i: int| 0 <= i < a.len() implies a[i] == (s.source.tags + new_tags)[i] by {
        if i + 1 >= tags.len() {
            lemma_tag_record_round_trip(new_tags[i + 1 - tags.len()]);
        }
    }
    assert(a =~= s.source.tags + new_tags);
    assert forall|i: int| 0 <= i < b.len() implies b[i] == (s.source.things + new_things)[i] by {
        if i + 1 >= things.len() {
            lemma_thing_record_round_trip(new_things[i + 1 - things.len()]);
        }
    }
    assert(b =~= s.source.things + new_things);
    assert(c =~= s.source.thing_tags + new_pairs);
}

/// No identifier stands twice in the overlay of the tags, as long as none
/// stands twice in either ring: a tag of both rings is seen once, as staged.
pub proof fn lemma_overlay_tags_distinct(s: StoreView)
    requires
        distinct_by(s.staging.tags, tag_key()),
        distinct_by(s.source.tags, tag_key()),
    ensures
        distinct_by(overlay_tags(s), tag_key()),
{
    let staged = s.staging.tags;
    let kept = s.source.tags.filter(tag_unshadowed(staged));
    lemma_filter_distinct(s.source.tags, tag_unshadowed(staged), tag_key());
    lemma_filter_members(s.source.tags, tag_unshadowed(staged));
    let all = overlay_tags(s);
    assert forall|i: int, j: int| 0 <= i < j < all.len() implies tag_key()(#[trigger] all[i])
        != tag_key()(#[trigger] all[j]) by {
        if j < staged.len() {
            assert(all[i] == staged[i] && all[j] == staged[j]);
        } else if i >= staged.len() {
            assert(all[i] == kept[i - staged.len()] && all[j] == kept[j - staged.len()]);
        } else {
            assert(all[i] == staged[i] && all[j] == kept[j - staged.len()]);
            assert(kept.contains(kept[j - staged.len()]));
            assert(!any_match(staged, tag_with(all[j].id)));
            assert(!tag_with(all[j].id)(staged[i]));
        }
    }
}

/// No URL stands twice in the overlay of the things, as long as none stands
/// twice in either ring.
pub proof fn lemma_overlay_things_distinct(s: StoreView)
    requires
        distinct_by(s.staging.things, thing_key()),
        distinct_by(s.source.things, thing_key()),
    ensures
        distinct_by(overlay_things(s), thing_key()),
{
    let staged = s.staging.things;
    let kept = s.source.things.filter(thing_unshadowed(staged));
    lemma_filter_distinct(s.source.things, thing_unshadowed(staged), thing_key());
    lemma_filter_members(s.source.things, thing_unshadowed(staged));
    let all = overlay_things(s);
    assert forall|i: int, j: int| 0 <= i < j < all.len() implies thing_key()(#[trigger] all[i])
        != thing_key()(#[trigger] all[j]) by {
        if j < staged.len() {
            assert(all[i] == staged[i] && all[j] == staged[j]);
        } else if i >= staged.len() {
            assert(all[i] == kept[i - staged.len()] && all[j] == kept[j - staged.len()]);
        } else {
            assert(all[i] == staged[i] && all[j] == kept[j - staged.len()]);
            assert(kept.contains(kept[j - staged.len()]));
            assert(!any_match(staged, thing_with(all[j].url)));
            assert(!thing_with(all[j].url)(staged[i]));
        }
    }
}

/// Every write of a tag keeps the staged identifiers different from each
/// other: a new tag is staged only under an identifier that is not staged,
/// a removal only takes tags away, and a replacement takes the staged tag of
/// the identifier away first.
pub proof fn lemma_staged_tags_stay_distinct(s: StoreView, t: TagView, id: Seq<char>)
    requires
        distinct_by(s.staging.tags, tag_key()),
    ensures
        !any_match(s.staging.tags, tag_with(t.id)) ==> distinct_by(
            with_tag(s, t).staging.tags,
            tag_key(),
        ),
        distinct_by(without_tag(s, id).staging.tags, tag_key()),
        distinct_by(with_tag_replaced(s, t).staging.tags, tag_key()),
{
    let staged = s.staging.tags;
    lemma_filter_distinct(staged, tag_without(id), tag_key());
    lemma_filter_distinct(staged, tag_without(t.id), tag_key());
    lemma_filter_members(staged, tag_without(t.id));
    let kept = staged.filter(tag_without(t.id));
    let replaced = kept.push(t);
    assert forall|i: int, j: int| 0 <= i < j < replaced.len() implies tag_key()(
        #[trigger] replaced[i],
    ) != tag_key()(#[trigger] replaced[j]) by {
        if j < kept.len() {
            assert(replaced[i] == kept[i] && replaced[j] == kept[j]);
        } else {
            assert(replaced[i] == kept[i]);
            assert(kept.contains(kept[i]));
        }
    }
    if !any_match(staged, tag_with(t.id)) {
        let added = staged.push(t);
        assert forall|i: int, j: int| 0 <= i < j < added.len() implies tag_key()(
            #[trigger] added[i],
        ) != tag_key()(#[trigger] added[j]) by {
            if j < staged.len() {
                assert(added[i] == staged[i] && added[j] == staged[j]);
            } else {
                assert(added[i] == staged[i]);
                assert(!tag_with(t.id)(staged[i]));
            }
        }
    }
}

/// Every write of a thing keeps the staged URLs different from each other.
pub proof fn lemma_staged_things_stay_distinct(s: StoreView, t: RecordView, url: Seq<char>)
    requires
        distinct_by(s.staging.things, thing_key()),
    ensures
        !any_match(s.staging.things, thing_with(t.url)) ==> distinct_by(
            with_thing(s, t).staging.things,
            thing_key(),
        ),
        distinct_by(without_thing(s, url).staging.things, thing_key()),
        distinct_by(with_thing_replaced(s, t).staging.things, thing_key()),
{
    let staged = s.staging.things;
    lemma_filter_distinct(staged, thing_without(url), thing_key());
    lemma_filter_distinct(staged, thing_without(t.url), thing_key());
    lemma_filter_members(staged, thing_without(t.url));
    let kept = staged.filter(thing_without(t.url));
    let replaced = kept.push(t);
    assert forall|i: int, j: int| 0 <= i < j < replaced.len() implies thing_key()(
        #[trigger] replaced[i],
    ) != thing_key()(#[trigger] replaced[j]) by {
        if j < kept.len() {
            assert(replaced[i] == kept[i] && replaced[j] == kept[j]);
        } else {
            assert(replaced[i] == kept[i]);
            assert(kept.contains(kept[i]));
        }
    }
    if !any_match(staged, thing_with(t.url)) {
        let added = staged.push(t);
        assert forall|i: int, j: int| 0 <= i < j < added.len() implies thing_key()(
            #[trigger] added[i],
        ) != thing_key()(#[trigger] added[j]) by {
            if j < staged.len() {
                assert(added[i] == staged[i] && added[j] == staged[j]);
            } else {
                assert(added[i] == staged[i]);
                assert(!thing_with(t.url)(staged[i]));
            }
        }
    }
}

/// A changelog in the order of time stays in it when events are taken out.
/// With the place at which a new event is recorded, this keeps the changelog
/// in the order of time from an empty one on, so that a commit goes through
/// the events from the earliest to the latest.
pub proof fn lemma_removal_keeps_time_order(log: Seq<EventView>, pred: spec_fn(EventView) -> bool)
    requires
        by_time(log),
    ensures
        by_time(log.filter(pred)),
    decreases log.len(),
{
    reveal(Seq::filter);
    if log.len() > 0 {
        let head = log.drop_last();
        assert(by_time(head)) by {
            assert forall|i: int, j: int| 0 <= i < j < head.len() implies (
            #[trigger] head[i]).timestamp <= (#[trigger] head[j]).timestamp by {
                assert(head[i] == log[i] && head[j] == log[j]);
            }
        }
        lemma_removal_keeps_time_order(head, pred);
        lemma_filter_members(head, pred);
        let sub = head.filter(pred);
        let out = log.filter(pred);
        assert forall|i: int, j: int| 0 <= i < j < out.len() implies (#[trigger] out[i]).timestamp
            <= (#[trigger] out[j]).timestamp by {
            if j < sub.len() {
                assert(out[i] == sub[i] && out[j] == sub[j]);
            } else {
                assert(out[j] == log.last());
                assert(out[i] == sub[i]);
                assert(sub.contains(sub[i]));
                let k = choose|k: int| 0 <= k < head.len() && head[k] == sub[i];
                assert(log[k] == sub[i] && log[log.len() - 1] == log.last());
            }
        }
    }
}

/// A store with nothing staged and nothing recorded, over a source ring that
/// holds each key once, as a store is opened, is well formed.
pub proof fn lemma_opened_store_is_well_formed(s: StoreView)
    requires
        s.staging.tags.len() == 0,
        s.staging.things.len() == 0,
        s.staging.thing_tags.len() == 0,
        s.changelog.len() == 0,
        distinct_ring(s.source),
    ensures
        well_formed(s),
{
}

/// Staging a tag, or a tag in place of another, leaves a well-formed store
/// well formed.
pub proof fn lemma_tag_writes_keep_well_formed(s: StoreView, t: TagView)
    requires
        well_formed(s),
    ensures
        !any_match(s.staging.tags, tag_with(t.id)) ==> well_formed(with_tag(s, t)),
        well_formed(with_tag_replaced(s, t)),
{
    lemma_staged_tags_stay_distinct(s, t, t.id);
}

/// Removing a tag leaves a well-formed store well formed.
pub proof fn lemma_tag_removal_keeps_well_formed(s: StoreView, id: Seq<char>)
    requires
        well_formed(s),
    ensures
        well_formed(without_tag(s, id)),
{
    lemma_filter_distinct(s.staging.tags, tag_without(id), tag_key());
    lemma_filter_distinct(s.staging.thing_tags, pair_off_tag(id), pair_key());
}

/// Staging a thing, or a thing in place of another, leaves a well-formed
/// store well formed.
pub proof fn lemma_thing_writes_keep_well_formed(s: StoreView, t: RecordView)
    requires
        well_formed(s),
    ensures
        !any_match(s.staging.things, thing_with(t.url)) ==> well_formed(with_thing(s, t)),
        well_formed(with_thing_replaced(s, t)),
{
    lemma_staged_things_stay_distinct(s, t, t.url);
}

/// Removing a thing leaves a well-formed store well formed.
pub proof fn lemma_thing_removal_keeps_well_formed(s: StoreView, url: Seq<char>)
    requires
        well_formed(s),
    ensures
        well_formed(without_thing(s, url)),
{
    lemma_filter_distinct(s.staging.things, thing_without(url), thing_key());
    lemma_filter_distinct(s.staging.thing_tags, pair_off_thing(url), pair_key());
}

/// Relation rows that are taken out first and staged behind the others leave
/// no row staged twice.
pub proof fn lemma_replaced_pair_distinct(
    rows: Seq<(Seq<char>, Seq<char>)>,
    pair: (Seq<char>, Seq<char>),
)
    requires
        distinct_by(rows, pair_key()),
    ensures
        distinct_by(rows.filter(pair_without(pair)), pair_key()),
        distinct_by(rows.filter(pair_without(pair)).push(pair), pair_key()),
{
    let kept = rows.filter(pair_without(pair));
    lemma_filter_distinct(rows, pair_without(pair), pair_key());
    lemma_filter_members(rows, pair_without(pair));
    assert forall|i: int| 0 <= i < kept.len() implies pair_key()(#[trigger] kept[i]) != pair_key()(
        pair,
    ) by {
        assert(kept.contains(kept[i]));
    }
    lemma_push_distinct(kept, pair, pair_key());
}

/// Every write of a relation row leaves a well-formed store well formed.
pub proof fn lemma_pair_writes_keep_well_formed(s: StoreView, pair: (Seq<char>, Seq<char>))
    requires
        well_formed(s),
    ensures
        !s.staging.thing_tags.contains(pair) ==> well_formed(with_pair(s, pair)),
        well_formed(without_pair(s, pair)),
        well_formed(with_pair_replaced(s, pair)),
{
    let rows = s.staging.thing_tags;
    lemma_replaced_pair_distinct(rows, pair);
    if !rows.contains(pair) {
        assert forall|i: int| 0 <= i < rows.len() implies pair_key()(#[trigger] rows[i])
            != pair_key()(pair) by {
            if rows[i] == pair {
                assert(rows.contains(pair));
            }
        }
        lemma_push_distinct(rows, pair, pair_key());
    }
}

/// An event recorded at its place leaves a changelog in the order of time
/// in it.
pub proof fn lemma_recording_keeps_time_order(log: Seq<EventView>, event: EventView, k: int)
    requires
        by_time(log),
        is_place(log, event.timestamp, k),
    ensures
        by_time(log.insert(k, event)),
{
    let after = log.insert(k, event);
    assert forall|i: int, j: int| 0 <= i < j < after.len() implies (#[trigger] after[i]).timestamp
        <= (#[trigger] after[j]).timestamp by {
        let bi = if i < k { i } else { i - 1 };
        let bj = if j < k { j } else { j - 1 };
        if i == k {
            assert(after[j] == log[j - 1]);
            assert(log[k].timestamp <= log[j - 1].timestamp || j - 1 == k);
        } else if j == k {
            assert(after[i] == log[i]);
        } else {
            assert(after[i] == log[bi] && after[j] == log[bj]);
        }
    }
}

/// Joining a thing to its tags leaves no relation row staged twice.
pub proof fn lemma_put_pairs_distinct(
    rows: Seq<(Seq<char>, Seq<char>)>,
    url: Seq<char>,
    tags: Seq<Seq<char>>,
)
    requires
        distinct_by(rows, pair_key()),
    ensures
        distinct_by(put_pairs(rows, url, tags), pair_key()),
    decreases tags.len(),
{
    if tags.len() > 0 {
        lemma_put_pairs_distinct(rows, url, tags.drop_last());
        lemma_replaced_pair_distinct(put_pairs(rows, url, tags.drop_last()), (url, tags.last()));
    }
}

/// A commit leaves a well-formed store well formed: it is refused where a
/// row to make durable has the key of a durable row or of another such row.
pub proof fn lemma_commit_keeps_well_formed(s: StoreView)
    requires
        well_formed(s),
        fits(s),
    ensures
        well_formed(settled(s)),
{
}

/// Staging a new entity leaves a well-formed store well formed.
pub proof fn lemma_staging_keeps_well_formed(
    s: StoreView,
    data: DataView,
    timestamp: usize,
    k: int,
)
    requires
        well_formed(s),
        is_place(s.changelog, timestamp, k),
        unknown(s, data),
    ensures
        well_formed(staged(s, data, timestamp, k)),
{
    let event = EventView { timestamp, change: ChangeView::Insert(data) };
    lemma_recording_keeps_time_order(s.changelog, event, k);
    match data {
        DataView::Tag(t) => {
            crate::relation::lemma_first_match_is_some(s.staging.tags, tag_with(t.id));
            lemma_staged_tags_stay_distinct(s, t, t.id);
        },
        DataView::Thing(t) => {
            crate::relation::lemma_first_match_is_some(s.staging.things, thing_with(t.url));
            lemma_staged_things_stay_distinct(s, record_of(t), t.url);
            lemma_put_pairs_distinct(s.staging.thing_tags, t.url, t.tags);
        },
    }
}

} // verus!
