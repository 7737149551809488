use some_package::lenses::resources;
use some_package::markdown::{readme, sections, write_readme, Markdown};
use some_package::package::descriptor::Licence;
use some_package::package::PackageBuilder;
use some_package::repository::Repository;
use some_package::change::{Change, Data, DataRef, EventId};
use some_package::staging;
use some_package::store::{
    in_time_order, repeated_pair, repeated_tag, repeated_thing, Saved,
    stamp, tags_for, ChangeStore, Store, StoreError, Strategy, TagStore, ThingStore, ThingtagStore,
};
use some_package::tag;
use some_package::tag::TagError;
use some_package::thing;
use some_package::thing::{NewThingBuilder, ThingError};
use some_package::thingtag::{Thingtag, ThingtagError};
use some_package::SomeError;

const TAGS: &str = "id,name,summary\nmisc,Miscellaneous,\na,A,first\nb,B,\n";
const THINGS: &str = "url,name,summary,category_id\n";
const PAIRS: &str = "thing_id,tag_id\n";

fn s(text: &str) -> String {
    text.to_string()
}

fn open(tags: &str, things: &str, pairs: &str) -> Store {
    Store::open(s("pkg"), &Strategy::Memory, tags.as_bytes(), things.as_bytes(), pairs.as_bytes())
        .unwrap()
}

fn ids(list: &[tag::Record]) -> Vec<String> {
    list.iter().map(|t| t.id().clone()).collect()
}

fn new_thing(url: &str, category: &str, tags: &[&str]) -> Data {
    Data::thing(
        NewThingBuilder::new()
            .url(s(url))
            .name(s("E"))
            .category(s(category))
            .tags(tags.iter().map(|t| t.to_string()).collect())
            .build()
            .unwrap(),
    )
}

#[test]
fn strategy_from_str() {
    assert_eq!(Strategy::from_str(":memory:").unwrap(), Strategy::Memory);
    assert_eq!(Strategy::from_str("some.db").unwrap(), Strategy::Disk(s("some.db")));
    assert_eq!(Strategy::Disk(s("x")).clone(), Strategy::Disk(s("x")));
}

#[test]
fn open_reads_the_source_ring() {
    let store = open(TAGS, THINGS, PAIRS);
    assert_eq!(store.path(), "pkg");
    assert_eq!(store.strategy(), &Strategy::Memory);
    assert_eq!(TagStore::len(&store).unwrap(), 3);
    assert!(!TagStore::is_empty(&store).unwrap());
    assert!(ThingStore::is_empty(&store).unwrap());
    assert_eq!(ThingtagStore::len(&store).unwrap(), 0);
    assert_eq!(ChangeStore::len(&store).unwrap(), 0);
}

#[test]
fn open_reports_the_first_unreadable_file() {
    let res = Store::open(s("p"), &Strategy::Memory, b"id,name\n", b"", b"");
    assert!(matches!(res, Err(SomeError::Tag(TagError::Header))));
    let res = Store::open(s("p"), &Strategy::Memory, TAGS.as_bytes(), b"url\n", b"");
    assert!(matches!(res, Err(SomeError::Thing(ThingError::Header))));
    let res = Store::open(
        s("p"),
        &Strategy::Memory,
        TAGS.as_bytes(),
        b"url,name,summary,category_id\nx,y\n",
        PAIRS.as_bytes(),
    );
    assert!(matches!(res, Err(SomeError::Thing(ThingError::Csv(_)))));
    let res = Store::open(s("p"), &Strategy::Memory, TAGS.as_bytes(), THINGS.as_bytes(), b"");
    assert!(matches!(res, Err(SomeError::Thingtag(_))));
}

#[test]
fn categories_need_a_thing() {
    let store = open("id,name,summary\nmisc,Miscellaneous,\n", THINGS, PAIRS);
    assert!(TagStore::list_categories(&store).unwrap().is_empty());
    assert_eq!(ids(&TagStore::list(&store).unwrap()), vec![s("misc")]);
    assert_eq!(ids(&TagStore::to_vec(&store).unwrap()), vec![s("misc")]);
}

#[test]
fn categories_are_distinct_and_ordered() {
    let things = "url,name,summary,category_id\nu1,One,,misc\nu2,Two,,b\nu3,Three,,misc\nu4,Four,,gone\n";
    let store = open(TAGS, things, PAIRS);
    assert_eq!(ids(&TagStore::list_categories(&store).unwrap()), vec![s("b"), s("misc")]);
}

#[test]
fn added_tag_is_visible_at_once() {
    let mut store = open(TAGS, THINGS, PAIRS);
    let tag = tag::Record::new(s("new"), Some(s("New")), None);
    TagStore::add(&mut store, &tag).unwrap();
    assert_eq!(TagStore::get(&store, &s("new")).unwrap(), Some(tag));
    assert!(TagStore::contains(&store, &s("new")).unwrap());
    assert!(!TagStore::contains(&store, &s("other")).unwrap());
    assert_eq!(ids(&TagStore::to_vec(&store).unwrap()), vec![s("new"), s("misc"), s("a"), s("b")]);
    assert_eq!(TagStore::len(&store).unwrap(), 4);
}

#[test]
fn staging_wins_over_source() {
    let mut store = open(TAGS, THINGS, PAIRS);
    let tag = tag::Record::new(s("a"), Some(s("Staged")), None);
    TagStore::add(&mut store, &tag).unwrap();
    assert_eq!(TagStore::get(&store, &s("a")).unwrap(), Some(tag.clone()));
    assert_eq!(TagStore::len(&store).unwrap(), 3);
    assert_eq!(ids(&TagStore::to_vec(&store).unwrap()), vec![s("a"), s("misc"), s("b")]);
    assert_eq!(TagStore::to_vec(&store).unwrap()[0], tag);
    match TagStore::add(&mut store, &tag) {
        Err(SomeError::StoreError(StoreError::Duplicate(id))) => assert_eq!(id, "a"),
        other => panic!("unexpected {:?}", other),
    }
    let newer = tag::Record::new(s("a"), Some(s("Newer")), Some(s("x")));
    TagStore::replace(&mut store, &newer).unwrap();
    assert_eq!(TagStore::get(&store, &s("a")).unwrap(), Some(newer));
    assert_eq!(TagStore::len(&store).unwrap(), 3);
    TagStore::remove(&mut store, &s("a")).unwrap();
    assert_eq!(
        TagStore::get(&store, &s("a")).unwrap(),
        Some(tag::Record::new(s("a"), Some(s("A")), Some(s("first"))))
    );
}

#[test]
fn removed_tag_is_not_listed_without_it() {
    let mut store = open(TAGS, THINGS, PAIRS);
    TagStore::add(&mut store, &tag::Record::new(s("cat"), None, None)).unwrap();
    TagStore::remove(&mut store, &s("cat")).unwrap();
    let list = TagStore::list_without(&store, &vec![s("cat")]).unwrap();
    assert_eq!(ids(&list), vec![s("misc"), s("a"), s("b")]);
    TagStore::remove(&mut store, &s("misc")).unwrap();
    let list = TagStore::list_without(&store, &vec![s("misc")]).unwrap();
    assert_eq!(ids(&list), vec![s("a"), s("b")]);
    let list = TagStore::list_without(&store, &vec![s("a"), s("b'); --")]).unwrap();
    assert_eq!(ids(&list), vec![s("misc"), s("b")]);
    let list = TagStore::list_without(&store, &vec![]).unwrap();
    assert_eq!(list.len(), 3);
}

#[test]
fn thing_repository() {
    let mut store = open(TAGS, "url,name,summary,category_id\nu0,Zero,,misc\n", PAIRS);
    let thing = thing::Record::new(s("u1"), s("One"), None, s("misc"));
    ThingStore::add(&mut store, &thing).unwrap();
    assert_eq!(ThingStore::get(&store, &s("u1")).unwrap(), Some(thing.clone()));
    assert!(ThingStore::contains(&store, &s("u0")).unwrap());
    assert_eq!(ThingStore::len(&store).unwrap(), 2);
    assert_eq!(ThingStore::to_vec(&store).unwrap()[0], thing);
    match ThingStore::add(&mut store, &thing) {
        Err(SomeError::StoreError(StoreError::Duplicate(id))) => assert_eq!(id, "u1"),
        other => panic!("unexpected {:?}", other),
    }
    let orphan = thing::Record::new(s("u2"), s("Two"), None, s("nowhere"));
    match ThingStore::add(&mut store, &orphan) {
        Err(SomeError::StoreError(StoreError::Reference(id))) => assert_eq!(id, "nowhere"),
        other => panic!("unexpected {:?}", other),
    }
    assert!(matches!(
        ThingStore::replace(&mut store, &orphan),
        Err(SomeError::StoreError(StoreError::Reference(_)))
    ));
    let newer = thing::Record::new(s("u0"), s("Nought"), Some(s("n")), s("a"));
    ThingStore::replace(&mut store, &newer).unwrap();
    assert_eq!(ThingStore::get(&store, &s("u0")).unwrap(), Some(newer));
    assert_eq!(ThingStore::len(&store).unwrap(), 2);
    ThingStore::remove(&mut store, &s("u0")).unwrap();
    assert_eq!(ThingStore::get(&store, &s("u0")).unwrap().unwrap().name(), "Zero");
    assert_eq!(ThingStore::get(&store, &s("zz")).unwrap(), None);
}

#[test]
fn removing_a_thing_cascades() {
    let mut store = open(TAGS, THINGS, PAIRS);
    staging::add_at(&mut store, new_thing("https://e.org", "misc", &["a", "b"]), 5).unwrap();
    staging::add_at(&mut store, new_thing("https://f.org", "misc", &["a"]), 6).unwrap();
    assert_eq!(ThingtagStore::len(&store).unwrap(), 3);
    ThingStore::remove(&mut store, &s("https://e.org")).unwrap();
    let rows = ThingtagStore::to_vec(&store).unwrap();
    assert_eq!(rows, vec![Thingtag::new(s("https://f.org"), s("a"))]);
    assert!(tags_for(&store, &s("https://e.org")).unwrap().is_empty());
    assert_eq!(ThingStore::get(&store, &s("https://e.org")).unwrap(), None);
}

#[test]
fn removing_a_tag_cascades() {
    let mut store = open(TAGS, THINGS, PAIRS);
    TagStore::add(&mut store, &tag::Record::new(s("c"), None, None)).unwrap();
    staging::add_at(&mut store, new_thing("https://e.org", "misc", &["a", "c"]), 5).unwrap();
    TagStore::remove(&mut store, &s("c")).unwrap();
    assert_eq!(
        ThingtagStore::to_vec(&store).unwrap(),
        vec![Thingtag::new(s("https://e.org"), s("a"))]
    );
}

#[test]
fn thingtag_repository() {
    let things = "url,name,summary,category_id\nu0,Zero,,misc\n";
    let mut store = open(TAGS, things, "thing_id,tag_id\nu0,a\n");
    let pair = Thingtag::new(s("u0"), s("b"));
    ThingtagStore::add(&mut store, &pair).unwrap();
    assert_eq!(ThingtagStore::len(&store).unwrap(), 2);
    match ThingtagStore::add(&mut store, &pair) {
        Err(SomeError::StoreError(StoreError::Duplicate(id))) => assert_eq!(id, "u0"),
        other => panic!("unexpected {:?}", other),
    }
    match ThingtagStore::add(&mut store, &Thingtag::new(s("u9"), s("b"))) {
        Err(SomeError::StoreError(StoreError::Reference(id))) => assert_eq!(id, "u9"),
        other => panic!("unexpected {:?}", other),
    }
    match ThingtagStore::add(&mut store, &Thingtag::new(s("u0"), s("zz"))) {
        Err(SomeError::StoreError(StoreError::Reference(id))) => assert_eq!(id, "zz"),
        other => panic!("unexpected {:?}", other),
    }
    ThingtagStore::add(&mut store, &Thingtag::new(s("u0"), s("a"))).unwrap();
    assert_eq!(ThingtagStore::len(&store).unwrap(), 2);
    assert_eq!(tags_for(&store, &s("u0")).unwrap(), vec![s("a"), s("b")]);
    ThingtagStore::replace(&mut store, &pair).unwrap();
    assert_eq!(ThingtagStore::len(&store).unwrap(), 2);
    ThingtagStore::remove(&mut store, &(s("u0"), s("b"))).unwrap();
    ThingtagStore::remove(&mut store, &(s("u0"), s("a"))).unwrap();
    assert_eq!(
        ThingtagStore::to_vec(&store).unwrap(),
        vec![Thingtag::new(s("u0"), s("a"))]
    );
}

#[test]
fn built_thing_round_trips_through_the_files() {
    let mut store = open(TAGS, THINGS, PAIRS);
    staging::add_at(&mut store, new_thing("https://e.org", "misc", &["b", "a"]), 7).unwrap();
    let listed = ThingStore::list_categorised(&store, &s("misc")).unwrap();
    assert_eq!(listed.len(), 1);
    assert_eq!(listed[0].tags, vec![s("a"), s("b")]);

    let out = staging::commit(&mut store).unwrap();
    assert_eq!(String::from_utf8(out.tag_csv.clone()).unwrap(), "");
    assert_eq!(String::from_utf8(out.thing_csv.clone()).unwrap(), "https://e.org,E,,misc\n");
    assert_eq!(
        String::from_utf8(out.thing_tag_csv.clone()).unwrap(),
        "https://e.org,b\nhttps://e.org,a\n"
    );
    assert_eq!(ChangeStore::len(&store).unwrap(), 0);

    let things = format!("{}{}", THINGS, String::from_utf8(out.thing_csv).unwrap());
    let pairs = format!("{}{}", PAIRS, String::from_utf8(out.thing_tag_csv).unwrap());
    let reopened = open(TAGS, &things, &pairs);
    let listed = ThingStore::list_categorised(&reopened, &s("misc")).unwrap();
    assert_eq!(listed.len(), 1);
    assert_eq!(listed[0].url, "https://e.org");
    assert_eq!(listed[0].name, "E");
    assert_eq!(listed[0].summary, None);
    assert_eq!(listed[0].category, "misc");
    assert_eq!(listed[0].tags, vec![s("a"), s("b")]);
    assert!(ThingStore::list_categorised(&reopened, &s("a")).unwrap().is_empty());
    assert_eq!(ids(&TagStore::list_categories(&reopened).unwrap()), vec![s("misc")]);
}

#[test]
fn flushed_rows_join_the_source_rows() {
    let things = "url,name,summary,category_id\nu0,Zero,,misc\n";
    let mut store = open(TAGS, things, "thing_id,tag_id\nu0,a\n");
    staging::add_at(
        &mut store,
        Data::Tag { id: s("new"), name: Some(s("New, tag")), summary: None },
        1,
    )
    .unwrap();
    staging::add_at(&mut store, new_thing("u1", "new", &["a"]), 2).unwrap();
    let out = staging::commit(&mut store).unwrap();
    let tags = format!("{}{}", TAGS, String::from_utf8(out.tag_csv).unwrap());
    let things = format!("{}{}", things, String::from_utf8(out.thing_csv).unwrap());
    let pairs = format!("thing_id,tag_id\nu0,a\n{}", String::from_utf8(out.thing_tag_csv).unwrap());
    let reopened = open(&tags, &things, &pairs);
    assert_eq!(ids(&TagStore::to_vec(&reopened).unwrap()), vec![s("misc"), s("a"), s("b"), s("new")]);
    assert_eq!(
        TagStore::get(&reopened, &s("new")).unwrap(),
        Some(tag::Record::new(s("new"), Some(s("New, tag")), None))
    );
    let urls: Vec<String> =
        ThingStore::to_vec(&reopened).unwrap().iter().map(|t| t.url().to_string()).collect();
    assert_eq!(urls, vec![s("u0"), s("u1")]);
    assert_eq!(
        ThingtagStore::to_vec(&reopened).unwrap(),
        vec![Thingtag::new(s("u0"), s("a")), Thingtag::new(s("u1"), s("a"))]
    );
    // The store that was committed shows the same rows without being opened again.
    assert_eq!(TagStore::len(&store).unwrap(), 4);
    assert_eq!(ThingStore::len(&store).unwrap(), 2);
    assert_eq!(ThingtagStore::len(&store).unwrap(), 2);
}

#[test]
fn committing_nothing_changes_nothing() {
    let mut store = open(TAGS, THINGS, PAIRS);
    let out = staging::commit(&mut store).unwrap();
    assert!(out.tag_csv.is_empty());
    assert!(out.thing_csv.is_empty());
    assert!(out.thing_tag_csv.is_empty());
    assert_eq!(ChangeStore::len(&store).unwrap(), 0);
    assert_eq!(TagStore::len(&store).unwrap(), 3);
    let out = staging::pending(&store).unwrap();
    assert!(out.tag_csv.is_empty());
    staging::settle(&mut store).unwrap();
    assert_eq!(ChangeStore::len(&store).unwrap(), 0);
}

#[test]
fn staging_refuses_duplicates_and_unknown_references() {
    let mut store = open(TAGS, "url,name,summary,category_id\nu0,Zero,,misc\n", PAIRS);
    match staging::add_at(&mut store, Data::Tag { id: s("a"), name: None, summary: None }, 1) {
        Err(SomeError::Tag(TagError::Duplicate(id))) => assert_eq!(id, "a"),
        other => panic!("unexpected {:?}", other),
    }
    match staging::add_at(&mut store, new_thing("u0", "misc", &[]), 1) {
        Err(SomeError::Thing(ThingError::Duplicate(url))) => assert_eq!(url, "u0"),
        other => panic!("unexpected {:?}", other),
    }
    match staging::add_at(&mut store, new_thing("u1", "nowhere", &[]), 1) {
        Err(SomeError::StoreError(StoreError::Reference(id))) => assert_eq!(id, "nowhere"),
        other => panic!("unexpected {:?}", other),
    }
    match staging::add_at(&mut store, new_thing("u1", "misc", &["a", "x", "y"]), 1) {
        Err(SomeError::StoreError(StoreError::Reference(id))) => assert_eq!(id, "x"),
        other => panic!("unexpected {:?}", other),
    }
    assert_eq!(ChangeStore::len(&store).unwrap(), 0);
    assert_eq!(ThingStore::len(&store).unwrap(), 1);
    staging::add(&mut store, new_thing("u1", "misc", &["a", "a"])).unwrap();
    assert_eq!(ChangeStore::len(&store).unwrap(), 1);
    assert_eq!(tags_for(&store, &s("u1")).unwrap(), vec![s("a")]);
    assert!(ChangeStore::to_vec(&store).unwrap()[0].timestamp > 1_600_000_000);
}

#[test]
fn unsupported_operations_stop_the_commit() {
    let mut store = open(TAGS, THINGS, PAIRS);
    staging::add_at(&mut store, Data::Tag { id: s("new"), name: None, summary: None }, 1).unwrap();
    ChangeStore::add_at(&mut store, &Change::Delete(DataRef::Tag { id: s("a") }), 2).unwrap();
    assert!(matches!(
        staging::commit(&mut store),
        Err(SomeError::StoreError(StoreError::Unsupported))
    ));
    assert!(matches!(
        staging::pending(&store),
        Err(SomeError::StoreError(StoreError::Unsupported))
    ));
    assert!(matches!(
        staging::settle(&mut store),
        Err(SomeError::StoreError(StoreError::Unsupported))
    ));
    assert_eq!(ChangeStore::len(&store).unwrap(), 2);
    assert_eq!(TagStore::len(&store).unwrap(), 4);
    let replace = Change::Replace(Data::Tag { id: s("a"), name: None, summary: None });
    let mut other = open(TAGS, THINGS, PAIRS);
    ChangeStore::add(&mut other, &replace).unwrap();
    assert!(staging::commit(&mut other).is_err());
    assert_eq!(ChangeStore::len(&other).unwrap(), 1);
}

#[test]
fn changelog_is_kept_in_the_order_of_time() {
    let mut store = open(TAGS, THINGS, PAIRS);
    let tag = |id: &str| Change::Insert(Data::Tag { id: s(id), name: None, summary: None });
    ChangeStore::add_at(&mut store, &tag("t5"), 5).unwrap();
    ChangeStore::add_at(&mut store, &tag("t3"), 3).unwrap();
    ChangeStore::add_at(&mut store, &tag("t5b"), 5).unwrap();
    ChangeStore::add_at(&mut store, &tag("t4"), 4).unwrap();
    let events = ChangeStore::to_vec(&store).unwrap();
    let seen: Vec<(usize, String)> =
        events.iter().map(|e| (e.timestamp, e.change.id().clone())).collect();
    assert_eq!(seen, vec![(3, s("t3")), (4, s("t4")), (5, s("t5")), (5, s("t5b"))]);
    assert_eq!(ChangeStore::len(&store).unwrap(), 4);

    let id = EventId { timestamp: 5, operation: s("insert"), kind: s("tag"), id: s("t5b") };
    assert_eq!(ChangeStore::get(&store, &id).unwrap(), Some(tag("t5b")));
    let absent = EventId { timestamp: 5, operation: s("delete"), kind: s("tag"), id: s("t5b") };
    assert_eq!(ChangeStore::get(&store, &absent).unwrap(), None);
    ChangeStore::remove(&mut store, &id).unwrap();
    assert_eq!(ChangeStore::len(&store).unwrap(), 3);
    assert_eq!(ChangeStore::get(&store, &id).unwrap(), None);
    let out = staging::pending(&store).unwrap();
    assert_eq!(String::from_utf8(out.tag_csv).unwrap(), "t3,,\nt4,,\nt5,,\n");
    ChangeStore::flush(&mut store).unwrap();
    assert_eq!(ChangeStore::len(&store).unwrap(), 0);
}

#[test]
fn clock_readings_become_timestamps() {
    assert_eq!(stamp(-5), 0);
    assert_eq!(stamp(0), 0);
    assert_eq!(stamp(1_700_000_000), 1_700_000_000);
}

#[test]
fn drained_rows_follow_the_events() {
    let mut store = open(TAGS, THINGS, PAIRS);
    staging::add_at(&mut store, new_thing("u1", "misc", &["b", "a"]), 1).unwrap();
    let events = ChangeStore::to_vec(&store).unwrap();
    let rows = staging::drain(&events).unwrap();
    assert!(rows.tags.is_empty());
    assert_eq!(rows.things, vec![thing::Record::new(s("u1"), s("E"), None, s("misc"))]);
    assert_eq!(
        rows.thing_tags,
        vec![Thingtag::new(s("u1"), s("b")), Thingtag::new(s("u1"), s("a"))]
    );
    let out = staging::encode(&rows).unwrap();
    assert_eq!(String::from_utf8(out.thing_csv).unwrap(), "u1,E,,misc\n");
    assert_eq!(
        String::from_utf8(staging::encode_things(&rows.things).unwrap()).unwrap(),
        "u1,E,,misc\n"
    );
    assert_eq!(
        String::from_utf8(staging::encode_thing_tags(&rows.thing_tags).unwrap()).unwrap(),
        "u1,b\nu1,a\n"
    );
}

#[test]
fn readme_of_a_collection() {
    let package = PackageBuilder::new("some-things")
        .unwrap()
        .title("Some things".to_string())
        .description("A collection.".to_string())
        .licenses(vec![Licence {
            name: s("ODC-PDDL"),
            path: s("http://opendatacommons.org/licenses/pddl/"),
            title: s("Open Data Commons Public Domain Dedication and License"),
        }])
        .resources(resources())
        .build()
        .unwrap();
    let things = "url,name,summary,category_id\nhttps://e.org,E,An e.,misc\nhttps://f.org,F,,a\n";
    let pairs = "thing_id,tag_id\nhttps://e.org,b\nhttps://e.org,a\n";
    let store = open(TAGS, things, pairs);
    let text = write_readme(&store, &package).unwrap();
    assert_eq!(
        text,
        "# Some things\n\nA collection.\n\n\
         \n## A\n\nfirst\n\n| name | summary | tags |\n| - | - | - |\n| [F](https://f.org) |  |  |\n\
         \n## Miscellaneous\n\n| name | summary | tags |\n| - | - | - |\n| [E](https://e.org) | An e. | a; b |\n\
         \n## Licence\n\nThis dataset is licensed under the [Open Data Commons Public Domain Dedication and License](http://opendatacommons.org/licenses/pddl/).\n\n"
    );
    assert_eq!(sections(&store).unwrap().len(), 2);

    let bare = PackageBuilder::new("bare")
        .unwrap()
        .title("Bare".to_string())
        .description("Nothing.".to_string())
        .resources(resources())
        .build()
        .unwrap();
    let empty = open(TAGS, THINGS, PAIRS);
    assert_eq!(
        readme(&bare, &sections(&empty).unwrap()),
        "# Bare\n\nNothing.\n\n**This collection is empty**\n"
    );
}

fn count<R: Repository>(store: &Store) -> usize {
    R::len(store).unwrap()
}

fn holds<R: Repository>(store: &Store, id: &R::EntityId) -> bool {
    R::contains(store, id).unwrap()
}

#[test]
fn repositories_share_one_contract() {
    let things = "url,name,summary,category_id\nu0,Zero,,misc\n";
    let mut store = open(TAGS, things, "thing_id,tag_id\nu0,a\n");
    assert_eq!(count::<TagStore>(&store), 3);
    assert_eq!(count::<ThingStore>(&store), 1);
    assert_eq!(count::<ThingtagStore>(&store), 1);
    assert!(holds::<TagStore>(&store, &s("misc")));
    assert!(!holds::<TagStore>(&store, &s("zz")));
    assert!(holds::<ThingStore>(&store, &s("u0")));
    assert!(holds::<ThingtagStore>(&store, &(s("u0"), s("a"))));
    assert!(!holds::<ThingtagStore>(&store, &(s("u0"), s("b"))));
    assert!(!<ThingtagStore as Repository>::is_empty(&store).unwrap());
    <ThingtagStore as Repository>::add(&mut store, &Thingtag::new(s("u0"), s("b"))).unwrap();
    assert_eq!(
        ThingtagStore::get(&store, &(s("u0"), s("b"))).unwrap(),
        Some(Thingtag::new(s("u0"), s("b")))
    );
    <ThingtagStore as Repository>::remove(&mut store, &(s("u0"), s("b"))).unwrap();
    assert_eq!(ThingtagStore::get(&store, &(s("u0"), s("b"))).unwrap(), None);
    <TagStore as Repository>::replace(&mut store, &tag::Record::new(s("n"), None, None)).unwrap();
    assert_eq!(<TagStore as Repository>::to_vec(&store).unwrap().len(), 4);
    assert!(<ThingStore as Repository>::get(&store, &s("u0")).unwrap().is_some());
}

#[test]
fn a_unit_of_writes_can_be_given_up() {
    let mut store = open(TAGS, THINGS, PAIRS);
    TagStore::add(&mut store, &tag::Record::new(s("kept"), None, None)).unwrap();
    let tx = store.transaction();
    staging::add_at(&mut store, new_thing("u1", "misc", &["a"]), 3).unwrap();
    TagStore::remove(&mut store, &s("kept")).unwrap();
    assert_eq!(ThingStore::len(&store).unwrap(), 1);
    assert_eq!(ChangeStore::len(&store).unwrap(), 1);
    store.rollback(tx);
    assert_eq!(ThingStore::len(&store).unwrap(), 0);
    assert_eq!(ThingtagStore::len(&store).unwrap(), 0);
    assert_eq!(ChangeStore::len(&store).unwrap(), 0);
    assert!(TagStore::contains(&store, &s("kept")).unwrap());
    assert_eq!(TagStore::len(&store).unwrap(), 4);
}

#[test]
fn values_as_markdown() {
    let licence = Licence { name: s("MIT"), path: s("https://mit.org"), title: s("The MIT") };
    assert_eq!(licence.fmt_md(), "[MIT](https://mit.org)");
    let thing = NewThingBuilder::new()
        .url(s("https://e.org"))
        .name(s("E"))
        .summary(s("An e."))
        .category(s("misc"))
        .tags(vec![s("a"), s("b")])
        .build()
        .unwrap();
    assert_eq!(thing.fmt_md(), "| [E](https://e.org) | An e. | a; b |\n");
    let store = open(TAGS, "url,name,summary,category_id\nu,N,,b\n", PAIRS);
    let listed = sections(&store).unwrap();
    assert_eq!(
        listed[0].fmt_md(),
        "\n## B\n\n| name | summary | tags |\n| - | - | - |\n| [N](u) |  |  |\n"
    );
}

fn stage<R: Repository>(store: &mut Store, entity: &R::Entity) -> Result<(), SomeError> {
    R::add(store, entity)
}

fn put<R: Repository>(store: &mut Store, entity: &R::Entity) -> Result<(), SomeError> {
    R::replace(store, entity)
}

fn drop_staged<R: Repository>(store: &mut Store, id: &R::EntityId) {
    R::remove(store, id).unwrap()
}

#[test]
fn writes_through_the_shared_contract() {
    let mut store = open(TAGS, "url,name,summary,category_id\nu0,Zero,,misc\n", PAIRS);
    let tag = tag::Record::new(s("new"), Some(s("New")), None);
    stage::<TagStore>(&mut store, &tag).unwrap();
    assert_eq!(TagStore::to_vec(&store).unwrap()[0], tag);
    match stage::<TagStore>(&mut store, &tag) {
        Err(SomeError::StoreError(StoreError::Duplicate(id))) => assert_eq!(id, "new"),
        other => panic!("unexpected {:?}", other),
    }
    let newer = tag::Record::new(s("new"), Some(s("Newer")), None);
    put::<TagStore>(&mut store, &newer).unwrap();
    assert_eq!(TagStore::get(&store, &s("new")).unwrap(), Some(newer));
    assert_eq!(TagStore::len(&store).unwrap(), 4);

    let thing = thing::Record::new(s("u1"), s("One"), None, s("new"));
    stage::<ThingStore>(&mut store, &thing).unwrap();
    match stage::<ThingStore>(&mut store, &thing) {
        Err(SomeError::StoreError(StoreError::Duplicate(id))) => assert_eq!(id, "u1"),
        other => panic!("unexpected {:?}", other),
    }
    let orphan = thing::Record::new(s("u2"), s("Two"), None, s("nowhere"));
    for res in [stage::<ThingStore>(&mut store, &orphan), put::<ThingStore>(&mut store, &orphan)] {
        match res {
            Err(SomeError::StoreError(StoreError::Reference(id))) => assert_eq!(id, "nowhere"),
            other => panic!("unexpected {:?}", other),
        }
    }
    put::<ThingStore>(&mut store, &thing::Record::new(s("u1"), s("Uno"), None, s("a"))).unwrap();
    assert_eq!(ThingStore::get(&store, &s("u1")).unwrap().unwrap().name(), "Uno");

    let pair = Thingtag::new(s("u1"), s("a"));
    stage::<ThingtagStore>(&mut store, &pair).unwrap();
    match stage::<ThingtagStore>(&mut store, &pair) {
        Err(SomeError::StoreError(StoreError::Duplicate(id))) => assert_eq!(id, "u1"),
        other => panic!("unexpected {:?}", other),
    }
    match put::<ThingtagStore>(&mut store, &Thingtag::new(s("u1"), s("zz"))) {
        Err(SomeError::StoreError(StoreError::Reference(id))) => assert_eq!(id, "zz"),
        other => panic!("unexpected {:?}", other),
    }
    match stage::<ThingtagStore>(&mut store, &Thingtag::new(s("u9"), s("a"))) {
        Err(SomeError::StoreError(StoreError::Reference(id))) => assert_eq!(id, "u9"),
        other => panic!("unexpected {:?}", other),
    }
    put::<ThingtagStore>(&mut store, &pair).unwrap();
    assert_eq!(ThingtagStore::to_vec(&store).unwrap(), vec![Thingtag::new(s("u1"), s("a"))]);

    drop_staged::<ThingStore>(&mut store, &s("u1"));
    assert_eq!(ThingStore::get(&store, &s("u1")).unwrap(), None);
    assert!(ThingtagStore::to_vec(&store).unwrap().is_empty());
    drop_staged::<TagStore>(&mut store, &s("new"));
    assert_eq!(TagStore::len(&store).unwrap(), 3);
    stage::<ThingtagStore>(&mut store, &Thingtag::new(s("u0"), s("b"))).unwrap();
    drop_staged::<ThingtagStore>(&mut store, &(s("u0"), s("b")));
    assert_eq!(ThingtagStore::len(&store).unwrap(), 0);
    assert_eq!(ThingStore::len(&store).unwrap(), 1);
}

#[test]
fn a_key_comes_once_in_a_file() {
    let res = Store::open(
        s("p"),
        &Strategy::Memory,
        b"id,name,summary\na,A,\nb,B,\na,Again,\nb,B,\n",
        THINGS.as_bytes(),
        PAIRS.as_bytes(),
    );
    match res {
        Err(SomeError::Tag(TagError::Duplicate(id))) => assert_eq!(id, "a"),
        other => panic!("unexpected {:?}", other),
    }
    let res = Store::open(
        s("p"),
        &Strategy::Memory,
        TAGS.as_bytes(),
        b"url,name,summary,category_id\nu,One,,misc\nv,Two,,misc\nu,Three,,a\n",
        b"thing_id,tag_id\nu,a\nu,a\n",
    );
    match res {
        Err(SomeError::Thing(ThingError::Duplicate(url))) => assert_eq!(url, "u"),
        other => panic!("unexpected {:?}", other),
    }
    let res = Store::open(
        s("p"),
        &Strategy::Memory,
        TAGS.as_bytes(),
        b"url,name,summary,category_id\nu,One,,misc\n",
        b"thing_id,tag_id\nu,a\nu,b\nv,a\nu,b\n",
    );
    match res {
        Err(SomeError::Thingtag(ThingtagError::Duplicate(thing, tag))) => {
            assert_eq!((thing.as_str(), tag.as_str()), ("u", "b"))
        }
        other => panic!("unexpected {:?}", other),
    }
    let tag = |id: &str| tag::Record::new(s(id), None, None);
    assert_eq!(repeated_tag(&vec![tag("a"), tag("b"), tag("c")]), None);
    assert_eq!(repeated_tag(&vec![tag("a"), tag("b"), tag("b"), tag("a")]), Some(2));
    assert_eq!(repeated_tag(&vec![]), None);
    let thing = |url: &str| thing::Record::new(s(url), s("n"), None, s("m"));
    assert_eq!(repeated_thing(&vec![thing("u"), thing("v"), thing("u")]), Some(2));
    assert_eq!(repeated_thing(&vec![thing("u"), thing("v")]), None);
    let pair = |t: &str, g: &str| Thingtag::new(s(t), s(g));
    assert_eq!(repeated_pair(&vec![pair("u", "a"), pair("u", "b"), pair("v", "a")]), None);
    assert_eq!(repeated_pair(&vec![pair("u", "a"), pair("v", "a"), pair("u", "a")]), Some(2));
}

#[test]
fn a_commit_keeps_each_key_once() {
    let mut store = open(TAGS, THINGS, PAIRS);
    let again = Change::Insert(Data::Tag { id: s("a"), name: None, summary: None });
    ChangeStore::add_at(&mut store, &again, 1).unwrap();
    assert!(matches!(
        staging::pending(&store),
        Err(SomeError::StoreError(StoreError::Conflict))
    ));
    assert!(matches!(
        staging::settle(&mut store),
        Err(SomeError::StoreError(StoreError::Conflict))
    ));
    assert!(matches!(
        staging::commit(&mut store),
        Err(SomeError::StoreError(StoreError::Conflict))
    ));
    assert_eq!(ChangeStore::len(&store).unwrap(), 1);
    assert_eq!(TagStore::len(&store).unwrap(), 3);
    assert!(!store.holds_apart(&vec![tag::Record::new(s("misc"), None, None)], &vec![], &vec![]));
    assert!(store.holds_apart(&vec![tag::Record::new(s("new"), None, None)], &vec![], &vec![]));

    let mut twice = open(TAGS, THINGS, PAIRS);
    let new = Change::Insert(Data::Tag { id: s("new"), name: None, summary: None });
    ChangeStore::add_at(&mut twice, &new, 1).unwrap();
    ChangeStore::add_at(&mut twice, &new, 2).unwrap();
    assert!(matches!(
        staging::commit(&mut twice),
        Err(SomeError::StoreError(StoreError::Conflict))
    ));
    let dated = EventId { timestamp: 2, operation: s("insert"), kind: s("tag"), id: s("new") };
    ChangeStore::remove(&mut twice, &dated).unwrap();
    let out = staging::commit(&mut twice).unwrap();
    assert_eq!(String::from_utf8(out.tag_csv).unwrap(), "new,,\n");
    assert_eq!(TagStore::len(&twice).unwrap(), 4);
}

#[test]
fn the_staging_ring_can_be_saved_and_taken_back() {
    let mut store = open(TAGS, THINGS, PAIRS);
    staging::add_at(&mut store, new_thing("u1", "misc", &["a", "b"]), 5).unwrap();
    TagStore::add(&mut store, &tag::Record::new(s("kept"), None, None)).unwrap();
    let saved = store.staged();
    assert_eq!(saved.tags, vec![tag::Record::new(s("kept"), None, None)]);
    assert_eq!(saved.things.len(), 1);
    assert_eq!(saved.thing_tags.len(), 2);
    assert_eq!(saved.changelog.len(), 1);

    let mut later = open(TAGS, THINGS, PAIRS);
    later.restore(saved).unwrap();
    assert!(ThingStore::contains(&later, &s("u1")).unwrap());
    assert!(TagStore::contains(&later, &s("kept")).unwrap());
    assert_eq!(tags_for(&later, &s("u1")).unwrap(), vec![s("a"), s("b")]);
    assert_eq!(ChangeStore::len(&later).unwrap(), 1);
    let out = staging::commit(&mut later).unwrap();
    assert_eq!(String::from_utf8(out.thing_csv).unwrap(), "u1,E,,misc\n");

    let tag = |id: &str| tag::Record::new(s(id), None, None);
    let event = |at: usize| some_package::change::Event {
        timestamp: at,
        change: Change::Insert(Data::Tag { id: s("x"), name: None, summary: None }),
    };
    let twice = Saved {
        tags: vec![tag("x"), tag("x")],
        things: vec![],
        thing_tags: vec![],
        changelog: vec![],
    };
    assert!(matches!(later.restore(twice), Err(SomeError::StoreError(StoreError::Saved))));
    let unordered = Saved {
        tags: vec![],
        things: vec![],
        thing_tags: vec![],
        changelog: vec![event(3), event(5), event(4)],
    };
    assert!(matches!(later.restore(unordered), Err(SomeError::StoreError(StoreError::Saved))));
    assert!(TagStore::contains(&later, &s("kept")).unwrap());
    assert!(in_time_order(&vec![event(1), event(1), event(2)]));
    assert!(!in_time_order(&vec![event(2), event(1)]));
    assert!(in_time_order(&vec![]));
    let empty = Saved { tags: vec![], things: vec![], thing_tags: vec![], changelog: vec![] };
    later.restore(empty).unwrap();
    assert!(!TagStore::contains(&later, &s("kept")).unwrap());
}
