use some_package::change::{Change, Data, DataRef, Event, EventId};
use some_package::tag;
use some_package::tag::TagError;
use some_package::tag_set::TagSet;
use some_package::text::{contains_text, insert_sorted, less_than, same_text};
use some_package::thing;
use some_package::thing::{NewThingBuilder, Thing, ThingError};
use some_package::thing_set::ThingSet;
use some_package::thingtag::{Thingtag, ThingtagError};
use some_package::thingtag_set::ThingtagSet;

fn s(text: &str) -> String {
    text.to_string()
}

fn row(fields: &[&str]) -> Vec<String> {
    fields.iter().map(|f| f.to_string()).collect()
}

#[test]
fn tag_record_getters() {
    let tag = tag::Record::new(s("misc"), Some(s("Miscellaneous")), None);
    assert_eq!(tag.id(), "misc");
    assert_eq!(tag.name(), Some(&s("Miscellaneous")));
    assert_eq!(tag.summary(), None);
    assert_eq!(tag.to_string(), "misc");
    assert_eq!(tag.clone(), tag);
}

#[test]
fn thing_record_getters() {
    let thing = thing::Record::new(s("https://e.org"), s("E"), Some(s("An e.")), s("misc"));
    assert_eq!(thing.url(), "https://e.org");
    assert_eq!(thing.name(), "E");
    assert_eq!(thing.summary(), Some(s("An e.")));
    assert_eq!(thing.category_id(), "misc");
    assert_eq!(thing.to_string(), "E");
    assert_eq!(thing.clone(), thing);
}

#[test]
fn thingtag_getters() {
    let pair = Thingtag::new(s("https://e.org"), s("a"));
    assert_eq!(pair.thing_id(), "https://e.org");
    assert_eq!(pair.tag_id(), "a");
    assert_eq!(pair.clone(), pair);
}

#[test]
fn tag_with_empty_summary_round_trips() {
    let set = TagSet::from_reader("id,name,summary\nmisc,Miscellaneous,\n".as_bytes()).unwrap();
    assert_eq!(set.len(), 1);
    let tag = set.first().unwrap();
    assert_eq!(tag.id(), "misc");
    assert_eq!(tag.name(), Some(&s("Miscellaneous")));
    assert_eq!(tag.summary(), None);
    assert_eq!(tag.to_row(), row(&["misc", "Miscellaneous", ""]));
    let bytes = some_package::staging::encode_tags(&set.to_vec()).unwrap();
    assert_eq!(String::from_utf8(bytes).unwrap(), "misc,Miscellaneous,\n");
}

#[test]
fn tag_rows_decode_and_encode() {
    let tag = tag::Record::from_row(&row(&["a", "", "x"])).unwrap();
    assert_eq!(tag, tag::Record::new(s("a"), None, Some(s("x"))));
    assert_eq!(tag.to_row(), row(&["a", "", "x"]));
    assert!(tag::Record::from_row(&row(&["a", "b"])).is_none());
    assert_eq!(tag::Record::header(), row(&["id", "name", "summary"]));
}

#[test]
fn tag_set_from_rows_faults() {
    let rows = vec![row(&["id", "name"]), row(&["a", "b"])];
    assert!(matches!(TagSet::from_rows(&rows), Err(TagError::Header)));
    assert!(matches!(TagSet::from_rows(&vec![]), Err(TagError::Header)));
    let rows = vec![
        row(&["id", "name", "summary"]),
        row(&["a", "A", ""]),
        row(&["b", "B"]),
        row(&["c"]),
    ];
    assert!(matches!(TagSet::from_rows(&rows), Err(TagError::Row(2))));
    let rows = vec![row(&["id", "name", "summary"])];
    assert_eq!(TagSet::from_rows(&rows).unwrap().len(), 0);
}

#[test]
fn tag_set_from_reader_reports_csv_error() {
    let res = TagSet::from_reader("id,name,summary\na,b\n".as_bytes());
    assert!(matches!(res, Err(TagError::Csv(_))));
}

#[test]
fn tag_set_reads_quoted_fields() {
    let set =
        TagSet::from_reader("id,name,summary\nrust,\"Rust, the language\",\"a \"\"safe\"\" one\"\n".as_bytes())
            .unwrap();
    let tag = set.first().unwrap();
    assert_eq!(tag.name(), Some(&s("Rust, the language")));
    assert_eq!(tag.summary(), Some(&s("a \"safe\" one")));
    let bytes = some_package::staging::encode_tags(&set.to_vec()).unwrap();
    assert_eq!(
        String::from_utf8(bytes).unwrap(),
        "rust,\"Rust, the language\",\"a \"\"safe\"\" one\"\n"
    );
}

#[test]
fn tag_set_basics() {
    let set = TagSet::new(vec![
        tag::Record::new(s("b"), None, None),
        tag::Record::new(s("a"), None, None),
    ]);
    assert_eq!(set.len(), 2);
    assert_eq!(set.as_slice().len(), 2);
    assert_eq!(set.first().unwrap().id(), "b");
    assert_eq!(set.to_vec()[1].id(), "a");
    assert!(TagSet::new(vec![]).first().is_none());
}

#[test]
fn thing_set_is_ordered_by_url() {
    let data = "url,name,summary,category_id\nhttps://b.org,B,  ,misc\nhttps://a.org,A, an a ,misc\n";
    let set = ThingSet::from_reader(data.as_bytes()).unwrap();
    assert_eq!(set.len(), 2);
    let list = set.to_vec();
    assert_eq!(list[0].url(), "https://a.org");
    assert_eq!(list[0].summary(), Some(s("an a")));
    assert_eq!(list[1].url(), "https://b.org");
    assert_eq!(list[1].summary(), None);
    assert_eq!(set.first().unwrap().name(), "A");
    assert_eq!(set.as_slice().len(), 2);
}

#[test]
fn thing_set_faults() {
    assert!(matches!(
        ThingSet::from_reader("url,name\n".as_bytes()),
        Err(ThingError::Header)
    ));
    assert!(matches!(
        ThingSet::from_reader("url,name,summary,category_id\na,b\n".as_bytes()),
        Err(ThingError::Csv(_))
    ));
    let rows = vec![row(&["url", "name", "summary", "category_id"]), row(&["a"])];
    assert!(matches!(ThingSet::from_rows(&rows), Err(ThingError::Row(1))));
    assert_eq!(ThingSet::new(vec![]).len(), 0);
}

#[test]
fn thing_row_encodes_absent_summary_as_empty() {
    let thing = thing::Record::new(s("https://e.org"), s("E"), None, s("misc"));
    assert_eq!(thing.to_row(), row(&["https://e.org", "E", "", "misc"]));
    assert_eq!(thing::Record::header(), row(&["url", "name", "summary", "category_id"]));
    assert!(thing::Record::from_row(&row(&["a", "b", "c"])).is_none());
}

#[test]
fn thingtag_set_reads_rows() {
    let set = ThingtagSet::from_reader("thing_id,tag_id\nhttps://e.org,a\nhttps://e.org,b\n".as_bytes())
        .unwrap();
    assert_eq!(set.len(), 2);
    assert_eq!(set.first().unwrap().tag_id(), "a");
    assert_eq!(set.to_vec()[1], Thingtag::new(s("https://e.org"), s("b")));
    assert_eq!(set.as_slice().len(), 2);
    assert!(matches!(
        ThingtagSet::from_reader("thing,tag\n".as_bytes()),
        Err(ThingtagError::Header)
    ));
    let rows = vec![row(&["thing_id", "tag_id"]), row(&["a", "b"]), row(&["a", "b", "c"])];
    assert!(matches!(ThingtagSet::from_rows(&rows), Err(ThingtagError::Row(2))));
    assert!(matches!(
        ThingtagSet::from_reader("thing_id,tag_id\na\n".as_bytes()),
        Err(ThingtagError::Csv(_))
    ));
    assert_eq!(Thingtag::new(s("t"), s("a")).to_row(), row(&["t", "a"]));
    assert!(ThingtagSet::new(vec![]).first().is_none());
}

#[test]
fn new_thing_builder_reports_missing_fields() {
    assert!(matches!(NewThingBuilder::new().build(), Err(ThingError::MissingUrl)));
    assert!(matches!(
        NewThingBuilder::new().url(s("https://e.org")).build(),
        Err(ThingError::MissingName)
    ));
    assert!(matches!(
        NewThingBuilder::new().url(s("https://e.org")).name(s("E")).build(),
        Err(ThingError::MissingCategory)
    ));
    assert!(matches!(
        NewThingBuilder::new().name(s("E")).category(s("misc")).build(),
        Err(ThingError::MissingUrl)
    ));
}

#[test]
fn new_thing_builder_builds() {
    let thing = NewThingBuilder::new()
        .url(s("https://e.org"))
        .name(s("E"))
        .category(s("misc"))
        .build()
        .unwrap();
    assert_eq!(
        thing,
        Thing { url: s("https://e.org"), name: s("E"), summary: None, category: s("misc"), tags: vec![] }
    );
    let thing = NewThingBuilder::new()
        .url(s("https://e.org"))
        .name(s("E"))
        .summary(s("An e."))
        .category(s("misc"))
        .tags(vec![s("b"), s("a")])
        .build()
        .unwrap();
    assert_eq!(thing.summary, Some(s("An e.")));
    assert_eq!(thing.tags, vec![s("b"), s("a")]);
    assert_eq!(thing.clone(), thing);
}

#[test]
fn texts_are_ordered_by_bytes() {
    assert!(less_than(&s("a"), &s("b")));
    assert!(!less_than(&s("b"), &s("a")));
    assert!(!less_than(&s("a"), &s("a")));
    assert!(less_than(&s(""), &s("a")));
    assert!(less_than(&s("a"), &s("aa")));
    assert!(less_than(&s("Z"), &s("a")));
    assert!(less_than(&s("z"), &s("é")));
    assert!(same_text(&s("x"), &s("x")));
    assert!(!same_text(&s("x"), &s("y")));
}

#[test]
fn sorted_insertion_keeps_each_text_once() {
    let mut list: Vec<String> = Vec::new();
    for text in ["m", "b", "z", "b", "a", "m"] {
        insert_sorted(&mut list, s(text));
    }
    assert_eq!(list, vec![s("a"), s("b"), s("m"), s("z")]);
    assert!(contains_text(&list, &s("m")));
    assert!(!contains_text(&list, &s("c")));
}

#[test]
fn change_names_its_parts() {
    let change = Change::Insert(Data::Tag { id: s("foo"), name: None, summary: None });
    assert_eq!(change.operation(), "insert");
    assert_eq!(change.kind(), "tag");
    assert_eq!(change.id(), "foo");
    let change = Change::Delete(DataRef::Thing { id: s("https://e.org") });
    assert_eq!(change.operation(), "delete");
    assert_eq!(change.kind(), "thing");
    assert_eq!(change.id(), "https://e.org");
    let thing = Thing { url: s("u"), name: s("n"), summary: None, category: s("c"), tags: vec![s("a")] };
    let change = Change::Replace(Data::thing(thing));
    assert_eq!(change.operation(), "replace");
    assert_eq!(change.kind(), "thing");
    assert_eq!(change.id(), "u");
    assert_eq!(change.clone(), change);
}

#[test]
fn event_identifier() {
    let ev = Event {
        timestamp: 1,
        change: Change::Insert(Data::Tag { id: s("foo"), name: None, summary: None }),
    };
    let id = ev.id();
    assert_eq!(
        id,
        EventId { timestamp: 1, operation: s("insert"), kind: s("tag"), id: s("foo") }
    );
    assert!(ev.is(&id));
    assert!(!ev.is(&EventId { timestamp: 2, operation: s("insert"), kind: s("tag"), id: s("foo") }));
    assert!(!ev.is(&EventId { timestamp: 1, operation: s("insert"), kind: s("thing"), id: s("foo") }));
    assert_eq!(ev.clone(), ev);
    let tag = tag::Record::new(s("foo"), None, None);
    assert_eq!(Data::tag(&tag), Data::Tag { id: s("foo"), name: None, summary: None });
}

#[test]
fn sets_are_shown_by_their_labels() {
    let set = TagSet::new(vec![
        tag::Record::new(s("b"), None, None),
        tag::Record::new(s("a"), Some(s("A")), None),
    ]);
    assert_eq!(set.to_string(), "b;a");
    assert_eq!(set.to_lines(), "b\na");
    assert_eq!(set.labels(), vec![s("b"), s("a")]);
    assert_eq!(TagSet::new(vec![]).to_string(), "");
    let things = ThingSet::new(vec![
        thing::Record::new(s("u1"), s("One"), None, s("misc")),
        thing::Record::new(s("u2"), s("Two"), None, s("misc")),
        thing::Record::new(s("u3"), s("Three"), None, s("misc")),
    ]);
    assert_eq!(things.to_string(), "One;Two;Three");
    assert_eq!(things.to_lines(), "One\nTwo\nThree");
    assert_eq!(some_package::text::join(&vec![s("x")], ", "), "x");
}

#[test]
fn things_sort_by_the_whole_record() {
    let given = vec![
        thing::Record::new(s("b"), s("n"), Some(s("x")), s("m")),
        thing::Record::new(s("b"), s("n"), None, s("z")),
        thing::Record::new(s("a"), s("z"), None, s("m")),
        thing::Record::new(s("b"), s("a"), Some(s("y")), s("m")),
        thing::Record::new(s("b"), s("n"), None, s("m")),
        thing::Record::new(s("b"), s("n"), Some(s("w")), s("m")),
    ];
    let mut expected = given.clone();
    expected.sort();
    let sorted = some_package::thing_set::sort_things(given);
    assert_eq!(sorted, expected);
    let shown: Vec<(String, String, Option<String>, String)> = sorted
        .iter()
        .map(|t| (t.url().to_string(), t.name().to_string(), t.summary(), t.category_id().clone()))
        .collect();
    assert_eq!(
        shown,
        vec![
            (s("a"), s("z"), None, s("m")),
            (s("b"), s("a"), Some(s("y")), s("m")),
            (s("b"), s("n"), None, s("m")),
            (s("b"), s("n"), None, s("z")),
            (s("b"), s("n"), Some(s("w")), s("m")),
            (s("b"), s("n"), Some(s("x")), s("m")),
        ]
    );
    assert!(sorted[0].comes_before(&sorted[1]));
    assert!(!sorted[1].comes_before(&sorted[0]));
    assert!(!sorted[2].comes_before(&sorted[2]));
    let data = "url,name,summary,category_id\nu,B,,m\nu,A,,m\n";
    let set = ThingSet::from_reader(data.as_bytes()).unwrap();
    assert_eq!(set.first().unwrap().name(), "A");
    let rows = vec![row(&["url", "name", "summary", "category_id"]), row(&["b", "B", "", "m"]), row(&["a", "A", "", "m"])];
    let listed = some_package::thing_set::things_in_order(&rows, false).unwrap();
    assert_eq!(listed[0].url(), "b");
}

#[test]
fn thing_summaries_are_read_strictly_or_leniently() {
    let padded = row(&["u", "N", " s ", "m"]);
    assert_eq!(thing::Record::from_row(&padded).unwrap().summary(), Some(s(" s ")));
    assert_eq!(thing::Record::from_row_trimmed(&padded).unwrap().summary(), Some(s("s")));
    let blank = row(&["u", "N", "  ", "m"]);
    assert_eq!(thing::Record::from_row(&blank).unwrap().summary(), Some(s("  ")));
    assert_eq!(thing::Record::from_row_trimmed(&blank).unwrap().summary(), None);
    let empty = row(&["u", "N", "", "m"]);
    assert_eq!(thing::Record::from_row(&empty).unwrap().summary(), None);
    assert_eq!(thing::Record::from_row_trimmed(&empty).unwrap().summary(), None);
    assert!(thing::Record::from_row_trimmed(&row(&["u"])).is_none());
    let rows = vec![row(&["url", "name", "summary", "category_id"]), padded];
    let strict = some_package::thing_set::things_in_order(&rows, false).unwrap();
    assert_eq!(strict[0].summary(), Some(s(" s ")));
    let lenient = some_package::thing_set::things_in_order(&rows, true).unwrap();
    assert_eq!(lenient[0].summary(), Some(s("s")));
}
