use some_package::page::{page_lines, read_page, validate_url, Page};
use some_package::render::{
    all_cells, cells, error_lines, jsonline_of, members, render_jsonline, render_table, render_table_at,
    render_tabbed, write_spaces, write_tab_lines,
};
use some_package::SomeError;
use some_package::prompt::{after_line, prompt, write_decimal, Reading};
use some_package::lenses::{chosen_licences, licence_of, seed, seed_rows, FullLicence, LicenceSet};
use some_package::shell::{process_dotcommand, process_dotmode, step, Action, DotReply};
use some_package::lenses::{resources, tag_resource, thing_resource, thing_tag_resource};
use some_package::package::descriptor::{
    assert_name, is_name_character, Licence, Name, PackageError, Profile, Role,
};
use some_package::package::resource::{Encoding, ResourceBuilder, Schema};
use some_package::package::PackageBuilder;
use some_package::shell::{Config, OutputMode, ShellError};
use some_package::{Event, Report};

#[test]
fn assert_valid_name() {
    assert!(assert_name("foo-bar").is_ok(), "Expect name to be valid");
}

#[test]
fn name_with_upper_case_is_malformed() {
    match assert_name("Foo") {
        Err(PackageError::MalformedName(text)) => assert_eq!(text, "Foo"),
        other => panic!("unexpected {:?}", other),
    }
    assert!(Name::from_str("foo bar").is_err());
    assert!(Name::from_str("a.b_c-d/e0").is_ok());
    assert!(assert_name("").is_ok());
}

#[test]
fn name_characters() {
    for c in ['.', '_', '-', '/', 'a', 'z', '0', '9'] {
        assert!(is_name_character(c));
    }
    for c in ['A', ' ', '`', '{', ':', 'é'] {
        assert!(!is_name_character(c));
    }
}

#[test]
fn profile_from_str() {
    assert_eq!(Profile::from_str("tabular-data-package").unwrap().to_string(), "tabular-data-package");
    assert_eq!(Profile::from_str("tabular-data-resource").unwrap().to_string(), "tabular-data-resource");
    match Profile::from_str("other") {
        Err(PackageError::UnknownProfile(text)) => assert_eq!(text, "other"),
        other => panic!("unexpected {:?}", other),
    }
    assert_eq!(Profile::new("anything").to_string(), "anything");
}

#[test]
fn licence_texts() {
    let licence = Licence {
        name: "ODC-PDDL".to_string(),
        path: "http://opendatacommons.org/licenses/pddl/".to_string(),
        title: "Open Data Commons Public Domain Dedication and License".to_string(),
    };
    assert_eq!(licence.to_string(), "ODC-PDDL");
    assert_eq!(
        licence.to_markdown(),
        "[ODC-PDDL](http://opendatacommons.org/licenses/pddl/)"
    );
}

#[test]
fn role_default_is_contributor() {
    assert_eq!(Role::default(), Role::Contributor);
}

#[test]
fn tag_resource_shape() {
    let resource = tag_resource();
    assert!(resource.id().is("tag"));
    assert_eq!(resource.path(), "data/tag.csv");
    assert_eq!(resource.title, "Tag");
    assert_eq!(resource.encoding, Encoding::Utf8);
    let names: Vec<String> = resource.field_names().iter().map(|n| n.to_string()).collect();
    assert_eq!(names, vec!["id", "name", "summary"]);
    assert!(resource.schema.foreign_keys.is_empty());
    let flags: Vec<(bool, bool)> = resource
        .schema
        .fields
        .iter()
        .map(|f| (f.constraints[0].required, f.constraints[0].unique))
        .collect();
    assert_eq!(flags, vec![(true, true), (false, false), (false, false)]);
}

#[test]
fn thing_resource_shape() {
    let resource = thing_resource();
    assert!(resource.id().is("thing"));
    assert_eq!(resource.path(), "data/thing.csv");
    let names: Vec<String> = resource.field_names().iter().map(|n| n.to_string()).collect();
    assert_eq!(names, vec!["url", "name", "summary", "category_id"]);
    let flags: Vec<(bool, bool)> = resource
        .schema
        .fields
        .iter()
        .map(|f| (f.constraints[0].required, f.constraints[0].unique))
        .collect();
    assert_eq!(flags, vec![(true, true), (true, false), (false, false), (true, false)]);
    assert_eq!(resource.schema.fields[0].format, Some("uri".to_string()));
    assert_eq!(resource.schema.fields[1].format, None);
    assert_eq!(resource.schema.foreign_keys.len(), 1);
    assert!(resource.schema.foreign_keys[0].reference.resource.is("tag"));
    assert!(resource.schema.foreign_keys[0].fields[0].is("category_id"));
}

#[test]
fn thing_tag_resource_shape() {
    let resource = thing_tag_resource();
    assert!(resource.id().is("thing_tag"));
    assert_eq!(resource.path(), "data/thing_tag.csv");
    assert_eq!(resource.schema.primary_key.len(), 2);
    assert_eq!(resource.schema.foreign_keys.len(), 2);
    assert!(resource.schema.foreign_keys[0].reference.resource.is("thing"));
    assert!(resource.schema.foreign_keys[1].reference.fields[0].is("id"));
    let flags: Vec<(bool, bool)> = resource
        .schema
        .fields
        .iter()
        .map(|f| (f.constraints[0].required, f.constraints[0].unique))
        .collect();
    assert_eq!(flags, vec![(true, false), (true, false)]);
}

#[test]
fn resources_in_order() {
    let list = resources();
    let names: Vec<String> = list.iter().map(|r| r.id().to_string()).collect();
    assert_eq!(names, vec!["thing", "tag", "thing_tag"]);
}

#[test]
fn resource_builder_collects_fields() {
    let mut builder = ResourceBuilder::new();
    assert!(!builder.is_complete());
    builder.with_name(Name::new("x"));
    builder.with_title("X");
    builder.with_description("An x.");
    builder.with_path("data/x.csv");
    builder.with_schema(Schema { fields: vec![], primary_key: vec![], foreign_keys: vec![] });
    assert!(builder.is_complete());
    let resource = builder.build();
    assert_eq!(resource.title, "X");
    assert_eq!(resource.description, "An x.");
    assert_eq!(resource.path(), "data/x.csv");
    assert_eq!(resource.profile.to_string(), "tabular-data-resource");
}

#[test]
fn package_builder_reports_first_missing_field() {
    let builder = PackageBuilder::new("some-sqlite").unwrap();
    match builder.build() {
        Err(PackageError::RequiredField(field)) => assert_eq!(field, "title"),
        other => panic!("unexpected {:?}", other),
    }
    let builder = PackageBuilder::new("some-sqlite").unwrap().title("Some".to_string());
    match builder.build() {
        Err(PackageError::RequiredField(field)) => assert_eq!(field, "description"),
        other => panic!("unexpected {:?}", other),
    }
    let builder = PackageBuilder::new("some-sqlite")
        .unwrap()
        .title("Some".to_string())
        .description("A collection.".to_string());
    match builder.build() {
        Err(PackageError::RequiredField(field)) => assert_eq!(field, "resources"),
        other => panic!("unexpected {:?}", other),
    }
    assert!(PackageBuilder::new("Some SQLite").is_err());
}

#[test]
fn package_builder_builds() {
    let package = PackageBuilder::new("some-sqlite")
        .unwrap()
        .title("Some SQLite".to_string())
        .description("A collection of some SQLite resources.".to_string())
        .resources(resources())
        .build()
        .unwrap();
    assert!(package.name().is("some-sqlite"));
    assert_eq!(package.description(), "A collection of some SQLite resources.");
    assert_eq!(package.profile.to_string(), "tabular-data-package");
    assert_eq!(package.resources().len(), 3);
    assert_eq!(package.id.len(), 36);
    assert!(!package.created.is_empty());

    let package = PackageBuilder::new("some-rust")
        .unwrap()
        .id("6764DF8B-9CCB-4446-8A61-7C7611DCEDD2".to_string())
        .timestamp("2020-12-29T10:11:12Z".to_string())
        .title("T".to_string())
        .description("D".to_string())
        .homepage("https://example.org".to_string())
        .keywords(vec!["sqlite".to_string()])
        .resources(resources())
        .build()
        .unwrap();
    assert_eq!(package.id, "6764DF8B-9CCB-4446-8A61-7C7611DCEDD2");
    assert_eq!(package.created, "2020-12-29T10:11:12Z");
    assert_eq!(package.homepage, Some("https://example.org".to_string()));
    assert_eq!(package.keywords, vec!["sqlite".to_string()]);
}

#[test]
fn output_mode_names() {
    assert_eq!(OutputMode::from_str("tabbed").unwrap(), OutputMode::Tabbed);
    assert_eq!(OutputMode::from_str("table").unwrap(), OutputMode::Table);
    assert_eq!(OutputMode::from_str("jsonline").unwrap(), OutputMode::Jsonline);
    match OutputMode::from_str("csv") {
        Err(ShellError::InvalidMode(text)) => assert_eq!(text, "csv"),
        other => panic!("unexpected {:?}", other),
    }
    assert_eq!(OutputMode::Jsonline.to_string(), "jsonline");
    assert_eq!(OutputMode::default(), OutputMode::Tabbed);
    assert_eq!(Config::default().output_mode, OutputMode::Tabbed);
}

#[test]
fn report_keeps_message() {
    assert_eq!(Report::new("Success").to_string(), "Success");
    let event = Event::new("fetched");
    let _copy = event.clone();
}

#[test]
fn shell_steps() {
    let mut pending = String::new();
    assert_eq!(step(&mut pending, ".mode table"), Action::Dot("mode table".to_string()));
    assert_eq!(pending, "");
    assert_eq!(step(&mut pending, "   "), Action::Nothing);
    assert_eq!(step(&mut pending, "SELECT *"), Action::Nothing);
    assert_eq!(pending, "SELECT *\n ");
    assert_eq!(
        step(&mut pending, "  FROM tag; "),
        Action::Nothing
    );
    assert_eq!(pending, "SELECT *\n   FROM tag; \n ");
    assert_eq!(
        step(&mut pending, "WHERE id = 'a';"),
        Action::Query("SELECT *\n   FROM tag; \n WHERE id = 'a';".to_string())
    );
    assert_eq!(pending, "");
    assert_eq!(
        step(&mut pending, "select 1;"),
        Action::Query("select 1;".to_string())
    );
    assert_eq!(
        step(&mut pending, "DELETE FROM tag;"),
        Action::Execute("DELETE FROM tag;".to_string())
    );
    assert_eq!(step(&mut pending, "."), Action::Dot(String::new()));
}

#[test]
fn dot_commands() {
    let mut config = Config::default();
    assert_eq!(process_dotcommand("mode table", &mut config).unwrap(), DotReply::Done);
    assert_eq!(config.output_mode, OutputMode::Table);
    assert_eq!(process_dotcommand("mode", &mut config).unwrap(), DotReply::CommandNeedsValue);
    assert_eq!(process_dotcommand("mode  ", &mut config).unwrap(), DotReply::ModeNeedsValue);
    assert_eq!(config.output_mode, OutputMode::Table);
    match process_dotcommand("open file", &mut config) {
        Err(ShellError::UnknownCommand(text)) => assert_eq!(text, "open"),
        other => panic!("unexpected {:?}", other),
    }
    match process_dotcommand("mode wide", &mut config) {
        Err(ShellError::InvalidMode(text)) => assert_eq!(text, "wide"),
        other => panic!("unexpected {:?}", other),
    }
    assert_eq!(process_dotmode("jsonline", &mut config).unwrap(), DotReply::Done);
    assert_eq!(config.output_mode, OutputMode::Jsonline);
    assert_eq!(process_dotmode("", &mut config).unwrap(), DotReply::ModeNeedsValue);
}

#[test]
fn new_files_start_with_their_header() {
    assert_eq!(
        String::from_utf8(seed(&tag_resource()).unwrap()).unwrap(),
        "id,name,summary\nmiscellaneous,Miscellaneous,The unclassifiable.\n"
    );
    assert_eq!(
        String::from_utf8(seed(&thing_resource()).unwrap()).unwrap(),
        "url,name,summary,category_id\n"
    );
    assert_eq!(
        String::from_utf8(seed(&thing_tag_resource()).unwrap()).unwrap(),
        "thing_id,tag_id\n"
    );
    assert_eq!(seed_rows(&thing_tag_resource()), vec![vec!["thing_id".to_string(), "tag_id".to_string()]]);
}

#[test]
fn licences_are_chosen_by_name() {
    let licence = |name: &str| Licence {
        name: name.to_string(),
        path: format!("https://l.org/{}", name),
        title: name.to_uppercase(),
    };
    let items = vec![licence("a"), licence("b"), licence("c")];
    let chosen = chosen_licences(&items, &vec!["c".to_string(), "a".to_string(), "x".to_string()]);
    assert_eq!(chosen, vec![licence("a"), licence("c")]);
    assert!(chosen_licences(&items, &vec![]).is_empty());
    let set = LicenceSet::new(items);
    assert_eq!(set.len(), 3);
    assert_eq!(set.first(), Some(&licence("a")));
    assert_eq!(set.to_vec()[2], licence("c"));
    assert_eq!(set.as_slice().len(), 3);
    assert!(LicenceSet::new(vec![]).first().is_none());
    assert_eq!(set.to_string(), "a;b;c");
    assert_eq!(set.to_lines(), "a\nb\nc");
    let full = FullLicence {
        id: "ODC-PDDL".to_string(),
        domain_content: false,
        domain_data: true,
        domain_software: false,
        od_conformance: "approved".to_string(),
        osd_conformance: "not reviewed".to_string(),
        status: "active".to_string(),
        title: "Open Data Commons".to_string(),
        url: "http://opendatacommons.org/licenses/pddl/".to_string(),
    };
    assert_eq!(
        licence_of(full),
        Licence {
            name: "ODC-PDDL".to_string(),
            path: "http://opendatacommons.org/licenses/pddl/".to_string(),
            title: "Open Data Commons".to_string(),
        }
    );
}

#[test]
fn prompts_tell_what_is_asked() {
    assert_eq!(prompt("url", None, 1), "url (required): ");
    assert_eq!(prompt("summary", Some(0), 1), "summary (optional): ");
    assert_eq!(prompt("name", Some(3), 1), "name (2): ");
    assert_eq!(prompt("name", Some(3), 3), "name (0): ");
    assert_eq!(prompt("name", Some(3), 4), "name (0): ");
    assert_eq!(prompt("name", Some(120), 15), "name (105): ");
    let mut out = String::from("n=");
    write_decimal(&mut out, 0);
    write_decimal(&mut out, 4294967295);
    assert_eq!(out, "n=04294967295");
}

#[test]
fn blank_lines_are_counted_against_the_limit() {
    assert_eq!(after_line("  yes ", Some(0), 0), Reading::Answer("yes".to_string()));
    assert_eq!(after_line("", None, 0), Reading::Again(0));
    assert_eq!(after_line("   ", None, 7), Reading::Again(7));
    assert_eq!(after_line("", Some(0), 0), Reading::Stop);
    assert_eq!(after_line("", Some(2), 0), Reading::Again(1));
    assert_eq!(after_line("", Some(2), 1), Reading::Again(2));
    assert_eq!(after_line("", Some(2), 2), Reading::Stop);
}

#[test]
fn addresses_are_checked() {
    assert!(validate_url("https://e.org/path?q=1").is_ok());
    assert!(matches!(validate_url("not a url"), Err(SomeError::Url(_))));
    assert!(matches!(validate_url(""), Err(SomeError::Url(_))));
}

#[test]
fn pages_tell_titles_and_summaries() {
    let body = "<html><head><title>An example</title>\
                <meta name=\"description\" content=\"What it is.\">\
                <meta name=\"description\">\
                <meta name=\"keywords\" content=\"a,b\"></head>\
                <body><p>Text</p></body></html>";
    let page = read_page("https://e.org", 200, body).unwrap();
    assert_eq!(
        page,
        Page { titles: vec!["An example".to_string()], summaries: vec!["What it is.".to_string()] }
    );
    assert_eq!(
        page_lines(&page),
        vec!["Found a title: An example".to_string(), "Found a summary: What it is.".to_string()]
    );
    let empty = read_page("https://e.org", 200, "").unwrap();
    assert!(empty.titles.is_empty() && empty.summaries.is_empty());
    match read_page("https://e.org", 404, body) {
        Err(SomeError::BadUrl(url)) => assert_eq!(url, "https://e.org"),
        other => panic!("unexpected {:?}", other),
    }
}

#[test]
fn rows_are_rendered() {
    let columns = vec!["id".to_string(), "name".to_string()];
    let rows = vec![
        vec![Some("misc".to_string()), Some("Miscellaneous".to_string())],
        vec![Some("a".to_string()), None],
    ];
    assert_eq!(cells(&rows[1]), vec!["a".to_string(), String::new()]);
    assert_eq!(all_cells(&rows).len(), 2);
    let mut lines = String::new();
    write_tab_lines(&mut lines, &all_cells(&rows));
    assert_eq!(lines, "misc\tMiscellaneous\na\t\n");
    assert_eq!(
        render_tabbed(&columns, &rows).unwrap(),
        "id    name\nmisc  Miscellaneous\na     \n"
    );
    let table = render_table(&columns, &rows);
    assert!(table.contains("Miscellaneous") && table.contains("id"));
    let json = render_jsonline(&columns, &rows[1]).unwrap();
    assert!(json.contains("\"id\": \"a\"") && json.contains("\"name\": null"));
}

#[test]
fn faults_are_shown_below_their_place() {
    let lines = error_lines("near \"FORM\": syntax error", "select *\nFORM tag", 9).unwrap();
    assert_eq!(lines.len(), 3);
    assert_eq!(lines[0], "select * \u{1b}[31mFORM tag\u{1b}[0m");
    assert_eq!(lines[1], "         ^");
    assert_eq!(lines[2], "         near \"FORM\": syntax error");
    assert!(error_lines("m", "é", 1).is_none());
    assert!(error_lines("m", "abc", 4).is_none());
    let mut out = String::from("x");
    write_spaces(&mut out, 3);
    assert_eq!(out, "x   ");
}

#[test]
fn tables_are_drawn_for_a_width() {
    let columns = vec!["id".to_string(), "name".to_string()];
    let rows = vec![
        vec![Some("misc".to_string()), Some("Miscellaneous".to_string())],
        vec![Some("a".to_string()), None],
    ];
    let unbounded = render_table_at(&columns, &rows, None);
    assert_eq!(
        unbounded,
        "┌──────┬───────────────┐\n\
         │ id   ┆ name          │\n\
         ╞══════╪═══════════════╡\n\
         │ misc ┆ Miscellaneous │\n\
         ├╌╌╌╌╌╌┼╌╌╌╌╌╌╌╌╌╌╌╌╌╌╌┤\n\
         │ a    ┆               │\n\
         └──────┴───────────────┘"
    );
    let wide = render_table_at(&columns, &rows, Some(40));
    assert_eq!(wide.lines().count(), 7);
    for line in wide.lines() {
        assert_eq!(line.chars().count(), 40);
    }
    assert!(wide.contains("Miscellaneous"));
    assert_ne!(wide, unbounded);
    let narrow = render_table_at(&columns, &rows, Some(12));
    assert!(narrow.lines().count() > 7);
    for width in [0u16, 1, 2, 5, u16::MAX] {
        let _ = render_table_at(&columns, &rows, Some(width));
    }
    let _ = render_table_at(&vec![], &vec![], Some(10));
    let _ = render_table_at(&vec![], &vec![], None);
    let _ = render_table_at(&columns, &vec![vec![None]], None);
    let here = render_table(&columns, &rows);
    assert!(here.contains("Miscellaneous") && here.contains("┆"));
}

#[test]
fn the_answer_of_the_json_writer_is_handed_on() {
    assert_eq!(jsonline_of(Ok("{}".to_string())).unwrap(), "{}");
    let fault = serde_json::from_str::<serde_json::Value>("{").unwrap_err();
    assert!(matches!(jsonline_of(Err(fault)), Err(SomeError::Json(_))));
    let columns = vec!["n".to_string(), "n".to_string(), "m".to_string()];
    let row = vec![Some("first".to_string()), Some("last".to_string())];
    let text = render_jsonline(&columns, &row).unwrap();
    assert_eq!(text, "{\n  \"n\": \"last\"\n}");
}

#[test]
fn the_last_column_of_a_name_gives_the_member() {
    let text = |t: &str| Some(t.to_string());
    let columns = vec!["n".to_string(), "m".to_string(), "n".to_string(), "o".to_string()];
    let row = vec![text("first"), None, text("last")];
    assert_eq!(
        members(&columns, &row),
        (vec!["m".to_string(), "n".to_string()], vec![None, text("last")])
    );
    assert_eq!(members(&vec![], &row), (vec![], vec![]));
    assert_eq!(members(&columns, &vec![]), (vec![], vec![]));
    let distinct = vec!["a".to_string(), "b".to_string()];
    assert_eq!(
        members(&distinct, &vec![text("1"), text("2"), text("3")]),
        (distinct.clone(), vec![text("1"), text("2")])
    );
    let json = render_jsonline(&columns, &row).unwrap();
    assert!(
        json == "{\n  \"m\": null,\n  \"n\": \"last\"\n}"
            || json == "{\n  \"n\": \"last\",\n  \"m\": null\n}"
    );
    assert_eq!(render_jsonline(&vec![], &vec![]).unwrap(), "{}");
}
