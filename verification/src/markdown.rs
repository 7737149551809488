//! The collection as a Markdown document: a title, one section for each
//! category with a table of its things, and the licences.

use vstd::prelude::*;
use vstd::string::StringExecFns;
use crate::package::descriptor::Licence;
use crate::package::Package;
use crate::SomeError;
use crate::store::categories;
use crate::store::overlay_things;
use crate::store::Store;
use crate::store::StoreView;
use crate::store::TagStore;
use crate::store::thing_in;
use crate::store::thing_joined;
use crate::store::ThingStore;
use crate::table::none_to_blank;
use crate::table::or_blank;
use crate::tag::TagView;
use crate::tag;
use crate::text::join;
use crate::text::joined;
use crate::text::views;
use crate::thing::Thing;
use crate::thing::ThingView;

verus! {

/// A category with the things that belong to it.
#[derive(Debug)]
pub struct Section {
    pub category: tag::Record,
    pub things: Vec<Thing>,
}

/// The row of the table for a thing: its name as a link to its URL, its
/// summary and its tags.
pub open spec fn row_text(t: ThingView) -> Seq<char> {
    "| ["@ + t.name + "]("@ + t.url + ") | "@ + none_to_blank(t.summary) + " | "@ + joined(
        t.tags,
        "; "@,
    ) + " |\n"@
}

/// The rows of the table for a list of things.
pub open spec fn rows_text(things: Seq<ThingView>) -> Seq<char>
    decreases things.len(),
{
    if things.len() == 0 {
        Seq::empty()
    } else {
        rows_text(things.drop_last()) + row_text(things.last())
    }
}

/// The table for a list of things, with its two lines of heading.
pub open spec fn table_text(things: Seq<ThingView>) -> Seq<char> {
    "| name | summary | tags |\n| - | - | - |\n"@ + rows_text(things)
}

/// The title of a section: the name of the category, or its identifier
/// where it has no name.
pub open spec fn section_title(t: TagView) -> Seq<char> {
    match t.name {
        Some(name) => name,
        None => t.id,
    }
}

/// The section of a category: its title, its summary if it has one, and the
/// table of its things.
pub open spec fn section_text(t: TagView, things: Seq<ThingView>) -> Seq<char> {
    "\n## "@ + section_title(t) + "\n\n"@ + match t.summary {
        Some(summary) => summary + "\n\n"@,
        None => Seq::empty(),
    } + table_text(things)
}

/// The sections one after the other.
pub open spec fn sections_text(sections: Seq<Section>) -> Seq<char>
    decreases sections.len(),
{
    if sections.len() == 0 {
        Seq::empty()
    } else {
        sections_text(sections.drop_last()) + section_text(
            sections.last().category@,
            views(sections.last().things@),
        )
    }
}

/// The body of the document: the sections, or a note where there is none.
pub open spec fn body_text(sections: Seq<Section>) -> Seq<char> {
    if sections.len() == 0 {
        "**This collection is empty**\n"@
    } else {
        sections_text(sections)
    }
}

/// The head of the document: the title and the description.
pub open spec fn header_text(title: Seq<char>, description: Seq<char>) -> Seq<char> {
    "# "@ + title + "\n\n"@ + description + "\n\n"@
}

/// The sentences that name the licences.
pub open spec fn licences_text(licences: Seq<Licence>) -> Seq<char>
    decreases licences.len(),
{
    if licences.len() == 0 {
        Seq::empty()
    } else {
        licences_text(licences.drop_last()) + "This dataset is licensed under the ["@
            + licences.last().title@ + "]("@ + licences.last().path@ + ").\n\n"@
    }
}

/// The foot of the document: nothing without a licence.
pub open spec fn footer_text(licences: Seq<Licence>) -> Seq<char> {
    if licences.len() == 0 {
        Seq::empty()
    } else {
        "\n## Licence\n\n"@ + licences_text(licences)
    }
}

/// The whole document.
pub open spec fn readme_text(package: Package, sections: Seq<Section>) -> Seq<char> {
    header_text(package.title@, package.description@) + body_text(sections) + footer_text(
        package.licenses@,
    )
}

/// Writes the row of the table for a thing.
pub fn write_row(out: &mut String, thing: &Thing)
    ensures
        final(out)@ == old(out)@ + row_text(thing@),
{
    out.append("| [");
    out.append(thing.name.as_str());
    out.append("](");
    out.append(thing.url.as_str());
    out.append(") | ");
    out.append(or_blank(&thing.summary).as_str());
    out.append(" | ");
    out.append(join(&thing.tags, "; ").as_str());
    out.append(" |\n");
    assert(out@ =~= old(out)@ + row_text(thing@));
}

/// Writes the table for a list of things.
pub fn write_table(out: &mut String, things: &Vec<Thing>)
    ensures
        final(out)@ == old(out)@ + table_text(views(things@)),
{
    out.append("| name | summary | tags |\n| - | - | - |\n");
    let ghost start = out@;
    let ghost all = views(things@);
    let mut i: usize = 0;
    assert(all.take(0) =~= Seq::<ThingView>::empty());
    assert(out@ =~= start + rows_text(all.take(0)));
    while i < things.len()
        invariant
            i <= things@.len(),
            all == views(things@),
            out@ == start + rows_text(all.take(i as int)),
        decreases things@.len() - i,
    {
        let ghost before = out@;
        proof {
            assert(all.take(i + 1).drop_last() =~= all.take(i as int));
            assert(all.take(i + 1).last() == things@[i as int]@);
        }
        write_row(out, &things[i]);
        assert(out@ =~= start + rows_text(all.take(i + 1)));
        i += 1;
    }
    assert(all.take(i as int) =~= all);
    assert(out@ =~= old(out)@ + table_text(all));
}

/// Writes the section of a category.
pub fn write_section(out: &mut String, section: &Section)
    ensures
        final(out)@ == old(out)@ + section_text(section.category@, views(section.things@)),
{
    out.append("\n## ");
    match section.category.name() {
        Some(name) => out.append(name.as_str()),
        None => out.append(section.category.id().as_str()),
    }
    out.append("\n\n");
    match section.category.summary() {
        Some(summary) => {
            out.append(summary.as_str());
            out.append("\n\n");
        },
        None => {},
    }
    let ghost before = out@;
    write_table(out, &section.things);
    assert(out@ =~= old(out)@ + section_text(section.category@, views(section.things@)));
}

/// Writes the sentences that name the licences, under their heading.
pub fn write_footer(out: &mut String, licences: &Vec<Licence>)
    ensures
        final(out)@ == old(out)@ + footer_text(licences@),
{
    if licences.len() == 0 {
        assert(out@ =~= old(out)@ + footer_text(licences@));
        return ;
    }
    out.append("\n## Licence\n\n");
    let ghost start = out@;
    let mut i: usize = 0;
    assert(licences@.take(0) =~= Seq::<Licence>::empty());
    assert(out@ =~= start + licences_text(licences@.take(0)));
    while i < licences.len()
        invariant
            i <= licences@.len(),
            out@ == start + licences_text(licences@.take(i as int)),
        decreases licences@.len() - i,
    {
        proof {
            assert(licences@.take(i + 1).drop_last() =~= licences@.take(i as int));
            assert(licences@.take(i + 1).last() == licences@[i as int]);
        }
        out.append("This dataset is licensed under the [");
        out.append(licences[i].title.as_str());
        out.append("](");
        out.append(licences[i].path.as_str());
        out.append(").\n\n");
        assert(out@ =~= start + licences_text(licences@.take(i + 1)));
        i += 1;
    }
    assert(licences@.take(i as int) =~= licences@);
    assert(out@ =~= old(out)@ + footer_text(licences@));
}

/// The document for a package and the sections of its collection.
pub fn readme(package: &Package, sections: &Vec<Section>) -> (res: String)
    ensures
        res@ == readme_text(*package, sections@),
{
    let mut out = String::new();
    out.append("# ");
    out.append(package.title.as_str());
    out.append("\n\n");
    out.append(package.description.as_str());
    out.append("\n\n");
    assert(out@ =~= header_text(package.title@, package.description@));
    let ghost head = out@;
    if sections.len() == 0 {
        out.append("**This collection is empty**\n");
    } else {
        let mut i: usize = 0;
        assert(sections@.take(0) =~= Seq::<Section>::empty());
        assert(out@ =~= head + sections_text(sections@.take(0)));
        while i < sections.len()
            invariant
                i <= sections@.len(),
                out@ == head + sections_text(sections@.take(i as int)),
            decreases sections@.len() - i,
        {
            proof {
                assert(sections@.take(i + 1).drop_last() =~= sections@.take(i as int));
                assert(sections@.take(i + 1).last() == sections@[i as int]);
            }
            write_section(&mut out, &sections[i]);
            assert(out@ =~= head + sections_text(sections@.take(i + 1)));
            i += 1;
        }
        assert(sections@.take(i as int) =~= sections@);
    }
    assert(out@ =~= head + body_text(sections@));
    let ghost body = out@;
    write_footer(&mut out, &package.licenses);
    assert(out@ =~= readme_text(*package, sections@));
    out
}

/// What can be written as Markdown.
pub trait Markdown {
    /// The Markdown text of the value.
    spec fn markdown(&self) -> Seq<char>;

    /// Writes the value as Markdown.
    fn fmt_md(&self) -> (res: String)
        ensures
            res@ == self.markdown(),
    ;
}

impl Markdown for Licence {
    open spec fn markdown(&self) -> Seq<char> {
        "["@ + self.name@ + "]("@ + self.path@ + ")"@
    }

    fn fmt_md(&self) -> (res: String) {
        self.to_markdown()
    }
}

impl Markdown for Thing {
    open spec fn markdown(&self) -> Seq<char> {
        row_text(self@)
    }

    fn fmt_md(&self) -> (res: String) {
        let mut out = String::new();
        write_row(&mut out, self);
        assert(out@ =~= row_text(self@));
        out
    }
}

impl Markdown for Section {
    open spec fn markdown(&self) -> Seq<char> {
        section_text(self.category@, views(self.things@))
    }

    fn fmt_md(&self) -> (res: String) {
        let mut out = String::new();
        write_section(&mut out, self);
        assert(out@ =~= section_text(self.category@, views(self.things@)));
        out
    }
}

/// The sections stand for the categories of the store, in ascending order
/// of their identifiers, each with the things of the overlay that belong to
/// it and the tags joined to each thing.
pub open spec fn sections_of(s: StoreView, sections: Seq<Section>) -> bool {
    &&& categories(s, Seq::new(sections.len(), |i: int| sections[i].category@))
    &&& forall|i: int|
        0 <= i < sections.len() ==> {
            let rows = overlay_things(s).filter(thing_in((#[trigger] sections[i]).category@.id));
            rows.len() == sections[i].things@.len() && forall|k: int|
                0 <= k < rows.len() ==> thing_joined(s, rows[k], #[trigger] views(
                    sections[i].things@,
                )[k])
        }
}

/// The sections of the collection of a store.
pub fn sections(store: &Store) -> (res: Result<Vec<Section>, SomeError>)
    ensures
        res matches Ok(list) && sections_of(store@, list@),
{
    let found = match TagStore::list_categories(store) {
        Ok(list) => list,
        Err(e) => {
            return Err(e);
        },
    };
    let mut out: Vec<Section> = Vec::new();
    let mut i: usize = 0;
    while i < found.len()
        invariant
            i <= found@.len(),
            out@.len() == i,
            forall|k: int| 0 <= k < i ==> (#[trigger] out@[k]).category@ == found@[k]@,
            forall|m: int|
                0 <= m < i ==> {
                    let rows = overlay_things(store@).filter(
                        thing_in((#[trigger] out@[m]).category@.id),
                    );
                    rows.len() == out@[m].things@.len() && forall|k: int|
                        0 <= k < rows.len() ==> thing_joined(
                            store@,
                            rows[k],
                            #[trigger] views(out@[m].things@)[k],
                        )
                },
        decreases found@.len() - i,
    {
        let category = found[i].clone();
        let things = match ThingStore::list_categorised(store, category.id()) {
            Ok(list) => list,
            Err(e) => {
                return Err(e);
            },
        };
        proof {
            let rows = overlay_things(store@).filter(thing_in(category@.id));
            assert forall|k: int| 0 <= k < rows.len() implies thing_joined(
                store@,
                rows[k],
                #[trigger] views(things@)[k],
            ) by {
                assert(views(things@)[k] == things@[k]@);
            }
        }
        out.push(Section { category, things });
        i += 1;
    }
    assert(Seq::new(out@.len(), |i: int| out@[i].category@) =~= views(found@));
    Ok(out)
}

/// The document for a package and the collection of a store.
pub fn write_readme(store: &Store, package: &Package) -> (res: Result<String, SomeError>)
    ensures
        res matches Ok(text) && exists|list: Seq<Section>|
            sections_of(store@, list) && text@ == readme_text(*package, list),
{
    let list = match sections(store) {
        Ok(list) => list,
        Err(e) => {
            return Err(e);
        },
    };
    let text = readme(package, &list);
    assert(sections_of(store@, list@) && text@ == readme_text(*package, list@));
    Ok(text)
}

} // verus!
