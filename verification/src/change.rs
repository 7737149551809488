//! The changelog: pending operations, each with the time it was recorded.

use vstd::prelude::*;
use crate::tag::clone_opt;
use crate::tag::opt_view;
use crate::tag::TagView;
use crate::tag;
use crate::text::texts;
use crate::thing::clone_texts;
use crate::thing::Thing;
use crate::thing::ThingView;

verus! {

/// The payload of an insert or a replace.
#[derive(Debug, PartialEq, Eq)]
#[allow(inconsistent_fields)]
pub enum Data {
    Thing { url: String, name: String, summary: Option<String>, category: String, tags: Vec<String> },
    Tag { id: String, name: Option<String>, summary: Option<String> },
}

/// The payload of a delete: the identifier of what goes.
#[derive(Debug, PartialEq, Eq)]
pub enum DataRef {
    Thing { id: String },
    Tag { id: String },
}

/// A pending operation.
#[derive(Debug, PartialEq, Eq)]
pub enum Change {
    Insert(Data),
    Replace(Data),
    Delete(DataRef),
}

/// A pending operation with the time, in seconds, at which it was recorded.
#[derive(Debug, PartialEq, Eq)]
pub struct Event {
    pub timestamp: usize,
    pub change: Change,
}

/// What tells one event of the changelog from another.
#[derive(Debug, PartialEq, Eq)]
pub struct EventId {
    pub timestamp: usize,
    pub operation: String,
    pub kind: String,
    pub id: String,
}

pub enum DataView {
    Thing(ThingView),
    Tag(TagView),
}

pub enum DataRefView {
    Thing(Seq<char>),
    Tag(Seq<char>),
}

pub enum ChangeView {
    Insert(DataView),
    Replace(DataView),
    Delete(DataRefView),
}

pub struct EventView {
    pub timestamp: usize,
    pub change: ChangeView,
}

impl View for Data {
    type V = DataView;

    open spec fn view(&self) -> DataView {
        match *self {
            Data::Thing { url, name, summary, category, tags } => DataView::Thing(
                ThingView {
                    url: url@,
                    name: name@,
                    summary: opt_view(summary),
                    category: category@,
                    tags: texts(tags@),
                },
            ),
            Data::Tag { id, name, summary } => DataView::Tag(
                TagView { id: id@, name: opt_view(name), summary: opt_view(summary) },
            ),
        }
    }
}

impl View for DataRef {
    type V = DataRefView;

    open spec fn view(&self) -> DataRefView {
        match *self {
            DataRef::Thing { id } => DataRefView::Thing(id@),
            DataRef::Tag { id } => DataRefView::Tag(id@),
        }
    }
}

impl View for Change {
    type V = ChangeView;

    open spec fn view(&self) -> ChangeView {
        match *self {
            Change::Insert(data) => ChangeView::Insert(data@),
            Change::Replace(data) => ChangeView::Replace(data@),
            Change::Delete(target) => ChangeView::Delete(target@),
        }
    }
}

impl View for Event {
    type V = EventView;

    open spec fn view(&self) -> EventView {
        EventView { timestamp: self.timestamp, change: self.change@ }
    }
}

/// The name of the operation of a change, in lower case.
pub open spec fn operation_of(change: ChangeView) -> Seq<char> {
    match change {
        ChangeView::Insert(_) => "insert"@,
        ChangeView::Replace(_) => "replace"@,
        ChangeView::Delete(_) => "delete"@,
    }
}

/// The name of the relation that a change is about, in lower case.
pub open spec fn kind_of(change: ChangeView) -> Seq<char> {
    match change {
        ChangeView::Insert(DataView::Thing(_)) | ChangeView::Replace(DataView::Thing(_)) => "thing"@,
        ChangeView::Insert(DataView::Tag(_)) | ChangeView::Replace(DataView::Tag(_)) => "tag"@,
        ChangeView::Delete(DataRefView::Thing(_)) => "thing"@,
        ChangeView::Delete(DataRefView::Tag(_)) => "tag"@,
    }
}

/// The identifier of the entity that a change is about.
pub open spec fn subject_of(change: ChangeView) -> Seq<char> {
    match change {
        ChangeView::Insert(DataView::Thing(t)) | ChangeView::Replace(DataView::Thing(t)) => t.url,
        ChangeView::Insert(DataView::Tag(t)) | ChangeView::Replace(DataView::Tag(t)) => t.id,
        ChangeView::Delete(DataRefView::Thing(id)) => id,
        ChangeView::Delete(DataRefView::Tag(id)) => id,
    }
}

/// Whether an event is the one that the four parts of an identifier name.
pub open spec fn names_event(
    event: EventView,
    timestamp: usize,
    operation: Seq<char>,
    kind: Seq<char>,
    id: Seq<char>,
) -> bool {
    &&& event.timestamp == timestamp
    &&& operation_of(event.change) == operation
    &&& kind_of(event.change) == kind
    &&& subject_of(event.change) == id
}

impl Clone for Data {
    fn clone(&self) -> (res: Self)
        ensures
            res@ == self@,
    {
        match self {
            Data::Thing { url, name, summary, category, tags } => Data::Thing {
                url: url.clone(),
                name: name.clone(),
                summary: clone_opt(summary),
                category: category.clone(),
                tags: clone_texts(tags),
            },
            Data::Tag { id, name, summary } => Data::Tag {
                id: id.clone(),
                name: clone_opt(name),
                summary: clone_opt(summary),
            },
        }
    }
}

impl Data {
    /// The payload that inserts or replaces a thing with its tags.
    pub fn thing(thing: Thing) -> (res: Data)
        ensures
            res@ == DataView::Thing(thing@),
    {
        Data::Thing {
            url: thing.url,
            name: thing.name,
            summary: thing.summary,
            category: thing.category,
            tags: thing.tags,
        }
    }

    /// The payload that inserts or replaces a tag.
    pub fn tag(tag: &tag::Record) -> (res: Data)
        ensures
            res@ == DataView::Tag(tag@),
    {
        Data::Tag {
            id: tag.id().clone(),
            name: match tag.name() {
                Some(text) => Some(text.clone()),
                None => None,
            },
            summary: match tag.summary() {
                Some(text) => Some(text.clone()),
                None => None,
            },
        }
    }

    /// The identifier of the entity: the URL of a thing, the id of a tag.
    pub fn id(&self) -> (res: &String)
        ensures
            res@ == subject_of(ChangeView::Insert(self@)),
    {
        match self {
            Data::Thing { url, .. } => url,
            Data::Tag { id, .. } => id,
        }
    }

    /// The name of the relation of the entity.
    pub fn kind(&self) -> (res: String)
        ensures
            res@ == kind_of(ChangeView::Insert(self@)),
    {
        match self {
            Data::Thing { .. } => "thing".to_owned(),
            Data::Tag { .. } => "tag".to_owned(),
        }
    }
}

impl Clone for DataRef {
    fn clone(&self) -> (res: Self)
        ensures
            res@ == self@,
    {
        match self {
            DataRef::Thing { id } => DataRef::Thing { id: id.clone() },
            DataRef::Tag { id } => DataRef::Tag { id: id.clone() },
        }
    }
}

impl Clone for Change {
    fn clone(&self) -> (res: Self)
        ensures
            res@ == self@,
    {
        match self {
            Change::Insert(data) => Change::Insert(data.clone()),
            Change::Replace(data) => Change::Replace(data.clone()),
            Change::Delete(target) => Change::Delete(target.clone()),
        }
    }
}

impl Change {
    /// The name of the operation, in lower case.
    pub fn operation(&self) -> (res: String)
        ensures
            res@ == operation_of(self@),
    {
        match self {
            Change::Insert(_) => "insert".to_owned(),
            Change::Replace(_) => "replace".to_owned(),
            Change::Delete(_) => "delete".to_owned(),
        }
    }

    /// The name of the relation that the change is about, in lower case.
    pub fn kind(&self) -> (res: String)
        ensures
            res@ == kind_of(self@),
    {
        match self {
            Change::Insert(data) => data.kind(),
            Change::Replace(data) => data.kind(),
            Change::Delete(DataRef::Thing { .. }) => "thing".to_owned(),
            Change::Delete(DataRef::Tag { .. }) => "tag".to_owned(),
        }
    }

    /// The identifier of the entity that the change is about.
    pub fn id(&self) -> (res: &String)
        ensures
            res@ == subject_of(self@),
    {
        match self {
            Change::Insert(data) => data.id(),
            Change::Replace(data) => data.id(),
            Change::Delete(DataRef::Thing { id }) => id,
            Change::Delete(DataRef::Tag { id }) => id,
        }
    }
}

impl Clone for Event {
    fn clone(&self) -> (res: Self)
        ensures
            res@ == self@,
    {
        Event { timestamp: self.timestamp, change: self.change.clone() }
    }
}

impl Event {
    /// The identifier of the event: its time, operation, relation and subject.
    pub fn id(&self) -> (res: EventId)
        ensures
            names_event(self@, res.timestamp, res.operation@, res.kind@, res.id@),
    {
        EventId {
            timestamp: self.timestamp,
            operation: self.change.operation(),
            kind: self.change.kind(),
            id: self.change.id().clone(),
        }
    }

    /// Whether the event is the one that `event_id` names.
    pub fn is(&self, event_id: &EventId) -> (res: bool)
        ensures
            res == names_event(
                self@,
                event_id.timestamp,
                event_id.operation@,
                event_id.kind@,
                event_id.id@,
            ),
    {
        self.timestamp == event_id.timestamp && self.change.operation() == event_id.operation
            && self.change.kind() == event_id.kind && *self.change.id() == event_id.id
    }
}

} // verus!
