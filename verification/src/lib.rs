//! A curated collection of tagged things kept as CSV files.
//!
//! The durable CSV files form the source ring; pending rows and the changelog
//! form the staging ring. Every read goes through the overlay of both rings
//! and every write lands in staging until it is committed.

pub mod change;
mod clock;
pub mod guarantees;
pub mod lenses;
pub mod markdown;
pub mod package;
pub mod page;
pub mod prompt;
pub mod relation;
pub mod render;
pub mod repository;
pub mod shell;
pub mod staging;
pub mod store;
pub mod table;
pub mod tag;
pub mod tag_set;
pub mod text;
pub mod thing;
pub mod thing_set;
pub mod thingtag;
pub mod thingtag_set;

use vstd::prelude::*;

verus! {

/// A report for the user.
#[derive(Debug)]
pub struct Report {
    message: String,
}

impl Report {
    pub closed spec fn text(&self) -> Seq<char> {
        self.message@
    }

    pub fn new(message: &str) -> (res: Self)
        ensures
            res.text() == message@,
    {
        Self { message: message.to_owned() }
    }

    /// The message of the report.
    pub fn to_string(&self) -> (res: String)
        ensures
            res@ == self.text(),
    {
        self.message.clone()
    }
}

/// A report event.
#[derive(Debug)]
pub struct Event(String);

impl Event {
    pub closed spec fn text(&self) -> Seq<char> {
        self.0@
    }

    pub fn new(message: &str) -> (res: Self)
        ensures
            res.text() == message@,
    {
        Self(message.to_owned())
    }
}

impl Clone for Event {
    fn clone(&self) -> (res: Self)
        ensures
            res.text() == self.text(),
    {
        Event(self.0.clone())
    }
}

/// Why an operation of the library failed.
#[derive(Debug)]
pub enum SomeError {
    Thing(thing::ThingError),
    Tag(tag::TagError),
    Thingtag(thingtag::ThingtagError),
    StoreError(store::StoreError),
    /// The CSV text could not be written.
    Csv(csv::Error),
    /// The text is no URL.
    Url(url::ParseError),
    /// The URL gave no page.
    BadUrl(String),
    /// The JSON text could not be written.
    Json(serde_json::Error),
}

} // verus!
