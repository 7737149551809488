//! The small values of a package descriptor: profiles, names, licences and
//! contributors.

use vstd::prelude::*;
use vstd::string::StrSliceExecFns;
use vstd::string::StringExecFns;
use crate::table::is_text;

verus! {

/// Why a package descriptor is refused.
#[derive(Debug)]
pub enum PackageError {
    /// The name is invalid: a name holds only lower case letters, digits,
    /// `.`, `_`, `-` and `/`.
    MalformedName(String),
    /// The profile is unknown.
    UnknownProfile(String),
    /// The field is required.
    RequiredField(String),
}

/// The profile of a package or of a resource.
#[derive(Debug)]
pub struct Profile(String);

impl View for Profile {
    type V = Seq<char>;

    closed spec fn view(&self) -> Seq<char> {
        self.0@
    }
}

impl Clone for Profile {
    fn clone(&self) -> (res: Self)
        ensures
            res@ == self@,
    {
        Profile(self.0.clone())
    }
}

/// Whether a text is one of the two known profiles.
pub open spec fn known_profile(s: Seq<char>) -> bool {
    s == "tabular-data-package"@ || s == "tabular-data-resource"@
}

impl Profile {
    /// A profile from an unchecked text.
    pub fn new(value: &str) -> (res: Self)
        ensures
            res@ == value@,
    {
        Self(value.to_owned())
    }

    /// A profile from a text, which must be one of the two known profiles.
    pub fn from_str(s: &str) -> (res: Result<Self, PackageError>)
        ensures
            known_profile(s@) ==> (res matches Ok(profile) && profile@ == s@),
            !known_profile(s@) ==> (res matches Err(PackageError::UnknownProfile(text)) && text@
                == s@),
    {
        let text = s.to_owned();
        if is_text(&text, "tabular-data-package") || is_text(&text, "tabular-data-resource") {
            Ok(Self(text))
        } else {
            Err(PackageError::UnknownProfile(text))
        }
    }

    pub fn to_string(&self) -> (res: String)
        ensures
            res@ == self@,
    {
        self.0.clone()
    }
}

/// Whether a character may stand in a name.
pub open spec fn name_character(c: char) -> bool {
    c == '.' || c == '_' || c == '-' || c == '/' || ('a' <= c && c <= 'z') || ('0' <= c && c
        <= '9')
}

/// Whether every character of a text may stand in a name.
pub open spec fn valid_name(s: Seq<char>) -> bool {
    forall|i: int| 0 <= i < s.len() ==> name_character(#[trigger] s[i])
}

/// Checks for the characters of a name.
pub fn is_name_character(c: char) -> (res: bool)
    ensures
        res == name_character(c),
{
    c == '.' || c == '_' || c == '-' || c == '/' || ('a' <= c && c <= 'z') || ('0' <= c && c
        <= '9')
}

/// Checks whether a text is a valid name.
pub fn assert_name(name: &str) -> (res: Result<(), PackageError>)
    ensures
        valid_name(name@) ==> res.is_ok(),
        !valid_name(name@) ==> (res matches Err(PackageError::MalformedName(text)) && text@
            == name@),
{
    let n = name.unicode_len();
    let mut i: usize = 0;
    while i < n
        invariant
            i <= n,
            n == name@.len(),
            forall|k: int| 0 <= k < i ==> name_character(#[trigger] name@[k]),
        decreases n - i,
    {
        if !is_name_character(name.get_char(i)) {
            return Err(PackageError::MalformedName(name.to_owned()));
        }
        i += 1;
    }
    Ok(())
}

/// An identifier: lower case letters, digits, `.`, `_`, `-` and `/`.
#[derive(Debug, PartialEq, Eq)]
pub struct Name(String);

impl View for Name {
    type V = Seq<char>;

    closed spec fn view(&self) -> Seq<char> {
        self.0@
    }
}

impl Clone for Name {
    fn clone(&self) -> (res: Self)
        ensures
            res@ == self@,
    {
        Name(self.0.clone())
    }
}

impl Name {
    /// A name from an unchecked text.
    pub fn new(value: &str) -> (res: Self)
        ensures
            res@ == value@,
    {
        Self(value.to_owned())
    }

    /// A name from a text, every character of which must be one of a name.
    pub fn from_str(s: &str) -> (res: Result<Self, PackageError>)
        ensures
            valid_name(s@) ==> (res matches Ok(name) && name@ == s@),
            !valid_name(s@) ==> (res matches Err(PackageError::MalformedName(text)) && text@
                == s@),
    {
        match assert_name(s) {
            Ok(()) => Ok(Self(s.to_owned())),
            Err(e) => Err(e),
        }
    }

    /// Whether the name is this text.
    pub fn is(&self, text: &str) -> (res: bool)
        ensures
            res == (self@ == text@),
    {
        is_text(&self.0, text)
    }

    pub fn to_string(&self) -> (res: String)
        ensures
            res@ == self@,
    {
        self.0.clone()
    }
}

/// The names of a list.
pub open spec fn names(list: Seq<Name>) -> Seq<Seq<char>> {
    Seq::new(list.len(), |i: int| list[i]@)
}

/// A licence under which a package is provided.
#[derive(Debug, PartialEq, Eq)]
pub struct Licence {
    pub name: String,
    pub path: String,
    pub title: String,
}

impl Clone for Licence {
    fn clone(&self) -> (res: Self)
        ensures
            res == *self,
    {
        Licence { name: self.name.clone(), path: self.path.clone(), title: self.title.clone() }
    }
}

impl Licence {
    /// The text shown for a licence: its name.
    pub fn to_string(&self) -> (res: String)
        ensures
            res@ == self.name@,
    {
        self.name.clone()
    }

    /// The licence as a Markdown link: its name in square brackets, then its
    /// path in round ones.
    pub fn to_markdown(&self) -> (res: String)
        ensures
            res@ == "["@ + self.name@ + "]("@ + self.path@ + ")"@,
    {
        let mut out = "[".to_owned();
        out.append(self.name.as_str());
        out.append("](");
        out.append(self.path.as_str());
        out.append(")");
        out
    }
}

/// The part that a contributor plays.
#[derive(Debug, Clone, Copy, PartialEq, Eq)]
pub enum Role {
    Author,
    Contributor,
    Maintainer,
    Publisher,
    Wrangler,
}

impl Default for Role {
    fn default() -> (res: Self)
        ensures
            res == Role::Contributor,
    {
        Role::Contributor
    }
}

/// An individual or organisation involved in the package.
#[derive(Debug)]
pub struct Contributor {
    /// Name of the contributor.
    pub title: String,
    /// Web location of the contributor.
    pub path: Option<String>,
    pub email: Option<String>,
    /// The organisation the contributor belongs to.
    pub organization: Option<String>,
    /// The role the contributor is playing.
    pub role: Role,
}

} // verus!
