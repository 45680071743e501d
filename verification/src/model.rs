//! The configuration: categories, their installed versions, and which
//! version of each is active; and the errors of the operations on it.

use vstd::prelude::*;

use crate::strmap::StrMap;

verus! {

/// An optional string, by its characters.
pub open spec fn opt_view(o: Option<String>) -> Option<Seq<char>> {
    match o {
        Some(s) => Some(s@),
        None => None,
    }
}

/// One installed version.
#[derive(Debug)]
pub struct VersionEntry {
    /// The installation's root directory, as the user gave it.
    pub path: String,
    /// The directory that holds the executables, where the user named one;
    /// `None` means: find it under `path`.
    pub bin: Option<String>,
}

/// A version entry, by the characters of its fields.
pub struct VersionEntryView {
    pub path: Seq<char>,
    pub bin: Option<Seq<char>>,
}

impl View for VersionEntry {
    type V = VersionEntryView;

    open spec fn view(&self) -> VersionEntryView {
        VersionEntryView { path: self.path@, bin: opt_view(self.bin) }
    }
}

/// A category: the installed versions of one kind of runtime (all JDKs, say).
#[derive(Debug)]
pub struct Category {
    /// A description for people.
    pub description: String,
    /// The active version, where one is set.
    pub active: Option<String>,
    /// The versions, by version name.
    pub versions: StrMap<VersionEntry>,
}

/// A category, by the characters of its fields.
pub struct CategoryView {
    pub description: Seq<char>,
    pub active: Option<Seq<char>>,
    pub versions: Map<Seq<char>, VersionEntryView>,
}

impl View for Category {
    type V = CategoryView;

    open spec fn view(&self) -> CategoryView {
        CategoryView {
            description: self.description@,
            active: opt_view(self.active),
            versions: self.versions@,
        }
    }
}

/// The whole configuration: the categories, by name.
#[derive(Debug)]
pub struct Config {
    pub categories: StrMap<Category>,
}

/// The configuration as a map from category names to categories.
pub type ConfigView = Map<Seq<char>, CategoryView>;

impl View for Config {
    type V = ConfigView;

    open spec fn view(&self) -> ConfigView {
        self.categories@
    }
}

/// A copy of an optional string.
fn clone_opt(o: &Option<String>) -> (r: Option<String>)
    ensures
        opt_view(r) == opt_view(*o),
{
    match o {
        Some(s) => Some(s.clone()),
        None => None,
    }
}

impl Clone for VersionEntry {
    fn clone(&self) -> (r: Self)
        ensures
            r@ == self@,
    {
        VersionEntry { path: self.path.clone(), bin: clone_opt(&self.bin) }
    }
}

impl Clone for Category {
    fn clone(&self) -> (r: Self)
        ensures
            r@ == self@,
    {
        Category {
            description: self.description.clone(),
            active: clone_opt(&self.active),
            versions: self.versions.clone(),
        }
    }
}

impl Clone for Config {
    fn clone(&self) -> (r: Self)
        ensures
            r@ == self@,
    {
        Config { categories: self.categories.clone() }
    }
}

impl Default for Config {
    /// The empty configuration, with no category.
    fn default() -> (r: Config)
        ensures
            r@ == Map::<Seq<char>, CategoryView>::empty(),
    {
        Config { categories: StrMap::new() }
    }
}

/// What can go wrong in an operation on the configuration.
#[derive(Debug)]
pub enum VmError {
    /// No category has this name.
    CategoryNotFound(String),
    /// No version has this name (first) in the category (second).
    VersionNotFound(String, String),
    /// A category of this name exists already.
    CategoryExists(String),
    /// A version of this name (first) exists already in the category (second).
    VersionExists(String, String),
    /// The category has no active version.
    NoActiveVersion(String),
    /// The directory that should hold the executables does not exist.
    BinDirMissing(String),
}

/// An error, by the characters of its fields.
pub enum ErrorView {
    CategoryNotFound(Seq<char>),
    VersionNotFound(Seq<char>, Seq<char>),
    CategoryExists(Seq<char>),
    VersionExists(Seq<char>, Seq<char>),
    NoActiveVersion(Seq<char>),
    BinDirMissing(Seq<char>),
}

impl View for VmError {
    type V = ErrorView;

    open spec fn view(&self) -> ErrorView {
        match self {
            VmError::CategoryNotFound(c) => ErrorView::CategoryNotFound(c@),
            VmError::VersionNotFound(v, c) => ErrorView::VersionNotFound(v@, c@),
            VmError::CategoryExists(c) => ErrorView::CategoryExists(c@),
            VmError::VersionExists(v, c) => ErrorView::VersionExists(v@, c@),
            VmError::NoActiveVersion(c) => ErrorView::NoActiveVersion(c@),
            VmError::BinDirMissing(p) => ErrorView::BinDirMissing(p@),
        }
    }
}

} // verus!
