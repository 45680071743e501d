//! The operations on the configuration: adding, editing and removing
//! categories and versions, choosing the active version, and listing.
//! Each is stated as a function on the configuration's view, and the
//! executable operation is proved to follow it.

use vstd::prelude::*;

use crate::keys::{compare_keys, KeyOrder};
use crate::model::{Category, CategoryView, Config, ConfigView, ErrorView, VersionEntry, VersionEntryView, VmError, opt_view};
use crate::strmap::{lists_names, StrMap};
use crate::paths::{bin_subdir, joined_path};
use crate::text::{is_blank, str_is_blank};

verus! {

/// A `bin` setting as it is stored: an empty or all-white-space one means
/// "find it under the root" and is stored as `None`.
pub open spec fn normalized_bin(bin: Option<Seq<char>>) -> Option<Seq<char>> {
    match bin {
        Some(s) => if is_blank(s) {
            None
        } else {
            Some(s)
        },
        None => None,
    }
}

/// Adding the category `name`, described by `desc`.
pub open spec fn spec_add_category(c: ConfigView, name: Seq<char>, desc: Seq<char>) -> Result<ConfigView, ErrorView> {
    if c.contains_key(name) {
        Err(ErrorView::CategoryExists(name))
    } else {
        Ok(c.insert(name, CategoryView { description: desc, active: None, versions: Map::empty() }))
    }
}

/// Changing the description of the category `name`.
pub open spec fn spec_edit_category(c: ConfigView, name: Seq<char>, desc: Seq<char>) -> Result<ConfigView, ErrorView> {
    if !c.contains_key(name) {
        Err(ErrorView::CategoryNotFound(name))
    } else {
        Ok(c.insert(name, CategoryView { description: desc, ..c[name] }))
    }
}

/// Removing the category `name` with all its versions.
pub open spec fn spec_remove_category(c: ConfigView, name: Seq<char>) -> Result<ConfigView, ErrorView> {
    if !c.contains_key(name) {
        Err(ErrorView::CategoryNotFound(name))
    } else {
        Ok(c.remove(name))
    }
}

/// Adding the version `ver` to the category `cat`.
pub open spec fn spec_add_version(
    c: ConfigView,
    cat: Seq<char>,
    ver: Seq<char>,
    path: Seq<char>,
    bin: Option<Seq<char>>,
) -> Result<ConfigView, ErrorView> {
    if !c.contains_key(cat) {
        Err(ErrorView::CategoryNotFound(cat))
    } else if c[cat].versions.contains_key(ver) {
        Err(ErrorView::VersionExists(ver, cat))
    } else {
        Ok(c.insert(cat, CategoryView {
            versions: c[cat].versions.insert(ver, VersionEntryView { path, bin: normalized_bin(bin) }),
            ..c[cat]
        }))
    }
}

/// Changing the root and `bin` setting of the version `ver` of the category `cat`.
pub open spec fn spec_edit_version(
    c: ConfigView,
    cat: Seq<char>,
    ver: Seq<char>,
    path: Seq<char>,
    bin: Option<Seq<char>>,
) -> Result<ConfigView, ErrorView> {
    if !c.contains_key(cat) {
        Err(ErrorView::CategoryNotFound(cat))
    } else if !c[cat].versions.contains_key(ver) {
        Err(ErrorView::VersionNotFound(ver, cat))
    } else {
        Ok(c.insert(cat, CategoryView {
            versions: c[cat].versions.insert(ver, VersionEntryView { path, bin: normalized_bin(bin) }),
            ..c[cat]
        }))
    }
}

/// Removing the version `ver` of the category `cat`; where it was the active
/// one, the category is left with none.
pub open spec fn spec_remove_version(c: ConfigView, cat: Seq<char>, ver: Seq<char>) -> Result<ConfigView, ErrorView> {
    if !c.contains_key(cat) {
        Err(ErrorView::CategoryNotFound(cat))
    } else if !c[cat].versions.contains_key(ver) {
        Err(ErrorView::VersionNotFound(ver, cat))
    } else {
        Ok(c.insert(cat, CategoryView {
            versions: c[cat].versions.remove(ver),
            active: if c[cat].active == Some(ver) {
                None
            } else {
                c[cat].active
            },
            ..c[cat]
        }))
    }
}

/// Making `ver` the active version of the category `cat`.
pub open spec fn spec_use_version(c: ConfigView, cat: Seq<char>, ver: Seq<char>) -> Result<ConfigView, ErrorView> {
    if !c.contains_key(cat) {
        Err(ErrorView::CategoryNotFound(cat))
    } else if !c[cat].versions.contains_key(ver) {
        Err(ErrorView::VersionNotFound(ver, cat))
    } else {
        Ok(c.insert(cat, CategoryView { active: Some(ver), ..c[cat] }))
    }
}

/// The active version of the category `cat`.
pub open spec fn spec_current_version(c: ConfigView, cat: Seq<char>) -> Result<Option<Seq<char>>, ErrorView> {
    if !c.contains_key(cat) {
        Err(ErrorView::CategoryNotFound(cat))
    } else {
        Ok(c[cat].active)
    }
}

/// An operation that changes the configuration did what `expected` says:
/// on success the configuration is the one given, on failure it is
/// unchanged and the error is the one given.
pub open spec fn applied(
    r: Result<(), VmError>,
    before: ConfigView,
    after: ConfigView,
    expected: Result<ConfigView, ErrorView>,
) -> bool {
    match expected {
        Ok(m) => r is Ok && after == m,
        Err(e) => r matches Err(x) && x@ == e && after == before,
    }
}

/// Adds a category, with no version (an error if one of that name exists).
pub fn add_category(cfg: &mut Config, name: &str, desc: &str) -> (r: Result<(), VmError>)
    ensures
        applied(r, old(cfg)@, final(cfg)@, spec_add_category(old(cfg)@, name@, desc@)),
{
    if cfg.categories.contains_key(name) {
        return Err(VmError::CategoryExists(name.to_owned()));
    }
    let versions: StrMap<VersionEntry> = StrMap::new();
    cfg.categories.insert(
        name.to_owned(),
        Category { description: desc.to_owned(), active: None, versions },
    );
    Ok(())
}

/// Changes a category's description.
pub fn edit_category(cfg: &mut Config, name: &str, desc: &str) -> (r: Result<(), VmError>)
    ensures
        applied(r, old(cfg)@, final(cfg)@, spec_edit_category(old(cfg)@, name@, desc@)),
        r is Ok <==> old(cfg)@.contains_key(name@),
        r is Ok ==> final(cfg)@[name@].description == desc@ && final(cfg)@[name@].active == old(
            cfg,
        )@[name@].active && final(cfg)@[name@].versions == old(cfg)@[name@].versions,
{
    match cfg.categories.remove(name) {
        None => Err(VmError::CategoryNotFound(name.to_owned())),
        Some(mut cat) => {
            cat.description = desc.to_owned();
            cfg.categories.insert(name.to_owned(), cat);
            proof {
                assert(final(cfg)@ =~= old(cfg)@.insert(
                    name@,
                    CategoryView { description: desc@, ..old(cfg)@[name@] },
                ));
            }
            Ok(())
        },
    }
}

/// Stores an empty or all-white-space `bin` setting as `None` ("find it").
pub fn normalize_bin(bin: Option<String>) -> (r: Option<String>)
    ensures
        opt_view(r) == normalized_bin(opt_view(bin)),
{
    match bin {
        Some(s) => {
            if str_is_blank(s.as_str()) {
                None
            } else {
                Some(s)
            }
        },
        None => None,
    }
}

/// Changes a version's root and `bin` setting. Where the version is the
/// active one, the caller relinks it afterwards.
pub fn edit_version(cfg: &mut Config, category: &str, version: &str, path: &str, bin: Option<String>) -> (r: Result<(), VmError>)
    ensures
        applied(r, old(cfg)@, final(cfg)@, spec_edit_version(old(cfg)@, category@, version@, path@, opt_view(bin))),
        r is Ok <==> old(cfg)@.contains_key(category@) && old(cfg)@[category@].versions.contains_key(
            version@,
        ),
        r is Ok ==> final(cfg)@[category@].versions[version@].path == path@,
{
    let mut cat = match cfg.categories.remove(category) {
        None => return Err(VmError::CategoryNotFound(category.to_owned())),
        Some(c) => c,
    };
    let ghost old_cat = cat@;
    match cat.versions.remove(version) {
        None => {
            cfg.categories.insert(category.to_owned(), cat);
            proof {
                assert(cat.versions@ =~= old_cat.versions);
                assert(final(cfg)@ =~= old(cfg)@);
            }
            Err(VmError::VersionNotFound(version.to_owned(), category.to_owned()))
        },
        Some(mut entry) => {
            entry.path = path.to_owned();
            entry.bin = normalize_bin(bin);
            cat.versions.insert(version.to_owned(), entry);
            cfg.categories.insert(category.to_owned(), cat);
            proof {
                assert(cat.versions@ =~= old_cat.versions.insert(
                    version@,
                    VersionEntryView { path: path@, bin: normalized_bin(opt_view(bin)) },
                ));
                assert(final(cfg)@ =~= old(cfg)@.insert(
                    category@,
                    CategoryView { versions: cat.versions@, ..old_cat },
                ));
            }
            Ok(())
        },
    }
}

/// Removes a category and the record of its versions (the installations
/// themselves are left alone).
pub fn remove_category(cfg: &mut Config, name: &str) -> (r: Result<(), VmError>)
    ensures
        applied(r, old(cfg)@, final(cfg)@, spec_remove_category(old(cfg)@, name@)),
        r is Ok <==> old(cfg)@.contains_key(name@),
        r is Ok ==> !final(cfg)@.contains_key(name@) && final(cfg)@ == old(cfg)@.remove(name@),
{
    match cfg.categories.remove(name) {
        None => Err(VmError::CategoryNotFound(name.to_owned())),
        Some(_) => Ok(()),
    }
}

/// Adds a version to a category (an error if one of that name exists).
pub fn add_version(cfg: &mut Config, category: &str, version: &str, path: &str, bin: Option<String>) -> (r: Result<(), VmError>)
    ensures
        applied(r, old(cfg)@, final(cfg)@, spec_add_version(old(cfg)@, category@, version@, path@, opt_view(bin))),
{
    let mut cat = match cfg.categories.remove(category) {
        None => return Err(VmError::CategoryNotFound(category.to_owned())),
        Some(c) => c,
    };
    let ghost old_cat = cat@;
    if cat.versions.contains_key(version) {
        cfg.categories.insert(category.to_owned(), cat);
        proof {
            assert(final(cfg)@ =~= old(cfg)@);
        }
        return Err(VmError::VersionExists(version.to_owned(), category.to_owned()));
    }
    let entry = VersionEntry { path: path.to_owned(), bin: normalize_bin(bin) };
    cat.versions.insert(version.to_owned(), entry);
    cfg.categories.insert(category.to_owned(), cat);
    proof {
        assert(final(cfg)@ =~= old(cfg)@.insert(
            category@,
            CategoryView { versions: cat.versions@, ..old_cat },
        ));
    }
    Ok(())
}

/// Removes a version from a category; where it was the active one, the
/// category is left with no active version.
pub fn remove_version(cfg: &mut Config, category: &str, version: &str) -> (r: Result<(), VmError>)
    ensures
        applied(r, old(cfg)@, final(cfg)@, spec_remove_version(old(cfg)@, category@, version@)),
{
    let mut cat = match cfg.categories.remove(category) {
        None => return Err(VmError::CategoryNotFound(category.to_owned())),
        Some(c) => c,
    };
    let ghost old_cat = cat@;
    match cat.versions.remove(version) {
        None => {
            cfg.categories.insert(category.to_owned(), cat);
            proof {
                assert(cat.versions@ =~= old_cat.versions);
                assert(final(cfg)@ =~= old(cfg)@);
            }
            Err(VmError::VersionNotFound(version.to_owned(), category.to_owned()))
        },
        Some(_) => {
            let clear = match &cat.active {
                Some(a) => match compare_keys(a.as_str(), version) {
                    KeyOrder::Equal => true,
                    _ => false,
                },
                None => false,
            };
            if clear {
                cat.active = None;
            }
            cfg.categories.insert(category.to_owned(), cat);
            proof {
                assert(final(cfg)@ =~= old(cfg)@.insert(
                    category@,
                    CategoryView {
                        versions: old_cat.versions.remove(version@),
                        active: if old_cat.active == Some(version@) {
                            None
                        } else {
                            old_cat.active
                        },
                        ..old_cat
                    },
                ));
            }
            Ok(())
        },
    }
}

/// Makes a version the active one of its category. This changes the
/// configuration only; the link is rebuilt by `link_active_bin`.
pub fn use_version(cfg: &mut Config, category: &str, version: &str) -> (r: Result<(), VmError>)
    ensures
        applied(r, old(cfg)@, final(cfg)@, spec_use_version(old(cfg)@, category@, version@)),
{
    let mut cat = match cfg.categories.remove(category) {
        None => return Err(VmError::CategoryNotFound(category.to_owned())),
        Some(c) => c,
    };
    let ghost old_cat = cat@;
    if !cat.versions.contains_key(version) {
        cfg.categories.insert(category.to_owned(), cat);
        proof {
            assert(final(cfg)@ =~= old(cfg)@);
        }
        return Err(VmError::VersionNotFound(version.to_owned(), category.to_owned()));
    }
    cat.active = Some(version.to_owned());
    cfg.categories.insert(category.to_owned(), cat);
    proof {
        assert(final(cfg)@ =~= old(cfg)@.insert(
            category@,
            CategoryView { active: Some(version@), ..old_cat },
        ));
    }
    Ok(())
}

/// The active version of a category.
pub fn current_version(cfg: &Config, category: &str) -> (r: Result<Option<String>, VmError>)
    ensures
        match spec_current_version(cfg@, category@) {
            Ok(a) => r matches Ok(x) && opt_view(x) == a,
            Err(e) => r matches Err(x) && x@ == e,
        },
{
    match cfg.categories.get(category) {
        None => Err(VmError::CategoryNotFound(category.to_owned())),
        Some(cat) => match &cat.active {
            Some(a) => Ok(Some(a.clone())),
            None => Ok(None),
        },
    }
}

/// The names of all categories, in increasing order.
pub fn list_categories(cfg: &Config) -> (r: Vec<&str>)
    ensures
        lists_names(r@.map_values(|s: &str| s@), cfg@.dom()),
{
    cfg.categories.keys()
}

/// The names of a category's versions, in increasing order.
pub fn list_versions(cfg: &Config, category: &str) -> (r: Result<Vec<String>, VmError>)
    ensures
        r is Ok <==> cfg@.contains_key(category@),
        r matches Ok(names) ==> lists_names(
            names@.map_values(|s: String| s@),
            cfg@[category@].versions.dom(),
        ),
        r matches Err(e) ==> e@ == ErrorView::CategoryNotFound(category@),
{
    match cfg.categories.get(category) {
        None => Err(VmError::CategoryNotFound(category.to_owned())),
        Some(cat) => Ok(cat.versions.keys_owned()),
    }
}

/// The directory that holds a version's executables: its `bin` setting
/// where that is not blank; else `bin` under its root, where that is a
/// directory; else the root itself.
pub open spec fn spec_bin_dir_candidate(e: VersionEntryView, root_bin_is_dir: bool) -> Seq<char> {
    if e.bin is Some && !is_blank(e.bin->0) {
        e.bin->0
    } else if root_bin_is_dir {
        joined_path(e.path, "bin"@)
    } else {
        e.path
    }
}

/// The directory that should hold a version's executables, given whether
/// `bin` under its root is a directory.
pub fn bin_dir_candidate(entry: &VersionEntry, root_bin_is_dir: bool) -> (r: String)
    ensures
        r@ == spec_bin_dir_candidate(entry@, root_bin_is_dir),
        entry@.bin is Some && !is_blank(entry@.bin->0) ==> r@ == entry@.bin->0,
{
    match &entry.bin {
        Some(b) => {
            if !str_is_blank(b.as_str()) {
                return b.clone();
            }
        },
        None => {},
    }
    if root_bin_is_dir {
        bin_subdir(entry.path.as_str())
    } else {
        entry.path.clone()
    }
}

/// The directory that holds a version's executables, given whether `bin`
/// under its root is a directory and whether the directory so chosen
/// exists; an error names it where it does not.
pub fn resolve_bin_dir(entry: &VersionEntry, root_bin_is_dir: bool, candidate_exists: bool) -> (r: Result<String, VmError>)
    ensures
        r is Ok <==> candidate_exists,
        r matches Ok(p) ==> p@ == spec_bin_dir_candidate(entry@, root_bin_is_dir),
        r matches Err(e) ==> e@ == ErrorView::BinDirMissing(spec_bin_dir_candidate(entry@, root_bin_is_dir)),
        entry@.bin is Some && !is_blank(entry@.bin->0) ==> (r matches Ok(p) ==> p@ == entry@.bin->0),
{
    let candidate = bin_dir_candidate(entry, root_bin_is_dir);
    if !candidate_exists {
        return Err(VmError::BinDirMissing(candidate));
    }
    Ok(candidate)
}

} // verus!
