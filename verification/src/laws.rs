//! What holds of the configuration operations taken together.

use vstd::prelude::*;

use crate::link::spec_active_target;
use crate::model::{ConfigView, ErrorView, VersionEntryView};
use crate::paths::joined_path;
use crate::switch::{
    normalized_bin, spec_add_category, spec_add_version, spec_bin_dir_candidate, spec_current_version,
    spec_edit_category, spec_edit_version, spec_remove_category, spec_remove_version, spec_use_version,
};
use crate::text::{is_blank, is_white_space};

verus! {

/// Every category's active version, where it has one, is one of its versions.
pub open spec fn active_versions_exist(c: ConfigView) -> bool {
    forall|cat: Seq<char>|
        #[trigger] c.contains_key(cat) && c[cat].active is Some ==> c[cat].versions.contains_key(
            c[cat].active->0,
        )
}

/// An operation that changes the configuration, with its arguments.
pub enum ConfigOp {
    AddCategory(Seq<char>, Seq<char>),
    EditCategory(Seq<char>, Seq<char>),
    RemoveCategory(Seq<char>),
    AddVersion(Seq<char>, Seq<char>, Seq<char>, Option<Seq<char>>),
    EditVersion(Seq<char>, Seq<char>, Seq<char>, Option<Seq<char>>),
    RemoveVersion(Seq<char>, Seq<char>),
    UseVersion(Seq<char>, Seq<char>),
}

/// What an operation makes of the configuration.
pub open spec fn spec_apply(c: ConfigView, op: ConfigOp) -> Result<ConfigView, ErrorView> {
    match op {
        ConfigOp::AddCategory(n, d) => spec_add_category(c, n, d),
        ConfigOp::EditCategory(n, d) => spec_edit_category(c, n, d),
        ConfigOp::RemoveCategory(n) => spec_remove_category(c, n),
        ConfigOp::AddVersion(cat, v, p, b) => spec_add_version(c, cat, v, p, b),
        ConfigOp::EditVersion(cat, v, p, b) => spec_edit_version(c, cat, v, p, b),
        ConfigOp::RemoveVersion(cat, v) => spec_remove_version(c, cat, v),
        ConfigOp::UseVersion(cat, v) => spec_use_version(c, cat, v),
    }
}

/// No operation leaves a category with an active version that is not one
/// of its versions: a version can only be made active where it exists, and
/// removing the active version clears it.
pub proof fn lemma_operations_keep_active_versions(c: ConfigView, op: ConfigOp)
    requires
        active_versions_exist(c),
    ensures
        spec_apply(c, op) matches Ok(n) ==> active_versions_exist(n),
{
    if spec_apply(c, op) is Ok {
        let n = spec_apply(c, op)->Ok_0;
        assert forall|cat: Seq<char>|
            #[trigger] n.contains_key(cat) && n[cat].active is Some implies n[cat].versions.contains_key(
            n[cat].active->0,
        ) by {
            if c.contains_key(cat) {
                assert(c.contains_key(cat) && c[cat].active is Some ==> c[cat].versions.contains_key(
                    c[cat].active->0,
                ));
            }
        }
    }
}

/// Where every active version exists, rebuilding a category's link never
/// fails for want of the active version's entry.
pub proof fn lemma_active_target_found(c: ConfigView, cat: Seq<char>)
    requires
        active_versions_exist(c),
    ensures
        !(spec_active_target(c, cat) matches Err(ErrorView::VersionNotFound(_, _))),
{
    if c.contains_key(cat) && c[cat].active is Some {
        assert(c.contains_key(cat) && c[cat].active is Some ==> c[cat].versions.contains_key(
            c[cat].active->0,
        ));
    }
}

/// A category that was added is there, and adding it again fails.
pub proof fn lemma_add_category_twice(c: ConfigView, name: Seq<char>, d1: Seq<char>, d2: Seq<char>)
    requires
        !c.contains_key(name),
    ensures
        spec_add_category(c, name, d1) is Ok,
        spec_add_category(c, name, d1)->Ok_0.contains_key(name),
        spec_add_category(spec_add_category(c, name, d1)->Ok_0, name, d2) == Err::<ConfigView, ErrorView>(
            ErrorView::CategoryExists(name),
        ),
{
}

/// Removing a category that was just added gives the configuration back.
pub proof fn lemma_add_then_remove_category(c: ConfigView, name: Seq<char>, desc: Seq<char>)
    requires
        !c.contains_key(name),
    ensures
        spec_remove_category(spec_add_category(c, name, desc)->Ok_0, name) == Ok::<ConfigView, ErrorView>(c),
{
    assert(c.insert(name, spec_add_category(c, name, desc)->Ok_0[name]).remove(name) =~= c);
}

/// Removing a version that was just added gives the configuration back,
/// where the category's active version is not one of that name.
pub proof fn lemma_add_then_remove_version(
    c: ConfigView,
    cat: Seq<char>,
    ver: Seq<char>,
    path: Seq<char>,
    bin: Option<Seq<char>>,
)
    requires
        c.contains_key(cat),
        !c[cat].versions.contains_key(ver),
        c[cat].active != Some(ver),
    ensures
        spec_add_version(c, cat, ver, path, bin) is Ok,
        spec_remove_version(spec_add_version(c, cat, ver, path, bin)->Ok_0, cat, ver) == Ok::<
            ConfigView,
            ErrorView,
        >(c),
{
    let added = spec_add_version(c, cat, ver, path, bin)->Ok_0;
    let removed = spec_remove_version(added, cat, ver)->Ok_0;
    assert(added[cat].versions.remove(ver) =~= c[cat].versions);
    assert(removed[cat] == c[cat]);
    assert(removed =~= c);
}

/// After a version is made active, it is the category's current version.
pub proof fn lemma_use_then_current(c: ConfigView, cat: Seq<char>, ver: Seq<char>)
    requires
        spec_use_version(c, cat, ver) is Ok,
    ensures
        spec_current_version(spec_use_version(c, cat, ver)->Ok_0, cat) == Ok::<
            Option<Seq<char>>,
            ErrorView,
        >(Some(ver)),
{
}

/// After a version is made active, the category's link is rebuilt to point
/// at that version's root.
pub proof fn lemma_use_then_link_target(c: ConfigView, cat: Seq<char>, ver: Seq<char>)
    requires
        spec_use_version(c, cat, ver) is Ok,
    ensures
        spec_active_target(spec_use_version(c, cat, ver)->Ok_0, cat) == Ok::<Seq<char>, ErrorView>(
            c[cat].versions[ver].path,
        ),
{
}

/// After the active version is removed, the category has no current version.
pub proof fn lemma_remove_active_clears_current(c: ConfigView, cat: Seq<char>, ver: Seq<char>)
    requires
        spec_remove_version(c, cat, ver) is Ok,
        c[cat].active == Some(ver),
    ensures
        spec_current_version(spec_remove_version(c, cat, ver)->Ok_0, cat) == Ok::<
            Option<Seq<char>>,
            ErrorView,
        >(None),
{
}

/// Editing a category or a version, and choosing the active version, never
/// adds or removes a category or a version.
pub proof fn lemma_edits_keep_names(c: ConfigView, op: ConfigOp, cat: Seq<char>)
    requires
        op is EditCategory || op is EditVersion || op is UseVersion,
        spec_apply(c, op) is Ok,
    ensures
        spec_apply(c, op)->Ok_0.dom() == c.dom(),
        c.contains_key(cat) ==> spec_apply(c, op)->Ok_0[cat].versions.dom() == c[cat].versions.dom(),
{
    let n = spec_apply(c, op)->Ok_0;
    assert(n.dom() =~= c.dom());
    if c.contains_key(cat) {
        assert(n[cat].versions.dom() =~= c[cat].versions.dom());
    }
}

/// Normalizing a `bin` setting twice changes nothing more than once.
pub proof fn lemma_normalize_bin_idempotent(bin: Option<Seq<char>>)
    ensures
        normalized_bin(normalized_bin(bin)) == normalized_bin(bin),
{
}

/// A blank `bin` setting resolves as no setting does: to the root's `bin`
/// or the root.
pub proof fn lemma_blank_bin_resolves_like_none(path: Seq<char>, bin: Seq<char>, root_bin_is_dir: bool)
    requires
        is_blank(bin),
    ensures
        spec_bin_dir_candidate(VersionEntryView { path, bin: Some(bin) }, root_bin_is_dir)
            == spec_bin_dir_candidate(VersionEntryView { path, bin: None }, root_bin_is_dir),
{
}

/// `m` and `c` agree on every key but `k`.
pub open spec fn agree_except<V>(m: Map<Seq<char>, V>, c: Map<Seq<char>, V>, k: Seq<char>) -> bool {
    forall|j: Seq<char>|
        j != k ==> (#[trigger] m.contains_key(j) == c.contains_key(j)) && (c.contains_key(j) ==> m[j]
            == c[j])
}

/// How a `bin` setting is stored: kept where it names something, else `None`.
pub open spec fn stored_bin(bin: Option<Seq<char>>, stored: Option<Seq<char>>) -> bool {
    if bin is Some && !is_blank(bin->0) {
        stored == bin
    } else {
        stored is None
    }
}

/// Adding a category succeeds exactly when no category has its name; the
/// new category has the description given, no active version and no
/// version, and every other category is as it was.
pub proof fn lemma_add_category_result(c: ConfigView, name: Seq<char>, desc: Seq<char>)
    ensures
        spec_add_category(c, name, desc) is Ok <==> !c.contains_key(name),
        spec_add_category(c, name, desc) matches Err(e) ==> e == ErrorView::CategoryExists(name),
        spec_add_category(c, name, desc) matches Ok(m) ==> {
            &&& m.contains_key(name)
            &&& m[name].description == desc
            &&& m[name].active is None
            &&& m[name].versions.dom().is_empty()
            &&& agree_except(m, c, name)
        },
{
}

/// Editing a category succeeds exactly when it exists; its description
/// becomes the one given, while its active version and its versions, and
/// every other category, stay as they were.
pub proof fn lemma_edit_category_result(c: ConfigView, name: Seq<char>, desc: Seq<char>)
    ensures
        spec_edit_category(c, name, desc) is Ok <==> c.contains_key(name),
        spec_edit_category(c, name, desc) matches Err(e) ==> e == ErrorView::CategoryNotFound(name),
        spec_edit_category(c, name, desc) matches Ok(m) ==> {
            &&& m.contains_key(name)
            &&& m[name].description == desc
            &&& m[name].active == c[name].active
            &&& m[name].versions == c[name].versions
            &&& agree_except(m, c, name)
        },
{
}

/// Removing a category succeeds exactly when it exists; afterwards it is
/// gone, whatever versions it had, and every other category is as it was.
pub proof fn lemma_remove_category_result(c: ConfigView, name: Seq<char>)
    ensures
        spec_remove_category(c, name) is Ok <==> c.contains_key(name),
        spec_remove_category(c, name) matches Err(e) ==> e == ErrorView::CategoryNotFound(name),
        spec_remove_category(c, name) matches Ok(m) ==> !m.contains_key(name) && agree_except(m, c, name),
{
}

/// Adding a version succeeds exactly when the category exists and has no
/// version of that name; the new entry has the root given and the `bin`
/// setting as stored, and nothing else changes.
pub proof fn lemma_add_version_result(
    c: ConfigView,
    cat: Seq<char>,
    ver: Seq<char>,
    path: Seq<char>,
    bin: Option<Seq<char>>,
)
    ensures
        spec_add_version(c, cat, ver, path, bin) is Ok <==> c.contains_key(cat)
            && !c[cat].versions.contains_key(ver),
        spec_add_version(c, cat, ver, path, bin) matches Err(e) ==> if !c.contains_key(cat) {
            e == ErrorView::CategoryNotFound(cat)
        } else {
            e == ErrorView::VersionExists(ver, cat)
        },
        spec_add_version(c, cat, ver, path, bin) matches Ok(m) ==> {
            &&& m.contains_key(cat)
            &&& m[cat].description == c[cat].description
            &&& m[cat].active == c[cat].active
            &&& m[cat].versions.contains_key(ver)
            &&& m[cat].versions[ver].path == path
            &&& stored_bin(bin, m[cat].versions[ver].bin)
            &&& agree_except(m[cat].versions, c[cat].versions, ver)
            &&& agree_except(m, c, cat)
        },
{
}

/// Editing a version succeeds exactly when the category and the version
/// exist; the entry's root becomes the one given and its `bin` setting the
/// one given as stored, whichever of the two is given, and nothing else changes.
pub proof fn lemma_edit_version_result(
    c: ConfigView,
    cat: Seq<char>,
    ver: Seq<char>,
    path: Seq<char>,
    bin: Option<Seq<char>>,
)
    ensures
        spec_edit_version(c, cat, ver, path, bin) is Ok <==> c.contains_key(cat)
            && c[cat].versions.contains_key(ver),
        spec_edit_version(c, cat, ver, path, bin) matches Err(e) ==> if !c.contains_key(cat) {
            e == ErrorView::CategoryNotFound(cat)
        } else {
            e == ErrorView::VersionNotFound(ver, cat)
        },
        spec_edit_version(c, cat, ver, path, bin) matches Ok(m) ==> {
            &&& m.contains_key(cat)
            &&& m[cat].description == c[cat].description
            &&& m[cat].active == c[cat].active
            &&& m[cat].versions.contains_key(ver)
            &&& m[cat].versions[ver].path == path
            &&& stored_bin(bin, m[cat].versions[ver].bin)
            &&& agree_except(m[cat].versions, c[cat].versions, ver)
            &&& agree_except(m, c, cat)
        },
{
}

/// Removing a version succeeds exactly when the category and the version
/// exist; afterwards the version is gone, the category has no active
/// version where it was the active one and keeps its active version
/// otherwise, and nothing else changes.
pub proof fn lemma_remove_version_result(c: ConfigView, cat: Seq<char>, ver: Seq<char>)
    ensures
        spec_remove_version(c, cat, ver) is Ok <==> c.contains_key(cat) && c[cat].versions.contains_key(
            ver,
        ),
        spec_remove_version(c, cat, ver) matches Err(e) ==> if !c.contains_key(cat) {
            e == ErrorView::CategoryNotFound(cat)
        } else {
            e == ErrorView::VersionNotFound(ver, cat)
        },
        spec_remove_version(c, cat, ver) matches Ok(m) ==> {
            &&& m.contains_key(cat)
            &&& m[cat].description == c[cat].description
            &&& !m[cat].versions.contains_key(ver)
            &&& (c[cat].active == Some(ver) ==> m[cat].active is None)
            &&& (c[cat].active != Some(ver) ==> m[cat].active == c[cat].active)
            &&& agree_except(m[cat].versions, c[cat].versions, ver)
            &&& agree_except(m, c, cat)
        },
{
}

/// Choosing the active version succeeds exactly when the category and the
/// version exist; afterwards it is the active one, and nothing else changes.
pub proof fn lemma_use_version_result(c: ConfigView, cat: Seq<char>, ver: Seq<char>)
    ensures
        spec_use_version(c, cat, ver) is Ok <==> c.contains_key(cat) && c[cat].versions.contains_key(ver),
        spec_use_version(c, cat, ver) matches Err(e) ==> if !c.contains_key(cat) {
            e == ErrorView::CategoryNotFound(cat)
        } else {
            e == ErrorView::VersionNotFound(ver, cat)
        },
        spec_use_version(c, cat, ver) matches Ok(m) ==> {
            &&& m.contains_key(cat)
            &&& m[cat].active == Some(ver)
            &&& m[cat].description == c[cat].description
            &&& m[cat].versions == c[cat].versions
            &&& agree_except(m, c, cat)
        },
{
}

/// The current version is the category's active one, and asking fails
/// exactly when the category does not exist.
pub proof fn lemma_current_version_result(c: ConfigView, cat: Seq<char>)
    ensures
        spec_current_version(c, cat) is Ok <==> c.contains_key(cat),
        spec_current_version(c, cat) matches Err(e) ==> e == ErrorView::CategoryNotFound(cat),
        spec_current_version(c, cat) matches Ok(a) ==> a == c[cat].active,
{
}

/// A `bin` setting that names something is the directory, whatever lies
/// under the root; without one, it is `bin` under the root where that is a
/// directory, and the root otherwise.
pub proof fn lemma_bin_dir_candidate_result(e: VersionEntryView, root_bin_is_dir: bool)
    ensures
        e.bin is Some && !is_blank(e.bin->0) ==> spec_bin_dir_candidate(e, root_bin_is_dir)
            == e.bin->0,
        (e.bin is None || is_blank(e.bin->0)) && root_bin_is_dir ==> spec_bin_dir_candidate(
            e,
            root_bin_is_dir,
        ) == joined_path(e.path, "bin"@),
        (e.bin is None || is_blank(e.bin->0)) && !root_bin_is_dir ==> spec_bin_dir_candidate(
            e,
            root_bin_is_dir,
        ) == e.path,
{
}

/// A string is blank exactly when every character of it is white space.
pub proof fn lemma_blank_means_all_white_space(s: Seq<char>)
    ensures
        is_blank(s) <==> forall|i: int| 0 <= i < s.len() ==> is_white_space(#[trigger] s[i]),
{
    if is_blank(s) {
        crate::text::lemma_strip_empty_all_in_class(s, crate::text::CharClass::Space);
    }
    if forall|i: int| 0 <= i < s.len() ==> is_white_space(#[trigger] s[i]) {
        assert forall|i: int| 0 <= i < s.len() implies crate::text::in_class(
            #[trigger] s[i],
            crate::text::CharClass::Space,
        ) by {
            assert(is_white_space(s[i]));
        }
        crate::text::lemma_all_in_class_strip_empty(s, crate::text::CharClass::Space);
    }
}

/// A `bin` setting is stored as given where it names something, and as
/// `None` where it is absent, empty or all white space.
pub proof fn lemma_normalize_bin_result(bin: Option<Seq<char>>)
    ensures
        stored_bin(bin, normalized_bin(bin)),
        bin is Some && (forall|i: int| 0 <= i < bin->0.len() ==> is_white_space(#[trigger] bin->0[i]))
            ==> normalized_bin(bin) is None,
{
    if bin is Some {
        lemma_blank_means_all_white_space(bin->0);
    }
}

/// The root of a category's active version is found exactly when the
/// category exists, has an active version, and that version has an entry;
/// each missing piece gives its own error.
pub proof fn lemma_active_target_result(c: ConfigView, cat: Seq<char>)
    ensures
        spec_active_target(c, cat) is Ok <==> c.contains_key(cat) && c[cat].active is Some
            && c[cat].versions.contains_key(c[cat].active->0),
        spec_active_target(c, cat) matches Ok(t) ==> t == c[cat].versions[c[cat].active->0].path,
        !c.contains_key(cat) ==> spec_active_target(c, cat) == Err::<Seq<char>, ErrorView>(
            ErrorView::CategoryNotFound(cat),
        ),
        c.contains_key(cat) && c[cat].active is None ==> spec_active_target(c, cat) == Err::<
            Seq<char>,
            ErrorView,
        >(ErrorView::NoActiveVersion(cat)),
        c.contains_key(cat) && c[cat].active is Some && !c[cat].versions.contains_key(
            c[cat].active->0,
        ) ==> spec_active_target(c, cat) == Err::<Seq<char>, ErrorView>(
            ErrorView::VersionNotFound(c[cat].active->0, cat),
        ),
{
}

} // verus!
