//! Editing the user's `PATH` value: a `;`-separated list of directories,
//! whose entries may carry surrounding white space or quotes and compare
//! without regard to the case of ASCII letters.

use vstd::prelude::*;
use vstd::string::StringExecFns;
use vstd::string::StrSliceExecFns;

use crate::keys::{compare_keys, KeyOrder};
use crate::text::{
    chars_of, eq_ignore_ascii_case, join_with, lemma_split_nonempty, range_eq_ignore_ascii_case,
    ranges_view, split_on, split_ranges, strip, strip_end, strip_end_range, strip_range, strip_start, trim,
    CharClass,
};

verus! {

/// What an entry of the list is compared by: trimmed of white space, then of quotes.
pub open spec fn entry_core(p: Seq<char>) -> Seq<char> {
    strip(trim(p), CharClass::Quote)
}

/// The entries of a `PATH` value.
pub open spec fn path_entries(path: Seq<char>) -> Seq<Seq<char>> {
    split_on(path, ';')
}

/// Some entry of `path` names `dir`.
pub open spec fn path_has_dir(path: Seq<char>, dir: Seq<char>) -> bool {
    exists|i: int|
        0 <= i < path_entries(path).len() && eq_ignore_ascii_case(
            entry_core(#[trigger] path_entries(path)[i]),
            dir,
        )
}

/// `path` with `dir` appended: `dir` alone where `path` is blank, else
/// `path` without its trailing `;`s, then `;`, then `dir`.
pub open spec fn path_with_dir(path: Seq<char>, dir: Seq<char>) -> Seq<char> {
    if trim(path).len() == 0 {
        dir
    } else {
        strip_end(path, CharClass::Semicolon) + seq![';'] + dir
    }
}

/// An entry that survives the removal of `dir`: it names something, and not `dir`.
pub open spec fn entry_kept(p: Seq<char>, dir: Seq<char>) -> bool {
    entry_core(p).len() > 0 && !eq_ignore_ascii_case(entry_core(p), dir)
}

/// The entries that survive the removal of `dir`, in order, as they were written.
pub open spec fn kept_entries(ps: Seq<Seq<char>>, dir: Seq<char>) -> Seq<Seq<char>>
    decreases ps.len(),
{
    if ps.len() == 0 {
        Seq::<Seq<char>>::empty()
    } else if entry_kept(ps.last(), dir) {
        kept_entries(ps.drop_last(), dir).push(ps.last())
    } else {
        kept_entries(ps.drop_last(), dir)
    }
}

/// `path` with every entry that names `dir`, and every empty entry, left out.
pub open spec fn path_without_dir(path: Seq<char>, dir: Seq<char>) -> Seq<char> {
    join_with(kept_entries(path_entries(path), dir), ';')
}

/// The new `PATH` value with `dir` added, or `None` where an entry already
/// names `dir` and the value stays as it is.
pub fn add_to_user_path(current: &str, dir: &str) -> (r: Option<String>)
    ensures
        r is None <==> path_has_dir(current@, dir@),
        r matches Some(s) ==> s@ == path_with_dir(current@, dir@),
{
    let cs = chars_of(current);
    let ds = chars_of(dir);
    let ranges = split_ranges(&cs, ';');
    let ghost pieces = path_entries(current@);
    let count = ranges.len();
    let mut i: usize = 0;
    while i < count
        invariant
            count == ranges@.len(),
            i <= count,
            cs@ == current@,
            ds@ == dir@,
            forall|j: int| 0 <= j < ranges@.len() ==> (#[trigger] ranges@[j]).0 <= ranges@[j].1 <= cs@.len(),
            ranges_view(cs@, ranges@) == pieces,
            pieces == path_entries(current@),
            forall|j: int| 0 <= j < i ==> !eq_ignore_ascii_case(entry_core(#[trigger] pieces[j]), dir@),
        decreases count - i,
    {
        let (a, b) = ranges[i];
        assert(pieces[i as int] == cs@.subrange(a as int, b as int));
        let (ta, tb) = strip_range(&cs, a, b, CharClass::Space);
        let (qa, qb) = strip_range(&cs, ta, tb, CharClass::Quote);
        if range_eq_ignore_ascii_case(&cs, qa, qb, &ds) {
            return None;
        }
        i = i + 1;
    }
    let n = cs.len();
    assert(cs@.subrange(0, n as int) =~= current@);
    let (ta, tb) = strip_range(&cs, 0, n, CharClass::Space);
    if ta == tb {
        Some(dir.to_owned())
    } else {
        let e = strip_end_range(&cs, 0, n, CharClass::Semicolon);
        let mut out = current.substring_char(0, e).to_owned();
        out.append(";");
        proof {
            reveal_strlit(";");
        }
        out.append(dir);
        Some(out)
    }
}

/// The new `PATH` value with every entry that names `dir`, and every empty
/// entry, left out; `None` where that leaves the value as it is.
pub fn remove_from_user_path(current: &str, dir: &str) -> (r: Option<String>)
    ensures
        r is None <==> path_without_dir(current@, dir@) == current@,
        r matches Some(s) ==> s@ == path_without_dir(current@, dir@),
{
    let cs = chars_of(current);
    let ds = chars_of(dir);
    let ranges = split_ranges(&cs, ';');
    let ghost pieces = path_entries(current@);
    let count = ranges.len();
    let mut out = String::new();
    let mut any = false;
    let mut i: usize = 0;
    proof {
        reveal_strlit(";");
        assert(pieces.take(0) =~= Seq::<Seq<char>>::empty());
    }
    while i < count
        invariant
            count == ranges@.len(),
            i <= count,
            cs@ == current@,
            ds@ == dir@,
            forall|j: int| 0 <= j < ranges@.len() ==> (#[trigger] ranges@[j]).0 <= ranges@[j].1 <= cs@.len(),
            ranges_view(cs@, ranges@) == pieces,
            pieces == path_entries(current@),
            ";"@ == seq![';'],
            out@ == join_with(kept_entries(pieces.take(i as int), dir@), ';'),
            any == (kept_entries(pieces.take(i as int), dir@).len() > 0),
        decreases count - i,
    {
        let (a, b) = ranges[i];
        let ghost piece = pieces[i as int];
        assert(piece == cs@.subrange(a as int, b as int));
        let (ta, tb) = strip_range(&cs, a, b, CharClass::Space);
        let (qa, qb) = strip_range(&cs, ta, tb, CharClass::Quote);
        let ghost before = kept_entries(pieces.take(i as int), dir@);
        assert(pieces.take(i + 1).drop_last() =~= pieces.take(i as int));
        assert(pieces.take(i + 1).last() == piece);
        if qa < qb && !range_eq_ignore_ascii_case(&cs, qa, qb, &ds) {
            assert(before.push(piece).drop_last() =~= before);
            if any {
                out.append(";");
            }
            out.append(current.substring_char(a, b));
            any = true;
        }
        i = i + 1;
    }
    proof {
        assert(pieces.take(count as int) =~= pieces);
        lemma_split_nonempty(current@, ';');
    }
    match compare_keys(out.as_str(), current) {
        KeyOrder::Equal => None,
        _ => Some(out),
    }
}

/// Every surviving entry survives on its own account and is one of the entries given.
proof fn lemma_kept_entries(ps: Seq<Seq<char>>, dir: Seq<char>)
    ensures
        forall|i: int|
            0 <= i < kept_entries(ps, dir).len() ==> entry_kept(
                #[trigger] kept_entries(ps, dir)[i],
                dir,
            ) && exists|j: int| 0 <= j < ps.len() && kept_entries(ps, dir)[i] == ps[j],
    decreases ps.len(),
{
    if ps.len() > 0 {
        let d = ps.drop_last();
        lemma_kept_entries(d, dir);
        let ks = kept_entries(ps, dir);
        let rest = kept_entries(d, dir);
        assert forall|i: int| 0 <= i < ks.len() implies entry_kept(#[trigger] ks[i], dir)
            && exists|j: int| 0 <= j < ps.len() && ks[i] == ps[j] by {
            if i < rest.len() {
                assert(ks[i] == rest[i]);
                let j = choose|j: int| 0 <= j < d.len() && rest[i] == d[j];
                assert(ps[j] == d[j]);
            } else {
                assert(ks[i] == ps.last());
                assert(ps[ps.len() - 1] == ps.last());
            }
        }
    }
}

/// Once a directory has been added, an entry names it, so adding it again
/// leaves the value as it is. This holds of a directory written plainly:
/// without `;`, and without surrounding white space or quotes.
pub proof fn lemma_added_dir_is_found(path: Seq<char>, dir: Seq<char>)
    requires
        !dir.contains(';'),
        entry_core(dir) == dir,
    ensures
        path_has_dir(path_with_dir(path, dir), dir),
{
    let new_path = path_with_dir(path, dir);
    if trim(path).len() == 0 {
        crate::text::lemma_split_plain(dir, ';');
    } else {
        crate::text::lemma_split_append(strip_end(path, CharClass::Semicolon), dir, ';');
    }
    let es = path_entries(new_path);
    assert(es[es.len() - 1] == dir);
    assert(eq_ignore_ascii_case(entry_core(es[es.len() - 1]), dir));
}

/// Once a directory has been removed, no entry names it.
pub proof fn lemma_removed_dir_is_gone(path: Seq<char>, dir: Seq<char>)
    requires
        dir.len() > 0,
    ensures
        !path_has_dir(path_without_dir(path, dir), dir),
{
    let ps = path_entries(path);
    let ks = kept_entries(ps, dir);
    lemma_kept_entries(ps, dir);
    let new_path = path_without_dir(path, dir);
    if ks.len() == 0 {
        assert(new_path =~= Seq::<char>::empty());
        assert(path_entries(new_path) =~= seq![Seq::<char>::empty()]);
        let e = Seq::<char>::empty();
        assert(strip_start(e, CharClass::Space) == e);
        assert(strip_end(e, CharClass::Space) == e);
        assert(strip_start(e, CharClass::Quote) == e);
        assert(strip_end(e, CharClass::Quote) == e);
        assert(entry_core(path_entries(new_path)[0]) == e);
    } else {
        crate::text::lemma_split_pieces_plain(path, ';');
        assert forall|i: int| 0 <= i < ks.len() implies !(#[trigger] ks[i]).contains(';') by {
            let j = choose|j: int| 0 <= j < ps.len() && ks[i] == ps[j];
            assert(!ps[j].contains(';'));
        }
        crate::text::lemma_split_join(ks, ';');
        assert(path_entries(new_path) == ks);
    }
}

/// The value after asking for `dir` to be added: as it was where an entry
/// names `dir` already, else with `dir` appended.
pub open spec fn path_after_add(path: Seq<char>, dir: Seq<char>) -> Seq<char> {
    if path_has_dir(path, dir) {
        path
    } else {
        path_with_dir(path, dir)
    }
}

/// A directory written plainly: not empty, without `;`, and without
/// surrounding white space or quotes.
pub open spec fn plain_dir(dir: Seq<char>) -> bool {
    &&& dir.len() > 0
    &&& !dir.contains(';')
    &&& entry_core(dir) == dir
}

proof fn lemma_entry_core_empty(p: Seq<char>)
    requires
        p.len() == 0,
    ensures
        entry_core(p).len() == 0,
{
    let e = Seq::<char>::empty();
    assert(p == e);
    assert(strip_start(e, CharClass::Space) == e);
    assert(strip_end(e, CharClass::Space) == e);
    assert(strip_start(e, CharClass::Quote) == e);
    assert(strip_end(e, CharClass::Quote) == e);
}

/// Where `path` is blank, no entry of it names anything.
proof fn lemma_blank_path_names_nothing(path: Seq<char>)
    requires
        trim(path).len() == 0,
    ensures
        forall|i: int|
            0 <= i < path_entries(path).len() ==> entry_core(#[trigger] path_entries(path)[i]).len()
                == 0,
{
    crate::text::lemma_strip_empty_all_in_class(path, CharClass::Space);
    crate::text::lemma_split_pieces_in_class(path, ';', CharClass::Space);
    assert forall|i: int| 0 <= i < path_entries(path).len() implies entry_core(
        #[trigger] path_entries(path)[i],
    ).len() == 0 by {
        let piece = path_entries(path)[i];
        assert forall|j: int| 0 <= j < piece.len() implies crate::text::in_class(
            #[trigger] piece[j],
            CharClass::Space,
        ) by {
            assert(crate::text::in_class(split_on(path, ';')[i][j], CharClass::Space));
        }
        crate::text::lemma_all_in_class_strip_empty(piece, CharClass::Space);
        lemma_entry_core_empty(trim(piece));
    }
}

/// Appending another directory keeps a directory that was named still named.
pub proof fn lemma_add_keeps_dir_found(path: Seq<char>, dir: Seq<char>, other: Seq<char>)
    requires
        dir.len() > 0,
        !other.contains(';'),
        path_has_dir(path, dir),
    ensures
        path_has_dir(path_with_dir(path, other), dir),
{
    let i = choose|i: int|
        0 <= i < path_entries(path).len() && eq_ignore_ascii_case(
            entry_core(#[trigger] path_entries(path)[i]),
            dir,
        );
    let piece = path_entries(path)[i];
    if trim(path).len() == 0 {
        lemma_blank_path_names_nothing(path);
        assert(entry_core(piece).len() == 0);
    } else {
        let q = strip_end(path, CharClass::Semicolon);
        crate::text::lemma_split_strip_end_semicolons(path);
        crate::text::lemma_split_append(q, other, ';');
        if piece.len() == 0 {
            lemma_entry_core_empty(piece);
        }
        assert(i < split_on(q, ';').len());
        let new_entries = path_entries(path_with_dir(path, other));
        assert(new_entries[i] == split_on(q, ';')[i]);
        assert(new_entries[i] == piece);
    }
}

/// Setting a category up twice leaves `PATH` as setting it up once did:
/// once its directory and `bin` under it have been asked to be added, both
/// are named, so asking again changes nothing. This holds of directories
/// written plainly.
pub proof fn lemma_setup_twice_changes_nothing(path: Seq<char>, dir: Seq<char>, bin: Seq<char>)
    requires
        plain_dir(dir),
        plain_dir(bin),
    ensures
        path_after_add(path_after_add(path_after_add(path_after_add(path, dir), bin), dir), bin)
            == path_after_add(path_after_add(path, dir), bin),
{
    let p1 = path_after_add(path, dir);
    let once = path_after_add(p1, bin);
    if !path_has_dir(path, dir) {
        lemma_added_dir_is_found(path, dir);
    }
    assert(path_has_dir(p1, dir));
    if !path_has_dir(p1, bin) {
        lemma_added_dir_is_found(p1, bin);
        lemma_add_keeps_dir_found(p1, dir, bin);
    }
    assert(path_has_dir(once, dir));
    assert(path_has_dir(once, bin));
}

proof fn lemma_kept_all(ps: Seq<Seq<char>>, dir: Seq<char>)
    requires
        forall|i: int| 0 <= i < ps.len() ==> entry_kept(#[trigger] ps[i], dir),
    ensures
        kept_entries(ps, dir) == ps,
    decreases ps.len(),
{
    if ps.len() > 0 {
        let d = ps.drop_last();
        assert forall|i: int| 0 <= i < d.len() implies entry_kept(#[trigger] d[i], dir) by {
            assert(d[i] == ps[i]);
        }
        lemma_kept_all(d, dir);
        assert(entry_kept(ps[ps.len() - 1], dir));
        assert(d.push(ps.last()) =~= ps);
    }
}

/// Removing a directory undoes adding it, where every entry of the value
/// before named something other than that directory (or the value was
/// empty), and the directory is written plainly.
pub proof fn lemma_remove_undoes_add(path: Seq<char>, dir: Seq<char>)
    requires
        plain_dir(dir),
        path.len() == 0 || forall|i: int|
            0 <= i < path_entries(path).len() ==> entry_kept(#[trigger] path_entries(path)[i], dir),
    ensures
        path_without_dir(path_after_add(path, dir), dir) == path,
{
    let ps = path_entries(path);
    crate::text::lemma_split_nonempty(path, ';');
    assert(eq_ignore_ascii_case(dir, dir));
    assert(!entry_kept(dir, dir));
    if path.len() == 0 {
        assert(ps[0].len() == 0);
        lemma_entry_core_empty(ps[0]);
        assert(!path_has_dir(path, dir));
        assert(trim(path).len() == 0) by {
            lemma_entry_core_empty(path);
            assert(strip_start(path, CharClass::Space) == path);
        }
        crate::text::lemma_split_plain(dir, ';');
        let ks = kept_entries(seq![dir], dir);
        assert(seq![dir].drop_last() =~= Seq::<Seq<char>>::empty());
        assert(seq![dir].last() == dir);
        assert(kept_entries(Seq::<Seq<char>>::empty(), dir) == Seq::<Seq<char>>::empty());
        assert(ks == Seq::<Seq<char>>::empty());
    } else {
        assert(entry_kept(ps[0], dir));
        assert(!path_has_dir(path, dir)) by {
            if path_has_dir(path, dir) {
                let i = choose|i: int|
                    0 <= i < ps.len() && eq_ignore_ascii_case(entry_core(#[trigger] ps[i]), dir);
                assert(entry_kept(ps[i], dir));
            }
        }
        if trim(path).len() == 0 {
            lemma_blank_path_names_nothing(path);
            assert(entry_core(ps[0]).len() == 0);
        }
        if path.last() == ';' {
            assert(ps == split_on(path.drop_last(), ';').push(Seq::<char>::empty()));
            lemma_entry_core_empty(ps[ps.len() - 1]);
            assert(entry_kept(ps[ps.len() - 1], dir));
        }
        assert(strip_end(path, CharClass::Semicolon) == path);
        crate::text::lemma_split_append(path, dir, ';');
        let new_entries = ps.push(dir);
        assert(new_entries.drop_last() =~= ps);
        assert(kept_entries(new_entries, dir) == kept_entries(ps, dir));
        lemma_kept_all(ps, dir);
        crate::text::lemma_join_split(path, ';');
    }
}

} // verus!
