//! Character-level text handling: white space, trimming, splitting on a
//! separator, joining, and ASCII case-insensitive comparison.

use vstd::prelude::*;

verus! {

broadcast use vstd::string::group_string_axioms;

/// The characters with the Unicode `White_Space` property, which
/// `char::is_whitespace` and `str::trim` go by.
pub open spec fn is_white_space(c: char) -> bool {
    let u = c as u32;
    ||| 0x9 <= u <= 0xD
    ||| u == 0x20
    ||| u == 0x85
    ||| u == 0xA0
    ||| u == 0x1680
    ||| 0x2000 <= u <= 0x200A
    ||| u == 0x2028
    ||| u == 0x2029
    ||| u == 0x202F
    ||| u == 0x205F
    ||| u == 0x3000
}

/// Whether `c` is white space.
pub fn char_is_white_space(c: char) -> (r: bool)
    ensures
        r == is_white_space(c),
{
    let u = c as u32;
    (0x9 <= u && u <= 0xD) || u == 0x20 || u == 0x85 || u == 0xA0 || u == 0x1680 || (0x2000 <= u
        && u <= 0x200A) || u == 0x2028 || u == 0x2029 || u == 0x202F || u == 0x205F || u == 0x3000
}

/// The characters of `s`, in order.
pub fn chars_of(s: &str) -> (r: Vec<char>)
    ensures
        r@ == s@,
{
    let mut r: Vec<char> = Vec::new();
    for c in it: s.chars()
        invariant
            r@.len() == it.index(),
            forall|j: int| 0 <= j < it.index() ==> r@[j] == it.seq()[j],
    {
        r.push(c);
    }
    assert(r@ =~= s@);
    r
}

/// The characters that trimming removes.
#[derive(Clone, Copy)]
pub enum CharClass {
    /// White space, as `str::trim` removes it.
    Space,
    /// The double quote `"`.
    Quote,
    /// The separator `;`.
    Semicolon,
}

pub open spec fn in_class(c: char, cls: CharClass) -> bool {
    match cls {
        CharClass::Space => is_white_space(c),
        CharClass::Quote => c == '"',
        CharClass::Semicolon => c == ';',
    }
}

/// Whether `c` belongs to `cls`.
pub fn char_in_class(c: char, cls: CharClass) -> (r: bool)
    ensures
        r == in_class(c, cls),
{
    match cls {
        CharClass::Space => char_is_white_space(c),
        CharClass::Quote => c == '"',
        CharClass::Semicolon => c == ';',
    }
}

/// `s` without its leading characters of `cls`.
pub open spec fn strip_start(s: Seq<char>, cls: CharClass) -> Seq<char>
    decreases s.len(),
{
    if s.len() > 0 && in_class(s[0], cls) {
        strip_start(s.drop_first(), cls)
    } else {
        s
    }
}

/// `s` without its trailing characters of `cls`.
pub open spec fn strip_end(s: Seq<char>, cls: CharClass) -> Seq<char>
    decreases s.len(),
{
    if s.len() > 0 && in_class(s.last(), cls) {
        strip_end(s.drop_last(), cls)
    } else {
        s
    }
}

/// `s` without its leading and trailing characters of `cls`.
pub open spec fn strip(s: Seq<char>, cls: CharClass) -> Seq<char> {
    strip_end(strip_start(s, cls), cls)
}

/// `s` without leading and trailing white space, as `str::trim` gives it.
pub open spec fn trim(s: Seq<char>) -> Seq<char> {
    strip(s, CharClass::Space)
}

/// A string that is empty or all white space.
pub open spec fn is_blank(s: Seq<char>) -> bool {
    trim(s).len() == 0
}

/// The bounds, within `[a, b)`, of what remains of `cs[a..b]` once its
/// trailing characters of `cls` are removed.
pub fn strip_end_range(cs: &Vec<char>, a: usize, b: usize, cls: CharClass) -> (r: usize)
    requires
        a <= b <= cs@.len(),
    ensures
        a <= r <= b,
        cs@.subrange(a as int, r as int) == strip_end(cs@.subrange(a as int, b as int), cls),
{
    let mut hi = b;
    while hi > a && char_in_class(cs[hi - 1], cls)
        invariant
            a <= hi <= b <= cs@.len(),
            strip_end(cs@.subrange(a as int, b as int), cls) == strip_end(
                cs@.subrange(a as int, hi as int),
                cls,
            ),
        decreases hi,
    {
        assert(cs@.subrange(a as int, hi as int).drop_last() =~= cs@.subrange(
            a as int,
            hi - 1,
        ));
        hi = hi - 1;
    }
    hi
}

/// The bounds, within `[a, b)`, of what remains of `cs[a..b]` once its
/// leading and trailing characters of `cls` are removed.
pub fn strip_range(cs: &Vec<char>, a: usize, b: usize, cls: CharClass) -> (r: (usize, usize))
    requires
        a <= b <= cs@.len(),
    ensures
        a <= r.0 <= r.1 <= b,
        cs@.subrange(r.0 as int, r.1 as int) == strip(cs@.subrange(a as int, b as int), cls),
{
    let mut lo = a;
    while lo < b && char_in_class(cs[lo], cls)
        invariant
            a <= lo <= b <= cs@.len(),
            strip_start(cs@.subrange(a as int, b as int), cls) == strip_start(
                cs@.subrange(lo as int, b as int),
                cls,
            ),
        decreases b - lo,
    {
        assert(cs@.subrange(lo as int, b as int).drop_first() =~= cs@.subrange(
            lo + 1,
            b as int,
        ));
        lo = lo + 1;
    }
    assert(strip_start(cs@.subrange(lo as int, b as int), cls) == cs@.subrange(lo as int, b as int));
    let hi = strip_end_range(cs, lo, b, cls);
    (lo, hi)
}

/// Whether `s` is empty or all white space (`s.trim().is_empty()`).
pub fn str_is_blank(s: &str) -> (r: bool)
    ensures
        r == is_blank(s@),
{
    let cs = chars_of(s);
    let n = cs.len();
    assert(cs@.subrange(0, n as int) =~= s@);
    let (lo, hi) = strip_range(&cs, 0, n, CharClass::Space);
    lo == hi
}

/// The code of `c` with ASCII upper-case letters taken to lower case.
pub open spec fn ascii_fold(c: char) -> int {
    let u = c as u32;
    if 65 <= u && u <= 90 {
        u + 32
    } else {
        u as int
    }
}

/// `a` and `b` are equal but for the case of ASCII letters, as
/// `str::eq_ignore_ascii_case` decides.
pub open spec fn eq_ignore_ascii_case(a: Seq<char>, b: Seq<char>) -> bool {
    &&& a.len() == b.len()
    &&& forall|i: int| 0 <= i < a.len() ==> ascii_fold(#[trigger] a[i]) == ascii_fold(b[i])
}

/// Whether `cs[a..b]` equals `ds` but for the case of ASCII letters.
pub fn range_eq_ignore_ascii_case(cs: &Vec<char>, a: usize, b: usize, ds: &Vec<char>) -> (r: bool)
    requires
        a <= b <= cs@.len(),
    ensures
        r == eq_ignore_ascii_case(cs@.subrange(a as int, b as int), ds@),
{
    if b - a != ds.len() {
        return false;
    }
    let n = ds.len();
    let mut i: usize = 0;
    while i < n
        invariant
            n == ds@.len(),
            b - a == n,
            a <= b <= cs@.len(),
            i <= n,
            forall|j: int| 0 <= j < i ==> ascii_fold(cs@[a + j]) == ascii_fold(ds@[j]),
        decreases n - i,
    {
        let x = cs[a + i] as u32;
        let y = ds[i] as u32;
        let fx = if 65 <= x && x <= 90 { x + 32 } else { x };
        let fy = if 65 <= y && y <= 90 { y + 32 } else { y };
        if fx != fy {
            assert(cs@.subrange(a as int, b as int)[i as int] == cs@[a + i]);
            return false;
        }
        i = i + 1;
    }
    let ghost sub = cs@.subrange(a as int, b as int);
    assert forall|j: int| 0 <= j < sub.len() implies ascii_fold(#[trigger] sub[j]) == ascii_fold(
        ds@[j],
    ) by {
        assert(sub[j] == cs@[a + j]);
    }
    true
}

/// The pieces of `s` between occurrences of `sep`, as `str::split` yields them.
pub open spec fn split_on(s: Seq<char>, sep: char) -> Seq<Seq<char>>
    decreases s.len(),
{
    if s.len() == 0 {
        seq![Seq::<char>::empty()]
    } else {
        let rest = split_on(s.drop_last(), sep);
        if s.last() == sep {
            rest.push(Seq::<char>::empty())
        } else {
            rest.update(rest.len() - 1, rest.last().push(s.last()))
        }
    }
}

/// The pieces joined with `sep` between them, as `[&str]::join` gives it.
pub open spec fn join_with(ps: Seq<Seq<char>>, sep: char) -> Seq<char>
    decreases ps.len(),
{
    if ps.len() == 0 {
        Seq::<char>::empty()
    } else if ps.len() == 1 {
        ps[0]
    } else {
        join_with(ps.drop_last(), sep) + seq![sep] + ps.last()
    }
}

/// `split_on` yields at least one piece.
pub proof fn lemma_split_nonempty(s: Seq<char>, sep: char)
    ensures
        split_on(s, sep).len() >= 1,
    decreases s.len(),
{
    if s.len() > 0 {
        lemma_split_nonempty(s.drop_last(), sep);
    }
}

/// The pieces of `cs[a..b]` for each pair of bounds.
pub open spec fn ranges_view(cs: Seq<char>, rs: Seq<(usize, usize)>) -> Seq<Seq<char>> {
    Seq::new(rs.len(), |i: int| cs.subrange(rs[i].0 as int, rs[i].1 as int))
}

/// The bounds of the pieces of `cs` between occurrences of `sep`.
pub fn split_ranges(cs: &Vec<char>, sep: char) -> (r: Vec<(usize, usize)>)
    ensures
        forall|i: int| 0 <= i < r@.len() ==> (#[trigger] r@[i]).0 <= r@[i].1 <= cs@.len(),
        ranges_view(cs@, r@) == split_on(cs@, sep),
{
    let n = cs.len();
    let mut r: Vec<(usize, usize)> = Vec::new();
    let mut start: usize = 0;
    let mut i: usize = 0;
    assert(cs@.take(0) =~= Seq::<char>::empty());
    assert(ranges_view(cs@, r@).push(cs@.subrange(0, 0)) =~= seq![Seq::<char>::empty()]);
    while i < n
        invariant
            n == cs@.len(),
            start <= i <= n,
            forall|j: int| 0 <= j < r@.len() ==> (#[trigger] r@[j]).0 <= r@[j].1 <= cs@.len(),
            split_on(cs@.take(i as int), sep) == ranges_view(cs@, r@).push(
                cs@.subrange(start as int, i as int),
            ),
        decreases n - i,
    {
        let ghost prev = ranges_view(cs@, r@);
        assert(cs@.take(i + 1).drop_last() =~= cs@.take(i as int));
        assert(cs@.take(i + 1).last() == cs@[i as int]);
        if cs[i] == sep {
            r.push((start, i));
            start = i + 1;
            assert(ranges_view(cs@, r@) =~= prev.push(cs@.subrange(r@.last().0 as int, i as int)));
            assert(cs@.subrange(start as int, i + 1) =~= Seq::<char>::empty());
        } else {
            assert(cs@.subrange(start as int, i + 1) =~= cs@.subrange(start as int, i as int).push(
                cs@[i as int],
            ));
        }
        i = i + 1;
    }
    r.push((start, n));
    assert(cs@.take(n as int) =~= cs@);
    r
}

/// A piece with no separator in it splits into itself alone.
pub proof fn lemma_split_plain(y: Seq<char>, sep: char)
    requires
        !y.contains(sep),
    ensures
        split_on(y, sep) == seq![y],
    decreases y.len(),
{
    if y.len() == 0 {
        assert(y =~= Seq::<char>::empty());
    } else {
        let d = y.drop_last();
        assert(!d.contains(sep)) by {
            if d.contains(sep) {
                let i = choose|i: int| 0 <= i < d.len() && d[i] == sep;
                assert(y[i] == sep);
            }
        }
        lemma_split_plain(d, sep);
        assert(y[y.len() - 1] == y.last());
        assert(d.push(y.last()) =~= y);
        assert(seq![d].update(0, d.push(y.last())) =~= seq![y]);
    }
}

/// Appending a separator and a piece with no separator in it adds that piece.
pub proof fn lemma_split_append(x: Seq<char>, y: Seq<char>, sep: char)
    requires
        !y.contains(sep),
    ensures
        split_on(x + seq![sep] + y, sep) == split_on(x, sep).push(y),
    decreases y.len(),
{
    let z = x + seq![sep] + y;
    if y.len() == 0 {
        assert(z.drop_last() =~= x);
        assert(z.last() == sep);
        assert(y =~= Seq::<char>::empty());
    } else {
        let d = y.drop_last();
        assert(!d.contains(sep)) by {
            if d.contains(sep) {
                let i = choose|i: int| 0 <= i < d.len() && d[i] == sep;
                assert(y[i] == sep);
            }
        }
        lemma_split_append(x, d, sep);
        assert(z.drop_last() =~= x + seq![sep] + d);
        assert(z.last() == y.last());
        assert(y[y.len() - 1] == y.last());
        let rest = split_on(x, sep).push(d);
        assert(d.push(y.last()) =~= y);
        assert(rest.update(rest.len() - 1, rest.last().push(y.last())) =~= split_on(x, sep).push(y));
    }
}

/// No piece that `split_on` yields holds the separator.
pub proof fn lemma_split_pieces_plain(s: Seq<char>, sep: char)
    ensures
        forall|i: int|
            0 <= i < split_on(s, sep).len() ==> !(#[trigger] split_on(s, sep)[i]).contains(sep),
    decreases s.len(),
{
    if s.len() > 0 {
        lemma_split_pieces_plain(s.drop_last(), sep);
        lemma_split_nonempty(s.drop_last(), sep);
        let rest = split_on(s.drop_last(), sep);
        if s.last() != sep {
            let grown = rest.last().push(s.last());
            assert(!grown.contains(sep)) by {
                if grown.contains(sep) {
                    let i = choose|i: int| 0 <= i < grown.len() && grown[i] == sep;
                    assert(rest[rest.len() - 1] == rest.last());
                    assert(rest.last()[i] == sep);
                }
            }
        }
        let all = split_on(s, sep);
        assert forall|i: int| 0 <= i < all.len() implies !(#[trigger] all[i]).contains(sep) by {
            if i < rest.len() - 1 || (s.last() == sep && i < rest.len()) {
                assert(all[i] == rest[i]);
            } else if s.last() == sep {
                assert(all[i] =~= Seq::<char>::empty());
            }
        }
    }
}

/// Splitting pieces joined by a separator, none of them holding it, gives the pieces back.
pub proof fn lemma_split_join(ks: Seq<Seq<char>>, sep: char)
    requires
        ks.len() > 0,
        forall|i: int| 0 <= i < ks.len() ==> !(#[trigger] ks[i]).contains(sep),
    ensures
        split_on(join_with(ks, sep), sep) == ks,
    decreases ks.len(),
{
    if ks.len() == 1 {
        lemma_split_plain(ks[0], sep);
        assert(seq![ks[0]] =~= ks);
    } else {
        let d = ks.drop_last();
        assert forall|i: int| 0 <= i < d.len() implies !(#[trigger] d[i]).contains(sep) by {
            assert(d[i] == ks[i]);
        }
        lemma_split_join(d, sep);
        assert(!ks.last().contains(sep)) by {
            assert(ks[ks.len() - 1] == ks.last());
        }
        lemma_split_append(join_with(d, sep), ks.last(), sep);
        assert(d.push(ks.last()) =~= ks);
    }
}

proof fn lemma_strip_start_first(s: Seq<char>, cls: CharClass)
    ensures
        strip_start(s, cls).len() > 0 ==> !in_class(strip_start(s, cls)[0], cls),
    decreases s.len(),
{
    if s.len() > 0 && in_class(s[0], cls) {
        lemma_strip_start_first(s.drop_first(), cls);
    }
}

proof fn lemma_strip_start_empty(s: Seq<char>, cls: CharClass)
    requires
        strip_start(s, cls).len() == 0,
    ensures
        forall|i: int| 0 <= i < s.len() ==> in_class(#[trigger] s[i], cls),
    decreases s.len(),
{
    if s.len() > 0 {
        lemma_strip_start_empty(s.drop_first(), cls);
        assert forall|i: int| 0 <= i < s.len() implies in_class(#[trigger] s[i], cls) by {
            if i > 0 {
                assert(s[i] == s.drop_first()[i - 1]);
            }
        }
    }
}

proof fn lemma_strip_end_empty(s: Seq<char>, cls: CharClass)
    requires
        strip_end(s, cls).len() == 0,
    ensures
        forall|i: int| 0 <= i < s.len() ==> in_class(#[trigger] s[i], cls),
    decreases s.len(),
{
    if s.len() > 0 {
        lemma_strip_end_empty(s.drop_last(), cls);
        assert forall|i: int| 0 <= i < s.len() implies in_class(#[trigger] s[i], cls) by {
            if i < s.len() - 1 {
                assert(s[i] == s.drop_last()[i]);
            }
        }
    }
}

/// What stripping empties held nothing but characters of the class.
pub proof fn lemma_strip_empty_all_in_class(s: Seq<char>, cls: CharClass)
    requires
        strip(s, cls).len() == 0,
    ensures
        forall|i: int| 0 <= i < s.len() ==> in_class(#[trigger] s[i], cls),
{
    let t = strip_start(s, cls);
    lemma_strip_end_empty(t, cls);
    lemma_strip_start_first(s, cls);
    if t.len() > 0 {
        assert(in_class(t[0], cls));
    }
    lemma_strip_start_empty(s, cls);
}

/// Stripping a string of nothing but characters of the class empties it.
pub proof fn lemma_all_in_class_strip_empty(s: Seq<char>, cls: CharClass)
    requires
        forall|i: int| 0 <= i < s.len() ==> in_class(#[trigger] s[i], cls),
    ensures
        strip(s, cls).len() == 0,
    decreases s.len(),
{
    if s.len() > 0 {
        assert(in_class(s[0], cls));
        assert forall|i: int| 0 <= i < s.drop_first().len() implies in_class(
            #[trigger] s.drop_first()[i],
            cls,
        ) by {
            assert(s.drop_first()[i] == s[i + 1]);
        }
        lemma_all_in_class_strip_empty(s.drop_first(), cls);
    }
}

/// The pieces of a string of nothing but characters of a class hold nothing else.
pub proof fn lemma_split_pieces_in_class(s: Seq<char>, sep: char, cls: CharClass)
    requires
        forall|i: int| 0 <= i < s.len() ==> in_class(#[trigger] s[i], cls),
    ensures
        forall|i: int, j: int|
            0 <= i < split_on(s, sep).len() && 0 <= j < split_on(s, sep)[i].len() ==> in_class(
                #[trigger] split_on(s, sep)[i][j],
                cls,
            ),
    decreases s.len(),
{
    if s.len() > 0 {
        let d = s.drop_last();
        assert forall|i: int| 0 <= i < d.len() implies in_class(#[trigger] d[i], cls) by {
            assert(d[i] == s[i]);
        }
        lemma_split_pieces_in_class(d, sep, cls);
        lemma_split_nonempty(d, sep);
        let rest = split_on(d, sep);
        let all = split_on(s, sep);
        assert(in_class(s[s.len() - 1], cls));
        assert forall|i: int, j: int| 0 <= i < all.len() && 0 <= j < all[i].len() implies in_class(
            #[trigger] all[i][j],
            cls,
        ) by {
            if s.last() == sep {
                if i < rest.len() {
                    assert(all[i] == rest[i]);
                }
            } else {
                if i < rest.len() - 1 {
                    assert(all[i] == rest[i]);
                } else {
                    let grown = rest[rest.len() - 1].push(s.last());
                    assert(all[i] == grown);
                    if j < grown.len() - 1 {
                        assert(grown[j] == rest[rest.len() - 1][j]);
                    }
                }
            }
        }
    }
}

proof fn lemma_join_grow_last(ps: Seq<Seq<char>>, sep: char, c: char)
    requires
        ps.len() >= 1,
    ensures
        join_with(ps.update(ps.len() - 1, ps.last().push(c)), sep) == join_with(ps, sep).push(c),
{
    let qs = ps.update(ps.len() - 1, ps.last().push(c));
    if ps.len() == 1 {
        assert(qs[0] == ps[0].push(c));
    } else {
        assert(qs.drop_last() =~= ps.drop_last());
        assert(qs.last() == ps.last().push(c));
        assert(join_with(ps.drop_last(), sep) + seq![sep] + ps.last().push(c) =~= (join_with(
            ps.drop_last(),
            sep,
        ) + seq![sep] + ps.last()).push(c));
    }
}

/// Joining the pieces of a string with its separator gives the string back.
pub proof fn lemma_join_split(s: Seq<char>, sep: char)
    ensures
        join_with(split_on(s, sep), sep) == s,
    decreases s.len(),
{
    if s.len() == 0 {
        assert(split_on(s, sep)[0] == s);
    } else {
        let d = s.drop_last();
        lemma_join_split(d, sep);
        lemma_split_nonempty(d, sep);
        let rest = split_on(d, sep);
        if s.last() == sep {
            let all = rest.push(Seq::<char>::empty());
            assert(all.drop_last() =~= rest);
            assert(d + seq![sep] + Seq::<char>::empty() =~= s);
        } else {
            lemma_join_grow_last(rest, sep, s.last());
            assert(d.push(s.last()) =~= s);
        }
    }
}

/// Stripping trailing `;`s leaves the pieces before them as they were and
/// drops only empty pieces.
pub proof fn lemma_split_strip_end_semicolons(p: Seq<char>)
    ensures
        split_on(strip_end(p, CharClass::Semicolon), ';').len() <= split_on(p, ';').len(),
        forall|i: int|
            0 <= i < split_on(strip_end(p, CharClass::Semicolon), ';').len() ==> #[trigger] split_on(
                p,
                ';',
            )[i] == split_on(strip_end(p, CharClass::Semicolon), ';')[i],
        forall|i: int|
            split_on(strip_end(p, CharClass::Semicolon), ';').len() <= i < split_on(p, ';').len()
                ==> (#[trigger] split_on(p, ';')[i]).len() == 0,
    decreases p.len(),
{
    if p.len() > 0 && p.last() == ';' {
        let d = p.drop_last();
        lemma_split_strip_end_semicolons(d);
        assert(strip_end(p, CharClass::Semicolon) == strip_end(d, CharClass::Semicolon));
        let q = split_on(strip_end(d, CharClass::Semicolon), ';');
        let rest = split_on(d, ';');
        let all = split_on(p, ';');
        assert(all == rest.push(Seq::<char>::empty()));
        assert forall|i: int| 0 <= i < q.len() implies #[trigger] all[i] == q[i] by {
            assert(all[i] == rest[i]);
        }
        assert forall|i: int| q.len() <= i < all.len() implies (#[trigger] all[i]).len() == 0 by {
            if i < rest.len() {
                assert(all[i] == rest[i]);
            }
        }
    }
}

} // verus!
