//! Paths held as text, with `/` as the separator: the final component and
//! the extension, as `Path::file_name` and `Path::extension` read them.

use vstd::prelude::*;
use crate::text::{split_on, split_str, views};

verus! {

/// A component that path parsing skips: empty (from `//` or a trailing
/// `/`) or the current directory `.`.
pub open spec fn is_skipped(seg: Seq<char>) -> bool {
    seg.len() == 0 || seg == seq!['.']
}

/// The last component of `segs` that is not skipped.
pub open spec fn last_component(segs: Seq<Seq<char>>) -> Option<Seq<char>>
    decreases segs.len(),
{
    if segs.len() == 0 {
        None
    } else if is_skipped(segs.last()) {
        last_component(segs.drop_last())
    } else {
        Some(segs.last())
    }
}

/// The final component of the path `p`, unless the path ends in `..` or has
/// no component but the root or `.`.
pub open spec fn file_name(p: Seq<char>) -> Option<Seq<char>> {
    match last_component(split_on(p, '/')) {
        Some(c) => if c == seq!['.', '.'] {
            None
        } else {
            Some(c)
        },
        None => None,
    }
}

/// `name` split at its last `.`: the part before and the part after.
pub open spec fn split_at_last_dot(name: Seq<char>) -> Option<(Seq<char>, Seq<char>)>
    decreases name.len(),
{
    if name.len() == 0 {
        None
    } else if name.last() == '.' {
        Some((name.drop_last(), Seq::<char>::empty()))
    } else {
        match split_at_last_dot(name.drop_last()) {
            Some(parts) => Some((parts.0, parts.1.push(name.last()))),
            None => None,
        }
    }
}

/// The extension of a file name: what follows its last `.`, where that `.`
/// is not the first character.
pub open spec fn extension(name: Seq<char>) -> Option<Seq<char>> {
    match split_at_last_dot(name) {
        Some(parts) => if parts.0.len() == 0 {
            None
        } else {
            Some(parts.1)
        },
        None => None,
    }
}

/// The final component of `p`, or the empty text where it has none.
pub open spec fn file_name_or_empty(p: Seq<char>) -> Seq<char> {
    match file_name(p) {
        Some(f) => f,
        None => Seq::<char>::empty(),
    }
}

/// The extension of the final component of `p`, or the empty text where
/// there is none.
pub open spec fn extension_or_empty(p: Seq<char>) -> Seq<char> {
    match file_name(p) {
        Some(f) => match extension(f) {
            Some(e) => e,
            None => Seq::<char>::empty(),
        },
        None => Seq::<char>::empty(),
    }
}

proof fn lemma_last_component_kept(segs: Seq<Seq<char>>)
    ensures
        last_component(segs) matches Some(c) ==> !is_skipped(c),
    decreases segs.len(),
{
    if segs.len() > 0 && is_skipped(segs.last()) {
        lemma_last_component_kept(segs.drop_last());
    }
}

/// A path's final component is never empty, so two paths whose names read
/// the same (the empty text standing for none) have the same final
/// component and the same extension.
pub proof fn lemma_same_name_same_extension(p1: Seq<char>, p2: Seq<char>)
    requires
        file_name_or_empty(p1) == file_name_or_empty(p2),
    ensures
        file_name(p1) == file_name(p2),
        extension_or_empty(p1) == extension_or_empty(p2),
{
    lemma_last_component_kept(split_on(p1, '/'));
    lemma_last_component_kept(split_on(p2, '/'));
}

proof fn lemma_split_last_piece(s: Seq<char>, sep: char, t: Seq<char>)
    requires
        !t.contains(sep),
    ensures
        split_on(s + seq![sep] + t, sep).last() == t,
        split_on(s + seq![sep] + t, sep).len() > 0,
    decreases t.len(),
{
    let x = s + seq![sep] + t;
    if t.len() == 0 {
        assert(x.drop_last() =~= s);
        assert(x.last() == sep);
    } else {
        let t0 = t.drop_last();
        assert(!t0.contains(sep)) by {
            if t0.contains(sep) {
                let k = choose|k: int| 0 <= k < t0.len() && t0[k] == sep;
                assert(t[k] == sep);
            }
        }
        lemma_split_last_piece(s, sep, t0);
        assert(x.drop_last() =~= s + seq![sep] + t0);
        assert(x.last() == t.last());
        assert(t.last() != sep) by {
            assert(t[t.len() - 1] == t.last());
        }
        assert(t0.push(t.last()) =~= t);
    }
}

/// The name of a file in a directory: for any directory `dir` and any name
/// that holds no `/` and is neither empty, `.` nor `..`, the final component
/// of `dir/name` is that name.
pub proof fn lemma_file_name_of_entry(dir: Seq<char>, name: Seq<char>)
    requires
        name.len() > 0,
        !name.contains('/'),
        name != seq!['.'],
        name != seq!['.', '.'],
    ensures
        file_name(dir + seq!['/'] + name) == Some(name),
        file_name_or_empty(dir + seq!['/'] + name) == name,
{
    lemma_split_last_piece(dir, '/', name);
}

proof fn lemma_split_at_last_dot_parts(name: Seq<char>)
    ensures
        split_at_last_dot(name) matches Some(parts) ==> name == parts.0 + seq!['.'] + parts.1
            && !parts.1.contains('.'),
        split_at_last_dot(name) is None ==> !name.contains('.'),
    decreases name.len(),
{
    if name.len() > 0 {
        let init = name.drop_last();
        lemma_split_at_last_dot_parts(init);
        if name.last() == '.' {
            assert(name =~= init + seq!['.'] + Seq::<char>::empty());
        } else {
            match split_at_last_dot(init) {
                Some(parts) => {
                    let b = parts.1.push(name.last());
                    assert(init == parts.0 + seq!['.'] + parts.1);
                    assert(name =~= init.push(name.last()));
                    assert(name =~= parts.0 + seq!['.'] + b);
                    assert(!b.contains('.')) by {
                        if b.contains('.') {
                            let k = choose|k: int| 0 <= k < b.len() && b[k] == '.';
                            if k < parts.1.len() {
                                assert(parts.1[k] == '.');
                            }
                        }
                    }
                },
                None => {
                    assert(!name.contains('.')) by {
                        if name.contains('.') {
                            let k = choose|k: int| 0 <= k < name.len() && name[k] == '.';
                            if k < init.len() {
                                assert(init[k] == '.');
                            }
                        }
                    }
                },
            }
        }
    }
}

/// The extension of a file name is what follows its last dot, where the dot
/// has a non-empty stem before it: the name is the stem, a dot and the
/// extension, and the extension holds no dot. A name without a dot has no
/// extension, and neither has a name whose only dot comes first.
pub proof fn lemma_extension_after_last_dot(name: Seq<char>)
    ensures
        extension(name) matches Some(e) ==> exists|stem: Seq<char>|
            stem.len() > 0 && name == stem + seq!['.'] + e,
        extension(name) matches Some(e) ==> !e.contains('.'),
        !name.contains('.') ==> extension(name) is None,
        (name.len() > 0 && name[0] == '.' && !name.drop_first().contains('.')) ==> extension(
            name,
        ) is None,
{
    lemma_split_at_last_dot_parts(name);
    if let Some(parts) = split_at_last_dot(name) {
        if parts.0.len() > 0 {
            assert(name == parts.0 + seq!['.'] + parts.1);
        }
        if name.len() > 0 && name[0] == '.' && !name.drop_first().contains('.') && parts.0.len()
            > 0 {
            assert(name[parts.0.len() as int] == '.');
            assert(name.drop_first()[parts.0.len() - 1] == '.');
        }
    }
    if !name.contains('.') && split_at_last_dot(name) is Some {
        let parts = split_at_last_dot(name)->0;
        assert(name[parts.0.len() as int] == '.');
    }
}

proof fn lemma_last_component_take(segs: Seq<Seq<char>>, j: int)
    requires
        0 <= j <= segs.len(),
        forall|k: int| j <= k < segs.len() ==> is_skipped(#[trigger] segs[k]),
    ensures
        last_component(segs) == last_component(segs.take(j)),
    decreases segs.len() - j,
{
    if j < segs.len() {
        lemma_last_component_take(segs, j + 1);
        assert(segs.take(j + 1).drop_last() =~= segs.take(j));
        assert(is_skipped(segs[j]));
        assert(segs.take(j + 1).last() == segs[j]);
    } else {
        assert(segs.take(j) =~= segs);
    }
}

fn is_dot_run(s: &str, k: usize) -> (r: bool)
    ensures
        r == (s@.len() == k && forall|i: int| 0 <= i < k ==> s@[i] == '.'),
{
    let n = s.unicode_len();
    if n != k {
        return false;
    }
    let mut i: usize = 0;
    while i < n
        invariant
            n == s@.len(),
            n == k,
            i <= n,
            forall|j: int| 0 <= j < i ==> s@[j] == '.',
        decreases n - i,
    {
        if s.get_char(i) != '.' {
            return false;
        }
        i = i + 1;
    }
    true
}

/// The final component of the path `p`, as `Path::file_name` gives it.
pub fn path_file_name(p: &str) -> (r: Option<String>)
    ensures
        match r {
            Some(f) => file_name(p@) == Some(f@),
            None => file_name(p@) is None,
        },
{
    let segs = split_str(p, '/');
    let ghost sv = views(segs@);
    let mut j: usize = segs.len();
    while j > 0 && (segs[j - 1].as_str().unicode_len() == 0 || is_dot_run(
        segs[j - 1].as_str(),
        1,
    ))
        invariant
            sv == views(segs@),
            sv == split_on(p@, '/'),
            j <= segs.len(),
            forall|k: int| j <= k < sv.len() ==> is_skipped(#[trigger] sv[k]),
        decreases j,
    {
        proof {
            let seg = sv[j - 1];
            assert(seg == segs@[j - 1]@);
            if seg.len() == 1 {
                assert(seg =~= seq!['.']);
            }
        }
        j = j - 1;
    }
    proof {
        lemma_last_component_take(sv, j as int);
    }
    if j == 0 {
        proof {
            assert(sv.take(0).len() == 0);
        }
        return None;
    }
    let last = &segs[j - 1];
    proof {
        assert(sv.take(j as int).last() == last@);
        assert(sv.take(j as int).len() > 0);
        if last@ == seq!['.'] {
            assert(last@.len() == 1 && last@[0] == '.');
        }
        assert(!is_skipped(last@));
        assert(last_component(sv) == Some(last@));
    }
    if is_dot_run(last.as_str(), 2) {
        proof {
            assert(last@ =~= seq!['.', '.']);
        }
        None
    } else {
        proof {
            if last@ == seq!['.', '.'] {
                assert(last@[0] == '.' && last@[1] == '.');
            }
        }
        Some(last.clone())
    }
}

proof fn lemma_split_at_last_dot(name: Seq<char>, j: int)
    requires
        0 < j <= name.len(),
        name[j - 1] == '.',
        forall|k: int| j <= k < name.len() ==> #[trigger] name[k] != '.',
    ensures
        split_at_last_dot(name) == Some((name.take(j - 1), name.skip(j))),
    decreases name.len() - j,
{
    if j < name.len() {
        let init = name.drop_last();
        lemma_split_at_last_dot(init, j);
        assert(init.take(j - 1) =~= name.take(j - 1));
        assert(init.skip(j).push(name.last()) =~= name.skip(j));
        assert(name[name.len() - 1] != '.');
    } else {
        assert(name.drop_last() =~= name.take(j - 1));
        assert(name.skip(j) =~= Seq::<char>::empty());
    }
}

proof fn lemma_no_dot(name: Seq<char>)
    requires
        forall|k: int| 0 <= k < name.len() ==> #[trigger] name[k] != '.',
    ensures
        split_at_last_dot(name) is None,
    decreases name.len(),
{
    if name.len() > 0 {
        let init = name.drop_last();
        assert forall|k: int| 0 <= k < init.len() implies #[trigger] init[k] != '.' by {
            assert(init[k] == name[k]);
        }
        lemma_no_dot(init);
        assert(name[name.len() - 1] != '.');
    }
}

/// The extension of the file name `name`, as `Path::extension` reads it.
pub fn name_extension(name: &str) -> (r: Option<String>)
    ensures
        match r {
            Some(e) => extension(name@) == Some(e@),
            None => extension(name@) is None,
        },
{
    let n = name.unicode_len();
    let mut j: usize = n;
    while j > 0 && name.get_char(j - 1) != '.'
        invariant
            n == name@.len(),
            j <= n,
            forall|k: int| j <= k < n ==> #[trigger] name@[k] != '.',
        decreases j,
    {
        j = j - 1;
    }
    if j == 0 {
        proof {
            lemma_no_dot(name@);
        }
        return None;
    }
    proof {
        lemma_split_at_last_dot(name@, j as int);
    }
    if j == 1 {
        None
    } else {
        proof {
            assert(name@.skip(j as int) =~= name@.subrange(j as int, n as int));
        }
        Some(String::from_str(name.substring_char(j, n)))
    }
}

/// The final component of `p`, or the empty text where it has none.
pub fn file_name_text(p: &str) -> (r: String)
    ensures
        r@ == file_name_or_empty(p@),
{
    match path_file_name(p) {
        Some(f) => f,
        None => String::new(),
    }
}

/// The extension of the final component of `p`, or the empty text where
/// there is none.
pub fn extension_text(p: &str) -> (r: String)
    ensures
        r@ == extension_or_empty(p@),
{
    match path_file_name(p) {
        Some(f) => match name_extension(f.as_str()) {
            Some(e) => e,
            None => String::new(),
        },
        None => String::new(),
    }
}

/// The segments of a path that name components: empty segments and `.`
/// are dropped, except a `.` that opens a relative path.
pub open spec fn kept_segments(segs: Seq<Seq<char>>) -> Seq<Seq<char>>
    decreases segs.len(),
{
    if segs.len() == 0 {
        Seq::<Seq<char>>::empty()
    } else {
        let rest = kept_segments(segs.drop_last());
        let seg = segs.last();
        if seg.len() == 0 || (seg == seq!['.'] && segs.len() > 1) {
            rest
        } else {
            rest.push(seg)
        }
    }
}

/// What identifies the path `p` as `Path` compares paths, component by
/// component: whether it starts at the root, and its components.
pub open spec fn path_key(p: Seq<char>) -> (bool, Seq<Seq<char>>) {
    (p.len() > 0 && p[0] == '/', kept_segments(split_on(p, '/')))
}

/// The component segments of `p`.
fn component_segments(p: &str) -> (r: Vec<String>)
    ensures
        views(r@) == kept_segments(split_on(p@, '/')),
{
    let segs = split_str(p, '/');
    let ghost sv = views(segs@);
    let mut out: Vec<String> = Vec::new();
    let mut i: usize = 0;
    proof {
        assert(sv.take(0) =~= Seq::<Seq<char>>::empty());
        assert(views(out@) =~= Seq::<Seq<char>>::empty());
    }
    while i < segs.len()
        invariant
            sv == views(segs@),
            sv == split_on(p@, '/'),
            i <= segs.len(),
            views(out@) == kept_segments(sv.take(i as int)),
        decreases segs.len() - i,
    {
        let seg = &segs[i];
        let ghost before = views(out@);
        proof {
            assert(sv.take(i + 1).drop_last() =~= sv.take(i as int));
            assert(sv.take(i + 1).last() == seg@);
            assert(sv.take(i + 1).len() == i + 1);
            if seg@.len() == 1 {
                if seg@[0] == '.' {
                    assert(seg@ =~= seq!['.']);
                }
            }
            if seg@ == seq!['.'] {
                assert(seg@.len() == 1 && seg@[0] == '.');
            }
        }
        let skip = seg.as_str().unicode_len() == 0 || (i > 0 && is_dot_run(seg.as_str(), 1));
        if !skip {
            out.push(seg.clone());
            proof {
                assert(views(out@) =~= before.push(seg@));
            }
        }
        i = i + 1;
    }
    proof {
        assert(sv.take(segs.len() as int) =~= sv);
    }
    out
}

/// A trailing separator does not change which file a path names: `a/b/`
/// names the same file as `a/b`, and the debouncer holds their events as
/// one.
pub proof fn lemma_trailing_separator_ignored(p: Seq<char>)
    requires
        p.len() > 0,
    ensures
        path_key(p.push('/')) == path_key(p),
{
    let q = p.push('/');
    assert(q.drop_last() =~= p);
    assert(q[0] == p[0]);
    let segs = split_on(q, '/');
    assert(segs == split_on(p, '/').push(Seq::<char>::empty()));
    assert(segs.drop_last() =~= split_on(p, '/'));
}

/// Whether two paths name the same file by their components, as `Path`
/// equality decides it: `a//b`, `a/./b` and `a/b/` all equal `a/b`.
pub fn same_path(a: &str, b: &str) -> (r: bool)
    ensures
        r == (path_key(a@) == path_key(b@)),
{
    let root_a = a.unicode_len() > 0 && a.get_char(0) == '/';
    let root_b = b.unicode_len() > 0 && b.get_char(0) == '/';
    if root_a != root_b {
        return false;
    }
    let ca = component_segments(a);
    let cb = component_segments(b);
    if ca.len() != cb.len() {
        proof {
            assert(views(ca@).len() != views(cb@).len());
            assert(path_key(a@).1 != path_key(b@).1);
        }
        return false;
    }
    let mut i: usize = 0;
    while i < ca.len()
        invariant
            ca.len() == cb.len(),
            views(ca@) == path_key(a@).1,
            views(cb@) == path_key(b@).1,
            path_key(a@).0 == path_key(b@).0,
            i <= ca.len(),
            forall|k: int| 0 <= k < i ==> #[trigger] ca@[k]@ == cb@[k]@,
        decreases ca.len() - i,
    {
        if ca[i] != cb[i] {
            proof {
                assert(views(ca@)[i as int] != views(cb@)[i as int]);
                assert(views(ca@) != views(cb@));
                assert(path_key(a@).1 != path_key(b@).1);
            }
            return false;
        }
        i = i + 1;
    }
    proof {
        assert(views(ca@) =~= views(cb@));
    }
    true
}

} // verus!
