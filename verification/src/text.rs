//! Character-level text helpers: whitespace trimming, splitting on a
//! separator, and stripping a repeated leading character.

use vstd::prelude::*;

verus! {

/// The Unicode `White_Space` property, which `char::is_whitespace` reports.
pub open spec fn is_space(c: char) -> bool {
    let v = c as u32;
    ||| 0x9 <= v <= 0xd
    ||| v == 0x20
    ||| v == 0x85
    ||| v == 0xa0
    ||| v == 0x1680
    ||| 0x2000 <= v <= 0x200a
    ||| v == 0x2028
    ||| v == 0x2029
    ||| v == 0x202f
    ||| v == 0x205f
    ||| v == 0x3000
}

/// Whether `c` is white space in the sense of `is_space`.
pub fn char_is_space(c: char) -> (r: bool)
    ensures
        r == is_space(c),
{
    let v = c as u32;
    (0x9 <= v && v <= 0xd) || v == 0x20 || v == 0x85 || v == 0xa0 || v == 0x1680 || (0x2000 <= v
        && v <= 0x200a) || v == 0x2028 || v == 0x2029 || v == 0x202f || v == 0x205f || v == 0x3000
}

/// `s` without its leading white space.
pub open spec fn trim_start(s: Seq<char>) -> Seq<char>
    decreases s.len(),
{
    if s.len() > 0 && is_space(s[0]) {
        trim_start(s.drop_first())
    } else {
        s
    }
}

/// `s` without its trailing white space.
pub open spec fn trim_end(s: Seq<char>) -> Seq<char>
    decreases s.len(),
{
    if s.len() > 0 && is_space(s.last()) {
        trim_end(s.drop_last())
    } else {
        s
    }
}

/// `s` without leading and trailing white space, as `str::trim` gives it.
pub open spec fn trim(s: Seq<char>) -> Seq<char> {
    trim_end(trim_start(s))
}

proof fn lemma_trim_start_skip(s: Seq<char>, i: int)
    requires
        0 <= i <= s.len(),
        forall|k: int| 0 <= k < i ==> is_space(#[trigger] s[k]),
    ensures
        trim_start(s) == trim_start(s.skip(i)),
    decreases i,
{
    if i > 0 {
        lemma_trim_start_skip(s, i - 1);
        assert(is_space(s[i - 1]));
        assert(s.skip(i - 1)[0] == s[i - 1]);
        assert(s.skip(i - 1).drop_first() =~= s.skip(i));
        assert(trim_start(s.skip(i - 1)) == trim_start(s.skip(i - 1).drop_first()));
    } else {
        assert(s.skip(0) =~= s);
    }
}

proof fn lemma_trim_end_take(s: Seq<char>, j: int)
    requires
        0 <= j <= s.len(),
        forall|k: int| j <= k < s.len() ==> is_space(#[trigger] s[k]),
    ensures
        trim_end(s) == trim_end(s.take(j)),
    decreases s.len() - j,
{
    if j < s.len() {
        lemma_trim_end_take(s, j + 1);
        assert(s.take(j + 1).drop_last() =~= s.take(j));
    } else {
        assert(s.take(j) =~= s);
    }
}

/// `s` without leading and trailing white space.
pub fn trim_str(s: &str) -> (r: String)
    ensures
        r@ == trim(s@),
{
    let n = s.unicode_len();
    let mut i: usize = 0;
    while i < n && char_is_space(s.get_char(i))
        invariant
            n == s@.len(),
            i <= n,
            forall|k: int| 0 <= k < i ==> is_space(#[trigger] s@[k]),
        decreases n - i,
    {
        i = i + 1;
    }
    proof {
        lemma_trim_start_skip(s@, i as int);
    }
    let ghost t = s@.skip(i as int);
    assert(trim_start(t) == t);
    let mut j: usize = n;
    while j > i && char_is_space(s.get_char(j - 1))
        invariant
            n == s@.len(),
            i <= j <= n,
            t == s@.skip(i as int),
            forall|k: int| j <= k < n ==> is_space(#[trigger] s@[k]),
        decreases j,
    {
        j = j - 1;
    }
    proof {
        lemma_trim_end_take(t, j - i);
        assert(t.take(j - i) =~= s@.subrange(i as int, j as int));
    }
    let piece = s.substring_char(i, j);
    String::from_str(piece)
}


/// The pieces of `s` between occurrences of `sep`, as `str::split` yields
/// them: one more piece than there are separators, empty pieces included.
pub open spec fn split_on(s: Seq<char>, sep: char) -> Seq<Seq<char>>
    decreases s.len(),
{
    if s.len() == 0 {
        seq![Seq::<char>::empty()]
    } else {
        let init = split_on(s.drop_last(), sep);
        if s.last() == sep {
            init.push(Seq::<char>::empty())
        } else {
            init.update(init.len() - 1, init.last().push(s.last()))
        }
    }
}

/// `split_on` never yields an empty list.
pub proof fn lemma_split_on_nonempty(s: Seq<char>, sep: char)
    ensures
        split_on(s, sep).len() >= 1,
    decreases s.len(),
{
    if s.len() > 0 {
        lemma_split_on_nonempty(s.drop_last(), sep);
    }
}

/// The pieces joined back together, with `sep` between each two.
pub open spec fn join_with(pieces: Seq<Seq<char>>, sep: char) -> Seq<char>
    decreases pieces.len(),
{
    if pieces.len() == 0 {
        Seq::<char>::empty()
    } else if pieces.len() == 1 {
        pieces[0]
    } else {
        join_with(pieces.drop_last(), sep) + seq![sep] + pieces.last()
    }
}

/// Splitting loses nothing and adds nothing: the pieces hold no separator,
/// and joined with it they give back the text.
pub proof fn lemma_split_on_joins_back(s: Seq<char>, sep: char)
    ensures
        join_with(split_on(s, sep), sep) == s,
        forall|i: int|
            0 <= i < split_on(s, sep).len() ==> !(#[trigger] split_on(s, sep)[i]).contains(sep),
    decreases s.len(),
{
    if s.len() > 0 {
        let s0 = s.drop_last();
        let c = s.last();
        let init = split_on(s0, sep);
        lemma_split_on_joins_back(s0, sep);
        lemma_split_on_nonempty(s0, sep);
        let r = split_on(s, sep);
        if c == sep {
            assert(r == init.push(Seq::<char>::empty()));
            assert(r.drop_last() =~= init);
            assert(join_with(r, sep) =~= s0 + seq![sep] + Seq::<char>::empty());
            assert(s =~= s0 + seq![sep] + Seq::<char>::empty());
            assert forall|i: int| 0 <= i < r.len() implies !(#[trigger] r[i]).contains(sep) by {
                if i < init.len() {
                    assert(r[i] == init[i]);
                } else {
                    assert(r[i] =~= Seq::<char>::empty());
                }
            }
        } else {
            let last = init.last().push(c);
            assert(r == init.update(init.len() - 1, last));
            if init.len() == 1 {
                assert(join_with(init, sep) == init[0]);
                assert(r[0] == last);
                assert(s =~= s0.push(c));
            } else {
                assert(r.drop_last() =~= init.drop_last());
                assert(join_with(init, sep) == join_with(init.drop_last(), sep) + seq![sep]
                    + init.last());
                assert(join_with(r, sep) == join_with(init.drop_last(), sep) + seq![sep] + last);
                assert(join_with(r, sep) =~= join_with(init, sep).push(c));
                assert(s =~= s0.push(c));
            }
            assert forall|i: int| 0 <= i < r.len() implies !(#[trigger] r[i]).contains(sep) by {
                if i < init.len() - 1 {
                    assert(r[i] == init[i]);
                } else {
                    assert(r[i] == last);
                    assert(!init[init.len() - 1].contains(sep));
                    if last.contains(sep) {
                        let k = choose|k: int| 0 <= k < last.len() && last[k] == sep;
                        if k < init.last().len() {
                            assert(init.last()[k] == sep);
                        }
                    }
                }
            }
        }
    } else {
        assert(split_on(s, sep) =~= seq![Seq::<char>::empty()]);
        assert(s =~= Seq::<char>::empty());
    }
}

/// The views of a list of strings.
pub open spec fn views(v: Seq<String>) -> Seq<Seq<char>> {
    v.map_values(|x: String| x@)
}

/// The pieces of `s` between occurrences of `sep`.
pub fn split_str(s: &str, sep: char) -> (r: Vec<String>)
    ensures
        views(r@) == split_on(s@, sep),
{
    let n = s.unicode_len();
    let mut pieces: Vec<String> = Vec::new();
    let mut start: usize = 0;
    let mut i: usize = 0;
    proof {
        assert(s@.take(0) =~= Seq::<char>::empty());
        assert(views(pieces@).push(s@.subrange(0, 0)) =~= seq![Seq::<char>::empty()]);
    }
    while i < n
        invariant
            n == s@.len(),
            start <= i <= n,
            views(pieces@).push(s@.subrange(start as int, i as int)) == split_on(
                s@.take(i as int),
                sep,
            ),
        decreases n - i,
    {
        let c = s.get_char(i);
        let ghost prev = views(pieces@);
        let ghost old_start = start as int;
        let ghost init = split_on(s@.take(i as int), sep);
        proof {
            assert(s@.take(i + 1).drop_last() =~= s@.take(i as int));
            assert(s@.take(i + 1).last() == c);
        }
        if c == sep {
            let piece = String::from_str(s.substring_char(start, i));
            pieces.push(piece);
            start = i + 1;
            proof {
                assert(views(pieces@) =~= prev.push(s@.subrange(old_start, i as int)));
                assert(s@.subrange(start as int, i + 1) =~= Seq::<char>::empty());
                assert(split_on(s@.take(i + 1), sep) == init.push(Seq::<char>::empty()));
                assert(views(pieces@).push(s@.subrange(start as int, i + 1)) =~= split_on(
                    s@.take(i + 1),
                    sep,
                ));
            }
        } else {
            proof {
                assert(s@.subrange(start as int, i + 1) =~= s@.subrange(start as int, i as int).push(c));
                assert(init == prev.push(s@.subrange(start as int, i as int)));
                assert(split_on(s@.take(i + 1), sep) == init.update(
                    init.len() - 1,
                    init.last().push(c),
                ));
                assert(views(pieces@).push(s@.subrange(start as int, i + 1)) =~= split_on(
                    s@.take(i + 1),
                    sep,
                ));
            }
        }
        i = i + 1;
    }
    let last = String::from_str(s.substring_char(start, n));
    pieces.push(last);
    proof {
        assert(s@.take(n as int) =~= s@);
        assert(views(pieces@) =~= views(pieces@.drop_last()).push(last@));
    }
    pieces
}


/// Each piece trimmed, with the pieces that trimming leaves empty dropped.
pub open spec fn trimmed_nonempty(pieces: Seq<Seq<char>>) -> Seq<Seq<char>>
    decreases pieces.len(),
{
    if pieces.len() == 0 {
        Seq::<Seq<char>>::empty()
    } else {
        let rest = trimmed_nonempty(pieces.drop_last());
        let t = trim(pieces.last());
        if t.len() > 0 {
            rest.push(t)
        } else {
            rest
        }
    }
}

/// A comma-separated list read as `split(',')`, `trim`, and dropping empty
/// entries.
pub open spec fn comma_list(s: Seq<char>) -> Seq<Seq<char>> {
    trimmed_nonempty(split_on(s, ','))
}

/// The entries of a comma-separated list, trimmed, without empty entries.
pub fn parse_comma_list(s: &str) -> (r: Vec<String>)
    ensures
        views(r@) == comma_list(s@),
{
    let pieces = split_str(s, ',');
    let ghost pv = views(pieces@);
    let mut out: Vec<String> = Vec::new();
    let mut i: usize = 0;
    proof {
        assert(pv.take(0) =~= Seq::<Seq<char>>::empty());
        assert(views(out@) =~= Seq::<Seq<char>>::empty());
    }
    while i < pieces.len()
        invariant
            pv == views(pieces@),
            pv == split_on(s@, ','),
            i <= pieces.len(),
            views(out@) == trimmed_nonempty(pv.take(i as int)),
        decreases pieces.len() - i,
    {
        let t = trim_str(pieces[i].as_str());
        let ghost before = views(out@);
        proof {
            assert(pv.take(i + 1).drop_last() =~= pv.take(i as int));
            assert(pv.take(i + 1).last() == pieces@[i as int]@);
        }
        if t.as_str().unicode_len() > 0 {
            out.push(t);
            proof {
                assert(views(out@) =~= before.push(t@));
            }
        }
        i = i + 1;
    }
    proof {
        assert(pv.take(pieces.len() as int) =~= pv);
    }
    out
}

/// `s` without the leading run of `c`, as `str::trim_start_matches(c)` gives it.
pub open spec fn strip_leading(s: Seq<char>, c: char) -> Seq<char>
    decreases s.len(),
{
    if s.len() > 0 && s[0] == c {
        strip_leading(s.drop_first(), c)
    } else {
        s
    }
}

proof fn lemma_strip_leading_skip(s: Seq<char>, c: char, i: int)
    requires
        0 <= i <= s.len(),
        forall|k: int| 0 <= k < i ==> #[trigger] s[k] == c,
    ensures
        strip_leading(s, c) == strip_leading(s.skip(i), c),
    decreases i,
{
    if i > 0 {
        lemma_strip_leading_skip(s, c, i - 1);
        assert(s[i - 1] == c);
        assert(s.skip(i - 1)[0] == s[i - 1]);
        assert(s.skip(i - 1).drop_first() =~= s.skip(i));
        assert(strip_leading(s.skip(i - 1), c) == strip_leading(s.skip(i - 1).drop_first(), c));
    } else {
        assert(s.skip(0) =~= s);
    }
}

proof fn lemma_strip_leading_prefix(s: Seq<char>, c: char) -> (i: int)
    ensures
        0 <= i <= s.len(),
        strip_leading(s, c) == s.skip(i),
        forall|k: int| 0 <= k < i ==> #[trigger] s[k] == c,
        strip_leading(s, c).len() > 0 ==> strip_leading(s, c)[0] != c,
    decreases s.len(),
{
    if s.len() > 0 && s[0] == c {
        let t = s.drop_first();
        let i0 = lemma_strip_leading_prefix(t, c);
        assert(t.skip(i0) =~= s.skip(i0 + 1));
        assert forall|k: int| 0 <= k < i0 + 1 implies #[trigger] s[k] == c by {
            if k > 0 {
                assert(s[k] == t[k - 1]);
            }
        }
        i0 + 1
    } else {
        assert(s.skip(0) =~= s);
        0
    }
}

/// Stripping removes the leading run of `c` and nothing else: what is left
/// is the text after a prefix made only of `c`, and it does not start with
/// `c`.
pub proof fn lemma_strip_leading_removes_run(s: Seq<char>, c: char)
    ensures
        exists|i: int|
            0 <= i <= s.len() && strip_leading(s, c) == s.skip(i) && (forall|k: int|
                0 <= k < i ==> #[trigger] s[k] == c),
        strip_leading(s, c).len() > 0 ==> strip_leading(s, c)[0] != c,
{
    let i = lemma_strip_leading_prefix(s, c);
    assert(strip_leading(s, c) == s.skip(i));
}

/// `s` without its leading run of `c`.
pub fn strip_leading_str(s: &str, c: char) -> (r: String)
    ensures
        r@ == strip_leading(s@, c),
{
    let n = s.unicode_len();
    let mut i: usize = 0;
    while i < n && s.get_char(i) == c
        invariant
            n == s@.len(),
            i <= n,
            forall|k: int| 0 <= k < i ==> #[trigger] s@[k] == c,
        decreases n - i,
    {
        i = i + 1;
    }
    proof {
        lemma_strip_leading_skip(s@, c, i as int);
        assert(s@.skip(i as int) =~= s@.subrange(i as int, n as int));
    }
    String::from_str(s.substring_char(i, n))
}

proof fn lemma_trim_start_edge(s: Seq<char>)
    ensures
        trim_start(s).len() > 0 ==> !is_space(trim_start(s)[0]),
    decreases s.len(),
{
    if s.len() > 0 && is_space(s[0]) {
        lemma_trim_start_edge(s.drop_first());
    }
}

proof fn lemma_trim_end_edges(s: Seq<char>)
    ensures
        trim_end(s).len() <= s.len(),
        trim_end(s) == s.take(trim_end(s).len() as int),
        trim_end(s).len() > 0 ==> !is_space(trim_end(s).last()),
    decreases s.len(),
{
    if s.len() > 0 && is_space(s.last()) {
        lemma_trim_end_edges(s.drop_last());
        let t = trim_end(s.drop_last());
        assert(s.drop_last().take(t.len() as int) =~= s.take(t.len() as int));
    } else {
        assert(s.take(s.len() as int) =~= s);
    }
}

proof fn lemma_trim_start_prefix(s: Seq<char>) -> (i: int)
    ensures
        0 <= i <= s.len(),
        trim_start(s) == s.skip(i),
        forall|k: int| 0 <= k < i ==> is_space(#[trigger] s[k]),
    decreases s.len(),
{
    if s.len() > 0 && is_space(s[0]) {
        let t = s.drop_first();
        let i0 = lemma_trim_start_prefix(t);
        assert(t.skip(i0) =~= s.skip(i0 + 1));
        assert forall|k: int| 0 <= k < i0 + 1 implies is_space(#[trigger] s[k]) by {
            if k > 0 {
                assert(s[k] == t[k - 1]);
            }
        }
        i0 + 1
    } else {
        assert(s.skip(0) =~= s);
        0
    }
}

proof fn lemma_trim_end_suffix(s: Seq<char>) -> (j: int)
    ensures
        0 <= j <= s.len(),
        trim_end(s) == s.take(j),
        forall|k: int| j <= k < s.len() ==> is_space(#[trigger] s[k]),
    decreases s.len(),
{
    if s.len() > 0 && is_space(s.last()) {
        let t = s.drop_last();
        let j0 = lemma_trim_end_suffix(t);
        assert(t.take(j0) =~= s.take(j0));
        assert forall|k: int| j0 <= k < s.len() implies is_space(#[trigger] s[k]) by {
            if k < s.len() - 1 {
                assert(s[k] == t[k]);
            }
        }
        j0
    } else {
        assert(s.take(s.len() as int) =~= s);
        s.len() as int
    }
}

/// Trimming removes white space at the two ends and nothing else: what is
/// left is one stretch of the text, and every character outside it is
/// white space.
pub proof fn lemma_trim_removes_only_edges(s: Seq<char>)
    ensures
        exists|i: int, j: int|
            0 <= i <= j <= s.len() && trim(s) == s.subrange(i, j) && (forall|k: int|
                0 <= k < i ==> is_space(#[trigger] s[k])) && (forall|k: int|
                j <= k < s.len() ==> is_space(#[trigger] s[k])),
{
    let i = lemma_trim_start_prefix(s);
    let t = s.skip(i);
    let j0 = lemma_trim_end_suffix(t);
    assert(t.take(j0) =~= s.subrange(i, i + j0));
    assert forall|k: int| i + j0 <= k < s.len() implies is_space(#[trigger] s[k]) by {
        assert(s[k] == t[k - i]);
    }
    assert(trim(s) == s.subrange(i, i + j0));
}

/// Trimmed text neither starts nor ends with white space.
pub proof fn lemma_trim_edges(s: Seq<char>)
    ensures
        trim(s).len() > 0 ==> !is_space(trim(s)[0]) && !is_space(trim(s).last()),
{
    lemma_trim_start_edge(s);
    lemma_trim_end_edges(trim_start(s));
    if trim(s).len() > 0 {
        assert(trim(s)[0] == trim_start(s)[0]);
    }
}

/// Every entry of a comma-separated list is non-empty, and neither starts
/// nor ends with white space.
pub proof fn lemma_comma_list_entries_clean(s: Seq<char>)
    ensures
        forall|i: int|
            0 <= i < comma_list(s).len() ==> {
                let e = #[trigger] comma_list(s)[i];
                &&& e.len() > 0
                &&& !is_space(e[0])
                &&& !is_space(e.last())
            },
{
    lemma_trimmed_nonempty_clean(split_on(s, ','));
}

proof fn lemma_trimmed_nonempty_pipeline(pieces: Seq<Seq<char>>)
    ensures
        trimmed_nonempty(pieces) == pieces.map_values(|p: Seq<char>| trim(p)).filter(
            |t: Seq<char>| t.len() > 0,
        ),
    decreases pieces.len(),
{
    reveal(Seq::filter);
    let m = pieces.map_values(|p: Seq<char>| trim(p));
    if pieces.len() > 0 {
        lemma_trimmed_nonempty_pipeline(pieces.drop_last());
        assert(m.drop_last() =~= pieces.drop_last().map_values(|p: Seq<char>| trim(p)));
        assert(m.last() == trim(pieces.last()));
    } else {
        assert(m =~= Seq::<Seq<char>>::empty());
    }
}

/// A comma-separated list reads as splitting at every comma, trimming each
/// piece and dropping the pieces left empty, in order: no entry is lost or
/// reordered, and nothing but white space and empty entries is removed.
pub proof fn lemma_comma_list_pipeline(s: Seq<char>)
    ensures
        comma_list(s) == split_on(s, ',').map_values(|p: Seq<char>| trim(p)).filter(
            |t: Seq<char>| t.len() > 0,
        ),
{
    lemma_trimmed_nonempty_pipeline(split_on(s, ','));
}

proof fn lemma_trimmed_nonempty_clean(pieces: Seq<Seq<char>>)
    ensures
        forall|i: int|
            0 <= i < trimmed_nonempty(pieces).len() ==> {
                let e = #[trigger] trimmed_nonempty(pieces)[i];
                &&& e.len() > 0
                &&& !is_space(e[0])
                &&& !is_space(e.last())
            },
    decreases pieces.len(),
{
    if pieces.len() > 0 {
        lemma_trimmed_nonempty_clean(pieces.drop_last());
        lemma_trim_edges(pieces.last());
        let rest = trimmed_nonempty(pieces.drop_last());
        let r = trimmed_nonempty(pieces);
        assert forall|i: int| 0 <= i < r.len() implies {
            let e = #[trigger] r[i];
            &&& e.len() > 0
            &&& !is_space(e[0])
            &&& !is_space(e.last())
        } by {
            if i < rest.len() {
                assert(r[i] == rest[i]);
            }
        }
    }
}

} // verus!
