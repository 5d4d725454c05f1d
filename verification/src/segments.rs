//! Splitting a path into `/`-separated segments, and joining segments back.
//!
//! The resolver's positional contract (segment 0 empty, segment 1 the API
//! version, segment 2 the service identifier, segments 3.. the resource path)
//! is stated over `split_chars`; `join_chars` rebuilds the resource path.

use vstd::prelude::*;
use vstd::string::*;

verus! {

/// True when `c` occurs somewhere in `s`.
pub open spec fn has_char(s: Seq<char>, c: char) -> bool {
    exists|i: int| 0 <= i < s.len() && s[i] == c
}

/// The segments of `s`, cut at every occurrence of `sep`.
///
/// The separator itself belongs to no segment. An empty string has one empty
/// segment, and every occurrence of `sep` adds one more segment, so the
/// result is never empty: `"a//b"` has segments `"a"`, `""`, `"b"`.
pub open spec fn split_chars(s: Seq<char>, sep: char) -> Seq<Seq<char>>
    decreases s.len(),
{
    if s.len() == 0 {
        seq![Seq::<char>::empty()]
    } else if s.last() == sep {
        split_chars(s.drop_last(), sep).push(Seq::<char>::empty())
    } else {
        let init = split_chars(s.drop_last(), sep);
        init.update(init.len() - 1, init.last().push(s.last()))
    }
}

/// The segments of `segs`, glued with `sep` between consecutive segments.
pub open spec fn join_chars(segs: Seq<Seq<char>>, sep: char) -> Seq<char>
    decreases segs.len(),
{
    if segs.len() == 0 {
        Seq::<char>::empty()
    } else if segs.len() == 1 {
        segs[0]
    } else {
        join_chars(segs.drop_last(), sep) + seq![sep] + segs.last()
    }
}

/// Splitting always yields at least one segment.
pub proof fn lemma_split_at_least_one(s: Seq<char>, sep: char)
    ensures
        split_chars(s, sep).len() >= 1,
    decreases s.len(),
{
    if s.len() != 0 {
        lemma_split_at_least_one(s.drop_last(), sep);
    }
}

/// Extending the last segment commutes with joining: the new character lands
/// at the very end of the joined string.
proof fn lemma_join_push_last(segs: Seq<Seq<char>>, sep: char, x: char)
    requires
        segs.len() >= 1,
    ensures
        join_chars(segs.update(segs.len() - 1, segs.last().push(x)), sep) == join_chars(
            segs,
            sep,
        ).push(x),
{
    let u = segs.update(segs.len() - 1, segs.last().push(x));
    if segs.len() == 1 {
        assert(u[0] == segs[0].push(x));
    } else {
        assert(u.drop_last() =~= segs.drop_last());
        assert(u.last() == segs.last().push(x));
        assert(join_chars(segs.drop_last(), sep) + seq![sep] + segs.last().push(x) =~= (join_chars(
            segs.drop_last(),
            sep,
        ) + seq![sep] + segs.last()).push(x));
    }
}

/// Joining the segments of `s` gives back `s` itself.
pub proof fn lemma_join_split(s: Seq<char>, sep: char)
    ensures
        join_chars(split_chars(s, sep), sep) == s,
    decreases s.len(),
{
    if s.len() == 0 {
        assert(join_chars(split_chars(s, sep), sep) =~= s);
    } else {
        let t = s.drop_last();
        lemma_join_split(t, sep);
        lemma_split_at_least_one(t, sep);
        if s.last() == sep {
            let sp = split_chars(t, sep).push(Seq::<char>::empty());
            assert(sp.drop_last() =~= split_chars(t, sep));
            assert(join_chars(sp, sep) == t + seq![sep] + Seq::<char>::empty());
            assert(t + seq![sep] + Seq::<char>::empty() =~= s);
        } else {
            lemma_join_push_last(split_chars(t, sep), sep, s.last());
            assert(t.push(s.last()) =~= s);
        }
    }
}

/// A string free of the separator is a single segment.
pub proof fn lemma_split_no_sep(s: Seq<char>, sep: char)
    requires
        !has_char(s, sep),
    ensures
        split_chars(s, sep) == seq![s],
    decreases s.len(),
{
    if s.len() == 0 {
        assert(s =~= Seq::<char>::empty());
        assert(split_chars(s, sep) =~= seq![s]);
    } else {
        let t = s.drop_last();
        assert(s[s.len() - 1] == s.last());
        assert(forall|i: int| 0 <= i < t.len() ==> t[i] == s[i]);
        assert(!has_char(t, sep));
        lemma_split_no_sep(t, sep);
        assert(t.push(s.last()) =~= s);
        assert(split_chars(s, sep) =~= seq![s]);
    }
}

/// Cutting off a separator-free first segment: splitting `seg + sep + rest`
/// yields `seg` followed by the segments of `rest`.
pub proof fn lemma_split_prepend(seg: Seq<char>, rest: Seq<char>, sep: char)
    requires
        !has_char(seg, sep),
    ensures
        split_chars(seg + seq![sep] + rest, sep) == seq![seg] + split_chars(rest, sep),
    decreases rest.len(),
{
    let s = seg + seq![sep] + rest;
    if rest.len() == 0 {
        assert(s.drop_last() =~= seg);
        assert(s.last() == sep);
        lemma_split_no_sep(seg, sep);
        assert(split_chars(s, sep) == seq![seg].push(Seq::<char>::empty()));
        assert(seq![seg].push(Seq::<char>::empty()) =~= seq![seg] + split_chars(rest, sep));
    } else {
        let t = rest.drop_last();
        let x = rest.last();
        lemma_split_prepend(seg, t, sep);
        lemma_split_at_least_one(t, sep);
        let s2 = seg + seq![sep] + t;
        assert(s.drop_last() =~= s2);
        assert(s.last() == x);
        let st = split_chars(t, sep);
        if x == sep {
            assert(split_chars(s, sep) == (seq![seg] + st).push(Seq::<char>::empty()));
            assert((seq![seg] + st).push(Seq::<char>::empty()) =~= seq![seg] + st.push(
                Seq::<char>::empty(),
            ));
            assert(split_chars(rest, sep) == st.push(Seq::<char>::empty()));
        } else {
            let init = seq![seg] + st;
            assert(split_chars(s2, sep) == init);
            assert(init.last() == st.last());
            assert(split_chars(s, sep) == init.update(init.len() - 1, st.last().push(x)));
            assert(init.update(init.len() - 1, st.last().push(x)) =~= seq![seg] + st.update(
                st.len() - 1,
                st.last().push(x),
            ));
            assert(split_chars(rest, sep) == st.update(st.len() - 1, st.last().push(x)));
        }
    }
}

/// Splits `s` at every `/`, in segment order.
pub fn split_path(s: &str) -> (segs: Vec<String>)
    ensures
        segs.deep_view() == split_chars(s@, '/'),
{
    let n = s.unicode_len();
    let mut segs: Vec<String> = Vec::new();
    let mut start: usize = 0;
    let mut j: usize = 0;
    proof {
        assert(s@.subrange(0, 0) =~= Seq::<char>::empty());
        assert(segs.deep_view() =~= Seq::<Seq<char>>::empty());
        assert(split_chars(s@.subrange(0, 0), '/') =~= segs.deep_view().push(
            s@.subrange(0, 0),
        ));
    }
    while j < n
        invariant
            start <= j <= n,
            n == s@.len(),
            split_chars(s@.subrange(0, j as int), '/') == segs.deep_view().push(
                s@.subrange(start as int, j as int),
            ),
        decreases n - j,
    {
        let ghost prefix = s@.subrange(0, j as int);
        let ghost dv = segs.deep_view();
        let c = s.get_char(j);
        assert(s@.subrange(0, j + 1) =~= prefix.push(s@[j as int]));
        assert(s@.subrange(0, j + 1).drop_last() =~= prefix);
        if c == '/' {
            let seg = s.substring_char(start, j).to_owned();
            segs.push(seg);
            proof {
                assert(segs.deep_view() =~= dv.push(s@.subrange(start as int, j as int)));
                assert(split_chars(s@.subrange(0, j + 1), '/') == segs.deep_view().push(
                    Seq::<char>::empty(),
                ));
                assert(s@.subrange(j + 1, j + 1) =~= Seq::<char>::empty());
            }
            start = j + 1;
        } else {
            proof {
                let whole = split_chars(s@.subrange(0, j + 1), '/');
                assert(whole == dv.push(s@.subrange(start as int, j as int)).update(
                    dv.len() as int,
                    s@.subrange(start as int, j as int).push(s@[j as int]),
                ));
                assert(s@.subrange(start as int, j + 1) =~= s@.subrange(
                    start as int,
                    j as int,
                ).push(s@[j as int]));
                assert(whole =~= dv.push(s@.subrange(start as int, j + 1)));
            }
        }
        j += 1;
    }
    let last = s.substring_char(start, n).to_owned();
    segs.push(last);
    proof {
        assert(s@.subrange(0, n as int) =~= s@);
        assert(segs.deep_view() =~= split_chars(s@, '/'));
    }
    segs
}

/// Joins `segs[from..]` with `/` between consecutive segments.
pub fn join_segments(segs: &Vec<String>, from: usize) -> (r: String)
    requires
        from <= segs@.len(),
    ensures
        r@ == join_chars(segs.deep_view().skip(from as int), '/'),
{
    let ghost dv = segs.deep_view();
    let mut r = String::new();
    let mut i: usize = from;
    while i < segs.len()
        invariant
            from <= i <= segs@.len(),
            dv == segs.deep_view(),
            dv.len() == segs@.len(),
            r@ == join_chars(dv.subrange(from as int, i as int), '/'),
        decreases segs@.len() - i,
    {
        let ghost sofar = dv.subrange(from as int, i as int);
        if i > from {
            r.append("/");
        }
        let seg: &String = &segs[i];
        r.append(seg.as_str());
        proof {
            reveal_strlit("/");
            assert(dv.subrange(from as int, i + 1) =~= sofar.push(dv[i as int]));
            assert(dv.subrange(from as int, i + 1).drop_last() =~= sofar);
            assert(dv[i as int] == seg@);
            if i > from {
                assert(join_chars(dv.subrange(from as int, i + 1), '/') == join_chars(sofar, '/')
                    + seq!['/'] + seg@);
            } else {
                assert(dv.subrange(from as int, i + 1) =~= seq![dv[i as int]]);
                assert(join_chars(dv.subrange(from as int, i + 1), '/') == seg@);
            }
        }
        i += 1;
    }
    proof {
        assert(dv.subrange(from as int, segs@.len() as int) =~= dv.skip(from as int));
    }
    r
}

} // verus!
