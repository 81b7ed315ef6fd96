//! Stripping repeated affixes, splitting on separators, replacing and joining.
use vstd::prelude::*;
use crate::text::{slice, push_all};
use crate::scan::{starts_with, ends_with, find_char, find_sub, shifted, has_suffix, matches_at,
    find_char_in, find_sub_in, lemma_find_char};

verus! {

/// `s` after every leading repetition of `p` is removed; `s` itself where `p` is empty.
pub open spec fn strip_start(s: Seq<char>, p: Seq<char>) -> Seq<char>
    decreases s.len(),
{
    if p.len() > 0 && starts_with(s, p) {
        strip_start(s.skip(p.len() as int), p)
    } else {
        s
    }
}

/// `s` after every trailing repetition of `p` is removed; `s` itself where `p` is empty.
pub open spec fn strip_end(s: Seq<char>, p: Seq<char>) -> Seq<char>
    decreases s.len(),
{
    if p.len() > 0 && ends_with(s, p) {
        strip_end(s.take(s.len() - p.len()), p)
    } else {
        s
    }
}

/// The part of `s` before the first `c`; all of `s` where it holds none.
pub open spec fn before_char(s: Seq<char>, c: char) -> Seq<char> {
    match find_char(s, c) {
        Some(i) => s.take(i),
        None => s,
    }
}

/// The part of `s` after the first `c`, where it holds one.
pub open spec fn after_char(s: Seq<char>, c: char) -> Option<Seq<char>> {
    match find_char(s, c) {
        Some(i) => Some(s.skip(i + 1)),
        None => None,
    }
}

/// The parts of `s` between the occurrences of `c`: one part more than there are occurrences.
pub open spec fn split(s: Seq<char>, c: char) -> Seq<Seq<char>>
    decreases s.len(),
{
    match find_char(s, c) {
        Some(i) => {
            proof {
                lemma_find_char(s, c);
            }
            seq![s.take(i)] + split(s.skip(i + 1), c)
        },
        None => seq![s],
    }
}

/// The two parts of `s` around the first occurrence of `p`.
pub open spec fn split_once(s: Seq<char>, p: Seq<char>) -> Option<(Seq<char>, Seq<char>)> {
    match find_sub(s, p) {
        Some(i) => Some((s.take(i), s.skip(i + p.len()))),
        None => None,
    }
}

/// `s` with `to` in place of each occurrence of `from`, found from the left and without
/// overlap; `s` itself where `from` is empty.
pub open spec fn replace(s: Seq<char>, from: Seq<char>, to: Seq<char>) -> Seq<char>
    decreases s.len(),
{
    if from.len() == 0 || s.len() == 0 {
        s
    } else if starts_with(s, from) {
        to + replace(s.skip(from.len() as int), from, to)
    } else {
        seq![s[0]] + replace(s.skip(1), from, to)
    }
}

/// The lines of `s`: each ends at a line feed, or at the end of the text; the line feed
/// belongs to no line, a carriage return before it stays in its line. Text after the last
/// line feed is a line only where it is not empty.
pub open spec fn lines(s: Seq<char>) -> Seq<Seq<char>>
    decreases s.len(),
{
    if s.len() == 0 {
        seq![]
    } else {
        match find_char(s, '\n') {
            Some(i) => {
                proof {
                    lemma_find_char(s, '\n');
                }
                seq![s.take(i)] + lines(s.skip(i + 1))
            },
            None => seq![s],
        }
    }
}

/// The parts in order, with `sep` between each two.
pub open spec fn join(parts: Seq<Seq<char>>, sep: Seq<char>) -> Seq<char>
    decreases parts.len(),
{
    if parts.len() == 0 {
        seq![]
    } else if parts.len() == 1 {
        parts[0]
    } else {
        join(parts.drop_last(), sep) + sep + parts.last()
    }
}

/// `n` copies of `unit`, one after the other.
pub open spec fn repeat(unit: Seq<char>, n: nat) -> Seq<char>
    decreases n,
{
    if n == 0 {
        seq![]
    } else {
        repeat(unit, (n - 1) as nat) + unit
    }
}

/// `v` without the leading repetitions of `p`.
pub fn strip_start_of(v: &Vec<char>, p: &Vec<char>) -> (r: Vec<char>)
    ensures
        r@ == strip_start(v@, p@),
{
    if p.len() == 0 {
        return slice(v, 0, v.len());
    }
    let mut i: usize = 0;
    assert(v@.skip(0) == v@);
    while matches_at(v, p, i)
        invariant
            i <= v.len(),
            p.len() > 0,
            strip_start(v@, p@) == strip_start(v@.skip(i as int), p@),
        decreases v.len() - i,
    {
        assert(v@.skip(i as int).skip(p.len() as int) == v@.skip(i + p.len()));
        i += p.len();
    }
    slice(v, i, v.len())
}

/// `v` without the trailing repetitions of `p`.
pub fn strip_end_of(v: &Vec<char>, p: &Vec<char>) -> (r: Vec<char>)
    ensures
        r@ == strip_end(v@, p@),
{
    let mut r = slice(v, 0, v.len());
    if p.len() == 0 {
        return r;
    }
    assert(v@.take(v.len() as int) == v@);
    while has_suffix(&r, p)
        invariant
            p.len() > 0,
            strip_end(v@, p@) == strip_end(r@, p@),
        decreases r.len(),
    {
        r.truncate(r.len() - p.len());
    }
    r
}

/// The part of `v` before the first `c`.
pub fn before_char_of(v: &Vec<char>, c: char) -> (r: Vec<char>)
    ensures
        r@ == before_char(v@, c),
{
    match find_char_in(v, c) {
        Some(i) => slice(v, 0, i),
        None => slice(v, 0, v.len()),
    }
}

/// The part of `v` after the first `c`.
pub fn after_char_of(v: &Vec<char>, c: char) -> (r: Option<Vec<char>>)
    ensures
        match r {
            Some(t) => after_char(v@, c) == Some(t@),
            None => after_char(v@, c) is None,
        },
{
    match find_char_in(v, c) {
        Some(i) => Some(slice(v, i + 1, v.len())),
        None => None,
    }
}

/// The views of the texts in `parts`.
pub open spec fn texts(parts: Seq<Vec<char>>) -> Seq<Seq<char>> {
    parts.map_values(|p: Vec<char>| p@)
}

/// The parts of `v` between the occurrences of `c`.
pub fn split_of(v: &Vec<char>, c: char) -> (r: Vec<Vec<char>>)
    ensures
        texts(r@) == split(v@, c),
        r.len() >= 1,
{
    let mut r: Vec<Vec<char>> = Vec::new();
    let mut start: usize = 0;
    let mut i: usize = 0;
    assert(v@.skip(0) == v@);
    assert(texts(r@) == Seq::<Seq<char>>::empty());
    while i < v.len()
        invariant
            start <= i <= v.len(),
            split(v@, c) == texts(r@) + split(v@.skip(start as int), c),
            find_char(v@.skip(start as int), c) == shifted(
                find_char(v@.skip(i as int), c),
                i - start,
            ),
        decreases v.len() - i,
    {
        if v[i] == c {
            let part = slice(v, start, i);
            proof {
                let rest = v@.skip(start as int);
                assert(find_char(rest, c) == Some(i - start));
                assert(rest.take(i - start) == part@);
                assert(rest.skip(i - start + 1) == v@.skip(i + 1));
                assert(texts(r@.push(part)) == texts(r@).push(part@));
            }
            r.push(part);
            start = i + 1;
        } else {
            assert(v@.skip(i as int).skip(1) == v@.skip(i + 1));
        }
        i += 1;
    }
    let part = slice(v, start, v.len());
    proof {
        assert(v@.skip(start as int) == part@);
        assert(texts(r@.push(part)) == texts(r@).push(part@));
    }
    r.push(part);
    r
}

/// The two parts of `v` around the first occurrence of `p`.
pub fn split_once_of(v: &Vec<char>, p: &Vec<char>) -> (r: Option<(Vec<char>, Vec<char>)>)
    ensures
        match r {
            Some(ab) => split_once(v@, p@) == Some((ab.0@, ab.1@)),
            None => split_once(v@, p@) is None,
        },
{
    match find_sub_in(v, p) {
        Some(i) => Some((slice(v, 0, i), slice(v, i + p.len(), v.len()))),
        None => None,
    }
}

/// `v` with `to` in place of each occurrence of `from`.
pub fn replace_of(v: &Vec<char>, from: &Vec<char>, to: &Vec<char>) -> (r: Vec<char>)
    ensures
        r@ == replace(v@, from@, to@),
{
    if from.len() == 0 {
        return slice(v, 0, v.len());
    }
    let mut r: Vec<char> = Vec::new();
    let mut i: usize = 0;
    assert(v@.skip(0) == v@);
    while i < v.len()
        invariant
            i <= v.len(),
            from.len() > 0,
            replace(v@, from@, to@) == r@ + replace(v@.skip(i as int), from@, to@),
        decreases v.len() - i,
    {
        if matches_at(v, from, i) {
            proof {
                assert(v@.skip(i as int).skip(from.len() as int) == v@.skip(i + from.len()));
            }
            push_all(&mut r, to);
            i += from.len();
        } else {
            proof {
                assert(v@.skip(i as int).skip(1) == v@.skip(i + 1));
                assert(r@.push(v@[i as int]) + replace(v@.skip(i + 1), from@, to@) == r@ + (
                seq![v@[i as int]] + replace(v@.skip(i + 1), from@, to@)));
            }
            r.push(v[i]);
            i += 1;
        }
    }
    r
}

/// The lines of `v`.
pub fn lines_of(v: &Vec<char>) -> (r: Vec<Vec<char>>)
    ensures
        texts(r@) == lines(v@),
{
    let mut r: Vec<Vec<char>> = Vec::new();
    let mut start: usize = 0;
    let mut i: usize = 0;
    assert(v@.skip(0) == v@);
    assert(texts(r@) == Seq::<Seq<char>>::empty());
    while i < v.len()
        invariant
            start <= i <= v.len(),
            lines(v@) == texts(r@) + lines(v@.skip(start as int)),
            find_char(v@.skip(start as int), '\n') == shifted(
                find_char(v@.skip(i as int), '\n'),
                i - start,
            ),
        decreases v.len() - i,
    {
        if v[i] == '\n' {
            let part = slice(v, start, i);
            proof {
                let rest = v@.skip(start as int);
                assert(find_char(rest, '\n') == Some(i - start));
                assert(rest.take(i - start) == v@.subrange(start as int, i as int));
                assert(rest.take(i - start) == part@);
                assert(rest.skip(i - start + 1) == v@.skip(i + 1));
                assert(texts(r@.push(part)) == texts(r@).push(part@));
            }
            r.push(part);
            start = i + 1;
        } else {
            assert(v@.skip(i as int).skip(1) == v@.skip(i + 1));
        }
        i += 1;
    }
    if start < v.len() {
        let part = slice(v, start, v.len());
        proof {
            assert(v@.skip(start as int) == part@);
            assert(texts(r@.push(part)) == texts(r@).push(part@));
        }
        r.push(part);
    }
    r
}

/// The parts in order, with `sep` between each two.
pub fn join_of(parts: &Vec<Vec<char>>, sep: &Vec<char>) -> (r: Vec<char>)
    ensures
        r@ == join(texts(parts@), sep@),
{
    let mut r: Vec<char> = Vec::new();
    let mut i: usize = 0;
    while i < parts.len()
        invariant
            i <= parts.len(),
            r@ == join(texts(parts@).take(i as int), sep@),
        decreases parts.len() - i,
    {
        proof {
            let next = texts(parts@).take(i + 1);
            assert(next.drop_last() == texts(parts@).take(i as int));
            assert(next.last() == parts@[i as int]@);
            if i > 0 {
                assert(texts(parts@).take(i as int).len() > 0);
            }
        }
        if i > 0 {
            push_all(&mut r, sep);
        }
        push_all(&mut r, &parts[i]);
        i += 1;
    }
    assert(texts(parts@).take(parts.len() as int) == texts(parts@));
    r
}

/// The parts in order, one after the other.
pub open spec fn concat(parts: Seq<Seq<char>>) -> Seq<char>
    decreases parts.len(),
{
    if parts.len() == 0 {
        seq![]
    } else {
        concat(parts.drop_last()) + parts.last()
    }
}

/// The parts in order, one after the other.
pub fn concat_of(parts: &Vec<Vec<char>>) -> (r: Vec<char>)
    ensures
        r@ == concat(texts(parts@)),
{
    let mut r: Vec<char> = Vec::new();
    let mut i: usize = 0;
    while i < parts.len()
        invariant
            i <= parts.len(),
            r@ == concat(texts(parts@).take(i as int)),
        decreases parts.len() - i,
    {
        proof {
            let next = texts(parts@).take(i + 1);
            assert(next.drop_last() == texts(parts@).take(i as int));
            assert(next.last() == parts@[i as int]@);
        }
        push_all(&mut r, &parts[i]);
        i += 1;
    }
    assert(texts(parts@).take(parts.len() as int) == texts(parts@));
    r
}

/// What pushing one more text does to the views, and to a prefix of a mapped sequence.
pub proof fn lemma_texts_push(parts: Seq<Vec<char>>, p: Vec<char>)
    ensures
        texts(parts.push(p)) == texts(parts).push(p@),
{
    assert(texts(parts.push(p)) =~= texts(parts).push(p@));
}

/// `n` copies of `unit`.
pub fn repeat_of(unit: &Vec<char>, n: usize) -> (r: Vec<char>)
    ensures
        r@ == repeat(unit@, n as nat),
{
    let mut r: Vec<char> = Vec::new();
    let mut i: usize = 0;
    while i < n
        invariant
            i <= n,
            r@ == repeat(unit@, i as nat),
        decreases n - i,
    {
        push_all(&mut r, unit);
        i += 1;
    }
    r
}

} // verus!
