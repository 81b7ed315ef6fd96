//! Searching character sequences: prefixes and suffixes, and the first and the last place
//! of a character or of a text.
use vstd::prelude::*;
use crate::text::{slice};

verus! {

/// Whether `s` begins with `p`.
pub open spec fn starts_with(s: Seq<char>, p: Seq<char>) -> bool {
    p.len() <= s.len() && s.take(p.len() as int) == p
}

/// Whether `s` ends with `p`.
pub open spec fn ends_with(s: Seq<char>, p: Seq<char>) -> bool {
    p.len() <= s.len() && s.skip(s.len() - p.len()) == p
}

/// Whether `p` stands in `s` at position `i`.
pub open spec fn occurs_at(s: Seq<char>, p: Seq<char>, i: int) -> bool {
    0 <= i && i + p.len() <= s.len() && s.subrange(i, i + p.len()) == p
}

/// Whether `p` stands somewhere in `s`.
pub open spec fn contains_sub(s: Seq<char>, p: Seq<char>) -> bool {
    exists|i: int| occurs_at(s, p, i)
}

/// `o` moved right by `k` positions.
pub open spec fn shifted(o: Option<int>, k: int) -> Option<int> {
    match o {
        Some(i) => Some(i + k),
        None => None,
    }
}

/// The position of the first `c` in `s`.
pub open spec fn find_char(s: Seq<char>, c: char) -> Option<int>
    decreases s.len(),
{
    if s.len() == 0 {
        None
    } else if s[0] == c {
        Some(0)
    } else {
        shifted(find_char(s.skip(1), c), 1)
    }
}

/// The position of the last `c` in `s`.
pub open spec fn rfind_char(s: Seq<char>, c: char) -> Option<int>
    decreases s.len(),
{
    if s.len() == 0 {
        None
    } else if s.last() == c {
        Some(s.len() - 1)
    } else {
        rfind_char(s.drop_last(), c)
    }
}

/// The first position at which `p` stands in `s`.
pub open spec fn find_sub(s: Seq<char>, p: Seq<char>) -> Option<int>
    decreases s.len(),
{
    if starts_with(s, p) {
        Some(0)
    } else if s.len() == 0 {
        None
    } else {
        shifted(find_sub(s.skip(1), p), 1)
    }
}

/// `find_char` gives the least position that holds `c`, and `None` only where no position does.
pub proof fn lemma_find_char(s: Seq<char>, c: char)
    ensures
        match find_char(s, c) {
            Some(i) => 0 <= i < s.len() && s[i] == c && forall|j: int|
                0 <= j < i ==> #[trigger] s[j] != c,
            None => forall|j: int| 0 <= j < s.len() ==> #[trigger] s[j] != c,
        },
        find_char(s, c) is Some <==> s.contains(c),
    decreases s.len(),
{
    if s.len() == 0 {
    } else if s[0] == c {
    } else {
        let t = s.skip(1);
        lemma_find_char(t, c);
        match find_char(t, c) {
            Some(i) => {
                assert(s[i + 1] == t[i]);
                assert forall|j: int| 0 <= j < i + 1 implies #[trigger] s[j] != c by {
                    if j > 0 {
                        assert(s[j] == t[j - 1]);
                    }
                }
            },
            None => {
                assert forall|j: int| 0 <= j < s.len() implies #[trigger] s[j] != c by {
                    if j > 0 {
                        assert(s[j] == t[j - 1]);
                    }
                }
            },
        }
    }
}

/// `find_sub` gives the least position at which `p` stands, and `None` only where it
/// stands nowhere.
pub proof fn lemma_find_sub(s: Seq<char>, p: Seq<char>)
    ensures
        match find_sub(s, p) {
            Some(i) => occurs_at(s, p, i) && forall|j: int| 0 <= j < i ==> !occurs_at(s, p, j),
            None => forall|j: int| !occurs_at(s, p, j),
        },
        find_sub(s, p) is Some <==> contains_sub(s, p),
    decreases s.len(),
{
    if starts_with(s, p) {
        assert(s.subrange(0, 0int + p.len()) == s.take(p.len() as int));
        assert(occurs_at(s, p, 0));
    } else if s.len() == 0 {
        assert forall|j: int| !occurs_at(s, p, j) by {
            if occurs_at(s, p, j) {
                assert(s.subrange(0, 0int + p.len()) == s.take(p.len() as int));
            }
        }
    } else {
        let t = s.skip(1);
        lemma_find_sub(t, p);
        assert forall|j: int| occurs_at(s, p, j + 1) == occurs_at(t, p, j) by {
            if 0 <= j && j + p.len() <= t.len() {
                assert(s.subrange(j + 1, j + 1 + p.len()) == t.subrange(j, j + p.len()));
            }
        }
        assert(!occurs_at(s, p, 0)) by {
            if occurs_at(s, p, 0) {
                assert(s.subrange(0, 0int + p.len()) == s.take(p.len() as int));
            }
        }
        match find_sub(t, p) {
            Some(i) => {
                assert(occurs_at(s, p, i + 1));
                assert forall|j: int| 0 <= j < i + 1 implies !occurs_at(s, p, j) by {
                    if j > 0 {
                        assert(occurs_at(s, p, (j - 1) + 1) == occurs_at(t, p, j - 1));
                    }
                }
            },
            None => {
                assert forall|j: int| !occurs_at(s, p, j) by {
                    if j != 0 {
                        assert(occurs_at(s, p, (j - 1) + 1) == occurs_at(t, p, j - 1));
                    }
                }
            },
        }
    }
}

/// Whether `v` begins with `p`.
pub fn has_prefix(v: &Vec<char>, p: &Vec<char>) -> (b: bool)
    ensures
        b == starts_with(v@, p@),
{
    if p.len() > v.len() {
        return false;
    }
    let mut i: usize = 0;
    while i < p.len()
        invariant
            i <= p.len() <= v.len(),
            v@.take(i as int) == p@.take(i as int),
        decreases p.len() - i,
    {
        if v[i] != p[i] {
            proof {
                if v@.take(p.len() as int) == p@ {
                    assert(v@.take(p.len() as int)[i as int] == p@[i as int]);
                }
            }
            return false;
        }
        assert(v@.take(i + 1) == v@.take(i as int).push(v@[i as int]));
        assert(p@.take(i + 1) == p@.take(i as int).push(p@[i as int]));
        i += 1;
    }
    assert(p@.take(p.len() as int) == p@);
    true
}

/// Whether `v` ends with `p`.
pub fn has_suffix(v: &Vec<char>, p: &Vec<char>) -> (b: bool)
    ensures
        b == ends_with(v@, p@),
{
    if p.len() > v.len() {
        return false;
    }
    let d: usize = v.len() - p.len();
    let mut i: usize = 0;
    while i < p.len()
        invariant
            i <= p.len() <= v.len(),
            d == v.len() - p.len(),
            v@.subrange(d as int, d + i) == p@.take(i as int),
        decreases p.len() - i,
    {
        if v[d + i] != p[i] {
            proof {
                if v@.skip(d as int) == p@ {
                    assert(v@.skip(d as int)[i as int] == p@[i as int]);
                }
            }
            return false;
        }
        assert(v@.subrange(d as int, d + i + 1) == v@.subrange(d as int, d + i).push(
            v@[d + i],
        ));
        assert(p@.take(i + 1) == p@.take(i as int).push(p@[i as int]));
        i += 1;
    }
    assert(p@.take(p.len() as int) == p@);
    assert(v@.subrange(d as int, d + p.len()) == v@.skip(d as int));
    true
}

/// Whether `p` stands in `v` at position `at`.
pub fn matches_at(v: &Vec<char>, p: &Vec<char>, at: usize) -> (b: bool)
    requires
        at <= v.len(),
    ensures
        b == occurs_at(v@, p@, at as int),
        b == starts_with(v@.skip(at as int), p@),
{
    let rest = slice(v, at, v.len());
    let b = has_prefix(&rest, p);
    proof {
        if p.len() <= v.len() - at {
            assert(v@.skip(at as int).take(p.len() as int) == v@.subrange(
                at as int,
                at + p.len(),
            ));
        }
    }
    b
}

/// The position of the first `c` in `v`.
pub fn find_char_in(v: &Vec<char>, c: char) -> (r: Option<usize>)
    ensures
        match r {
            Some(i) => find_char(v@, c) == Some(i as int) && i < v.len(),
            None => find_char(v@, c) is None,
        },
{
    let mut i: usize = 0;
    assert(v@.skip(0) == v@);
    while i < v.len()
        invariant
            i <= v.len(),
            find_char(v@, c) == shifted(find_char(v@.skip(i as int), c), i as int),
        decreases v.len() - i,
    {
        if v[i] == c {
            return Some(i);
        }
        assert(v@.skip(i as int).skip(1) == v@.skip(i + 1));
        i += 1;
    }
    None
}

/// The position of the last `c` in `v`.
pub fn rfind_char_in(v: &Vec<char>, c: char) -> (r: Option<usize>)
    ensures
        match r {
            Some(i) => rfind_char(v@, c) == Some(i as int) && i < v.len(),
            None => rfind_char(v@, c) is None,
        },
{
    let mut n: usize = v.len();
    assert(v@.take(v.len() as int) == v@);
    while n > 0
        invariant
            n <= v.len(),
            rfind_char(v@, c) == rfind_char(v@.take(n as int), c),
        decreases n,
    {
        if v[n - 1] == c {
            return Some(n - 1);
        }
        assert(v@.take(n as int).drop_last() == v@.take(n - 1));
        n -= 1;
    }
    None
}

/// The first position at which `p` stands in `v`.
pub fn find_sub_in(v: &Vec<char>, p: &Vec<char>) -> (r: Option<usize>)
    ensures
        match r {
            Some(i) => find_sub(v@, p@) == Some(i as int) && i + p.len() <= v.len(),
            None => find_sub(v@, p@) is None,
        },
{
    let mut i: usize = 0;
    assert(v@.skip(0) == v@);
    while i < v.len()
        invariant
            i <= v.len(),
            find_sub(v@, p@) == shifted(find_sub(v@.skip(i as int), p@), i as int),
        decreases v.len() - i,
    {
        if matches_at(v, p, i) {
            return Some(i);
        }
        assert(v@.skip(i as int).skip(1) == v@.skip(i + 1));
        i += 1;
    }
    if matches_at(v, p, i) {
        return Some(i);
    }
    None
}

/// Whether `v` holds `c`.
pub fn contains_char(v: &Vec<char>, c: char) -> (b: bool)
    ensures
        b == v@.contains(c),
{
    proof {
        lemma_find_char(v@, c);
    }
    find_char_in(v, c).is_some()
}

/// Whether `p` stands somewhere in `v`.
pub fn contains(v: &Vec<char>, p: &Vec<char>) -> (b: bool)
    ensures
        b == contains_sub(v@, p@),
{
    proof {
        lemma_find_sub(v@, p@);
    }
    find_sub_in(v, p).is_some()
}

} // verus!
