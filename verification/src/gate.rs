//! The admission gate: input whose characters are spread too evenly is refused before
//! anything is parsed.
//!
//! It decides on a ratio in millionths: the entropy of the character frequencies
//! divided by the greatest entropy that as many distinct characters can have. The library
//! counts the characters; the caller takes the logarithms.
use vstd::prelude::*;
use std::collections::HashMap;
use crate::text::{chars_of, is_blank, is_whitespace};

verus! {

/// The design value of the threshold: 0.92, in millionths.
pub const STANDARD_THRESHOLD_PPM: u32 = 920_000;

/// The ratio of a text in which at most one distinct character occurs: 1 by definition,
/// in millionths.
pub const FULL_RATIO_PPM: u32 = 1_000_000;

/// The decision on one input.
#[derive(Debug, Clone, Copy, PartialEq, Eq)]
pub enum Admission {
    Accept,
    /// The ratio that was above the threshold.
    Reject { ratio_ppm: u32 },
}

/// An admission gate, with the threshold that it was made with.
#[derive(Debug, Clone, Copy)]
pub struct Gate {
    threshold_ppm: u32,
}

/// Blank text is accepted whatever the ratio; other text is refused exactly where the
/// ratio is above the threshold.
pub open spec fn admission(text: Seq<char>, ratio_ppm: u32, threshold_ppm: u32) -> Admission {
    if is_blank(text) {
        Admission::Accept
    } else if ratio_ppm > threshold_ppm {
        Admission::Reject { ratio_ppm }
    } else {
        Admission::Accept
    }
}

impl Gate {
    /// The threshold in millionths: a ratio above it is refused.
    pub closed spec fn threshold(&self) -> u32 {
        self.threshold_ppm
    }

    /// A gate that refuses ratios above `threshold_ppm` millionths.
    pub fn new(threshold_ppm: u32) -> (g: Gate)
        ensures
            g.threshold() == threshold_ppm,
    {
        Gate { threshold_ppm }
    }

    /// An admission gate with the design threshold.
    pub fn standard() -> (g: Gate)
        ensures
            g.threshold() == STANDARD_THRESHOLD_PPM,
    {
        Gate { threshold_ppm: STANDARD_THRESHOLD_PPM }
    }

    /// The threshold in millionths.
    pub fn threshold_ppm(&self) -> (t: u32)
        ensures
            t == self.threshold(),
    {
        self.threshold_ppm
    }

    /// Screens `text`, whose ratio the caller has computed.
    pub fn screen(&self, text: &str, ratio_ppm: u32) -> (a: Admission)
        ensures
            a == admission(text@, ratio_ppm, self.threshold()),
            is_blank(text@) ==> a == Admission::Accept,
            a != Admission::Accept ==> a == (Admission::Reject { ratio_ppm }) && ratio_ppm
                > self.threshold(),
    {
        if is_blank_text(&chars_of(text)) {
            Admission::Accept
        } else if ratio_ppm > self.threshold_ppm {
            Admission::Reject { ratio_ppm }
        } else {
            Admission::Accept
        }
    }
}

/// Whether every character of `v` is white space.
pub fn is_blank_text(v: &Vec<char>) -> (b: bool)
    ensures
        b == is_blank(v@),
{
    let mut i: usize = 0;
    while i < v.len()
        invariant
            i <= v.len(),
            forall|k: int| 0 <= k < i ==> crate::text::is_ws(#[trigger] v@[k]),
        decreases v.len() - i,
    {
        if !is_whitespace(v[i]) {
            return false;
        }
        i += 1;
    }
    true
}

/// How often `c` occurs in `s`.
pub open spec fn occurrences(s: Seq<char>, c: char) -> nat
    decreases s.len(),
{
    if s.len() == 0 {
        0
    } else {
        occurrences(s.drop_last(), c) + if s.last() == c {
            1nat
        } else {
            0nat
        }
    }
}

/// Whether at most one distinct character occurs in `text`.
pub open spec fn uniform(text: Seq<char>) -> bool {
    forall|i: int| 0 <= i < text.len() ==> #[trigger] text[i] == text[0]
}

/// The normalized ratio of `text`: 1 by definition where at most one distinct character
/// occurs in it, and the ratio that was measured everywhere else.
pub open spec fn normalized_ratio(text: Seq<char>, measured_ppm: u32) -> u32 {
    if uniform(text) {
        FULL_RATIO_PPM
    } else {
        measured_ppm
    }
}

/// Whether `m` holds, under the code point of each character of `s`, how often the
/// character occurs in `s`, and nothing else.
pub open spec fn tallies(m: Map<u32, usize>, s: Seq<char>) -> bool {
    &&& forall|c: char|
        #![trigger occurrences(s, c)]
        (m.contains_key(c as u32) <==> occurrences(s, c) > 0) && (occurrences(s, c) > 0 ==> m[c as u32]
            == occurrences(s, c))
    &&& forall|k: u32| #[trigger] m.contains_key(k) ==> (k as char) as u32 == k
}

/// No character occurs more often than the text is long.
pub proof fn lemma_occurrences_bound(s: Seq<char>, c: char)
    ensures
        occurrences(s, c) <= s.len(),
    decreases s.len(),
{
    if s.len() > 0 {
        lemma_occurrences_bound(s.drop_last(), c);
    }
}

/// How often each character of `text` occurs in it, under the character's code point.
pub fn char_counts(text: &str) -> (r: HashMap<u32, usize>)
    ensures
        tallies(r@, text@),
{
    broadcast use vstd::std_specs::hash::group_hash_axioms;

    let v = chars_of(text);
    let mut r: HashMap<u32, usize> = HashMap::new();
    let mut i: usize = 0;
    assert(v@.take(0) == Seq::<char>::empty());
    while i < v.len()
        invariant
            i <= v.len(),
            tallies(r@, v@.take(i as int)),
        decreases v.len() - i,
    {
        let c = v[i];
        let code = c as u32;
        let ghost prefix = v@.take(i as int);
        let ghost next = v@.take(i + 1);
        proof {
            assert(next.drop_last() == prefix);
            assert(next.last() == c);
            lemma_occurrences_bound(prefix, c);
            vstd::utf8::char_u32_cast(c, code);
        }
        let n: usize = match r.get(&code) {
            Some(n) => *n,
            None => 0,
        };
        assert(n == occurrences(prefix, c));
        r.insert(code, n + 1);
        proof {
            assert forall|d: char|
                #![trigger occurrences(next, d)]
                (r@.contains_key(d as u32) <==> occurrences(next, d) > 0) && (occurrences(next, d) > 0
                    ==> r@[d as u32] == occurrences(next, d)) by {
                assert(occurrences(next, d) == occurrences(prefix, d) + if d == c {
                    1nat
                } else {
                    0nat
                });
                if d != c {
                    vstd::utf8::char_u32_cast(d, d as u32);
                }
            }
        }
        i += 1;
    }
    assert(v@.take(v.len() as int) == v@);
    r
}

/// The normalized ratio of `text`, whose entropy the caller has measured as `measured_ppm`
/// millionths of the greatest that its distinct characters can have.
pub fn normalized_ratio_of(text: &str, measured_ppm: u32) -> (r: u32)
    ensures
        r == normalized_ratio(text@, measured_ppm),
{
    let v = chars_of(text);
    let mut i: usize = 0;
    while i < v.len()
        invariant
            i <= v.len(),
            v@ == text@,
            forall|k: int| 0 <= k < i ==> #[trigger] v@[k] == v@[0],
        decreases v.len() - i,
    {
        if v[i] != v[0] {
            assert(text@[i as int] != text@[0]);
            return measured_ppm;
        }
        i += 1;
    }
    FULL_RATIO_PPM
}

} // verus!
