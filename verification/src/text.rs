//! Character-level helpers shared by the parsing stages.
//!
//! Text is modelled as `Seq<char>`. Scanning is described by
//! [`first_match`], the smallest position at or after a start at which a
//! character of a given class stands, and everything else in this module is
//! phrased over it.

use vstd::prelude::*;
use vstd::string::StrSliceExecFns;

verus! {

/// Whether `c` has the Unicode property `White_Space`.
pub open spec fn is_space(c: char) -> bool {
    let u = c as u32;
    ||| 0x09 <= u <= 0x0D
    ||| u == 0x20
    ||| u == 0x85
    ||| u == 0xA0
    ||| u == 0x1680
    ||| 0x2000 <= u <= 0x200A
    ||| u == 0x2028
    ||| u == 0x2029
    ||| u == 0x202F
    ||| u == 0x205F
    ||| u == 0x3000
}

/// A set of characters that a scan can look for.
#[derive(Clone, Copy, Debug)]
pub enum CharClass {
    /// Exactly this character.
    Is(char),
    /// Any white space character.
    Space,
    /// Any character that is not white space.
    NonSpace,
}

impl CharClass {
    /// Whether `c` belongs to the class.
    pub open spec fn holds(self, c: char) -> bool {
        match self {
            CharClass::Is(d) => c == d,
            CharClass::Space => is_space(c),
            CharClass::NonSpace => !is_space(c),
        }
    }

    /// Tests one character against the class.
    pub fn test(self, c: char) -> (r: bool)
        ensures
            r == self.holds(c),
    {
        match self {
            CharClass::Is(d) => c == d,
            CharClass::Space => space_char(c),
            CharClass::NonSpace => !space_char(c),
        }
    }
}

/// Tests one character for white space.
pub fn space_char(c: char) -> (r: bool)
    ensures
        r == is_space(c),
{
    let u: u32 = c as u32;
    (0x09 <= u && u <= 0x0D) || u == 0x20 || u == 0x85 || u == 0xA0 || u == 0x1680 || (0x2000 <= u
        && u <= 0x200A) || u == 0x2028 || u == 0x2029 || u == 0x202F || u == 0x205F || u == 0x3000
}

/// The smallest position `p >= from` with `class.holds(s[p])`, or `s.len()`
/// when there is none. A start outside `0..=s.len()` gives `s.len()`.
pub open spec fn first_match(s: Seq<char>, class: CharClass, from: int) -> int
    decreases s.len() - from,
{
    if from < 0 || from >= s.len() {
        s.len() as int
    } else if class.holds(s[from]) {
        from
    } else {
        first_match(s, class, from + 1)
    }
}

/// What `first_match` finds: it lies between the start and the end, nothing
/// before it is in the class, and it is in the class unless it is the end.
pub proof fn lemma_first_match(s: Seq<char>, class: CharClass, from: int)
    requires
        0 <= from <= s.len(),
    ensures
        from <= first_match(s, class, from) <= s.len(),
        forall|i: int| from <= i < first_match(s, class, from) ==> !class.holds(#[trigger] s[i]),
        first_match(s, class, from) < s.len() ==> class.holds(s[first_match(s, class, from)]),
    decreases s.len() - from,
{
    if from < s.len() && !class.holds(s[from]) {
        lemma_first_match(s, class, from + 1);
    }
}

/// A position with the three properties of `lemma_first_match` is the one
/// that `first_match` finds.
pub proof fn lemma_first_match_unique(s: Seq<char>, class: CharClass, from: int, p: int)
    requires
        0 <= from <= p <= s.len(),
        forall|i: int| from <= i < p ==> !class.holds(#[trigger] s[i]),
        p < s.len() ==> class.holds(s[p]),
    ensures
        first_match(s, class, from) == p,
    decreases p - from,
{
    if from < p {
        lemma_first_match_unique(s, class, from + 1, p);
    }
}

/// Scanning a window of `s` is scanning `s` and stopping at the window's end.
pub proof fn lemma_first_match_window(s: Seq<char>, class: CharClass, lo: int, hi: int)
    requires
        0 <= lo <= hi <= s.len(),
    ensures
        first_match(s.subrange(lo, hi), class, 0) == if first_match(s, class, lo) < hi {
            first_match(s, class, lo) - lo
        } else {
            hi - lo
        },
{
    let t = s.subrange(lo, hi);
    let m = first_match(s, class, lo);
    let p = if m < hi {
        m - lo
    } else {
        hi - lo
    };
    lemma_first_match(s, class, lo);
    assert forall|i: int| 0 <= i < p implies !class.holds(#[trigger] t[i]) by {
        assert(t[i] == s[lo + i]);
    }
    if p < t.len() {
        assert(t[p] == s[lo + p]);
    }
    lemma_first_match_unique(t, class, 0, p);
}

/// Scans `v` from `from` for the first character of `class`.
pub fn scan(v: &Vec<char>, class: CharClass, from: usize) -> (p: usize)
    ensures
        p == first_match(v@, class, from as int),
        p <= v.len(),
        from <= v.len() ==> from <= p,
{
    if from >= v.len() {
        return v.len();
    }
    let mut p: usize = from;
    while p < v.len() && !class.test(v[p])
        invariant
            from <= p <= v.len(),
            forall|i: int| from <= i < p ==> !class.holds(#[trigger] v@[i]),
        decreases v.len() - p,
    {
        p += 1;
    }
    proof {
        lemma_first_match_unique(v@, class, from as int, p as int);
    }
    p
}

/// The characters of `s`, one `char` per element.
pub fn chars_of(s: &str) -> (v: Vec<char>)
    ensures
        v@ == s@,
{
    let mut v: Vec<char> = Vec::new();
    for c in it: s.chars()
        invariant
            it.seq() == s@,
            v@ == it.seq().take(it.index()),
    {
        v.push(c);
    }
    v
}

/// The part of `s` between two character positions, as an owned string.
pub fn slice_text(s: &str, from: usize, to: usize) -> (r: String)
    requires
        from <= to <= s@.len(),
    ensures
        r@ == s@.subrange(from as int, to as int),
{
    s.substring_char(from, to).to_owned()
}

/// The view of an optional string.
pub open spec fn opt_text(o: Option<String>) -> Option<Seq<char>> {
    match o {
        Some(s) => Some(s@),
        None => None,
    }
}

} // verus!
