//! Byte-level scanning helpers: character classes, substring search, runs,
//! and quote-delimited captures. These are the primitives the line classifier
//! is built from; every executable function is proved against a spec function
//! that states its result directly over the byte sequence.

use vstd::prelude::*;

verus! {

/// ASCII double quote.
pub const QUOTE: u8 = 34;

/// ASCII space.
pub const SPACE: u8 = 32;

/// ASCII closing bracket.
pub const RBRACKET: u8 = 93;

/// ASCII closing parenthesis.
pub const RPAREN: u8 = 41;

/// ASCII dot.
pub const DOT: u8 = 46;

/// ASCII slash.
pub const SLASH: u8 = 47;

/// The character classes the scene-file grammar distinguishes.
#[derive(Clone, Copy, PartialEq, Eq, Structural)]
pub enum ClassId {
    /// ASCII decimal digit.
    Digit,
    /// Digit, lower-case letter or underscore: the shape of a resource id.
    IdChar,
    /// Space or double quote: ignorable padding around a resource id.
    SpaceQuote,
    /// Lower-case letter or underscore: the tail of an assignment key.
    LowerUnderscore,
    /// Lower-case letter: the head of an assignment key.
    Lower,
}

/// Membership of a byte in one of the grammar's character classes.
pub open spec fn in_class(b: u8, c: ClassId) -> bool {
    match c {
        ClassId::Digit => 48 <= b <= 57,
        ClassId::IdChar => 48 <= b <= 57 || 97 <= b <= 122 || b == 95,
        ClassId::SpaceQuote => b == 32 || b == 34,
        ClassId::LowerUnderscore => 97 <= b <= 122 || b == 95,
        ClassId::Lower => 97 <= b <= 122,
    }
}

/// Executable class membership test.
pub fn byte_in_class(b: u8, c: ClassId) -> (r: bool)
    ensures
        r == in_class(b, c),
{
    match c {
        ClassId::Digit => 48 <= b && b <= 57,
        ClassId::IdChar => (48 <= b && b <= 57) || (97 <= b && b <= 122) || b == 95,
        ClassId::SpaceQuote => b == 32 || b == 34,
        ClassId::LowerUnderscore => (97 <= b && b <= 122) || b == 95,
        ClassId::Lower => 97 <= b && b <= 122,
    }
}

/// The end of the run of class `c` bytes that starts at `i`: the first
/// position at or after `i` holding a byte outside the class (or the end
/// of the sequence).
pub open spec fn run_end(s: Seq<u8>, i: int, c: ClassId) -> int
    decreases s.len() - i,
{
    if 0 <= i < s.len() && in_class(s[i], c) {
        run_end(s, i + 1, c)
    } else {
        i
    }
}

/// The run end never moves left, and never past the end of the sequence.
pub proof fn lemma_run_end_bounds(s: Seq<u8>, i: int, c: ClassId)
    requires
        0 <= i <= s.len(),
    ensures
        i <= run_end(s, i, c) <= s.len(),
    decreases s.len() - i,
{
    if 0 <= i < s.len() && in_class(s[i], c) {
        lemma_run_end_bounds(s, i + 1, c);
    }
}

/// Executable scan to the end of a class run.
pub fn find_run_end(s: &[u8], i: usize, c: ClassId) -> (r: usize)
    requires
        i <= s@.len(),
    ensures
        r == run_end(s@, i as int, c),
        i <= r <= s@.len(),
{
    let mut j: usize = i;
    loop
        invariant
            i <= j <= s@.len(),
            run_end(s@, i as int, c) == run_end(s@, j as int, c),
        decreases s@.len() - j,
    {
        if j == s.len() {
            return j;
        }
        if !byte_in_class(s[j], c) {
            return j;
        }
        j = j + 1;
    }
}

/// The pattern `p` occurs in `s` starting at position `i`.
pub open spec fn occurs_at(s: Seq<u8>, p: Seq<u8>, i: int) -> bool {
    0 <= i && i + p.len() <= s.len() && s.subrange(i, i + p.len()) == p
}

/// Executable occurrence test at a fixed position.
pub fn occurs_check(s: &[u8], p: &[u8], i: usize) -> (r: bool)
    ensures
        r == occurs_at(s@, p@, i as int),
{
    if i > s.len() || p.len() > s.len() - i {
        proof {
            assert(!occurs_at(s@, p@, i as int));
        }
        return false;
    }
    let n = s.len();
    let mut k: usize = 0;
    while k < p.len()
        invariant
            0 <= k <= p@.len(),
            i + p@.len() <= s@.len(),
            n == s@.len(),
            forall|m: int| 0 <= m < k ==> s@[i + m] == p@[m],
        decreases p@.len() - k,
    {
        if s[i + k] != p[k] {
            proof {
                assert(s@.subrange(i as int, i + p@.len())[k as int] == s@[i + k]);
            }
            return false;
        }
        k = k + 1;
    }
    proof {
        assert(s@.subrange(i as int, i + p@.len()) =~= p@);
    }
    true
}

/// The leftmost occurrence of `p` in `s` at or after position `i`.
pub open spec fn find_from(s: Seq<u8>, p: Seq<u8>, i: int) -> Option<int>
    decreases s.len() - i,
{
    if !(0 <= i && i + p.len() <= s.len()) {
        None
    } else if occurs_at(s, p, i) {
        Some(i)
    } else if i + p.len() == s.len() {
        None
    } else {
        find_from(s, p, i + 1)
    }
}

/// What a found position means: an occurrence, at or after the start.
pub proof fn lemma_find_from_some(s: Seq<u8>, p: Seq<u8>, i: int, j: int)
    requires
        find_from(s, p, i) == Some(j),
    ensures
        i <= j,
        occurs_at(s, p, j),
    decreases s.len() - i,
{
    if 0 <= i && i + p.len() <= s.len() && !occurs_at(s, p, i) && i + p.len() != s.len() {
        lemma_find_from_some(s, p, i + 1, j);
    }
}

/// Executable leftmost-occurrence search.
pub fn find_pat_from(s: &[u8], p: &[u8], i: usize) -> (r: Option<usize>)
    ensures
        match r {
            Some(j) => Some(j as int) == find_from(s@, p@, i as int),
            None => find_from(s@, p@, i as int) is None,
        },
{
    let mut j: usize = i;
    loop
        invariant
            i <= j,
            find_from(s@, p@, i as int) == find_from(s@, p@, j as int),
        decreases s@.len() + 1 - j,
    {
        if j > s.len() || p.len() > s.len() - j {
            proof {
                assert(find_from(s@, p@, j as int) is None);
            }
            return None;
        }
        if occurs_check(s, p, j) {
            return Some(j);
        }
        if p.len() == s.len() - j {
            proof {
                assert(find_from(s@, p@, j as int) is None);
            }
            return None;
        }
        j = j + 1;
    }
}

/// Copy of the byte range `[a, b)` of `s`.
pub fn copy_range(s: &[u8], a: usize, b: usize) -> (r: Vec<u8>)
    requires
        a <= b <= s@.len(),
    ensures
        r@ == s@.subrange(a as int, b as int),
{
    let mut r: Vec<u8> = Vec::new();
    let mut j: usize = a;
    while j < b
        invariant
            a <= j <= b <= s@.len(),
            r@ == s@.subrange(a as int, j as int),
        decreases b - j,
    {
        r.push(s[j]);
        proof {
            assert(s@.subrange(a as int, j + 1 as int) =~= s@.subrange(a as int, j as int).push(
                s@[j as int],
            ));
        }
        j = j + 1;
    }
    r
}

/// Append every byte of `s` to `out`.
pub fn append_bytes(out: &mut Vec<u8>, s: &[u8])
    ensures
        final(out)@ == old(out)@ + s@,
{
    let mut j: usize = 0;
    proof {
        assert(out@ =~= old(out)@ + s@.subrange(0, 0));
    }
    while j < s.len()
        invariant
            0 <= j <= s@.len(),
            out@ == old(out)@ + s@.subrange(0, j as int),
        decreases s@.len() - j,
    {
        out.push(s[j]);
        proof {
            assert(old(out)@ + s@.subrange(0, j + 1 as int) =~= (old(out)@ + s@.subrange(
                0,
                j as int,
            )).push(s@[j as int]));
        }
        j = j + 1;
    }
    proof {
        assert(s@.subrange(0, j as int) =~= s@);
    }
}

/// Executable byte-sequence equality.
pub fn bytes_eq(a: &[u8], b: &[u8]) -> (r: bool)
    ensures
        r == (a@ == b@),
{
    if a.len() != b.len() {
        return false;
    }
    let r = occurs_check(a, b, 0);
    proof {
        if r {
            assert(a@.subrange(0, b@.len() as int) =~= a@);
        } else {
            assert(a@.subrange(0, a@.len() as int) =~= a@);
        }
    }
    r
}

/// A quote-delimited capture starting at `j`: the bytes strictly before the
/// first double quote at or after `j`, which must exist and must not stand
/// at `j` itself (the capture is non-empty). Returns the captured bytes and
/// the position of the closing quote.
pub open spec fn capture_at(s: Seq<u8>, j: int) -> Option<(Seq<u8>, int)> {
    match find_from(s, seq![QUOTE], j) {
        Some(k) => if k > j {
            Some((s.subrange(j, k), k))
        } else {
            None
        },
        None => None,
    }
}

/// Executable quote-delimited capture.
pub fn capture_from(s: &[u8], j: usize) -> (r: Option<(Vec<u8>, usize)>)
    ensures
        match r {
            Some((v, k)) => {
                &&& capture_at(s@, j as int) matches Some((sv, sk))
                &&& v@ == sv
                &&& k as int == sk
                &&& j < k < s@.len()
            },
            None => capture_at(s@, j as int) is None,
        },
{
    let q: Vec<u8> = vec![QUOTE];
    proof {
        assert(q@ =~= seq![QUOTE]);
    }
    match find_pat_from(s, q.as_slice(), j) {
        Some(k) => {
            proof {
                lemma_find_from_some(s@, q@, j as int, k as int);
            }
            if k > j {
                Some((copy_range(s, j, k), k))
            } else {
                None
            }
        },
        None => None,
    }
}

} // verus!
