//! The line classifier. A line of the scene file matches at most one of five
//! directive shapes — external-resource declaration, sub-resource declaration,
//! node declaration, bare `key = value` assignment, or signal-connection
//! declaration — tried in that fixed order, first match wins; a line matching
//! none is ignored. `spec_classify` states the grammar; `classify` is proved
//! to decide it.

use vstd::prelude::*;
use crate::bytes::{
    ClassId,
    QUOTE,
    RBRACKET,
    RPAREN,
    byte_in_class,
    capture_at,
    capture_from,
    copy_range,
    bytes_eq,
    find_from,
    find_pat_from,
    find_run_end,
    in_class,
    lemma_find_from_some,
    occurs_at,
    occurs_check,
    run_end,
    lemma_run_end_bounds,
};
use crate::pattern::{PatId, pat, mk_pat};
use crate::model::{ExtResource, SpecExtResource};

verus! {

/// The pattern `p` opens `s`.
pub open spec fn has_prefix(s: Seq<u8>, p: Seq<u8>) -> bool {
    occurs_at(s, p, 0)
}

/// An attribute marker `p` stands at `i` and a non-empty quote-delimited
/// value follows it.
pub open spec fn attr_at(s: Seq<u8>, p: Seq<u8>, i: int) -> bool {
    occurs_at(s, p, i) && capture_at(s, i + p.len()) is Some
}

/// The value of the leftmost attribute occurrence at or after `i`: the
/// marker `p` followed by a non-empty run of bytes up to a closing quote.
pub open spec fn attr_capture_from(s: Seq<u8>, p: Seq<u8>, i: int) -> Option<Seq<u8>>
    decreases s.len() - i,
{
    if !(0 <= i && i + p.len() <= s.len()) {
        None
    } else if attr_at(s, p, i) {
        match capture_at(s, i + p.len()) {
            Some((v, _k)) => Some(v),
            None => None,
        }
    } else if i + p.len() == s.len() {
        None
    } else {
        attr_capture_from(s, p, i + 1)
    }
}

/// Executable leftmost attribute capture.
pub fn attr_capture(s: &[u8], p: &[u8]) -> (r: Option<Vec<u8>>)
    ensures
        match r {
            Some(v) => attr_capture_from(s@, p@, 0) == Some(v@),
            None => attr_capture_from(s@, p@, 0) is None,
        },
{
    let mut i: usize = 0;
    loop
        invariant
            0 <= i,
            attr_capture_from(s@, p@, 0) == attr_capture_from(s@, p@, i as int),
        decreases s@.len() + 1 - i,
    {
        if i > s.len() || p.len() > s.len() - i {
            proof {
                assert(attr_capture_from(s@, p@, i as int) is None);
            }
            return None;
        }
        if occurs_check(s, p, i) {
            match capture_from(s, i + p.len()) {
                Some((v, _k)) => {
                    return Some(v);
                },
                None => {},
            }
        }
        if p.len() == s.len() - i {
            proof {
                assert(attr_capture_from(s@, p@, i as int) is None);
            }
            return None;
        }
        i = i + 1;
    }
}

/// A parenthesized resource reference stands at `i`: the marker `p` (which
/// ends with an opening parenthesis), optional space/quote padding, a
/// non-empty run of class `cls` bytes, optional padding, and a closing
/// parenthesis.
pub open spec fn paren_ref_at(s: Seq<u8>, p: Seq<u8>, cls: ClassId, i: int) -> bool {
    occurs_at(s, p, i) && {
        let a = i + p.len();
        let b = run_end(s, a, ClassId::SpaceQuote);
        let c = run_end(s, b, cls);
        let d = run_end(s, c, ClassId::SpaceQuote);
        c > b && d < s.len() && s[d] == RPAREN
    }
}

/// The id captured by the reference standing at `i`.
pub open spec fn paren_ref_val(s: Seq<u8>, p: Seq<u8>, cls: ClassId, i: int) -> Seq<u8> {
    let a = i + p.len();
    let b = run_end(s, a, ClassId::SpaceQuote);
    let c = run_end(s, b, cls);
    s.subrange(b, c)
}

/// The id of the leftmost reference at or after `i`.
pub open spec fn paren_ref_first_from(s: Seq<u8>, p: Seq<u8>, cls: ClassId, i: int) -> Option<
    Seq<u8>,
>
    decreases s.len() - i,
{
    if !(0 <= i && i + p.len() <= s.len()) {
        None
    } else if paren_ref_at(s, p, cls, i) {
        Some(paren_ref_val(s, p, cls, i))
    } else if i + p.len() == s.len() {
        None
    } else {
        paren_ref_first_from(s, p, cls, i + 1)
    }
}

/// The id of the rightmost reference at or before `i`.
pub open spec fn paren_ref_last_down(s: Seq<u8>, p: Seq<u8>, cls: ClassId, i: int) -> Option<
    Seq<u8>,
>
    decreases i + 1,
{
    if i < 0 {
        None
    } else if paren_ref_at(s, p, cls, i) {
        Some(paren_ref_val(s, p, cls, i))
    } else {
        paren_ref_last_down(s, p, cls, i - 1)
    }
}

/// Executable test-and-capture of a reference at one position.
fn paren_ref_check(s: &[u8], p: &[u8], cls: ClassId, i: usize) -> (r: Option<Vec<u8>>)
    ensures
        match r {
            Some(v) => paren_ref_at(s@, p@, cls, i as int) && v@ == paren_ref_val(
                s@,
                p@,
                cls,
                i as int,
            ),
            None => !paren_ref_at(s@, p@, cls, i as int),
        },
{
    if !occurs_check(s, p, i) {
        return None;
    }
    let slen = s.len();
    proof {
        assert(i + p@.len() <= slen);
    }
    let a = i + p.len();
    proof {
        lemma_run_end_bounds(s@, a as int, ClassId::SpaceQuote);
    }
    let b = find_run_end(s, a, ClassId::SpaceQuote);
    let c = find_run_end(s, b, cls);
    let d = find_run_end(s, c, ClassId::SpaceQuote);
    if c > b && d < s.len() && s[d] == RPAREN {
        Some(copy_range(s, b, c))
    } else {
        None
    }
}

/// Executable leftmost reference capture.
pub fn paren_ref_first(s: &[u8], p: &[u8], cls: ClassId) -> (r: Option<Vec<u8>>)
    ensures
        match r {
            Some(v) => paren_ref_first_from(s@, p@, cls, 0) == Some(v@),
            None => paren_ref_first_from(s@, p@, cls, 0) is None,
        },
{
    let mut i: usize = 0;
    loop
        invariant
            0 <= i,
            paren_ref_first_from(s@, p@, cls, 0) == paren_ref_first_from(s@, p@, cls, i as int),
        decreases s@.len() + 1 - i,
    {
        if i > s.len() || p.len() > s.len() - i {
            proof {
                assert(paren_ref_first_from(s@, p@, cls, i as int) is None);
            }
            return None;
        }
        match paren_ref_check(s, p, cls, i) {
            Some(v) => {
                return Some(v);
            },
            None => {},
        }
        if p.len() == s.len() - i {
            proof {
                assert(paren_ref_first_from(s@, p@, cls, i as int) is None);
            }
            return None;
        }
        i = i + 1;
    }
}

/// Executable rightmost reference capture.
pub fn paren_ref_last(s: &[u8], p: &[u8], cls: ClassId) -> (r: Option<Vec<u8>>)
    ensures
        match r {
            Some(v) => paren_ref_last_down(s@, p@, cls, s@.len() - 1) == Some(v@),
            None => paren_ref_last_down(s@, p@, cls, s@.len() - 1) is None,
        },
{
    let mut ii: usize = s.len();
    loop
        invariant
            ii <= s@.len(),
            paren_ref_last_down(s@, p@, cls, s@.len() - 1) == paren_ref_last_down(
                s@,
                p@,
                cls,
                ii as int - 1,
            ),
        decreases ii,
    {
        if ii == 0 {
            return None;
        }
        match paren_ref_check(s, p, cls, ii - 1) {
            Some(v) => {
                return Some(v);
            },
            None => {},
        }
        ii = ii - 1;
    }
}

/// Every byte of `s` is an ASCII decimal digit.
pub open spec fn all_digits(s: Seq<u8>) -> bool {
    forall|i: int| 0 <= i < s.len() ==> in_class(#[trigger] s[i], ClassId::Digit)
}

/// The number written by a digit string, most significant digit first.
pub open spec fn digits_val(s: Seq<u8>) -> int
    decreases s.len(),
{
    if s.len() == 0 {
        0
    } else {
        digits_val(s.drop_last()) * 10 + (s.last() - 48)
    }
}

proof fn lemma_digits_val_nonneg(s: Seq<u8>)
    requires
        all_digits(s),
    ensures
        digits_val(s) >= 0,
    decreases s.len(),
{
    if s.len() > 0 {
        assert(all_digits(s.drop_last()));
        lemma_digits_val_nonneg(s.drop_last());
    }
}

/// A digit string is worth at least any of its prefixes.
proof fn lemma_digits_val_prefix(s: Seq<u8>, i: int)
    requires
        all_digits(s),
        0 <= i <= s.len(),
    ensures
        digits_val(s.take(i)) <= digits_val(s),
    decreases s.len() - i,
{
    if i == s.len() {
        assert(s.take(i) =~= s);
    } else {
        lemma_digits_val_prefix(s, i + 1);
        let t = s.take(i + 1);
        assert(t.drop_last() =~= s.take(i));
        assert(all_digits(t.drop_last()));
        lemma_digits_val_nonneg(t.drop_last());
        assert(digits_val(t) == digits_val(s.take(i)) * 10 + (t.last() - 48));
        assert(digits_val(s.take(i)) <= digits_val(t));
    }
}

/// The signed decimal integers a node's index attribute accepts: an optional
/// single sign, then one or more digits, the value within the range of a
/// 32-bit signed integer. Anything else does not parse.
pub open spec fn spec_parse_i32(s: Seq<u8>) -> Option<int> {
    let neg = s.len() > 0 && s[0] == 45;
    let ds = if s.len() > 0 && (s[0] == 43 || s[0] == 45) {
        s.drop_first()
    } else {
        s
    };
    if ds.len() > 0 && all_digits(ds) {
        let v = if neg {
            -digits_val(ds)
        } else {
            digits_val(ds)
        };
        if -2147483648 <= v <= 2147483647 {
            Some(v)
        } else {
            None
        }
    } else {
        None
    }
}

/// Executable signed decimal parse.
pub fn parse_i32(s: &[u8]) -> (r: Option<i32>)
    ensures
        match r {
            Some(n) => spec_parse_i32(s@) == Some(n as int),
            None => spec_parse_i32(s@) is None,
        },
{
    let n = s.len();
    if n == 0 {
        return None;
    }
    let neg = s[0] == 45;
    let start: usize = if s[0] == 43 || s[0] == 45 {
        1
    } else {
        0
    };
    let ghost ds = if start == 1 {
        s@.drop_first()
    } else {
        s@
    };
    proof {
        assert(ds.len() == n - start);
        assert(forall|k: int| 0 <= k < ds.len() ==> ds[k] == s@[k + start]);
    }
    if n == start {
        return None;
    }
    let mut j: usize = start;
    let mut mag: u64 = 0;
    while j < n
        invariant
            start <= j <= n,
            n == s@.len(),
            start == 0 || start == 1,
            (start == 1) == (s@[0] == 43 || s@[0] == 45),
            neg == (s@.len() > 0 && s@[0] == 45),
            n > start,
            ds == (if start == 1 {
                s@.drop_first()
            } else {
                s@
            }),
            ds.len() == n - start,
            forall|k: int| 0 <= k < ds.len() ==> ds[k] == s@[k + start],
            all_digits(ds.take(j - start)),
            mag == digits_val(ds.take(j - start)),
            mag <= 2147483648,
        decreases n - j,
    {
        let b = s[j];
        if !byte_in_class(b, ClassId::Digit) {
            proof {
                assert(ds[j - start] == b);
                assert(!all_digits(ds));
            }
            return None;
        }
        mag = mag * 10 + ((b - 48) as u64);
        proof {
            assert(ds.take(j + 1 - start).drop_last() =~= ds.take(j - start));
            assert(ds.take(j + 1 - start).last() == b);
            assert(all_digits(ds.take(j + 1 - start)));
        }
        j = j + 1;
        if mag > 2147483648 {
            proof {
                if all_digits(ds) {
                    lemma_digits_val_prefix(ds, j - start);
                    lemma_digits_val_nonneg(ds);
                    assert(digits_val(ds) >= mag > 2147483648);
                }
            }
            return None;
        }
    }
    proof {
        assert(ds.take(j - start) =~= ds);
    }
    if neg {
        if mag == 2147483648 {
            Some(-2147483648)
        } else {
            Some(-(mag as i32))
        }
    } else {
        if mag <= 2147483647 {
            Some(mag as i32)
        } else {
            None
        }
    }
}

/// The pieces of `s` between consecutive non-overlapping occurrences of the
/// separator `p`, scanning from `start`.
pub open spec fn split_from(s: Seq<u8>, p: Seq<u8>, start: int) -> Seq<Seq<u8>>
    decreases s.len() - start,
{
    if !(0 <= start <= s.len()) {
        Seq::empty()
    } else {
        match find_from(s, p, start) {
            None => seq![s.subrange(start, s.len() as int)],
            Some(i) => if p.len() > 0 && start <= i && i + p.len() <= s.len() {
                seq![s.subrange(start, i)] + split_from(s, p, i + p.len())
            } else {
                seq![s.subrange(start, s.len() as int)]
            },
        }
    }
}

/// View of a list of byte buffers.
pub open spec fn pieces_view(ps: Seq<Vec<u8>>) -> Seq<Seq<u8>> {
    ps.map_values(|v: Vec<u8>| v@)
}

/// Executable split on a separator pattern.
pub fn split_by(s: &[u8], p: &[u8]) -> (r: Vec<Vec<u8>>)
    requires
        p@.len() > 0,
    ensures
        pieces_view(r@) == split_from(s@, p@, 0),
{
    let mut r: Vec<Vec<u8>> = Vec::new();
    let mut start: usize = 0;
    let n = s.len();
    proof {
        assert(pieces_view(r@) =~= Seq::<Seq<u8>>::empty());
        assert(pieces_view(r@) + split_from(s@, p@, 0) =~= split_from(s@, p@, 0));
    }
    loop
        invariant
            0 <= start <= s@.len(),
            n == s@.len(),
            p@.len() > 0,
            split_from(s@, p@, 0) == pieces_view(r@) + split_from(s@, p@, start as int),
        decreases s@.len() - start,
    {
        match find_pat_from(s, p, start) {
            Some(i) => {
                proof {
                    lemma_find_from_some(s@, p@, start as int, i as int);
                    assert(i + p@.len() <= n);
                }
                let ghost prev = r@;
                let piece = copy_range(s, start, i);
                r.push(piece);
                proof {
                    assert(pieces_view(r@) =~= pieces_view(prev).push(piece@));
                }
                start = i + p.len();
                proof {
                    assert(split_from(s@, p@, 0) =~= pieces_view(r@) + split_from(
                        s@,
                        p@,
                        start as int,
                    ));
                }
            },
            None => {
                let ghost prev = r@;
                let piece = copy_range(s, start, s.len());
                r.push(piece);
                proof {
                    assert(pieces_view(r@) =~= pieces_view(prev).push(piece@));
                    assert(split_from(s@, p@, start as int) =~= seq![piece@]);
                    assert(pieces_view(r@) =~= split_from(s@, p@, 0));
                }
                return r;
            },
        }
    }
}

/// `s` with every double quote removed.
pub open spec fn strip_quotes(s: Seq<u8>) -> Seq<u8>
    decreases s.len(),
{
    if s.len() == 0 {
        Seq::empty()
    } else if s[0] == QUOTE {
        strip_quotes(s.drop_first())
    } else {
        seq![s[0]] + strip_quotes(s.drop_first())
    }
}

/// Executable quote removal.
pub fn remove_quotes(s: &[u8]) -> (r: Vec<u8>)
    ensures
        r@ == strip_quotes(s@),
{
    let mut r: Vec<u8> = Vec::new();
    let mut j: usize = 0;
    proof {
        assert(s@.skip(0) =~= s@);
        assert(r@ + strip_quotes(s@) =~= strip_quotes(s@));
    }
    while j < s.len()
        invariant
            0 <= j <= s@.len(),
            strip_quotes(s@) == r@ + strip_quotes(s@.skip(j as int)),
        decreases s@.len() - j,
    {
        proof {
            assert(s@.skip(j as int).drop_first() =~= s@.skip(j + 1));
            assert(s@.skip(j as int)[0] == s@[j as int]);
        }
        let ghost prev = r@;
        if s[j] != QUOTE {
            r.push(s[j]);
            proof {
                assert(prev + strip_quotes(s@.skip(j as int)) =~= r@ + strip_quotes(
                    s@.skip(j + 1),
                ));
            }
        }
        j = j + 1;
    }
    proof {
        assert(s@.skip(j as int) =~= Seq::<u8>::empty());
        assert(r@ + strip_quotes(s@.skip(j as int)) =~= r@);
    }
    r
}

/// One field of an external-resource declaration applied to the fields
/// gathered so far: a field is `key` `="` `value`, and the keys `path`,
/// `type`, `uid` and `id` assign the matching attribute (quotes are removed
/// from an id value); a field with any other key, or without a key/value
/// boundary, changes nothing.
pub open spec fn ext_apply_field(acc: SpecExtResource, f: Seq<u8>) -> SpecExtResource {
    let parts = split_from(f, pat(PatId::EqQuote), 0);
    if parts.len() < 2 {
        acc
    } else if parts[0] == pat(PatId::KeyPath) {
        SpecExtResource { path: parts[1], ..acc }
    } else if parts[0] == pat(PatId::KeyType) {
        SpecExtResource { kind: parts[1], ..acc }
    } else if parts[0] == pat(PatId::KeyUid) {
        SpecExtResource { uid: parts[1], ..acc }
    } else if parts[0] == pat(PatId::KeyId) {
        SpecExtResource { id: strip_quotes(parts[1]), ..acc }
    } else {
        acc
    }
}

/// The fields from position `i` on, folded left over `ext_apply_field`.
pub open spec fn ext_from_fields(fields: Seq<Seq<u8>>, i: int, acc: SpecExtResource) -> SpecExtResource
    decreases fields.len() - i,
{
    if !(0 <= i < fields.len()) {
        acc
    } else {
        ext_from_fields(fields, i + 1, ext_apply_field(acc, fields[i]))
    }
}

/// An external resource with all four attributes empty.
pub open spec fn ext_empty() -> SpecExtResource {
    SpecExtResource { path: Seq::empty(), kind: Seq::empty(), id: Seq::empty(), uid: Seq::empty() }
}

/// Executable field application.
fn ext_apply(acc: ExtResource, f: &[u8]) -> (r: ExtResource)
    ensures
        crate::model::ext_view(r) == ext_apply_field(crate::model::ext_view(acc), f@),
{
    let eq_quote = mk_pat(PatId::EqQuote);
    let parts = split_by(f, eq_quote.as_slice());
    if parts.len() < 2 {
        return acc;
    }
    proof {
        assert(pieces_view(parts@)[0] == parts@[0]@);
        assert(pieces_view(parts@)[1] == parts@[1]@);
    }
    let key_path = mk_pat(PatId::KeyPath);
    let key_type = mk_pat(PatId::KeyType);
    let key_uid = mk_pat(PatId::KeyUid);
    let key_id = mk_pat(PatId::KeyId);
    let mut acc = acc;
    if bytes_eq(parts[0].as_slice(), key_path.as_slice()) {
        acc.path = copy_range(parts[1].as_slice(), 0, parts[1].len());
        proof {
            assert(acc.path@ =~= pieces_view(parts@)[1]);
        }
    } else if bytes_eq(parts[0].as_slice(), key_type.as_slice()) {
        acc.kind = copy_range(parts[1].as_slice(), 0, parts[1].len());
        proof {
            assert(acc.kind@ =~= pieces_view(parts@)[1]);
        }
    } else if bytes_eq(parts[0].as_slice(), key_uid.as_slice()) {
        acc.uid = copy_range(parts[1].as_slice(), 0, parts[1].len());
        proof {
            assert(acc.uid@ =~= pieces_view(parts@)[1]);
        }
    } else if bytes_eq(parts[0].as_slice(), key_id.as_slice()) {
        acc.id = remove_quotes(parts[1].as_slice());
    }
    acc
}

/// The directive shapes a line can take, with extracted fields; the
/// mathematical mirror of [`Directive`].
pub enum LineKind {
    /// An external-resource declaration.
    Ext { res: SpecExtResource },
    /// A sub-resource declaration: its type tag and its id.
    Sub { kind: Seq<u8>, id: Seq<u8> },
    /// A node declaration: name, type tag, parent path, sibling index, and
    /// the id of the instanced external resource if one is named.
    NodeDecl {
        name: Seq<u8>,
        kind: Seq<u8>,
        parent: Seq<u8>,
        index: int,
        instance: Option<Seq<u8>>,
    },
    /// A signal-connection declaration.
    Conn { signal: Seq<u8>, from: Seq<u8>, to: Seq<u8>, method: Seq<u8> },
    /// A bare `key = value` assignment.
    Assign { key: Seq<u8>, val: Seq<u8> },
    /// Anything else: ignored.
    Other,
}

/// Executable classification result.
pub enum Directive {
    /// An external-resource declaration.
    Ext { res: ExtResource },
    /// A sub-resource declaration: its type tag and its id.
    Sub { kind: Vec<u8>, id: Vec<u8> },
    /// A node declaration.
    NodeDecl {
        name: Vec<u8>,
        kind: Vec<u8>,
        parent: Vec<u8>,
        index: i32,
        instance: Option<Vec<u8>>,
    },
    /// A signal-connection declaration.
    Conn { signal: Vec<u8>, from: Vec<u8>, to: Vec<u8>, method: Vec<u8> },
    /// A bare `key = value` assignment.
    Assign { key: Vec<u8>, val: Vec<u8> },
    /// Anything else: ignored.
    Other,
}

pub open spec fn directive_view(d: Directive) -> LineKind {
    match d {
        Directive::Ext { res } => LineKind::Ext { res: crate::model::ext_view(res) },
        Directive::Sub { kind, id } => LineKind::Sub { kind: kind@, id: id@ },
        Directive::NodeDecl { name, kind, parent, index, instance } => LineKind::NodeDecl {
            name: name@,
            kind: kind@,
            parent: parent@,
            index: index as int,
            instance: match instance {
                Some(v) => Some(v@),
                None => None,
            },
        },
        Directive::Conn { signal, from, to, method } => LineKind::Conn {
            signal: signal@,
            from: from@,
            to: to@,
            method: method@,
        },
        Directive::Assign { key, val } => LineKind::Assign { key: key@, val: val@ },
        Directive::Other => LineKind::Other,
    }
}

/// An external-resource declaration line: the opening marker, a field list,
/// and a closing bracket as the final byte.
pub open spec fn is_ext_line(s: Seq<u8>) -> bool {
    s.len() > pat(PatId::ExtPrefix).len() && has_prefix(s, pat(PatId::ExtPrefix)) && s[s.len() - 1]
        == RBRACKET
}

/// The field list of an external-resource declaration line.
pub open spec fn ext_line_fields(s: Seq<u8>) -> Seq<Seq<u8>> {
    split_from(
        s.subrange(pat(PatId::ExtPrefix).len() as int, s.len() - 1),
        pat(PatId::QuoteSpace),
        0,
    )
}

/// A sub-resource declaration line's type tag and id: the opening marker, a
/// non-empty quote-delimited type, the id marker, a non-empty run of id
/// bytes closed by a quote, and a closing bracket as the final byte.
pub open spec fn sub_line_parts(s: Seq<u8>) -> Option<(Seq<u8>, Seq<u8>)> {
    if has_prefix(s, pat(PatId::SubPrefix)) && s.len() > 0 && s[s.len() - 1] == RBRACKET {
        match capture_at(s, pat(PatId::SubPrefix).len() as int) {
            Some((kind, q)) => {
                if occurs_at(s, pat(PatId::IdMid), q) {
                    let b = q + pat(PatId::IdMid).len();
                    let c = run_end(s, b, ClassId::IdChar);
                    if c > b && c < s.len() && s[c] == QUOTE {
                        Some((kind, s.subrange(b, c)))
                    } else {
                        None
                    }
                } else {
                    None
                }
            },
            None => None,
        }
    } else {
        None
    }
}

/// A node declaration line's name and attribute remainder: the opening
/// marker, a non-empty quote-delimited name, then everything up to the
/// closing bracket that is the final byte.
pub open spec fn node_line_parts(s: Seq<u8>) -> Option<(Seq<u8>, Seq<u8>)> {
    if has_prefix(s, pat(PatId::NodePrefix)) && s.len() > 0 && s[s.len() - 1] == RBRACKET {
        match capture_at(s, pat(PatId::NodePrefix).len() as int) {
            Some((name, q)) => {
                if q + 1 <= s.len() - 1 {
                    Some((name, s.subrange(q + 1, s.len() - 1)))
                } else {
                    None
                }
            },
            None => None,
        }
    } else {
        None
    }
}

/// A connection declaration line's four values: signal, origin, target and
/// method, each a non-empty quote-delimited capture, chained by the fixed
/// markers and closed by a quote-bracket pair (bytes after it are ignored).
pub open spec fn conn_line_parts(s: Seq<u8>) -> Option<(Seq<u8>, Seq<u8>, Seq<u8>, Seq<u8>)> {
    if has_prefix(s, pat(PatId::ConnPrefix)) {
        match capture_at(s, pat(PatId::ConnPrefix).len() as int) {
            Some((signal, q1)) => {
                if occurs_at(s, pat(PatId::FromMid), q1) {
                    match capture_at(s, q1 + pat(PatId::FromMid).len()) {
                        Some((from, q2)) => {
                            if occurs_at(s, pat(PatId::ToMid), q2) {
                                match capture_at(s, q2 + pat(PatId::ToMid).len()) {
                                    Some((to, q3)) => {
                                        if occurs_at(s, pat(PatId::MethodMid), q3) {
                                            match capture_at(s, q3 + pat(PatId::MethodMid).len()) {
                                                Some((method, q4)) => {
                                                    if occurs_at(s, pat(PatId::ConnEnd), q4) {
                                                        Some((signal, from, to, method))
                                                    } else {
                                                        None
                                                    }
                                                },
                                                None => None,
                                            }
                                        } else {
                                            None
                                        }
                                    },
                                    None => None,
                                }
                            } else {
                                None
                            }
                        },
                        None => None,
                    }
                } else {
                    None
                }
            },
            None => None,
        }
    } else {
        None
    }
}

/// A bare assignment line's key and value: a key opening the line (a
/// lower-case letter, then lower-case letters and underscores), a spaced
/// equals sign, and the rest of the line as the value.
pub open spec fn assign_line_parts(s: Seq<u8>) -> Option<(Seq<u8>, Seq<u8>)> {
    if s.len() > 0 && in_class(s[0], ClassId::Lower) {
        let k = run_end(s, 1, ClassId::LowerUnderscore);
        if occurs_at(s, pat(PatId::AssignMid), k) {
            Some((s.subrange(0, k), s.subrange(k + pat(PatId::AssignMid).len(), s.len() as int)))
        } else {
            None
        }
    } else {
        None
    }
}

/// The classification of one line, shapes tried in declaration order:
/// external resource, sub-resource, node, bare assignment, connection;
/// first match wins, and a line matching none is ignored.
pub open spec fn spec_classify(s: Seq<u8>) -> LineKind {
    if is_ext_line(s) {
        LineKind::Ext { res: ext_from_fields(ext_line_fields(s), 0, ext_empty()) }
    } else if sub_line_parts(s) is Some {
        let (kind, id) = sub_line_parts(s).unwrap();
        LineKind::Sub { kind, id }
    } else if node_line_parts(s) is Some {
        let (name, rem) = node_line_parts(s).unwrap();
        LineKind::NodeDecl {
            name: name,
            kind: match attr_capture_from(rem, pat(PatId::TypeAttr), 0) {
                Some(v) => v,
                None => Seq::empty(),
            },
            parent: match attr_capture_from(rem, pat(PatId::ParentAttr), 0) {
                Some(v) => v,
                None => Seq::empty(),
            },
            index: match attr_capture_from(rem, pat(PatId::IndexAttr), 0) {
                Some(v) => match spec_parse_i32(v) {
                    Some(n) => n,
                    None => -1,
                },
                None => -1,
            },
            instance: paren_ref_first_from(rem, pat(PatId::InstAttr), ClassId::Digit, 0),
        }
    } else if assign_line_parts(s) is Some {
        let (key, val) = assign_line_parts(s).unwrap();
        LineKind::Assign { key, val }
    } else if conn_line_parts(s) is Some {
        let (signal, from, to, method) = conn_line_parts(s).unwrap();
        LineKind::Conn { signal, from, to, method }
    } else {
        LineKind::Other
    }
}

/// Classify one line of the file and extract its fields.
pub fn classify(s: &[u8]) -> (r: Directive)
    ensures
        directive_view(r) == spec_classify(s@),
{
    let ext_prefix = mk_pat(PatId::ExtPrefix);
    let rb: u8 = RBRACKET;
    // External-resource declaration.
    if s.len() > ext_prefix.len() && occurs_check(s, ext_prefix.as_slice(), 0) && s[s.len() - 1]
        == rb {
        let rem = copy_range(s, ext_prefix.len(), s.len() - 1);
        let quote_space = mk_pat(PatId::QuoteSpace);
        let fields = split_by(rem.as_slice(), quote_space.as_slice());
        let mut acc = ExtResource {
            path: Vec::new(),
            kind: Vec::new(),
            id: Vec::new(),
            uid: Vec::new(),
        };
        proof {
            assert(crate::model::ext_view(acc) =~= ext_empty());
            assert(ext_line_fields(s@) == pieces_view(fields@));
        }
        let ghost gfields = pieces_view(fields@);
        let mut i: usize = 0;
        while i < fields.len()
            invariant
                0 <= i <= fields@.len(),
                gfields == pieces_view(fields@),
                gfields.len() == fields@.len(),
                ext_from_fields(gfields, 0, ext_empty()) == ext_from_fields(
                    gfields,
                    i as int,
                    crate::model::ext_view(acc),
                ),
            decreases fields@.len() - i,
        {
            proof {
                assert(gfields[i as int] == fields@[i as int]@);
            }
            acc = ext_apply(acc, fields[i].as_slice());
            i = i + 1;
        }
        return Directive::Ext { res: acc };
    }
    // Sub-resource declaration.
    let sub_prefix = mk_pat(PatId::SubPrefix);
    if occurs_check(s, sub_prefix.as_slice(), 0) && s.len() > 0 && s[s.len() - 1] == rb {
        match capture_from(s, sub_prefix.len()) {
            Some((kind, q)) => {
                let id_mid = mk_pat(PatId::IdMid);
                if occurs_check(s, id_mid.as_slice(), q) {
                    let b = q + id_mid.len();
                    let c = find_run_end(s, b, ClassId::IdChar);
                    if c > b && c < s.len() && s[c] == QUOTE {
                        let id = copy_range(s, b, c);
                        return Directive::Sub { kind, id };
                    }
                }
            },
            None => {},
        }
    }
    proof {
        assert(sub_line_parts(s@) is None);
    }
    // Node declaration.
    let node_prefix = mk_pat(PatId::NodePrefix);
    if occurs_check(s, node_prefix.as_slice(), 0) && s.len() > 0 && s[s.len() - 1] == rb {
        match capture_from(s, node_prefix.len()) {
            Some((name, q)) => {
                if q + 1 <= s.len() - 1 {
                    let rem = copy_range(s, q + 1, s.len() - 1);
                    let type_attr = mk_pat(PatId::TypeAttr);
                    let parent_attr = mk_pat(PatId::ParentAttr);
                    let index_attr = mk_pat(PatId::IndexAttr);
                    let inst_attr = mk_pat(PatId::InstAttr);
                    let kind = match attr_capture(rem.as_slice(), type_attr.as_slice()) {
                        Some(v) => v,
                        None => Vec::new(),
                    };
                    let parent = match attr_capture(rem.as_slice(), parent_attr.as_slice()) {
                        Some(v) => v,
                        None => Vec::new(),
                    };
                    let index: i32 = match attr_capture(rem.as_slice(), index_attr.as_slice()) {
                        Some(v) => match parse_i32(v.as_slice()) {
                            Some(n) => n,
                            None => -1,
                        },
                        None => -1,
                    };
                    let instance = paren_ref_first(
                        rem.as_slice(),
                        inst_attr.as_slice(),
                        ClassId::Digit,
                    );
                    return Directive::NodeDecl { name, kind, parent, index, instance };
                }
            },
            None => {},
        }
    }
    proof {
        assert(node_line_parts(s@) is None);
    }
    // Bare assignment.
    if s.len() > 0 && byte_in_class(s[0], ClassId::Lower) {
        let k = find_run_end(s, 1, ClassId::LowerUnderscore);
        let assign_mid = mk_pat(PatId::AssignMid);
        if occurs_check(s, assign_mid.as_slice(), k) {
            let key = copy_range(s, 0, k);
            let val = copy_range(s, k + assign_mid.len(), s.len());
            return Directive::Assign { key, val };
        }
    }
    proof {
        assert(assign_line_parts(s@) is None);
    }
    // Connection declaration.
    let conn_prefix = mk_pat(PatId::ConnPrefix);
    if occurs_check(s, conn_prefix.as_slice(), 0) {
        match capture_from(s, conn_prefix.len()) {
            Some((signal, q1)) => {
                let from_mid = mk_pat(PatId::FromMid);
                if occurs_check(s, from_mid.as_slice(), q1) {
                    match capture_from(s, q1 + from_mid.len()) {
                        Some((from, q2)) => {
                            let to_mid = mk_pat(PatId::ToMid);
                            if occurs_check(s, to_mid.as_slice(), q2) {
                                match capture_from(s, q2 + to_mid.len()) {
                                    Some((to, q3)) => {
                                        let method_mid = mk_pat(PatId::MethodMid);
                                        if occurs_check(s, method_mid.as_slice(), q3) {
                                            match capture_from(s, q3 + method_mid.len()) {
                                                Some((method, q4)) => {
                                                    let conn_end = mk_pat(PatId::ConnEnd);
                                                    if occurs_check(s, conn_end.as_slice(), q4) {
                                                        return Directive::Conn {
                                                            signal,
                                                            from,
                                                            to,
                                                            method,
                                                        };
                                                    }
                                                },
                                                None => {},
                                            }
                                        }
                                    },
                                    None => {},
                                }
                            }
                        },
                        None => {},
                    }
                }
            },
            None => {},
        }
    }
    proof {
        assert(conn_line_parts(s@) is None);
    }
    Directive::Other
}

} // verus!
