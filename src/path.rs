//! Request paths: the canonical-form check and the content type a file name
//! implies.
use vstd::prelude::*;
use vstd::string::StrSliceExecFns;

verus! {

/// The pieces of `s` between slashes: `"a//b"` has `"a"`, `""` and `"b"`;
/// there is always at least one.
pub open spec fn pieces(s: Seq<char>) -> Seq<Seq<char>>
    decreases s.len(),
{
    if s.len() == 0 {
        seq![seq![]]
    } else {
        let p = pieces(s.drop_last());
        if s.last() == '/' {
            p.push(seq![])
        } else {
            p.update(p.len() - 1, p.last().push(s.last()))
        }
    }
}

/// The segments of a path: its pieces without a final empty one, as
/// `str::split_terminator("/")` gives them.
pub open spec fn segments(s: Seq<char>) -> Seq<Seq<char>> {
    let p = pieces(s);
    if p.last().len() == 0 {
        p.drop_last()
    } else {
        p
    }
}

/// A segment that a canonical path may not hold at position `idx`: `.`,
/// `..`, or an empty one after the first.
pub open spec fn bad_segment(seg: Seq<char>, idx: int) -> bool {
    seg == seq!['.'] || seg == seq!['.', '.'] || (seg.len() == 0 && idx > 0)
}

pub open spec fn is_canonical(s: Seq<char>) -> bool {
    forall|i: int| 0 <= i < segments(s).len() ==> !bad_segment(#[trigger] segments(s)[i], i)
}

proof fn lemma_pieces_nonempty(s: Seq<char>)
    ensures
        pieces(s).len() >= 1,
    decreases s.len(),
{
    if s.len() > 0 {
        lemma_pieces_nonempty(s.drop_last());
    }
}

fn is_bad_piece(path: &str, start: usize, end: usize, idx: usize) -> (r: bool)
    requires
        start <= end <= path@.len(),
    ensures
        r == bad_segment(path@.subrange(start as int, end as int), idx as int),
{
    let ghost seg = path@.subrange(start as int, end as int);
    if end == start {
        assert(seg.len() == 0);
        idx > 0
    } else if end - start == 1 {
        let r = path.get_char(start) == '.';
        assert(seg.len() == 1 && seg[0] == path@[start as int]);
        assert(r ==> seg =~= seq!['.']);
        r
    } else if end - start == 2 {
        let r = path.get_char(start) == '.' && path.get_char(start + 1) == '.';
        assert(seg.len() == 2 && seg[0] == path@[start as int] && seg[1] == path@[start + 1]);
        assert(r ==> seg =~= seq!['.', '.']);
        r
    } else {
        assert(seg.len() > 2);
        false
    }
}

/// `true` exactly when no segment of `path` is `.` or `..`, and none but the
/// first is empty.
pub fn check_canonical(path: &str) -> (r: bool)
    ensures
        r == is_canonical(path@),
{
    let n: usize = path.unicode_len();
    let ghost s = path@;
    let mut start: usize = 0;
    let mut idx: usize = 0;
    let mut i: usize = 0;
    proof {
        assert(s.take(0) =~= Seq::<char>::empty());
        assert(s.subrange(0, 0) =~= Seq::<char>::empty());
    }
    while i < n
        invariant
            n == s.len(),
            s == path@,
            start <= i <= n,
            idx <= i,
            pieces(s.take(i as int)).len() == idx + 1,
            pieces(s.take(i as int)).last() == s.subrange(start as int, i as int),
            forall|j: int| 0 <= j < idx ==> !bad_segment(#[trigger] pieces(s.take(i as int))[j], j),
        decreases n - i,
    {
        let c = path.get_char(i);
        let ghost p = pieces(s.take(i as int));
        assert(s.take(i + 1).drop_last() =~= s.take(i as int));
        assert(s.take(i + 1).last() == c);
        if c == '/' {
            if is_bad_piece(path, start, i, idx) {
                proof {
                    let q = pieces(s.take(i + 1));
                    assert(q == p.push(seq![]));
                    assert(q[idx as int] == p.last());
                    lemma_pieces_nonempty(s);
                    lemma_segment_prefix(s, i + 1, idx as int);
                }
                return false;
            }
            idx = idx + 1;
            start = i + 1;
            proof {
                let q = pieces(s.take(i + 1));
                assert(q == p.push(seq![]));
                assert(s.subrange(start as int, i + 1) =~= Seq::<char>::empty());
                assert forall|j: int| 0 <= j < idx implies !bad_segment(#[trigger] q[j], j) by {
                    if j < idx - 1 {
                        assert(q[j] == p[j]);
                    }
                }
            }
        } else {
            proof {
                let q = pieces(s.take(i + 1));
                assert(q == p.update(p.len() - 1, p.last().push(c)));
                assert(s.subrange(start as int, i + 1) =~= s.subrange(start as int, i as int).push(c));
                assert forall|j: int| 0 <= j < idx implies !bad_segment(#[trigger] q[j], j) by {
                    assert(q[j] == p[j]);
                }
            }
        }
        i = i + 1;
    }
    assert(s.take(n as int) =~= s);
    let last_bad = start < n && is_bad_piece(path, start, n, idx);
    proof {
        let p = pieces(s);
        let g = segments(s);
        if last_bad {
            assert(p.last().len() > 0);
            assert(g == p);
            assert(bad_segment(g[idx as int], idx as int));
        } else {
            assert forall|j: int| 0 <= j < g.len() implies !bad_segment(#[trigger] g[j], j) by {
                assert(g[j] == p[j]);
                if j == idx {
                    assert(p.last().len() > 0);
                }
            }
        }
    }
    !last_bad
}

/// Where a piece that is already complete is bad, the whole path is not
/// canonical.
proof fn lemma_segment_prefix(s: Seq<char>, k: int, idx: int)
    requires
        0 < k <= s.len(),
        0 <= idx,
        s[k - 1] == '/',
        pieces(s.take(k)).len() == idx + 2,
        bad_segment(pieces(s.take(k))[idx], idx),
    ensures
        !is_canonical(s),
{
    lemma_pieces_extend(s, k);
    lemma_pieces_nonempty(s);
    let g = segments(s);
    assert(pieces(s)[idx] == pieces(s.take(k))[idx]);
    assert(idx < g.len());
    assert(g[idx] == pieces(s)[idx]);
}

/// Pieces that a prefix ending in a slash has completed stay as they are.
proof fn lemma_pieces_extend(s: Seq<char>, k: int)
    requires
        0 < k <= s.len(),
        s[k - 1] == '/',
    ensures
        pieces(s).len() >= pieces(s.take(k)).len(),
        forall|j: int| 0 <= j < pieces(s.take(k)).len() - 1 ==> #[trigger] pieces(s)[j] == pieces(s.take(k))[j],
        pieces(s).len() > pieces(s.take(k)).len() - 1,
    decreases s.len() - k,
{
    if k == s.len() {
        assert(s.take(k) =~= s);
    } else {
        let t = s.drop_last();
        assert(t.take(k) =~= s.take(k));
        lemma_pieces_extend(t, k);
        lemma_pieces_nonempty(t);
        let p = pieces(t);
        let q = pieces(s);
        let m = pieces(s.take(k)).len();
        if s.last() == '/' {
            assert(q == p.push(seq![]));
        } else {
            assert(q == p.update(p.len() - 1, p.last().push(s.last())));
            assert(p.len() >= m);
        }
        assert forall|j: int| 0 <= j < m - 1 implies #[trigger] q[j] == pieces(s.take(k))[j] by {
            assert(p[j] == pieces(s.take(k))[j]);
        }
    }
}

pub open spec fn starts_with(s: Seq<char>, p: Seq<char>) -> bool {
    p.len() <= s.len() && s.subrange(0, p.len() as int) == p
}

pub open spec fn ends_with(s: Seq<char>, p: Seq<char>) -> bool {
    p.len() <= s.len() && s.subrange(s.len() - p.len(), s.len() as int) == p
}

/// Whether `s` holds `p` from character `at` on.
fn matches_at(s: &str, p: &str, at: usize) -> (r: bool)
    requires
        at + p@.len() <= s@.len(),
    ensures
        r == (s@.subrange(at as int, at + p@.len()) == p@),
{
    let n = p.unicode_len();
    let total = s.unicode_len();
    let mut i: usize = 0;
    while i < n
        invariant
            n == p@.len(),
            total == s@.len(),
            at + n <= s@.len(),
            i <= n,
            forall|j: int| 0 <= j < i ==> s@[at + j] == p@[j],
        decreases n - i,
    {
        if s.get_char(at + i) != p.get_char(i) {
            assert(s@.subrange(at as int, at + p@.len())[i as int] != p@[i as int]);
            return false;
        }
        i = i + 1;
    }
    assert(s@.subrange(at as int, at + p@.len()) =~= p@);
    true
}

pub fn has_prefix(s: &str, p: &str) -> (r: bool)
    ensures
        r == starts_with(s@, p@),
{
    let n = s.unicode_len();
    let m = p.unicode_len();
    m <= n && matches_at(s, p, 0)
}

pub fn has_suffix(s: &str, p: &str) -> (r: bool)
    ensures
        r == ends_with(s@, p@),
{
    let n = s.unicode_len();
    let m = p.unicode_len();
    m <= n && matches_at(s, p, n - m)
}

pub fn same_text(s: &str, p: &str) -> (r: bool)
    ensures
        r == (s@ == p@),
{
    let n = s.unicode_len();
    let m = p.unicode_len();
    if m == n {
        let r = matches_at(s, p, 0);
        assert(s@.subrange(0, n as int) =~= s@);
        r
    } else {
        false
    }
}

/// The content type that a file name's extension implies.
pub open spec fn content_type_of(f: Seq<char>) -> Seq<char> {
    if ends_with(f, ".html"@) {
        "text/html; charset=UTF-8"@
    } else if ends_with(f, ".js"@) {
        "text/javascript; charset=UTF-8"@
    } else if ends_with(f, ".css"@) {
        "text/css; charset=UTF-8"@
    } else if ends_with(f, ".png"@) {
        "image/png"@
    } else if ends_with(f, ".gif"@) {
        "image/gif"@
    } else if ends_with(f, ".jpg"@) || ends_with(f, ".jpeg"@) {
        "image/jpeg"@
    } else if ends_with(f, ".svg"@) {
        "image/svg+xml; charset=UTF-8"@
    } else if ends_with(f, ".txt"@) {
        "text/plain; charset=UTF-8"@
    } else {
        "application/octet-stream"@
    }
}

/// The content type for `filename`, by its extension.
pub fn infer_content_type(filename: &str) -> (r: &'static str)
    ensures
        r@ == content_type_of(filename@),
{
    if has_suffix(filename, ".html") {
        "text/html; charset=UTF-8"
    } else if has_suffix(filename, ".js") {
        "text/javascript; charset=UTF-8"
    } else if has_suffix(filename, ".css") {
        "text/css; charset=UTF-8"
    } else if has_suffix(filename, ".png") {
        "image/png"
    } else if has_suffix(filename, ".gif") {
        "image/gif"
    } else if has_suffix(filename, ".jpg") || has_suffix(filename, ".jpeg") {
        "image/jpeg"
    } else if has_suffix(filename, ".svg") {
        "image/svg+xml; charset=UTF-8"
    } else if has_suffix(filename, ".txt") {
        "text/plain; charset=UTF-8"
    } else {
        "application/octet-stream"
    }
}

} // verus!
