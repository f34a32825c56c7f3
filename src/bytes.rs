//! Byte-sequence primitives: searching, splitting and trimming.

use vstd::prelude::*;
use vstd::slice::slice_to_vec;
use vstd::utf8::valid_utf8;

verus! {

/// True when `pat` occurs in `s` starting at index `i`.
pub open spec fn matches_at(s: Seq<u8>, pat: Seq<u8>, i: int) -> bool {
    0 <= i && i + pat.len() <= s.len() && s.subrange(i, i + pat.len()) == pat
}

/// The first index at or after `i` where `pat` occurs in `s`.
pub open spec fn find_from(s: Seq<u8>, pat: Seq<u8>, i: int) -> Option<int>
    decreases s.len() + 1 - i,
{
    if i < 0 || i > s.len() || i + pat.len() > s.len() {
        None
    } else if matches_at(s, pat, i) {
        Some(i)
    } else {
        find_from(s, pat, i + 1)
    }
}

/// The first index where `pat` occurs in `s`.
pub open spec fn find_first(s: Seq<u8>, pat: Seq<u8>) -> Option<int> {
    find_from(s, pat, 0)
}

/// A position returned by the search is an occurrence, and nothing matches
/// between the start of the search and it.
pub proof fn lemma_find_from(s: Seq<u8>, pat: Seq<u8>, i: int)
    requires
        0 <= i,
    ensures
        find_from(s, pat, i) matches Some(p) ==> i <= p && matches_at(s, pat, p) && forall|
            j: int,
        | i <= j < p ==> !matches_at(s, pat, j),
        find_from(s, pat, i) is None ==> forall|j: int| i <= j ==> !matches_at(s, pat, j),
    decreases s.len() + 1 - i,
{
    if i + pat.len() <= s.len() && !matches_at(s, pat, i) {
        lemma_find_from(s, pat, i + 1);
    }
}

/// Index of the first occurrence of `pat` in `s`.
pub fn find_bytes(s: &[u8], pat: &[u8]) -> (r: Option<usize>)
    ensures
        r matches Some(p) ==> find_first(s@, pat@) == Some(p as int),
        r is None ==> find_first(s@, pat@) is None,
{
    let n = s.len();
    let m = pat.len();
    if m > n {
        return None;
    }
    let mut i: usize = 0;
    while i <= n - m
        invariant
            n == s@.len(),
            m == pat@.len(),
            m <= n,
            i <= n - m + 1,
            find_first(s@, pat@) == find_from(s@, pat@, i as int),
        decreases n - i,
    {
        let mut k: usize = 0;
        let mut same = true;
        while k < m
            invariant
                n == s@.len(),
                m == pat@.len(),
                i + m <= n,
                k <= m,
                same <==> forall|j: int| 0 <= j < k ==> s@[i + j] == pat@[j],
            decreases m - k,
        {
            if s[i + k] != pat[k] {
                same = false;
            }
            k = k + 1;
        }
        if same {
            assert(s@.subrange(i as int, i + m) =~= pat@);
            return Some(i);
        }
        assert(!matches_at(s@, pat@, i as int)) by {
            if matches_at(s@, pat@, i as int) {
                let j = choose|j: int| 0 <= j < m && s@[i + j] != pat@[j];
                assert(s@.subrange(i as int, i + m)[j] == pat@[j]);
            }
        }
        i = i + 1;
    }
    None
}

/// The pieces of `s` between the occurrences of `sep`, searched from the left.
pub open spec fn split_on(s: Seq<u8>, sep: Seq<u8>) -> Seq<Seq<u8>>
    decreases s.len(),
{
    match find_first(s, sep) {
        Some(p) => if 0 < sep.len() && 0 <= p && p + sep.len() <= s.len() {
            seq![s.take(p)] + split_on(s.skip(p + sep.len()), sep)
        } else {
            seq![s]
        },
        None => seq![s],
    }
}

/// `s` cut around the first occurrence of `sep`, if there is one.
pub open spec fn split_once(s: Seq<u8>, sep: Seq<u8>) -> Option<(Seq<u8>, Seq<u8>)> {
    match find_first(s, sep) {
        Some(p) => Some((s.take(p), s.skip(p + sep.len()))),
        None => None,
    }
}

/// ASCII whitespace: tab, line feed, vertical tab, form feed, carriage
/// return and space.
pub open spec fn is_space(b: u8) -> bool {
    (9 <= b && b <= 13) || b == 32
}

/// `s` without its leading whitespace.
pub open spec fn trim_start(s: Seq<u8>) -> Seq<u8>
    decreases s.len(),
{
    if s.len() > 0 && is_space(s[0]) {
        trim_start(s.drop_first())
    } else {
        s
    }
}

/// `s` without its trailing whitespace.
pub open spec fn trim_end(s: Seq<u8>) -> Seq<u8>
    decreases s.len(),
{
    if s.len() > 0 && is_space(s.last()) {
        trim_end(s.drop_last())
    } else {
        s
    }
}

/// `s` without surrounding whitespace.
pub open spec fn trim(s: Seq<u8>) -> Seq<u8> {
    trim_end(trim_start(s))
}

/// The views of a sequence of byte vectors.
pub open spec fn views(v: Seq<Vec<u8>>) -> Seq<Seq<u8>> {
    v.map_values(|x: Vec<u8>| x@)
}

/// `s` holds no byte `c`.
pub open spec fn lacks(s: Seq<u8>, c: u8) -> bool {
    forall|i: int| 0 <= i < s.len() ==> s[i] != c
}

/// Searching for the one-byte pattern `c` from `i` finds `k` when `s[k]`
/// is the first `c` at or after `i`.
proof fn lemma_find_byte(s: Seq<u8>, c: u8, i: int, k: int)
    requires
        0 <= i <= k < s.len(),
        s[k] == c,
        forall|j: int| i <= j < k ==> s[j] != c,
    ensures
        find_from(s, seq![c], i) == Some(k),
    decreases k - i,
{
    let pat = seq![c];
    assert(s.subrange(i, i + 1) =~= seq![s[i]]);
    if i < k {
        assert(s.subrange(i, i + 1)[0] != pat[0]);
        assert(!matches_at(s, pat, i));
        lemma_find_byte(s, c, i + 1, k);
    } else {
        assert(s.subrange(i, i + 1) =~= pat);
    }
}

/// A sequence without the byte `c` holds no occurrence of it.
proof fn lemma_no_byte(s: Seq<u8>, c: u8, i: int)
    requires
        0 <= i,
        lacks(s, c),
    ensures
        find_from(s, seq![c], i) is None,
    decreases s.len() + 1 - i,
{
    let pat = seq![c];
    if i < s.len() {
        assert(s.subrange(i, i + 1)[0] != pat[0]);
        assert(!matches_at(s, pat, i));
        lemma_no_byte(s, c, i + 1);
    }
}

/// Cutting `a + [c] + b` at its first `c`, where `a` holds none, gives
/// `a` and `b`.
pub proof fn lemma_split_once_at_byte(a: Seq<u8>, c: u8, b: Seq<u8>)
    requires
        lacks(a, c),
    ensures
        split_once(a + seq![c] + b, seq![c]) == Some((a, b)),
{
    let s = a + seq![c] + b;
    lemma_find_byte(s, c, 0, a.len() as int);
    assert(s.take(a.len() as int) =~= a);
    assert(s.skip(a.len() as int + 1) =~= b);
}

/// Splitting at `c` peels off a first piece `a` that holds no `c`.
pub proof fn lemma_split_on_byte(a: Seq<u8>, c: u8, b: Seq<u8>)
    requires
        lacks(a, c),
    ensures
        split_on(a + seq![c] + b, seq![c]) == seq![a] + split_on(b, seq![c]),
{
    let s = a + seq![c] + b;
    lemma_find_byte(s, c, 0, a.len() as int);
    assert(s.take(a.len() as int) =~= a);
    assert(s.skip(a.len() as int + 1) =~= b);
}

/// A sequence without `c` is a single piece.
pub proof fn lemma_split_on_lacking(a: Seq<u8>, c: u8)
    requires
        lacks(a, c),
    ensures
        split_on(a, seq![c]) == seq![a],
{
    lemma_no_byte(a, c, 0);
}

/// A non-empty sequence that neither starts nor ends with whitespace is
/// its own trim.
pub proof fn lemma_trim_unchanged(s: Seq<u8>)
    requires
        s.len() > 0,
        !is_space(s[0]),
        !is_space(s.last()),
    ensures
        trim(s) == s,
{
}

/// Bytes below 128 are valid UTF-8 on their own.
pub proof fn lemma_ascii_utf8(s: Seq<u8>)
    requires
        forall|i: int| 0 <= i < s.len() ==> s[i] < 128,
    ensures
        valid_utf8(s),
    decreases s.len(),
{
    if s.len() > 0 {
        let b = s[0];
        assert(b & 0x7f <= 0x7f) by (bit_vector);
        assert(vstd::utf8::pop_first_scalar(s) =~= s.drop_first());
        lemma_ascii_utf8(s.drop_first());
    }
}

/// Splits `s` at every occurrence of `sep`.
pub fn split_bytes(s: &[u8], sep: &[u8]) -> (r: Vec<Vec<u8>>)
    requires
        sep@.len() > 0,
    ensures
        views(r@) == split_on(s@, sep@),
{
    let n = s.len();
    let m = sep.len();
    let mut pieces: Vec<Vec<u8>> = Vec::new();
    let mut start: usize = 0;
    assert(s@.skip(0) =~= s@);
    assert(views(pieces@) =~= Seq::<Seq<u8>>::empty());
    loop
        invariant
            n == s@.len(),
            m == sep@.len(),
            m > 0,
            start <= n,
            views(pieces@) + split_on(s@.skip(start as int), sep@) == split_on(s@, sep@),
        decreases n - start,
    {
        let rest = &s[start..n];
        assert(rest@ =~= s@.skip(start as int));
        match find_bytes(rest, sep) {
            Some(p) => {
                proof {
                    lemma_find_from(rest@, sep@, 0);
                }
                let piece = slice_to_vec(&rest[0..p]);
                assert(piece@ =~= rest@.take(p as int));
                let ghost before = pieces@;
                pieces.push(piece);
                assert(views(pieces@) =~= views(before) + seq![rest@.take(p as int)]);
                assert(rest@.skip(p + m) =~= s@.skip(start + p + m));
                start = start + p + m;
            },
            None => {
                let piece = slice_to_vec(rest);
                let ghost before = pieces@;
                pieces.push(piece);
                assert(views(pieces@) =~= views(before) + seq![rest@]);
                return pieces;
            },
        }
    }
}

/// Cuts `s` around the first occurrence of `sep`.
pub fn split_once_bytes(s: &[u8], sep: &[u8]) -> (r: Option<(Vec<u8>, Vec<u8>)>)
    ensures
        match r {
            Some((a, b)) => split_once(s@, sep@) == Some((a@, b@)),
            None => split_once(s@, sep@) is None,
        },
{
    match find_bytes(s, sep) {
        Some(p) => {
            proof {
                lemma_find_from(s@, sep@, 0);
            }
            assert(matches_at(s@, sep@, p as int));
            let m = sep.len();
            let n = s.len();
            assert(p + m <= n);
            let after: usize = p + m;
            let a = slice_to_vec(&s[0..p]);
            let b = slice_to_vec(&s[after..n]);
            assert(a@ =~= s@.take(p as int));
            assert(b@ =~= s@.skip(p + sep@.len()));
            Some((a, b))
        },
        None => None,
    }
}

/// A copy of `s` without surrounding whitespace.
pub fn trim_bytes(s: &[u8]) -> (r: Vec<u8>)
    ensures
        r@ == trim(s@),
{
    let n = s.len();
    let mut lo: usize = 0;
    assert(s@.subrange(0, n as int) =~= s@);
    while lo < n && (9 <= s[lo] && s[lo] <= 13 || s[lo] == 32)
        invariant
            n == s@.len(),
            lo <= n,
            trim_start(s@) == trim_start(s@.subrange(lo as int, n as int)),
        decreases n - lo,
    {
        assert(s@.subrange(lo as int, n as int).drop_first() =~= s@.subrange(lo + 1, n as int));
        lo = lo + 1;
    }
    assert(trim_start(s@) == s@.subrange(lo as int, n as int));
    let mut hi: usize = n;
    while hi > lo && (9 <= s[hi - 1] && s[hi - 1] <= 13 || s[hi - 1] == 32)
        invariant
            n == s@.len(),
            lo <= hi <= n,
            trim(s@) == trim_end(s@.subrange(lo as int, hi as int)),
        decreases hi,
    {
        assert(s@.subrange(lo as int, hi as int).drop_last() =~= s@.subrange(lo as int, hi - 1));
        hi = hi - 1;
    }
    slice_to_vec(&s[lo..hi])
}

/// True when `a` and `b` hold the same bytes.
pub fn bytes_eq(a: &[u8], b: &[u8]) -> (r: bool)
    ensures
        r == (a@ == b@),
{
    if a.len() != b.len() {
        return false;
    }
    let mut i: usize = 0;
    while i < a.len()
        invariant
            a@.len() == b@.len(),
            i <= a@.len(),
            forall|j: int| 0 <= j < i ==> a@[j] == b@[j],
        decreases a@.len() - i,
    {
        if a[i] != b[i] {
            return false;
        }
        i = i + 1;
    }
    assert(a@ =~= b@);
    true
}

/// `a`, then `b`, then `c`, in a new vector.
pub fn concat3(a: &[u8], b: &[u8], c: &[u8]) -> (r: Vec<u8>)
    ensures
        r@ == a@ + b@ + c@,
{
    let mut r = slice_to_vec(a);
    let mut tail = slice_to_vec(b);
    r.append(&mut tail);
    let mut last = slice_to_vec(c);
    r.append(&mut last);
    r
}

/// Relies on `std::str::from_utf8`, which succeeds exactly when the bytes
/// are well-formed UTF-8.
#[verifier::external_body]
pub(crate) fn is_utf8(b: &[u8]) -> (r: bool)
    ensures
        r == valid_utf8(b@),
{
    std::str::from_utf8(b).is_ok()
}

} // verus!
