//! Ordering files for a listing: largest first, or by path; and cutting a listing to a limit.

use vstd::prelude::*;
use vstd::seq_lib::*;
use crate::record::{LffConfig, LffFile, SortMethod};

verus! {

broadcast use group_to_multiset_ensures;

/// Byte-wise lexicographic order: `a` comes no later than `b`.
pub open spec fn bytes_le(a: Seq<u8>, b: Seq<u8>) -> bool
    decreases a.len(),
{
    if a.len() == 0 {
        true
    } else if b.len() == 0 {
        false
    } else if a[0] != b[0] {
        a[0] < b[0]
    } else {
        bytes_le(a.drop_first(), b.drop_first())
    }
}

/// `a` may stand before `b` in a listing ordered by `m`.
pub open spec fn ranks_before(a: LffFile, b: LffFile, m: SortMethod) -> bool {
    match m {
        SortMethod::Size => a.size >= b.size,
        SortMethod::Name => bytes_le(a.name@, b.name@),
    }
}

/// `s` is ordered by `m`.
pub open spec fn sorted_by(s: Seq<LffFile>, m: SortMethod) -> bool {
    forall|i: int, j: int| 0 <= i < j < s.len() ==> ranks_before(s[i], s[j], m)
}

pub proof fn lemma_bytes_le_total(a: Seq<u8>, b: Seq<u8>)
    ensures
        bytes_le(a, b) || bytes_le(b, a),
    decreases a.len(),
{
    if a.len() > 0 && b.len() > 0 && a[0] == b[0] {
        lemma_bytes_le_total(a.drop_first(), b.drop_first());
    }
}

pub proof fn lemma_bytes_le_transitive(a: Seq<u8>, b: Seq<u8>, c: Seq<u8>)
    requires
        bytes_le(a, b),
        bytes_le(b, c),
    ensures
        bytes_le(a, c),
    decreases a.len(),
{
    if a.len() > 0 && b.len() > 0 && c.len() > 0 && a[0] == b[0] && b[0] == c[0] {
        lemma_bytes_le_transitive(a.drop_first(), b.drop_first(), c.drop_first());
    }
}

pub proof fn lemma_ranks_total(a: LffFile, b: LffFile, m: SortMethod)
    ensures
        ranks_before(a, b, m) || ranks_before(b, a, m),
{
    lemma_bytes_le_total(a.name@, b.name@);
}

pub proof fn lemma_ranks_transitive(a: LffFile, b: LffFile, c: LffFile, m: SortMethod)
    requires
        ranks_before(a, b, m),
        ranks_before(b, c, m),
    ensures
        ranks_before(a, c, m),
{
    if m == SortMethod::Name {
        lemma_bytes_le_transitive(a.name@, b.name@, c.name@);
    }
}

proof fn lemma_pop_multiset<A>(s: Seq<A>)
    requires
        s.len() > 0,
    ensures
        s.to_multiset() == s.drop_last().to_multiset().insert(s.last()),
{
    assert(s.drop_last().push(s.last()) =~= s);
}

/// Whether `a` comes no later than `b`, byte by byte.
pub fn bytes_before(a: &[u8], b: &[u8]) -> (r: bool)
    ensures
        r == bytes_le(a@, b@),
{
    let mut i: usize = 0;
    assert(a@.subrange(0, a@.len() as int) =~= a@);
    assert(b@.subrange(0, b@.len() as int) =~= b@);
    while i < a.len() && i < b.len() && a[i] == b[i]
        invariant
            i <= a@.len(),
            i <= b@.len(),
            bytes_le(a@, b@) == bytes_le(a@.subrange(i as int, a@.len() as int), b@.subrange(
                i as int,
                b@.len() as int,
            )),
        decreases a.len() - i,
    {
        assert(a@.subrange(i as int, a@.len() as int).drop_first() =~= a@.subrange(
            i + 1,
            a@.len() as int,
        ));
        assert(b@.subrange(i as int, b@.len() as int).drop_first() =~= b@.subrange(
            i + 1,
            b@.len() as int,
        ));
        i = i + 1;
    }
    if i == a.len() {
        true
    } else if i == b.len() {
        false
    } else {
        a[i] < b[i]
    }
}

/// Whether `a` may stand before `b` in a listing ordered by `m`.
pub fn file_before(a: &LffFile, b: &LffFile, m: SortMethod) -> (r: bool)
    ensures
        r == ranks_before(*a, *b, m),
{
    match m {
        SortMethod::Size => a.size >= b.size,
        SortMethod::Name => bytes_before(a.name.as_slice(), b.name.as_slice()),
    }
}

/// Merges two ordered runs into one.
fn merge_runs(a: Vec<LffFile>, b: Vec<LffFile>, m: SortMethod) -> (r: Vec<LffFile>)
    requires
        sorted_by(a@, m),
        sorted_by(b@, m),
    ensures
        r@.to_multiset() == a@.to_multiset().add(b@.to_multiset()),
        sorted_by(r@, m),
{
    let ghost total = a@.to_multiset().add(b@.to_multiset());
    let mut a = a;
    let mut b = b;
    // Built from the back: `rev` holds the latest files, latest first.
    let mut rev: Vec<LffFile> = Vec::new();
    while a.len() > 0 || b.len() > 0
        invariant
            sorted_by(a@, m),
            sorted_by(b@, m),
            forall|i: int, j: int| 0 <= i < j < rev@.len() ==> ranks_before(rev@[j], rev@[i], m),
            forall|i: int, j: int|
                0 <= i < rev@.len() && 0 <= j < a@.len() ==> ranks_before(a@[j], rev@[i], m),
            forall|i: int, j: int|
                0 <= i < rev@.len() && 0 <= j < b@.len() ==> ranks_before(b@[j], rev@[i], m),
            rev@.to_multiset().add(a@.to_multiset()).add(b@.to_multiset()) == total,
        decreases a.len() + b.len(),
    {
        let take_a = if a.len() == 0 {
            false
        } else if b.len() == 0 {
            true
        } else {
            !file_before(&a[a.len() - 1], &b[b.len() - 1], m)
        };
        let ghost a0 = a@;
        let ghost b0 = b@;
        let ghost rev0 = rev@;
        if take_a {
            let x = a.pop().unwrap();
            proof {
                lemma_pop_multiset(a0);
                if b0.len() > 0 {
                    lemma_ranks_total(x, b0.last(), m);
                    assert forall|j: int| 0 <= j < b0.len() implies ranks_before(b0[j], x, m) by {
                        if j < b0.len() - 1 {
                            lemma_ranks_transitive(b0[j], b0.last(), x, m);
                        }
                    }
                }
            }
            rev.push(x);
        } else {
            let x = b.pop().unwrap();
            proof {
                lemma_pop_multiset(b0);
                if a0.len() > 0 {
                    assert forall|j: int| 0 <= j < a0.len() implies ranks_before(a0[j], x, m) by {
                        if j < a0.len() - 1 {
                            lemma_ranks_transitive(a0[j], a0.last(), x, m);
                        }
                    }
                }
            }
            rev.push(x);
        }
        proof {
            assert(rev@.to_multiset().add(a@.to_multiset()).add(b@.to_multiset()) =~= total);
        }
    }
    let mut out: Vec<LffFile> = Vec::new();
    while rev.len() > 0
        invariant
            sorted_by(out@, m),
            forall|i: int, j: int| 0 <= i < j < rev@.len() ==> ranks_before(rev@[j], rev@[i], m),
            forall|i: int, j: int|
                0 <= i < out@.len() && 0 <= j < rev@.len() ==> ranks_before(out@[i], rev@[j], m),
            out@.to_multiset().add(rev@.to_multiset()) == total,
        decreases rev.len(),
    {
        let ghost rev0 = rev@;
        let x = rev.pop().unwrap();
        proof {
            lemma_pop_multiset(rev0);
        }
        out.push(x);
        proof {
            assert(out@.to_multiset().add(rev@.to_multiset()) =~= total);
        }
    }
    out
}

/// The files of `v`, ordered by `m`.
pub fn sort_files(v: Vec<LffFile>, m: SortMethod) -> (r: Vec<LffFile>)
    ensures
        r@.to_multiset() == v@.to_multiset(),
        sorted_by(r@, m),
    decreases v@.len(),
{
    if v.len() <= 1 {
        return v;
    }
    let ghost v0 = v@;
    let mut left = v;
    let mid = left.len() / 2;
    let right = left.split_off(mid);
    proof {
        assert(v0 =~= left@ + right@);
        lemma_multiset_commutative(left@, right@);
    }
    let left = sort_files(left, m);
    let right = sort_files(right, m);
    merge_runs(left, right, m)
}

/// How many files a listing of `n` files keeps under `limit`.
pub open spec fn kept_len(n: nat, limit: Option<usize>) -> nat {
    match limit {
        Some(l) => if l < n {
            l as nat
        } else {
            n
        },
        None => n,
    }
}

/// Of an ordered sequence, a prefix holds files that rank no later than any file left out.
proof fn lemma_prefix_ranks_first(s: Seq<LffFile>, k: int, m: SortMethod)
    requires
        sorted_by(s, m),
        0 <= k <= s.len(),
    ensures
        sorted_by(s.take(k), m),
        s.take(k).to_multiset().subset_of(s.to_multiset()),
        forall|i: int, x: LffFile|
            0 <= i < k && s.take(k).to_multiset().count(x) < s.to_multiset().count(x)
                ==> ranks_before(s[i], x, m),
{
    let head = s.take(k);
    let tail = s.skip(k);
    assert(s =~= head + tail);
    lemma_multiset_commutative(head, tail);
    assert forall|i: int, x: LffFile|
        0 <= i < k && head.to_multiset().count(x) < s.to_multiset().count(x)
        implies ranks_before(s[i], x, m) by {
        assert(tail.to_multiset().count(x) > 0);
        assert(tail.contains(x));
        let j = choose|j: int| 0 <= j < tail.len() && tail[j] == x;
        assert(s[k + j] == x);
    }
}

/// `shown` is what a search shows of `files` under `config`: as many files as the limit lets
/// through; without an order, the first of them as they came; with one, ordered, and such that
/// no file left out ranks before a file shown.
pub open spec fn shown_for(shown: Seq<LffFile>, files: Seq<LffFile>, config: LffConfig) -> bool {
    &&& shown.len() == kept_len(files.len(), config.limit)
    &&& config.sort_method is None ==> shown == files.take(shown.len() as int)
    &&& config.sort_method matches Some(m) ==> {
        &&& sorted_by(shown, m)
        &&& shown.to_multiset().subset_of(files.to_multiset())
        &&& forall|i: int, x: LffFile|
            0 <= i < shown.len() && shown.to_multiset().count(x) < files.to_multiset().count(x)
                ==> ranks_before(shown[i], x, m)
    }
}

/// The files a search shows: ordered as `config` asks, then cut to its limit.
pub fn finish(files: Vec<LffFile>, config: &LffConfig) -> (r: Vec<LffFile>)
    ensures
        shown_for(r@, files@, *config),
{
    let mut out = match config.sort_method {
        Some(m) => sort_files(files, m),
        None => files,
    };
    let ghost ordered = out@;
    assert(ordered.to_multiset().len() == files@.to_multiset().len());
    if let Some(l) = config.limit {
        out.truncate(l);
    }
    proof {
        let k = out@.len() as int;
        assert(out@ =~= ordered.take(k));
        if let Some(m) = config.sort_method {
            lemma_prefix_ranks_first(ordered, k, m);
        } else {
            assert(files@.take(k) =~= ordered.take(k));
        }
    }
    out
}

} // verus!
