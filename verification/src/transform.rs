//! The record transformer: the pipeline of filtering, sorting and truncation
//! that every fetched batch of records passes through before it reaches a
//! template. The composition order is fixed: filter, then sort, then truncate.

use vstd::prelude::*;

verus! {

/// A record that exposes the timestamp-like key the transformer orders by.
pub trait Keyed {
    /// The mathematical sort key of the record.
    spec fn key(&self) -> int;

    /// The executable sort key, equal to the mathematical one.
    fn key_value(&self) -> (k: i64)
        ensures
            k as int == self.key(),
    ;
}

/// A record attributed to a repository that may be private.
pub trait Visible {
    /// Whether the record's repository is private.
    spec fn private(&self) -> bool;

    /// The executable privacy flag, equal to the mathematical one.
    fn is_private(&self) -> (b: bool)
        ensures
            b == self.private(),
    ;
}

/// The predicate selecting records whose key equals `k`.
pub open spec fn is_key<T: Keyed>(k: int) -> spec_fn(T) -> bool {
    |x: T| x.key() == k
}

/// The records of `s` that carry key `k`, in their input order.
pub open spec fn key_filter<T: Keyed>(s: Seq<T>, k: int) -> Seq<T> {
    s.filter(is_key(k))
}

/// The predicate selecting records from visible (non-private) repositories.
pub open spec fn keeps_visible<T: Visible>() -> spec_fn(T) -> bool {
    |x: T| !x.private()
}

/// The records of `s` from visible repositories, in their input order.
pub open spec fn visible<T: Visible>(s: Seq<T>) -> Seq<T> {
    s.filter(keeps_visible())
}

/// Keys never increase from front to back.
pub open spec fn sorted_desc<T: Keyed>(s: Seq<T>) -> bool {
    forall|i: int, j: int|
        0 <= i <= j < s.len() ==> #[trigger] s[i].key() >= #[trigger] s[j].key()
}

/// Insert `x` into the descending-sorted `s`, after every record whose key is
/// at least `x`'s, so that records with equal keys keep their relative order.
pub open spec fn insert_desc<T: Keyed>(s: Seq<T>, x: T) -> Seq<T>
    decreases s.len(),
{
    if s.len() == 0 {
        seq![x]
    } else if s.first().key() >= x.key() {
        seq![s.first()] + insert_desc(s.drop_first(), x)
    } else {
        seq![x] + s
    }
}

/// The stable descending sort of `s` by key: non-increasing in the key, and
/// records with equal keys keep the order in which they were fetched.
pub open spec fn sort_desc<T: Keyed>(s: Seq<T>) -> Seq<T>
    decreases s.len(),
{
    if s.len() == 0 {
        Seq::empty()
    } else {
        insert_desc(sort_desc(s.drop_last()), s.last())
    }
}

/// The count a provider truncates to: the caller's, or five when none is given.
pub open spec fn requested_count(count: Option<i64>) -> int {
    match count {
        None => 5,
        Some(c) => c as int,
    }
}

/// The first `n` records of `s`; all of them when `n` reaches the length or
/// is negative (a negative count never truncates).
pub open spec fn limit<T>(s: Seq<T>, n: int) -> Seq<T> {
    if 0 <= n && n < s.len() {
        s.take(n)
    } else {
        s
    }
}

/// Drop every record whose repository is private, keeping the others in order.
pub fn filter_visible<T: Visible>(records: Vec<T>) -> (r: Vec<T>)
    ensures
        r@ == visible(records@),
{
    let ghost orig = records@;
    let mut rest = records;
    let mut out: Vec<T> = Vec::new();
    proof {
        broadcast use vstd::seq_lib::group_seq_lib_default;

        assert(out@ + visible(rest@) =~= visible(orig));
    }
    while rest.len() > 0
        invariant
            out@ + visible(rest@) == visible(orig),
        decreases rest@.len(),
    {
        let ghost pre = rest@;
        let ghost prev_out = out@;
        let x = rest.remove(0);
        let ghost xv = x;
        proof {
            broadcast use vstd::seq_lib::group_seq_lib_default;
            broadcast use vstd::prelude::Seq::lemma_filter_prepend;

            assert(pre =~= seq![xv] + rest@);
            assert(visible(pre) == (if !xv.private() {
                seq![xv]
            } else {
                Seq::<T>::empty()
            }) + visible(rest@));
        }
        if !x.is_private() {
            out.push(x);
            proof {
                broadcast use vstd::seq_lib::group_seq_lib_default;

                assert(out@ =~= prev_out + seq![xv]);
                assert(out@ + visible(rest@) =~= prev_out + visible(pre));
            }
        } else {
            proof {
                broadcast use vstd::seq_lib::group_seq_lib_default;

                assert(visible(pre) =~= visible(rest@));
            }
        }
    }
    proof {
        lemma_filter_of_empty(rest@, keeps_visible());
        assert(out@ =~= out@ + visible(rest@));
    }
    out
}

/// Filtering an empty batch yields an empty batch.
proof fn lemma_filter_of_empty<T>(s: Seq<T>, pred: spec_fn(T) -> bool)
    requires
        s.len() == 0,
    ensures
        s.filter(pred) == s,
{
    reveal(Seq::filter);
}

/// Stable sort, descending in the record key: insertion sort that places each
/// record after all earlier records with a key at least as large.
pub fn sort_descending<T: Keyed>(records: &mut Vec<T>)
    ensures
        final(records)@ == sort_desc(old(records)@),
{
    let ghost orig = records@;
    let n = records.len();
    let mut i: usize = 0;
    while i < n
        invariant
            i <= n,
            n == records@.len(),
            n == orig.len(),
            records@.subrange(0, i as int) == sort_desc(orig.subrange(0, i as int)),
            records@.subrange(i as int, n as int) == orig.subrange(i as int, n as int),
        decreases n - i,
    {
        let ghost pre = records@;
        let xk = records[i].key_value();
        let mut j: usize = i;
        while j > 0 && records[j - 1].key_value() < xk
            invariant
                j <= i < n,
                n == records@.len(),
                records@ == pre,
                xk as int == pre[i as int].key(),
                forall|m: int| j <= m < i as int ==> (#[trigger] pre[m]).key() < pre[i as int].key(),
            decreases j,
        {
            j = j - 1;
        }
        let x = records.remove(i);
        records.insert(j, x);
        proof {
            lemma_sorted_insert_step(orig, pre, records@, i as int, j as int);
        }
        i = i + 1;
    }
    proof {
        assert(records@.subrange(0, n as int) =~= records@);
        assert(orig.subrange(0, n as int) =~= orig);
    }
}

/// One outer step of the insertion sort: removing the record at `i` and
/// reinserting it at its place `j` extends the sorted prefix by one.
proof fn lemma_sorted_insert_step<T: Keyed>(orig: Seq<T>, pre: Seq<T>, post: Seq<T>, i: int, j: int)
    requires
        0 <= j <= i < pre.len(),
        pre.len() == orig.len(),
        pre.subrange(0, i) == sort_desc(orig.subrange(0, i)),
        pre.subrange(i, pre.len() as int) == orig.subrange(i, orig.len() as int),
        forall|m: int| j <= m < i ==> (#[trigger] pre[m]).key() < pre[i].key(),
        j > 0 ==> pre[j - 1].key() >= pre[i].key(),
        post == pre.remove(i).insert(j, pre[i]),
    ensures
        post.len() == pre.len(),
        post.subrange(0, i + 1) == sort_desc(orig.subrange(0, i + 1)),
        post.subrange(i + 1, post.len() as int) == orig.subrange(i + 1, orig.len() as int),
{
    let n = pre.len() as int;
    let prefix = pre.subrange(0, i);
    let x = pre[i];
    pre.remove_ensures(i);
    pre.remove(i).insert_ensures(j, x);
    assert(post.len() == pre.len());
    lemma_sort_desc_sorted(orig.subrange(0, i));
    assert(sorted_desc(prefix));
    assert forall|m: int| j <= m < prefix.len() implies (#[trigger] prefix[m]).key() < x.key() by {
        assert(prefix[m] == pre[m]);
    }
    lemma_insert_desc_position(prefix, x, j);
    // the prefix of `post` is exactly the spec-level insertion
    assert(post.subrange(0, i + 1) =~= prefix.subrange(0, j) + seq![x] + prefix.subrange(
        j,
        prefix.len() as int,
    ));
    // unfold the sort of the one-longer prefix of the input
    assert(orig.subrange(0, i + 1).drop_last() =~= orig.subrange(0, i));
    assert(orig.subrange(0, i + 1).last() == orig[i]);
    assert(pre.subrange(i, n)[0] == pre[i]);
    assert(orig.subrange(i, n)[0] == orig[i]);
    assert(orig[i] == pre[i]);
    assert(sort_desc(orig.subrange(0, i + 1)) == insert_desc(sort_desc(orig.subrange(0, i)), x));
    assert(post.subrange(0, i + 1) == sort_desc(orig.subrange(0, i + 1)));
    // past the insertion point everything still matches the input
    let rem = pre.remove(i);
    assert forall|m: int| i + 1 <= m < n implies post[m] == orig[m] by {
        assert(post[(m - 1) + 1] == rem[m - 1]);
        assert(rem[m - 1] == pre[m]);
        assert(pre.subrange(i, n)[m - i] == pre[m]);
        assert(orig.subrange(i, n)[m - i] == orig[m]);
    }
    assert(post.subrange(i + 1, n) =~= orig.subrange(i + 1, n));
}

/// Where the insertion lands: with everything from `j` on strictly smaller
/// than `x`'s key and everything before `j` at least as large, the spec-level
/// insertion splits `s` exactly at `j`.
proof fn lemma_insert_desc_position<T: Keyed>(s: Seq<T>, x: T, j: int)
    requires
        sorted_desc(s),
        0 <= j <= s.len(),
        forall|m: int| j <= m < s.len() ==> (#[trigger] s[m]).key() < x.key(),
        j > 0 ==> s[j - 1].key() >= x.key(),
    ensures
        insert_desc(s, x) == s.subrange(0, j) + seq![x] + s.subrange(j, s.len() as int),
    decreases s.len(),
{
    if s.len() == 0 {
        assert(s.subrange(0, 0) + seq![x] + s.subrange(0, 0) =~= seq![x]);
    } else if j == 0 {
        assert(s.first().key() < x.key());
        assert(s.subrange(0, 0) + seq![x] + s.subrange(0, s.len() as int) =~= seq![x] + s);
    } else {
        assert(s[0].key() >= s[j - 1].key());
        let rest = s.drop_first();
        assert(sorted_desc(rest)) by {
            assert forall|a: int, b: int| 0 <= a <= b < rest.len() implies (#[trigger] rest[a]).key()
                >= (#[trigger] rest[b]).key() by {
                assert(rest[a] == s[a + 1]);
                assert(rest[b] == s[b + 1]);
            }
        }
        assert forall|m: int| j - 1 <= m < rest.len() implies (#[trigger] rest[m]).key()
            < x.key() by {
            assert(rest[m] == s[m + 1]);
        }
        assert(j - 1 > 0 ==> rest[j - 2].key() >= x.key());
        lemma_insert_desc_position(rest, x, j - 1);
        assert(insert_desc(s, x) == seq![s.first()] + insert_desc(rest, x));
        assert(seq![s.first()] + (rest.subrange(0, j - 1) + seq![x] + rest.subrange(
            j - 1,
            rest.len() as int,
        )) =~= s.subrange(0, j) + seq![x] + s.subrange(j, s.len() as int));
    }
}

/// Inserting into a descending-sorted sequence keeps it sorted and grows it by one.
proof fn lemma_insert_desc_sorted<T: Keyed>(s: Seq<T>, x: T)
    requires
        sorted_desc(s),
    ensures
        insert_desc(s, x).len() == s.len() + 1,
        sorted_desc(insert_desc(s, x)),
    decreases s.len(),
{
    let out = insert_desc(s, x);
    if s.len() == 0 {
        assert(sorted_desc(out));
    } else if s.first().key() >= x.key() {
        let rest = s.drop_first();
        assert(sorted_desc(rest)) by {
            assert forall|a: int, b: int| 0 <= a <= b < rest.len() implies (#[trigger] rest[a]).key()
                >= (#[trigger] rest[b]).key() by {
                assert(rest[a] == s[a + 1]);
                assert(rest[b] == s[b + 1]);
            }
        }
        lemma_insert_desc_sorted(rest, x);
        let tail = insert_desc(rest, x);
        assert(out == seq![s.first()] + tail);
        // the head still dominates: the tail's first record is either the old
        // second record or `x`, both with keys no larger than the head's
        assert(s.first().key() >= tail[0].key()) by {
            if rest.len() == 0 {
                assert(tail == seq![x]);
            } else if rest.first().key() >= x.key() {
                assert(tail == seq![rest.first()] + insert_desc(rest.drop_first(), x));
                assert(tail[0] == rest.first());
                assert(rest[0] == s[1]);
                assert(s[0].key() >= s[1].key());
            } else {
                assert(tail == seq![x] + rest);
                assert(tail[0] == x);
            }
        }
        assert forall|a: int, b: int| 0 <= a <= b < out.len() implies (#[trigger] out[a]).key()
            >= (#[trigger] out[b]).key() by {
            if a == 0 && b > 0 {
                assert(out[b] == tail[b - 1]);
                assert(tail[0].key() >= tail[b - 1].key());
            } else if a > 0 {
                assert(out[a] == tail[a - 1]);
                assert(out[b] == tail[b - 1]);
            }
        }
    } else {
        assert(out == seq![x] + s);
        assert forall|a: int, b: int| 0 <= a <= b < out.len() implies (#[trigger] out[a]).key()
            >= (#[trigger] out[b]).key() by {
            if a == 0 && b > 0 {
                assert(out[b] == s[b - 1]);
                assert(s[0].key() >= s[b - 1].key());
                assert(x.key() > s[0].key());
            } else if a > 0 {
                assert(out[a] == s[a - 1]);
                assert(out[b] == s[b - 1]);
            }
        }
    }
}

/// Inserting `x` appends it to the records sharing its key and leaves every
/// other key's records untouched.
proof fn lemma_insert_desc_key_filter<T: Keyed>(s: Seq<T>, x: T, k: int)
    requires
        sorted_desc(s),
    ensures
        key_filter(insert_desc(s, x), k) == if x.key() == k {
            key_filter(s, k).push(x)
        } else {
            key_filter(s, k)
        },
    decreases s.len(),
{
    broadcast use vstd::seq_lib::group_seq_lib_default;
    broadcast use vstd::prelude::Seq::lemma_filter_prepend;

    let p = is_key::<T>(k);
    if s.len() == 0 {
        lemma_filter_of_empty(s, p);
        assert(insert_desc(s, x) =~= Seq::<T>::empty().push(x));
        Seq::<T>::empty().lemma_filter_push(x, p);
        if x.key() == k {
            assert(key_filter(s, k).push(x) =~= Seq::<T>::empty().filter(p).push(x));
        }
    } else if s.first().key() >= x.key() {
        let rest = s.drop_first();
        assert(sorted_desc(rest)) by {
            assert forall|a: int, b: int| 0 <= a <= b < rest.len() implies (#[trigger] rest[a]).key()
                >= (#[trigger] rest[b]).key() by {
                assert(rest[a] == s[a + 1]);
                assert(rest[b] == s[b + 1]);
            }
        }
        lemma_insert_desc_key_filter(rest, x, k);
        let tail = insert_desc(rest, x);
        assert(insert_desc(s, x) == seq![s.first()] + tail);
        assert(s =~= seq![s.first()] + rest);
        // peel the shared head off both filters
        assert((seq![s.first()] + tail).filter(p) == (if p(s.first()) {
            seq![s.first()]
        } else {
            Seq::<T>::empty()
        }) + tail.filter(p));
        assert((seq![s.first()] + rest).filter(p) == (if p(s.first()) {
            seq![s.first()]
        } else {
            Seq::<T>::empty()
        }) + rest.filter(p));
        if x.key() == k {
            assert(tail.filter(p) == rest.filter(p).push(x));
            assert((if p(s.first()) {
                seq![s.first()]
            } else {
                Seq::<T>::empty()
            }) + rest.filter(p).push(x) =~= ((if p(s.first()) {
                seq![s.first()]
            } else {
                Seq::<T>::empty()
            }) + rest.filter(p)).push(x));
        }
    } else {
        assert(insert_desc(s, x) == seq![x] + s);
        assert((seq![x] + s).filter(p) == (if p(x) {
            seq![x]
        } else {
            Seq::<T>::empty()
        }) + s.filter(p));
        if x.key() == k {
            // every key in `s` is below `x`'s, so no record of `s` carries `k`
            assert(s.all(|e: T| !p(e))) by {
                assert forall|m: int| 0 <= m < s.len() implies !p(s[m]) by {
                    assert(s[0].key() >= s[m].key());
                }
                assert(forall|m: int| 0 <= m < s.len() ==> !p(#[trigger] s[m]));
            }
            s.lemma_all_neg_filter_empty(p);
            assert(key_filter(s, k).push(x) =~= seq![x] + s.filter(p));
        }
    }
}

/// Sorting never loses or invents records of any key, and the result is
/// non-increasing in the key. Together with `lemma_sort_desc_stable` this pins
/// the sort down completely.
pub proof fn lemma_sort_desc_sorted<T: Keyed>(s: Seq<T>)
    ensures
        sort_desc(s).len() == s.len(),
        sorted_desc(sort_desc(s)),
    decreases s.len(),
{
    if s.len() == 0 {
        assert(sorted_desc(sort_desc(s)));
    } else {
        let dl = s.drop_last();
        lemma_sort_desc_sorted(dl);
        lemma_insert_desc_sorted(sort_desc(dl), s.last());
    }
}

/// The sort is stable. For every key `k`, the records carrying `k` come
/// out exactly as they went in: same records, same relative order.
pub proof fn lemma_sort_desc_stable<T: Keyed>(s: Seq<T>, k: int)
    ensures
        key_filter(sort_desc(s), k) == key_filter(s, k),
    decreases s.len(),
{
    broadcast use vstd::prelude::Seq::lemma_filter_push;

    let p = is_key::<T>(k);
    if s.len() == 0 {
        lemma_filter_of_empty(s, p);
    } else {
        let dl = s.drop_last();
        lemma_sort_desc_stable(dl, k);
        lemma_sort_desc_sorted(dl);
        lemma_insert_desc_key_filter(sort_desc(dl), s.last(), k);
        assert(s =~= dl.push(s.last()));
    }
}

/// The spec-level insertion adds exactly one record to the batch's contents.
proof fn lemma_insert_desc_multiset<T: Keyed>(s: Seq<T>, x: T)
    ensures
        insert_desc(s, x).to_multiset() == s.to_multiset().insert(x),
    decreases s.len(),
{
    broadcast use vstd::seq_lib::group_to_multiset_ensures;
    broadcast use vstd::multiset::group_multiset_axioms;

    if s.len() == 0 || s.first().key() < x.key() {
        assert(insert_desc(s, x) =~= s.insert(0, x));
    } else {
        let rest = s.drop_first();
        lemma_insert_desc_multiset(rest, x);
        assert(insert_desc(s, x) =~= insert_desc(rest, x).insert(0, s.first()));
        assert(s =~= rest.insert(0, s.first()));
        assert(rest.to_multiset().insert(x).insert(s.first()) =~= rest.to_multiset().insert(
            s.first(),
        ).insert(x));
    }
}

/// Sorting permutes and nothing more: the sorted batch holds exactly the
/// input's records, with their multiplicities.
pub proof fn lemma_sort_desc_permutes<T: Keyed>(s: Seq<T>)
    ensures
        sort_desc(s).to_multiset() == s.to_multiset(),
    decreases s.len(),
{
    broadcast use vstd::seq_lib::group_to_multiset_ensures;

    if s.len() > 0 {
        let dl = s.drop_last();
        lemma_sort_desc_permutes(dl);
        lemma_insert_desc_multiset(sort_desc(dl), s.last());
        assert(s =~= dl.push(s.last()));
    }
}

/// No record from a private repository survives the visibility filter,
/// and on batches free of private records the filter is the identity.
pub proof fn lemma_filter_visible_no_private<T: Visible>(s: Seq<T>)
    ensures
        forall|i: int| 0 <= i < visible(s).len() ==> !(#[trigger] visible(s)[i]).private(),
{
    broadcast use vstd::seq_lib::group_filter_ensures;

    assert forall|i: int| 0 <= i < visible(s).len() implies !(#[trigger] visible(s)[i]).private() by {
        assert(keeps_visible::<T>()(visible(s)[i]));
    }
}

/// On a batch with no private record, filtering changes nothing.
pub proof fn lemma_filter_visible_identity<T: Visible>(s: Seq<T>)
    requires
        forall|i: int| 0 <= i < s.len() ==> !(#[trigger] s[i]).private(),
    ensures
        visible(s) == s,
    decreases s.len(),
{
    reveal(Seq::filter);
    if s.len() > 0 {
        let dl = s.drop_last();
        assert forall|i: int| 0 <= i < dl.len() implies !(#[trigger] dl[i]).private() by {
            assert(dl[i] == s[i]);
        }
        lemma_filter_visible_identity(dl);
        assert(keeps_visible::<T>()(s.last()));
        assert(visible(s) =~= s);
    }
}

/// For a non-negative count, truncation keeps exactly `min(count, len)`
/// records, and they are a prefix of the input.
pub proof fn lemma_limit_prefix<T>(s: Seq<T>, n: int)
    requires
        0 <= n,
    ensures
        limit(s, n).len() == if n <= s.len() {
            n
        } else {
            s.len() as int
        },
        limit(s, n) == s.subrange(0, limit(s, n).len() as int),
{
    if !(n < s.len()) {
        assert(s.subrange(0, s.len() as int) =~= s);
    }
}

/// When no count is given and at least five records are available, the
/// pipeline's tail (sort, then truncate with the default) yields exactly five.
pub proof fn lemma_default_count_yields_five<T: Keyed>(s: Seq<T>)
    requires
        s.len() >= 5,
    ensures
        limit(sort_desc(s), requested_count(None)).len() == 5,
{
    lemma_sort_desc_sorted(s);
    lemma_limit_prefix(sort_desc(s), 5);
}

/// Sorting rearranges and truncation keeps a prefix; neither invents a
/// record: every record of the truncated, sorted batch is a record of the
/// input batch.
pub proof fn lemma_pipeline_membership<T: Keyed>(s: Seq<T>, count: int, i: int)
    requires
        0 <= i < limit(sort_desc(s), count).len(),
    ensures
        exists|n: int| 0 <= n < s.len() && s[n] == limit(sort_desc(s), count)[i],
{
    broadcast use vstd::seq_lib::group_filter_ensures;
    broadcast use vstd::prelude::Seq::lemma_filter_contains_rev;

    let sorted = sort_desc(s);
    let out = limit(sorted, count);
    assert(out[i] == sorted[i]);
    lemma_sort_desc_sorted(s);
    let k = sorted[i].key();
    lemma_sort_desc_stable(s, k);
    assert(is_key::<T>(k)(sorted[i]));
    assert(key_filter(sorted, k).contains(sorted[i]));
    assert(key_filter(s, k).contains(sorted[i]));
    assert(s.contains(sorted[i]));
}

/// Truncate to the requested count: keep the first `count` records, five when
/// no count is given; a count past the end (or negative) keeps everything.
pub fn truncate<T>(records: &mut Vec<T>, count: Option<i64>)
    ensures
        final(records)@ == limit(old(records)@, requested_count(count)),
{
    let c: i64 = match count {
        Some(c) => c,
        None => 5,
    };
    if c >= 0 && (c as u64) < (records.len() as u64) {
        records.truncate(c as usize);
    }
}

} // verus!
