use vstd::arithmetic::div_mod::{lemma_div_by_multiple, lemma_div_is_ordered};
use vstd::prelude::*;
use vstd::seq_lib::{
    lemma_multiset_commutative, to_multiset_build, to_multiset_contains, to_multiset_len,
};

use crate::config::Aggregation;
use crate::error::Error;

verus! {

/// The largest element of a non-empty sequence.
pub open spec fn seq_max(s: Seq<u8>) -> int
    decreases s.len(),
{
    if s.len() <= 1 {
        if s.len() == 0 {
            0
        } else {
            s[0] as int
        }
    } else if seq_max(s.drop_last()) >= s.last() {
        seq_max(s.drop_last())
    } else {
        s.last() as int
    }
}

/// The sum of the elements of a sequence.
pub open spec fn seq_sum(s: Seq<u8>) -> int
    decreases s.len(),
{
    if s.len() == 0 {
        0
    } else {
        seq_sum(s.drop_last()) + s.last()
    }
}

/// `x` put into a sequence sorted from hottest to coolest, before the first
/// element cooler than it.
pub open spec fn insert_desc(s: Seq<u8>, x: u8) -> Seq<u8>
    decreases s.len(),
{
    if s.len() == 0 {
        seq![x]
    } else if s[0] < x {
        seq![x] + s
    } else {
        seq![s[0]] + insert_desc(s.drop_first(), x)
    }
}

/// The readings from hottest to coolest.
pub open spec fn sort_desc(s: Seq<u8>) -> Seq<u8>
    decreases s.len(),
{
    if s.len() == 0 {
        Seq::empty()
    } else {
        insert_desc(sort_desc(s.drop_last()), s.last())
    }
}

/// How many of `len` readings an average takes.
pub open spec fn top_count(top: Option<usize>, len: nat) -> nat {
    match top {
        Some(t) => if t < len { t as nat } else { len },
        None => len,
    }
}

/// The temperature that a zone derives from its readings, or `None` when no
/// reading is left to aggregate.
pub open spec fn aggregate_value(readings: Seq<u8>, aggregation: Aggregation) -> Option<int> {
    match aggregation {
        Aggregation::Maximum => if readings.len() == 0 {
            None
        } else {
            Some(seq_max(readings))
        },
        Aggregation::Average { top } => {
            let n = top_count(top, readings.len());
            if n == 0 {
                None
            } else {
                Some(seq_sum(sort_desc(readings).take(n as int)) / n as int)
            }
        },
    }
}

proof fn lemma_insert_desc_at(s: Seq<u8>, x: u8, p: int)
    requires
        0 <= p <= s.len(),
        forall|j: int| 0 <= j < p ==> s[j] >= x,
        p < s.len() ==> s[p] < x,
    ensures
        insert_desc(s, x) == s.insert(p, x),
    decreases p,
{
    if p == 0 {
        if s.len() == 0 {
            assert(s.insert(p, x) =~= seq![x]);
        } else {
            assert(s.insert(p, x) =~= seq![x] + s);
        }
    } else {
        let t = s.drop_first();
        lemma_insert_desc_at(t, x, p - 1);
        assert(s.insert(p, x) =~= seq![s[0]] + t.insert(p - 1, x));
    }
}

proof fn lemma_insert_desc_len(s: Seq<u8>, x: u8)
    ensures
        insert_desc(s, x).len() == s.len() + 1,
    decreases s.len(),
{
    if s.len() > 0 && s[0] >= x {
        lemma_insert_desc_len(s.drop_first(), x);
    }
}

proof fn lemma_sort_desc_len(s: Seq<u8>)
    ensures
        sort_desc(s).len() == s.len(),
    decreases s.len(),
{
    if s.len() > 0 {
        lemma_sort_desc_len(s.drop_last());
        lemma_insert_desc_len(sort_desc(s.drop_last()), s.last());
    }
}

proof fn lemma_sum_bound(s: Seq<u8>)
    ensures
        0 <= seq_sum(s) <= 255 * s.len(),
    decreases s.len(),
{
    if s.len() > 0 {
        lemma_sum_bound(s.drop_last());
    }
}

/// Whether a sequence runs from hottest to coolest.
pub open spec fn is_sorted_desc(s: Seq<u8>) -> bool {
    forall|i: int, j: int| 0 <= i < j < s.len() ==> s[i] >= s[j]
}

proof fn lemma_insert_desc_sorted(s: Seq<u8>, x: u8)
    requires
        is_sorted_desc(s),
    ensures
        is_sorted_desc(insert_desc(s, x)),
        insert_desc(s, x).to_multiset() == s.to_multiset().insert(x),
    decreases s.len(),
{
    broadcast use vstd::multiset::group_multiset_axioms;

    to_multiset_len(Seq::<u8>::empty());
    assert(Seq::<u8>::empty().to_multiset() =~= vstd::multiset::Multiset::empty());
    assert(seq![x] =~= Seq::<u8>::empty().push(x));
    to_multiset_build(Seq::<u8>::empty(), x);
    if s.len() == 0 {
        assert(s =~= Seq::<u8>::empty());
    } else if s[0] < x {
        lemma_multiset_commutative(seq![x], s);
        assert(seq![x].to_multiset().add(s.to_multiset()) =~= s.to_multiset().insert(x));
    } else {
        let t = s.drop_first();
        assert(is_sorted_desc(t)) by {
            assert forall|i: int, j: int| 0 <= i < j < t.len() implies t[i] >= t[j] by {
                assert(t[i] == s[i + 1] && t[j] == s[j + 1]);
            }
        }
        lemma_insert_desc_sorted(t, x);
        lemma_insert_desc_len(t, x);
        let r = insert_desc(t, x);
        assert(s =~= seq![s[0]] + t);
        lemma_multiset_commutative(seq![s[0]], t);
        lemma_multiset_commutative(seq![s[0]], r);
        assert(seq![s[0]].to_multiset().add(r.to_multiset()) =~= seq![s[0]].to_multiset().add(
            t.to_multiset(),
        ).insert(x));
        assert(insert_desc(s, x) == seq![s[0]] + r);
        let whole = seq![s[0]] + r;
        assert forall|i: int, j: int| 0 <= i < j < whole.len() implies whole[i] >= whole[j] by {
            if i == 0 {
                // every element of `r` is `x` or an element of `t`, all at most `s[0]`
                assert(r[j - 1] == whole[j]);
                assert(r.contains(whole[j]));
                to_multiset_contains(r, whole[j]);
                if whole[j] != x {
                    to_multiset_contains(t, whole[j]);
                    assert(t.contains(whole[j]));
                    let k = choose|k: int| 0 <= k < t.len() && t[k] == whole[j];
                    assert(s[k + 1] == whole[j]);
                }
            } else {
                assert(whole[i] == r[i - 1] && whole[j] == r[j - 1]);
            }
        }
    }
}

/// The ordering that an average reads from: the readings themselves, each
/// as often as given, from hottest to coolest.
pub proof fn lemma_sort_desc(s: Seq<u8>)
    ensures
        is_sorted_desc(sort_desc(s)),
        sort_desc(s).to_multiset() == s.to_multiset(),
    decreases s.len(),
{
    broadcast use vstd::multiset::group_multiset_axioms;

    if s.len() == 0 {
        assert(s =~= Seq::<u8>::empty());
    } else {
        lemma_sort_desc(s.drop_last());
        lemma_insert_desc_sorted(sort_desc(s.drop_last()), s.last());
        assert(s =~= s.drop_last().push(s.last()));
        to_multiset_build(s.drop_last(), s.last());
    }
}

/// The readings from hottest to coolest.
fn sorted_desc(readings: &Vec<u8>) -> (r: Vec<u8>)
    ensures
        r@ == sort_desc(readings@),
{
    let mut out: Vec<u8> = Vec::new();
    let n = readings.len();
    let mut i: usize = 0;
    while i < n
        invariant
            n == readings@.len(),
            i <= n,
            out@ == sort_desc(readings@.take(i as int)),
        decreases n - i,
    {
        let x = readings[i];
        let mut p: usize = 0;
        while p < out.len() && out[p] >= x
            invariant
                p <= out@.len(),
                forall|j: int| 0 <= j < p ==> out@[j] >= x,
            decreases out@.len() - p,
        {
            p = p + 1;
        }
        proof {
            lemma_insert_desc_at(out@, x, p as int);
            assert(readings@.take(i + 1).drop_last() =~= readings@.take(i as int));
        }
        out.insert(p, x);
        i = i + 1;
    }
    assert(readings@.take(n as int) =~= readings@);
    out
}

/// The temperature that a zone derives from its readings: the hottest one,
/// or the mean of the hottest `top` (all when `top` is absent), truncated.
pub fn aggregate(readings: &Vec<u8>, aggregation: Aggregation) -> (r: Result<u8, Error>)
    ensures
        match r {
            Ok(v) => aggregate_value(readings@, aggregation) == Some(v as int),
            Err(e) => aggregate_value(readings@, aggregation) is None && e == Error::NoValidReadings,
        },
        readings@.len() == 0 ==> r == Err::<u8, Error>(Error::NoValidReadings),
{
    let len = readings.len();
    match aggregation {
        Aggregation::Maximum => {
            if len == 0 {
                return Err(Error::NoValidReadings);
            }
            let mut best = readings[0];
            let mut i: usize = 1;
            assert(readings@.take(1).drop_last() =~= Seq::<u8>::empty());
            while i < len
                invariant
                    len == readings@.len(),
                    1 <= i <= len,
                    best as int == seq_max(readings@.take(i as int)),
                decreases len - i,
            {
                assert(readings@.take(i + 1).drop_last() =~= readings@.take(i as int));
                if readings[i] > best {
                    best = readings[i];
                }
                i = i + 1;
            }
            assert(readings@.take(len as int) =~= readings@);
            Ok(best)
        },
        Aggregation::Average { top } => {
            let n = match top {
                Some(t) => if t < len {
                    t
                } else {
                    len
                },
                None => len,
            };
            if n == 0 {
                return Err(Error::NoValidReadings);
            }
            let sorted = sorted_desc(readings);
            proof {
                lemma_sort_desc_len(readings@);
            }
            let mut sum: u128 = 0;
            let mut i: usize = 0;
            while i < n
                invariant
                    n <= sorted@.len(),
                    i <= n,
                    sum as int == seq_sum(sorted@.take(i as int)),
                decreases n - i,
            {
                proof {
                    assert(sorted@.take(i + 1).drop_last() =~= sorted@.take(i as int));
                    lemma_sum_bound(sorted@.take(i as int));
                }
                sum = sum + sorted[i] as u128;
                i = i + 1;
            }
            proof {
                lemma_sum_bound(sorted@.take(n as int));
                lemma_div_is_ordered(sum as int, 255 * n, n as int);
                lemma_div_by_multiple(255, n as int);
            }
            Ok((sum / (n as u128)) as u8)
        },
    }
}

} // verus!
