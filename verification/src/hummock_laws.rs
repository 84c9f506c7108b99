//! What the level check promises of every level.

use vstd::prelude::*;
use crate::hummock::{
    pin_is, stably_sorted, with_pin, WorkerPin, IssueKind, LevelFacts, LevelIssue, LevelType, earlier_issues, facts_complete, issues_upto,
    level_issues, neighbour_issue, pair_issue, sst_issues,
};

verus! {

/// The SSTs of a level are in order: no two overlap, and each comes before the next.
pub open spec fn level_in_order(l: LevelFacts) -> bool {
    &&& forall|j: int, i: int|
        #![trigger l.pairs@[j]@[i]]
        0 <= i < j < l.pairs@.len() ==> !l.pairs@[j]@[i].sstable_overlap
            && !l.pairs@[j]@[i].full_key_overlap
    &&& forall|i: int|
        0 <= i < l.neighbours@.len() ==> (#[trigger] l.neighbours@[i]).range_before
            && l.neighbours@[i].key_before
}

/// Each issue names two SSTs of the level, the earlier first; an order issue names an SST
/// and the next one.
pub open spec fn issue_well_placed(x: LevelIssue, n: int) -> bool {
    &&& x.left < x.right < n
    &&& (x.kind == IssueKind::RangeOrder || x.kind == IssueKind::KeyOrder) ==> x.right == x.left
        + 1
}

/// An overlapping level is never reported.
pub proof fn law_overlapping_level_clean(l: LevelFacts)
    requires
        l.level_type == LevelType::Overlapping,
    ensures
        level_issues(l) == Seq::<LevelIssue>::empty(),
{
}

/// An issue with an SST `j` found among SSTs `0..k`.
spec fn earlier_placed(x: LevelIssue, j: int, k: int) -> bool {
    &&& x.right == j
    &&& x.left < k
    &&& x.kind != IssueKind::RangeOrder
    &&& x.kind != IssueKind::KeyOrder
}

proof fn lemma_earlier_issues(row: Seq<crate::hummock::SstPairFacts>, j: int, k: int)
    requires
        0 <= k <= j < usize::MAX,
        row.len() == j,
    ensures
        forall|t: int|
            0 <= t < earlier_issues(row, j, k).len() ==> earlier_placed(
                #[trigger] earlier_issues(row, j, k)[t],
                j,
                k,
            ),
        (earlier_issues(row, j, k).len() == 0) == (forall|i: int|
            0 <= i < k ==> !(#[trigger] row[i]).sstable_overlap && !row[i].full_key_overlap),
    decreases k,
{
    if k > 0 {
        lemma_earlier_issues(row, j, k - 1);
        let prev = earlier_issues(row, j, k - 1);
        let add = pair_issue(row[k - 1], k - 1, j);
        assert(earlier_issues(row, j, k) == prev + add);
        assert forall|t: int| 0 <= t < (prev + add).len() implies earlier_placed(
            #[trigger] (prev + add)[t],
            j,
            k,
        ) by {
            if t >= prev.len() {
                let u = t - prev.len();
                assert((prev + add)[t] == add[u]);
                let f = row[k - 1];
                let a1 = crate::hummock::issue_if(
                    f.sstable_overlap,
                    IssueKind::SstableOverlap,
                    k - 1,
                    j,
                );
                let a2 = crate::hummock::issue_if(
                    f.full_key_overlap,
                    IssueKind::FullKeyOverlap,
                    k - 1,
                    j,
                );
                assert(add == a1 + a2);
                if u < a1.len() {
                    assert(add[u] == a1[u]);
                } else {
                    assert(add[u] == a2[u - a1.len()]);
                }
            } else {
                assert((prev + add)[t] == prev[t]);
            }
        }
        if (forall|i: int|
            0 <= i < k ==> !(#[trigger] row[i]).sstable_overlap && !row[i].full_key_overlap) {
            assert(!row[k - 1].sstable_overlap && !row[k - 1].full_key_overlap);
            assert forall|i: int| 0 <= i < k - 1 implies !(#[trigger] row[i]).sstable_overlap
                && !row[i].full_key_overlap by {
                assert(0 <= i < k);
            }
        }
    }
}

proof fn lemma_issues_upto(l: LevelFacts, k: int)
    requires
        facts_complete(l),
        0 <= k <= l.pairs@.len(),
    ensures
        forall|t: int|
            0 <= t < issues_upto(l, k).len() ==> issue_well_placed(
                #[trigger] issues_upto(l, k)[t],
                l.pairs@.len() as int,
            ),
        (issues_upto(l, k).len() == 0) == ((forall|j: int, i: int|
            #![trigger l.pairs@[j]@[i]]
            0 <= i < j < k ==> !l.pairs@[j]@[i].sstable_overlap
                && !l.pairs@[j]@[i].full_key_overlap) && (forall|i: int|
            0 <= i < k && i + 1 < l.pairs@.len() ==> (#[trigger] l.neighbours@[i]).range_before
                && l.neighbours@[i].key_before)),
    decreases k,
{
    let n = l.pairs@.len() as int;
    assert(l.pairs.len() == n);
    if k > 0 {
        let j = k - 1;
        lemma_issues_upto(l, j);
        let row = l.pairs@[j]@;
        assert(row.len() == j);
        lemma_earlier_issues(row, j, j);
        let prev = issues_upto(l, j);
        let e = earlier_issues(row, j, j);
        let nb = if j + 1 < n {
            neighbour_issue(l.neighbours@[j], j)
        } else {
            Seq::<LevelIssue>::empty()
        };
        assert(sst_issues(l, j) == e + nb);
        assert(issues_upto(l, k) == prev + (e + nb));
        assert forall|t: int| 0 <= t < (prev + (e + nb)).len() implies issue_well_placed(
            #[trigger] (prev + (e + nb))[t],
            n,
        ) by {
            if t >= prev.len() {
                let u = t - prev.len();
                if u < e.len() {
                    assert((prev + (e + nb))[t] == e[u]);
                } else {
                    assert((prev + (e + nb))[t] == nb[u - e.len()]);
                    let f = l.neighbours@[j];
                    let a1 = crate::hummock::issue_if(
                        !f.range_before,
                        IssueKind::RangeOrder,
                        j,
                        j + 1,
                    );
                    let a2 = crate::hummock::issue_if(!f.key_before, IssueKind::KeyOrder, j, j + 1);
                    assert(nb == a1 + a2);
                    let w = u - e.len();
                    if w < a1.len() {
                        assert(nb[w] == a1[w]);
                    } else {
                        assert(nb[w] == a2[w - a1.len()]);
                    }
                }
            } else {
                assert((prev + (e + nb))[t] == prev[t]);
            }
        }
        let pairs_ok_k = forall|jj: int, i: int|
            #![trigger l.pairs@[jj]@[i]]
            0 <= i < jj < k ==> !l.pairs@[jj]@[i].sstable_overlap
                && !l.pairs@[jj]@[i].full_key_overlap;
        let pairs_ok_j = forall|jj: int, i: int|
            #![trigger l.pairs@[jj]@[i]]
            0 <= i < jj < j ==> !l.pairs@[jj]@[i].sstable_overlap
                && !l.pairs@[jj]@[i].full_key_overlap;
        let row_ok = forall|i: int|
            0 <= i < j ==> !(#[trigger] row[i]).sstable_overlap && !row[i].full_key_overlap;
        let nb_ok_k = forall|i: int|
            0 <= i < k && i + 1 < n ==> (#[trigger] l.neighbours@[i]).range_before
                && l.neighbours@[i].key_before;
        let nb_ok_j = forall|i: int|
            0 <= i < j && i + 1 < n ==> (#[trigger] l.neighbours@[i]).range_before
                && l.neighbours@[i].key_before;
        assert(pairs_ok_k == (pairs_ok_j && row_ok)) by {
            if pairs_ok_k {
                assert forall|i: int| 0 <= i < j implies !(#[trigger] row[i]).sstable_overlap
                    && !row[i].full_key_overlap by {
                    assert(row[i] == l.pairs@[j]@[i]);
                }
            }
            if pairs_ok_j && row_ok {
                assert forall|jj: int, i: int| 0 <= i < jj < k implies !l.pairs@[jj]@[i].sstable_overlap
                    && !l.pairs@[jj]@[i].full_key_overlap by {
                    if jj == j {
                        assert(row[i] == l.pairs@[j]@[i]);
                    }
                }
            }
        }
        let nb_ok_here = j + 1 < n ==> l.neighbours@[j].range_before
            && l.neighbours@[j].key_before;
        assert(nb_ok_k == (nb_ok_j && nb_ok_here));
        assert((nb.len() == 0) == nb_ok_here);
    }
}

/// Every issue reported of a level names two of its SSTs, the earlier first; an order issue
/// names an SST and the next one.
pub proof fn law_issues_well_placed(l: LevelFacts)
    requires
        facts_complete(l),
    ensures
        forall|t: int|
            0 <= t < level_issues(l).len() ==> issue_well_placed(
                #[trigger] level_issues(l)[t],
                l.pairs@.len() as int,
            ),
{
    if l.level_type != LevelType::Overlapping {
        lemma_issues_upto(l, l.pairs@.len() as int);
    }
}

/// A level that is not overlapping is reported clean exactly when its SSTs are in order.
pub proof fn law_clean_iff_in_order(l: LevelFacts)
    requires
        facts_complete(l),
        l.level_type != LevelType::Overlapping,
    ensures
        (level_issues(l).len() == 0) == level_in_order(l),
{
    let n = l.pairs@.len() as int;
    lemma_issues_upto(l, n);
    if n > 0 {
        assert(l.neighbours@.len() == n - 1);
    }
}

/// Sorting pins neither drops nor invents any: a pin is in the sorted listing exactly when
/// it is among the given pins.
pub proof fn law_sort_keeps_pins(r: Seq<WorkerPin>, s: Seq<WorkerPin>, p: WorkerPin)
    requires
        stably_sorted(r, s),
    ensures
        r.contains(p) == s.contains(p),
{
    let v = p.min_pinned;
    assert(with_pin(r, v) == with_pin(s, v));
    if r.contains(p) {
        let i = choose|i: int| 0 <= i < r.len() && r[i] == p;
        r.lemma_filter_contains(pin_is(v), i);
        s.lemma_filter_contains_rev(pin_is(v), p);
    }
    if s.contains(p) {
        let i = choose|i: int| 0 <= i < s.len() && s[i] == p;
        s.lemma_filter_contains(pin_is(v), i);
        r.lemma_filter_contains_rev(pin_is(v), p);
    }
}

/// `x` is reported among SSTs `0..k` of a level: an overlap issue for an earlier SST `left`
/// and SST `right` whose comparison found that overlap, or an order issue for an SST `left`
/// and the next one whose comparison found them out of order.
pub open spec fn found_in(l: LevelFacts, k: int, x: LevelIssue) -> bool {
    let n = l.pairs@.len() as int;
    let i = x.left as int;
    let j = x.right as int;
    ||| x.kind == IssueKind::SstableOverlap && i < j < k && l.pairs@[j]@[i].sstable_overlap
    ||| x.kind == IssueKind::FullKeyOverlap && i < j < k && l.pairs@[j]@[i].full_key_overlap
    ||| x.kind == IssueKind::RangeOrder && i < k && j == i + 1 && j < n
        && !l.neighbours@[i].range_before
    ||| x.kind == IssueKind::KeyOrder && i < k && j == i + 1 && j < n && !l.neighbours@[i].key_before
}

proof fn lemma_single_contains(e: LevelIssue, x: LevelIssue)
    ensures
        seq![e].contains(x) <==> x == e,
{
    if x == e {
        assert(seq![e][0] == x);
    }
}

proof fn lemma_earlier_contains(l: LevelFacts, j: int, k: int, x: LevelIssue)
    requires
        facts_complete(l),
        0 <= k <= j < l.pairs@.len(),
        l.pairs@.len() <= usize::MAX,
    ensures
        earlier_issues(l.pairs@[j]@, j, k).contains(x) <==> (x.right == j && x.left < k && (
        (x.kind == IssueKind::SstableOverlap && l.pairs@[j]@[x.left as int].sstable_overlap) || (
        x.kind == IssueKind::FullKeyOverlap && l.pairs@[j]@[x.left as int].full_key_overlap))),
    decreases k,
{
    broadcast use vstd::seq_lib::lemma_seq_concat_contains_all_elements;

    let row = l.pairs@[j]@;
    if k == 0 {
        assert(earlier_issues(row, j, 0) =~= Seq::<LevelIssue>::empty());
    } else {
        lemma_earlier_contains(l, j, k - 1, x);
        let f = row[k - 1];
        let e0 = LevelIssue {
            kind: IssueKind::SstableOverlap,
            left: (k - 1) as usize,
            right: j as usize,
        };
        let e1 = LevelIssue {
            kind: IssueKind::FullKeyOverlap,
            left: (k - 1) as usize,
            right: j as usize,
        };
        lemma_single_contains(e0, x);
        lemma_single_contains(e1, x);
        assert(earlier_issues(row, j, k) == earlier_issues(row, j, k - 1) + pair_issue(
            f,
            k - 1,
            j,
        ));
        if !f.sstable_overlap {
            assert(crate::hummock::issue_if(
                f.sstable_overlap,
                IssueKind::SstableOverlap,
                k - 1,
                j,
            ) =~= Seq::<LevelIssue>::empty());
        }
        if !f.full_key_overlap {
            assert(crate::hummock::issue_if(
                f.full_key_overlap,
                IssueKind::FullKeyOverlap,
                k - 1,
                j,
            ) =~= Seq::<LevelIssue>::empty());
        }
    }
}

proof fn lemma_upto_contains(l: LevelFacts, k: int, x: LevelIssue)
    requires
        facts_complete(l),
        0 <= k <= l.pairs@.len(),
        l.pairs@.len() <= usize::MAX,
    ensures
        issues_upto(l, k).contains(x) <==> found_in(l, k, x),
    decreases k,
{
    broadcast use vstd::seq_lib::lemma_seq_concat_contains_all_elements;

    let n = l.pairs@.len() as int;
    if k == 0 {
        assert(issues_upto(l, 0) =~= Seq::<LevelIssue>::empty());
    } else {
        let j = k - 1;
        lemma_upto_contains(l, j, x);
        lemma_earlier_contains(l, j, j, x);
        assert(issues_upto(l, k) == issues_upto(l, j) + sst_issues(l, j));
        let e = earlier_issues(l.pairs@[j]@, j, j);
        if j + 1 < n {
            let f = l.neighbours@[j];
            let e2 = LevelIssue { kind: IssueKind::RangeOrder, left: j as usize, right: (j + 1) as usize };
            let e3 = LevelIssue { kind: IssueKind::KeyOrder, left: j as usize, right: (j + 1) as usize };
            lemma_single_contains(e2, x);
            lemma_single_contains(e3, x);
            assert(sst_issues(l, j) == e + neighbour_issue(f, j));
            if f.range_before {
                assert(crate::hummock::issue_if(!f.range_before, IssueKind::RangeOrder, j, j + 1)
                    =~= Seq::<LevelIssue>::empty());
            }
            if f.key_before {
                assert(crate::hummock::issue_if(!f.key_before, IssueKind::KeyOrder, j, j + 1)
                    =~= Seq::<LevelIssue>::empty());
            }
        } else {
            assert(sst_issues(l, j) =~= e);
        }
    }
}

/// Each issue names the comparison it was found on, and every failed comparison is reported:
/// an overlap issue for SSTs `i` and `j` is reported exactly when `i < j` and their comparison
/// found that overlap; an order issue for `i` and `j` exactly when `j` is the SST after `i`
/// and their comparison found them out of order. An overlapping level reports nothing.
pub proof fn law_issue_iff_fact(l: LevelFacts, i: usize, j: usize)
    requires
        facts_complete(l),
    ensures
        ({
            let n = l.pairs@.len() as int;
            let checked = l.level_type != LevelType::Overlapping;
            let has = |k: IssueKind| level_issues(l).contains(LevelIssue { kind: k, left: i, right: j });
            &&& has(IssueKind::SstableOverlap) <==> (checked && i < j < n
                && l.pairs@[j as int]@[i as int].sstable_overlap)
            &&& has(IssueKind::FullKeyOverlap) <==> (checked && i < j < n
                && l.pairs@[j as int]@[i as int].full_key_overlap)
            &&& has(IssueKind::RangeOrder) <==> (checked && j == i + 1 && j < n
                && !l.neighbours@[i as int].range_before)
            &&& has(IssueKind::KeyOrder) <==> (checked && j == i + 1 && j < n
                && !l.neighbours@[i as int].key_before)
        }),
{
    let n = l.pairs@.len() as int;
    assert(l.pairs.len() == n);
    if l.level_type != LevelType::Overlapping {
        lemma_upto_contains(l, n, LevelIssue { kind: IssueKind::SstableOverlap, left: i, right: j });
        lemma_upto_contains(l, n, LevelIssue { kind: IssueKind::FullKeyOverlap, left: i, right: j });
        lemma_upto_contains(l, n, LevelIssue { kind: IssueKind::RangeOrder, left: i, right: j });
        lemma_upto_contains(l, n, LevelIssue { kind: IssueKind::KeyOrder, left: i, right: j });
    }
}

/// The SST at which an issue is found: the later SST of an overlap, the first SST of an
/// order issue.
pub open spec fn found_at(x: LevelIssue) -> int {
    if x.kind == IssueKind::SstableOverlap || x.kind == IssueKind::FullKeyOverlap {
        x.right as int
    } else {
        x.left as int
    }
}

/// Where an issue comes among those found at the same SST: overlaps by earlier SST, the key
/// range overlap before the full-key one; then the range order, then the key order.
pub open spec fn place_within(x: LevelIssue) -> int {
    let bit: int = if x.kind == IssueKind::SstableOverlap || x.kind == IssueKind::RangeOrder {
        0
    } else {
        1
    };
    2 * (x.left as int) + bit
}

/// `x` is reported before `y`.
pub open spec fn reported_before(x: LevelIssue, y: LevelIssue) -> bool {
    found_at(x) < found_at(y) || (found_at(x) == found_at(y) && place_within(x) < place_within(
        y,
    ))
}

/// Issues in the order they are found, none twice.
pub open spec fn in_report_order(s: Seq<LevelIssue>) -> bool {
    forall|p: int, q: int| 0 <= p < q < s.len() ==> reported_before(#[trigger] s[p], #[trigger] s[q])
}

proof fn lemma_concat_order(a: Seq<LevelIssue>, b: Seq<LevelIssue>)
    requires
        in_report_order(a),
        in_report_order(b),
        forall|p: int, q: int|
            0 <= p < a.len() && 0 <= q < b.len() ==> reported_before(#[trigger] a[p], #[trigger] b[q]),
    ensures
        in_report_order(a + b),
{
    let c = a + b;
    assert forall|p: int, q: int| 0 <= p < q < c.len() implies reported_before(
        #[trigger] c[p],
        #[trigger] c[q],
    ) by {
        if q < a.len() {
            assert(c[p] == a[p] && c[q] == a[q]);
        } else if p < a.len() {
            assert(c[p] == a[p] && c[q] == b[q - a.len()]);
        } else {
            assert(c[p] == b[p - a.len()] && c[q] == b[q - a.len()]);
        }
    }
}

proof fn lemma_issue_if_shape(b: bool, kind: IssueKind, left: int, right: int)
    requires
        0 <= left <= usize::MAX,
        0 <= right <= usize::MAX,
    ensures
        in_report_order(crate::hummock::issue_if(b, kind, left, right)),
        forall|p: int|
            0 <= p < crate::hummock::issue_if(b, kind, left, right).len() ==> #[trigger] crate::hummock::issue_if(
                b,
                kind,
                left,
                right,
            )[p] == (LevelIssue { kind, left: left as usize, right: right as usize }),
{
}

proof fn lemma_earlier_order(l: LevelFacts, j: int, k: int)
    requires
        facts_complete(l),
        0 <= k <= j < l.pairs@.len(),
        l.pairs@.len() <= usize::MAX,
    ensures
        in_report_order(earlier_issues(l.pairs@[j]@, j, k)),
        forall|p: int|
            0 <= p < earlier_issues(l.pairs@[j]@, j, k).len() ==> {
                &&& found_at(#[trigger] earlier_issues(l.pairs@[j]@, j, k)[p]) == j
                &&& 0 <= place_within(earlier_issues(l.pairs@[j]@, j, k)[p]) < 2 * k
            },
    decreases k,
{
    let row = l.pairs@[j]@;
    if k > 0 {
        lemma_earlier_order(l, j, k - 1);
        let f = row[k - 1];
        let a = crate::hummock::issue_if(f.sstable_overlap, IssueKind::SstableOverlap, k - 1, j);
        let b = crate::hummock::issue_if(f.full_key_overlap, IssueKind::FullKeyOverlap, k - 1, j);
        lemma_issue_if_shape(f.sstable_overlap, IssueKind::SstableOverlap, k - 1, j);
        lemma_issue_if_shape(f.full_key_overlap, IssueKind::FullKeyOverlap, k - 1, j);
        lemma_concat_order(a, b);
        let prev = earlier_issues(row, j, k - 1);
        lemma_concat_order(prev, a + b);
        assert(earlier_issues(row, j, k) == prev + (a + b));
        let all = prev + (a + b);
        assert forall|p: int| 0 <= p < all.len() implies {
            &&& found_at(#[trigger] all[p]) == j
            &&& 0 <= place_within(all[p]) < 2 * k
        } by {
            if p < prev.len() {
                assert(all[p] == prev[p]);
            } else if p < prev.len() + a.len() {
                assert(all[p] == a[p - prev.len()]);
            } else {
                assert(all[p] == b[p - prev.len() - a.len()]);
            }
        }
    }
}

proof fn lemma_upto_order(l: LevelFacts, k: int)
    requires
        facts_complete(l),
        0 <= k <= l.pairs@.len(),
        l.pairs@.len() <= usize::MAX,
    ensures
        in_report_order(issues_upto(l, k)),
        forall|p: int|
            0 <= p < issues_upto(l, k).len() ==> found_at(#[trigger] issues_upto(l, k)[p]) < k,
    decreases k,
{
    let n = l.pairs@.len() as int;
    if k > 0 {
        let j = k - 1;
        lemma_upto_order(l, j);
        lemma_earlier_order(l, j, j);
        let e = earlier_issues(l.pairs@[j]@, j, j);
        let nb = if j + 1 < n {
            neighbour_issue(l.neighbours@[j], j)
        } else {
            Seq::<LevelIssue>::empty()
        };
        if j + 1 < n {
            let f = l.neighbours@[j];
            lemma_issue_if_shape(!f.range_before, IssueKind::RangeOrder, j, j + 1);
            lemma_issue_if_shape(!f.key_before, IssueKind::KeyOrder, j, j + 1);
            let a = crate::hummock::issue_if(!f.range_before, IssueKind::RangeOrder, j, j + 1);
            let b = crate::hummock::issue_if(!f.key_before, IssueKind::KeyOrder, j, j + 1);
            lemma_concat_order(a, b);
            assert(nb == a + b);
            assert forall|p: int| 0 <= p < nb.len() implies {
                &&& found_at(#[trigger] nb[p]) == j
                &&& 2 * j <= place_within(nb[p]) <= 2 * j + 1
            } by {
                if p < a.len() {
                    assert(nb[p] == a[p]);
                } else {
                    assert(nb[p] == b[p - a.len()]);
                }
            }
        } else {
            assert(in_report_order(nb));
        }
        assert(forall|p: int| 0 <= p < nb.len() ==> found_at(#[trigger] nb[p]) == j
            && 2 * j <= place_within(nb[p]));
        lemma_concat_order(e, nb);
        let chunk = e + nb;
        assert(sst_issues(l, j) == chunk);
        assert forall|p: int| 0 <= p < chunk.len() implies found_at(#[trigger] chunk[p]) == j by {
            if p < e.len() {
                assert(chunk[p] == e[p]);
            } else {
                assert(chunk[p] == nb[p - e.len()]);
            }
        }
        let prev = issues_upto(l, j);
        lemma_concat_order(prev, chunk);
        assert(issues_upto(l, k) == prev + chunk);
        let all = prev + chunk;
        assert forall|p: int| 0 <= p < all.len() implies found_at(#[trigger] all[p]) < k by {
            if p < prev.len() {
                assert(all[p] == prev[p]);
            } else {
                assert(all[p] == chunk[p - prev.len()]);
            }
        }
    }
}

/// A level's issues come in the order they are found, each once: by the SST at which they
/// are found, and there overlaps by earlier SST (key range before full key), then the range
/// order, then the key order.
pub proof fn law_issues_in_report_order(l: LevelFacts)
    requires
        facts_complete(l),
    ensures
        in_report_order(level_issues(l)),
{
    assert(l.pairs.len() == l.pairs@.len());
    if l.level_type != LevelType::Overlapping {
        lemma_upto_order(l, l.pairs@.len() as int);
    }
}

} // verus!
