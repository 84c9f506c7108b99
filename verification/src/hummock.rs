//! Checks on a storage version as the control tool reports it: which SSTs of a level are
//! out of order or overlap, and the pinned versions and snapshots, by worker.
//!
//! The key-range comparisons themselves are made by the storage SDK; these functions take
//! their outcomes and decide what to report.

use vstd::prelude::*;
use std::collections::HashMap;
use vstd::string::StringExecFns;
use crate::strings::push_u64;
use crate::strings;

verus! {

broadcast use vstd::std_specs::hash::group_hash_axioms;

/// How the SSTs of a level relate: an overlapping level may hold SSTs with overlapping key
/// ranges; the others must be sorted and disjoint.
#[derive(Clone, Copy, Debug, PartialEq, Eq, Structural)]
pub enum LevelType {
    Unspecified,
    Nonoverlapping,
    Overlapping,
}

/// Comparisons of an earlier SST of a level with a later one.
#[derive(Clone, Copy, Debug)]
pub struct SstPairFacts {
    /// The two SSTs' key ranges overlap (`sstable_overlap`).
    pub sstable_overlap: bool,
    /// The two SSTs' full-key ranges overlap (`full_key_overlap`).
    pub full_key_overlap: bool,
}

/// Comparisons of an SST with the next one in its level.
#[derive(Clone, Copy, Debug)]
pub struct SstNeighbourFacts {
    /// The first key range compares before the second (`compare` gives `Less`).
    pub range_before: bool,
    /// The first range's right key compares before the second's left key
    /// (`compare_encoded_full_key` gives `Less`).
    pub key_before: bool,
}

/// A level with `n` SSTs: its index, its type, and the comparisons of its SSTs:
/// `pairs[j][i]` compares SST `i` with SST `j` for `i < j`; `neighbours[i]` compares SST `i`
/// with SST `i + 1`.
pub struct LevelFacts {
    pub level_idx: u32,
    pub level_type: LevelType,
    pub pairs: Vec<Vec<SstPairFacts>>,
    pub neighbours: Vec<SstNeighbourFacts>,
}

/// The comparisons of a level are complete: one per pair of SSTs and one per neighbour.
pub open spec fn facts_complete(l: LevelFacts) -> bool {
    &&& forall|j: int| 0 <= j < l.pairs@.len() ==> (#[trigger] l.pairs@[j])@.len() == j
    &&& l.neighbours@.len() == if l.pairs@.len() == 0 {
        0
    } else {
        l.pairs@.len() - 1
    }
}

/// What is wrong with two SSTs of a level.
#[derive(Clone, Copy, Debug, PartialEq, Eq, Structural)]
pub enum IssueKind {
    /// An earlier SST's key range overlaps a later one's (E0).
    SstableOverlap,
    /// An earlier SST's full-key range overlaps a later one's (E1).
    FullKeyOverlap,
    /// An SST's key range does not come before the next one's (E2).
    RangeOrder,
    /// An SST's right key does not come before the next one's left key (E3).
    KeyOrder,
}

/// An issue between SST `left` and SST `right` of a level.
#[derive(Clone, Copy, Debug, PartialEq, Eq, Structural)]
pub struct LevelIssue {
    pub kind: IssueKind,
    pub left: usize,
    pub right: usize,
}

/// The one-issue sequence if `b`, else nothing.
pub open spec fn issue_if(b: bool, kind: IssueKind, left: int, right: int) -> Seq<LevelIssue> {
    if b {
        seq![LevelIssue { kind, left: left as usize, right: right as usize }]
    } else {
        Seq::empty()
    }
}

/// The issues between SST `i` and a later SST `j`.
pub open spec fn pair_issue(f: SstPairFacts, i: int, j: int) -> Seq<LevelIssue> {
    issue_if(f.sstable_overlap, IssueKind::SstableOverlap, i, j) + issue_if(
        f.full_key_overlap,
        IssueKind::FullKeyOverlap,
        i,
        j,
    )
}

/// The issues between SST `j` and each of SSTs `0..k`, in that order.
pub open spec fn earlier_issues(row: Seq<SstPairFacts>, j: int, k: int) -> Seq<LevelIssue>
    decreases k,
{
    if k <= 0 {
        Seq::empty()
    } else {
        earlier_issues(row, j, k - 1) + pair_issue(row[k - 1], k - 1, j)
    }
}

/// The issues between SST `i` and SST `i + 1`.
pub open spec fn neighbour_issue(f: SstNeighbourFacts, i: int) -> Seq<LevelIssue> {
    issue_if(!f.range_before, IssueKind::RangeOrder, i, i + 1) + issue_if(
        !f.key_before,
        IssueKind::KeyOrder,
        i,
        i + 1,
    )
}

/// The issues found at SST `j`: with each earlier SST, then with the next one.
pub open spec fn sst_issues(l: LevelFacts, j: int) -> Seq<LevelIssue> {
    earlier_issues(l.pairs@[j]@, j, j) + if j + 1 < l.pairs@.len() {
        neighbour_issue(l.neighbours@[j], j)
    } else {
        Seq::empty()
    }
}

/// The issues found at SSTs `0..k`, in that order.
pub open spec fn issues_upto(l: LevelFacts, k: int) -> Seq<LevelIssue>
    decreases k,
{
    if k <= 0 {
        Seq::empty()
    } else {
        issues_upto(l, k - 1) + sst_issues(l, k - 1)
    }
}

/// The issues of a level: none for an overlapping level; else, SST by SST, each overlap
/// with an earlier SST and each disorder with the next one.
pub open spec fn level_issues(l: LevelFacts) -> Seq<LevelIssue> {
    if l.level_type == LevelType::Overlapping {
        Seq::empty()
    } else {
        issues_upto(l, l.pairs@.len() as int)
    }
}

/// The issues of a level, in the order they are found.
pub fn sanity_check_level(level: &LevelFacts) -> (r: Vec<LevelIssue>)
    requires
        facts_complete(*level),
    ensures
        r@ == level_issues(*level),
{
    let mut out: Vec<LevelIssue> = Vec::new();
    if level.level_type == LevelType::Overlapping {
        return out;
    }
    let n = level.pairs.len();
    let mut j: usize = 0;
    while j < n
        invariant
            n == level.pairs@.len(),
            facts_complete(*level),
            j <= n,
            out@ == issues_upto(*level, j as int),
        decreases n - j,
    {
        let row = &level.pairs[j];
        assert(row@.len() == j);
        let ghost before = out@;
        let mut i: usize = 0;
        while i < j
            invariant
                row@.len() == j,
                *row == level.pairs@[j as int],
                i <= j,
                out@ == before + earlier_issues(row@, j as int, i as int),
            decreases j - i,
        {
            let f = row[i];
            if f.sstable_overlap {
                out.push(LevelIssue { kind: IssueKind::SstableOverlap, left: i, right: j });
            }
            if f.full_key_overlap {
                out.push(LevelIssue { kind: IssueKind::FullKeyOverlap, left: i, right: j });
            }
            proof {
                assert(out@ =~= before + earlier_issues(row@, j as int, i + 1));
            }
            i = i + 1;
        }
        let ghost middle = out@;
        if j + 1 < n {
            let f = level.neighbours[j];
            if !f.range_before {
                out.push(LevelIssue { kind: IssueKind::RangeOrder, left: j, right: j + 1 });
            }
            if !f.key_before {
                out.push(LevelIssue { kind: IssueKind::KeyOrder, left: j, right: j + 1 });
            }
            assert(out@ =~= middle + neighbour_issue(level.neighbours@[j as int], j as int));
        }
        assert(out@ =~= issues_upto(*level, j + 1));
        j = j + 1;
    }
    out
}

/// The label of a level: its index.
pub open spec fn level_label(idx: u32) -> Seq<char> {
    strings::nat_text(idx as nat)
}

/// The label of a sub-level of level 0: `0-` and its index.
pub open spec fn sub_level_label(idx: u32) -> Seq<char> {
    seq!['0', '-'] + strings::nat_text(idx as nat)
}

/// The levels of a compaction group: the sub-levels of level 0, then the other levels.
pub struct GroupLevels {
    pub l0_sub_levels: Option<Vec<LevelFacts>>,
    pub levels: Vec<LevelFacts>,
}

/// What is reported of a level: its label and its issues.
#[derive(Debug)]
pub struct LevelReport {
    pub label: String,
    pub issues: Vec<LevelIssue>,
}

/// The view of a report: its label and its issues.
pub open spec fn report_view(r: LevelReport) -> (Seq<char>, Seq<LevelIssue>) {
    (r.label@, r.issues@)
}

/// Every level of a group has complete comparisons, and level 0 is there.
pub open spec fn group_complete(g: GroupLevels) -> bool {
    &&& g.l0_sub_levels is Some
    &&& forall|i: int|
        0 <= i < g.l0_sub_levels.unwrap()@.len() ==> facts_complete(
            #[trigger] g.l0_sub_levels.unwrap()@[i],
        )
    &&& forall|i: int| 0 <= i < g.levels@.len() ==> facts_complete(#[trigger] g.levels@[i])
}

/// The reports of a group: each sub-level of level 0, then each other level, in order.
pub open spec fn group_reports(g: GroupLevels) -> Seq<(Seq<char>, Seq<LevelIssue>)> {
    g.l0_sub_levels.unwrap()@.map_values(
        |l: LevelFacts| (sub_level_label(l.level_idx), level_issues(l)),
    ) + g.levels@.map_values(|l: LevelFacts| (level_label(l.level_idx), level_issues(l)))
}

/// The reports of groups `0..k`, in order.
pub open spec fn reports_upto(groups: Seq<GroupLevels>, k: int) -> Seq<(Seq<char>, Seq<LevelIssue>)>
    decreases k,
{
    if k <= 0 {
        Seq::empty()
    } else {
        reports_upto(groups, k - 1) + group_reports(groups[k - 1])
    }
}

/// The reports of the levels of a group, with `label` giving each level's label, appended to
/// `out`.
fn check_levels(out: &mut Vec<LevelReport>, levels: &Vec<LevelFacts>, sub_levels: bool)
    requires
        forall|i: int| 0 <= i < levels@.len() ==> facts_complete(#[trigger] levels@[i]),
    ensures
        final(out)@.map_values(|r: LevelReport| report_view(r)) == old(out)@.map_values(
            |r: LevelReport| report_view(r),
        ) + levels@.map_values(
            |l: LevelFacts|
                (
                    if sub_levels {
                        sub_level_label(l.level_idx)
                    } else {
                        level_label(l.level_idx)
                    },
                    level_issues(l),
                ),
        ),
{
    let ghost start = out@.map_values(|r: LevelReport| report_view(r));
    let ghost target = levels@.map_values(
        |l: LevelFacts|
            (
                if sub_levels {
                    sub_level_label(l.level_idx)
                } else {
                    level_label(l.level_idx)
                },
                level_issues(l),
            ),
    );
    let n = levels.len();
    let mut i: usize = 0;
    while i < n
        invariant
            n == levels@.len(),
            forall|k: int| 0 <= k < n ==> facts_complete(#[trigger] levels@[k]),
            i <= n,
            out@.map_values(|r: LevelReport| report_view(r)) =~= start + target.take(i as int),
            target == levels@.map_values(
                |l: LevelFacts|
                    (
                        if sub_levels {
                            sub_level_label(l.level_idx)
                        } else {
                            level_label(l.level_idx)
                        },
                        level_issues(l),
                    ),
            ),
        decreases n - i,
    {
        let level = &levels[i];
        let mut label = String::new();
        if sub_levels {
            label.append("0-");
            proof {
                reveal_strlit("0-");
            }
        }
        push_u64(&mut label, level.level_idx as u64);
        assert(label@ =~= if sub_levels {
            sub_level_label(level.level_idx)
        } else {
            level_label(level.level_idx)
        });
        let issues = sanity_check_level(level);
        assert(target[i as int] == (label@, issues@));
        let ghost before = out@;
        out.push(LevelReport { label, issues });
        proof {
            assert(out@.map_values(|r: LevelReport| report_view(r)) =~= before.map_values(
                |r: LevelReport| report_view(r),
            ).push(target[i as int]));
            assert(target.take(i + 1) =~= target.take(i as int).push(target[i as int]));
        }
        i = i + 1;
    }
    assert(target.take(n as int) =~= target);
}

/// The reports of every level of every group: for each group, the sub-levels of level 0
/// (labelled `0-<index>`), then the other levels (labelled by index).
pub fn sanity_check(groups: &Vec<GroupLevels>) -> (r: Vec<LevelReport>)
    requires
        forall|i: int| 0 <= i < groups@.len() ==> group_complete(#[trigger] groups@[i]),
    ensures
        r@.map_values(|x: LevelReport| report_view(x)) == reports_upto(
            groups@,
            groups@.len() as int,
        ),
{
    let mut out: Vec<LevelReport> = Vec::new();
    let n = groups.len();
    let mut g: usize = 0;
    assert(out@.map_values(|x: LevelReport| report_view(x)) =~= reports_upto(groups@, 0));
    while g < n
        invariant
            n == groups@.len(),
            forall|i: int| 0 <= i < n ==> group_complete(#[trigger] groups@[i]),
            g <= n,
            out@.map_values(|x: LevelReport| report_view(x)) == reports_upto(groups@, g as int),
        decreases n - g,
    {
        let group = &groups[g];
        assert(group_complete(*group));
        match &group.l0_sub_levels {
            Some(l0) => {
                check_levels(&mut out, l0, true);
            },
            None => {},
        }
        check_levels(&mut out, &group.levels, false);
        proof {
            let sub = group.l0_sub_levels.unwrap()@;
            assert(sub.map_values(
                |l: LevelFacts|
                    (
                        if true {
                            sub_level_label(l.level_idx)
                        } else {
                            level_label(l.level_idx)
                        },
                        level_issues(l),
                    ),
            ) =~= sub.map_values(|l: LevelFacts| (sub_level_label(l.level_idx), level_issues(l))));
            assert(group.levels@.map_values(
                |l: LevelFacts|
                    (
                        if false {
                            sub_level_label(l.level_idx)
                        } else {
                            level_label(l.level_idx)
                        },
                        level_issues(l),
                    ),
            ) =~= group.levels@.map_values(
                |l: LevelFacts| (level_label(l.level_idx), level_issues(l)),
            ));
        }
        assert(out@.map_values(|x: LevelReport| report_view(x)) =~= reports_upto(
            groups@,
            g + 1,
        ));
        g = g + 1;
    }
    out
}

/// What a worker pins: the least version (or snapshot) id it holds.
#[derive(Clone, Copy, Debug, PartialEq, Eq, Structural)]
pub struct WorkerPin {
    pub context_id: u32,
    pub min_pinned: u64,
}

/// The kinds of worker of a cluster.
#[derive(Clone, Copy, Debug, PartialEq, Eq, Structural)]
pub enum WorkerType {
    Unspecified,
    Frontend,
    ComputeNode,
    RiseCtl,
    Compactor,
    Meta,
}

/// A line of the pin listing: the worker, what it pins, and its type; no type when the
/// worker is not known (it may have been dropped).
#[derive(Clone, Copy, Debug, PartialEq, Eq, Structural)]
pub struct PinReport {
    pub context_id: u32,
    pub min_pinned: u64,
    pub worker: Option<WorkerType>,
}

/// Pins with `min_pinned == v`.
pub open spec fn pin_is(v: u64) -> spec_fn(WorkerPin) -> bool {
    |p: WorkerPin| p.min_pinned == v
}

/// The pins of `s` with `min_pinned == v`, in their order in `s`.
pub open spec fn with_pin(s: Seq<WorkerPin>, v: u64) -> Seq<WorkerPin> {
    s.filter(pin_is(v))
}

/// `s` is in ascending order of `min_pinned`.
pub open spec fn pins_sorted(s: Seq<WorkerPin>) -> bool {
    forall|i: int, j: int| 0 <= i <= j < s.len() ==> s[i].min_pinned <= s[j].min_pinned
}

/// `r` is `s` sorted by `min_pinned`, pins with equal `min_pinned` kept in their order in `s`.
pub open spec fn stably_sorted(r: Seq<WorkerPin>, s: Seq<WorkerPin>) -> bool {
    &&& pins_sorted(r)
    &&& forall|v: u64| #[trigger] with_pin(r, v) == with_pin(s, v)
}

/// A sequence with no pin at `v` has nothing to keep at `v`.
proof fn lemma_with_pin_none(s: Seq<WorkerPin>, v: u64)
    requires
        forall|i: int| 0 <= i < s.len() ==> (#[trigger] s[i]).min_pinned != v,
    ensures
        with_pin(s, v) == Seq::<WorkerPin>::empty(),
{
    assert(s.all(|p: WorkerPin| !pin_is(v)(p)));
    s.lemma_all_neg_filter_empty(pin_is(v));
}

/// A stable sort by `min_pinned` has one result: two stable sorts of the same pins are equal.
pub proof fn law_stable_sort_unique(a: Seq<WorkerPin>, b: Seq<WorkerPin>, s: Seq<WorkerPin>)
    requires
        stably_sorted(a, s),
        stably_sorted(b, s),
    ensures
        a == b,
    decreases a.len() + b.len(),
{
    lemma_sorted_pair_unique(a, b);
}

proof fn lemma_sorted_pair_unique(a: Seq<WorkerPin>, b: Seq<WorkerPin>)
    requires
        pins_sorted(a),
        pins_sorted(b),
        forall|v: u64| #[trigger] with_pin(a, v) == with_pin(b, v),
    ensures
        a == b,
    decreases a.len() + b.len(),
{
    broadcast use vstd::seq_lib::group_seq_properties;

    if a.len() == 0 && b.len() == 0 {
        assert(a =~= b);
    } else if a.len() == 0 {
        let m = b.last().min_pinned;
        assert(b =~= b.drop_last().push(b.last()));
        b.drop_last().lemma_filter_push(b.last(), pin_is(m));
        lemma_with_pin_none(a, m);
        assert(with_pin(a, m) == with_pin(b, m));
    } else if b.len() == 0 {
        let m = a.last().min_pinned;
        assert(a =~= a.drop_last().push(a.last()));
        a.drop_last().lemma_filter_push(a.last(), pin_is(m));
        lemma_with_pin_none(b, m);
        assert(with_pin(a, m) == with_pin(b, m));
    } else {
        let ma = a.last().min_pinned;
        let mb = b.last().min_pinned;
        let a0 = a.drop_last();
        let b0 = b.drop_last();
        assert(a =~= a0.push(a.last()));
        assert(b =~= b0.push(b.last()));
        // The largest keys agree.
        a0.lemma_filter_push(a.last(), pin_is(ma));
        b0.lemma_filter_push(b.last(), pin_is(mb));
        assert(with_pin(a, ma) == with_pin(b, ma));
        assert(with_pin(b, ma).len() > 0);
        assert(with_pin(b, ma).contains(with_pin(b, ma)[0]));
        b.lemma_filter_contains_rev(pin_is(ma), with_pin(b, ma)[0]);
        b.lemma_filter_pred(pin_is(ma), 0);
        assert(ma <= mb);
        assert(with_pin(a, mb) == with_pin(b, mb));
        assert(with_pin(a, mb).len() > 0);
        assert(with_pin(a, mb).contains(with_pin(a, mb)[0]));
        a.lemma_filter_contains_rev(pin_is(mb), with_pin(a, mb)[0]);
        a.lemma_filter_pred(pin_is(mb), 0);
        assert(mb <= ma);
        let m = ma;
        // So do the last elements: each is the last pin at `m`.
        assert(a.last() == with_pin(a, m).last());
        assert(b.last() == with_pin(b, m).last());
        // And what comes before them.
        assert forall|v: u64| #[trigger] with_pin(a0, v) == with_pin(b0, v) by {
            a0.lemma_filter_push(a.last(), pin_is(v));
            b0.lemma_filter_push(b.last(), pin_is(v));
            if v == m {
                assert(with_pin(a0, v) =~= with_pin(a, v).drop_last());
                assert(with_pin(b0, v) =~= with_pin(b, v).drop_last());
            }
        }
        lemma_sorted_pair_unique(a0, b0);
    }
}

/// The pins sorted by `min_pinned`, pins with equal `min_pinned` kept in their given order
/// (what `sort_by_key` gives).
pub fn sort_pins(pins: &Vec<WorkerPin>) -> (r: Vec<WorkerPin>)
    ensures
        stably_sorted(r@, pins@),
{
    broadcast use vstd::seq_lib::group_seq_properties;

    let n = pins.len();
    let mut out: Vec<WorkerPin> = Vec::new();
    let mut k: usize = 0;
    assert forall|v: u64| #[trigger] with_pin(out@, v) == with_pin(pins@.take(0), v) by {
        assert(out@ =~= pins@.take(0));
    }
    while k < n
        invariant
            n == pins@.len(),
            k <= n,
            stably_sorted(out@, pins@.take(k as int)),
        decreases n - k,
    {
        let x = pins[k];
        let m = out.len();
        let mut p: usize = 0;
        while p < m && out[p].min_pinned <= x.min_pinned
            invariant
                m == out@.len(),
                p <= m,
                forall|i: int| 0 <= i < p ==> (#[trigger] out@[i]).min_pinned <= x.min_pinned,
            decreases m - p,
        {
            p = p + 1;
        }
        let ghost old_out = out@;
        let ghost a = old_out.take(p as int);
        let ghost b = old_out.skip(p as int);
        proof {
            assert(old_out =~= a + b);
            assert forall|i: int| 0 <= i < b.len() implies (#[trigger] b[i]).min_pinned
                > x.min_pinned by {
                assert(b[i] == old_out[p + i]);
                assert(out@[p as int].min_pinned > x.min_pinned);
            }
        }
        out.insert(p, x);
        proof {
            let new_out = out@;
            assert(new_out =~= a + seq![x] + b);
            assert(pins@.take(k + 1) =~= pins@.take(k as int).push(x));
            assert forall|i: int, j: int| 0 <= i <= j < new_out.len() implies new_out[i].min_pinned
                <= new_out[j].min_pinned by {
                if j < p {
                } else if j == p {
                    if i < p {
                        assert(new_out[i] == old_out[i]);
                    }
                } else {
                    assert(new_out[j] == old_out[j - 1]);
                    if i < p {
                        assert(new_out[i] == old_out[i]);
                    } else if i > p {
                        assert(new_out[i] == old_out[i - 1]);
                    }
                }
            }
            assert forall|v: u64| #[trigger] with_pin(new_out, v) == with_pin(
                pins@.take(k + 1),
                v,
            ) by {
                Seq::filter_distributes_over_add(a + seq![x], b, pin_is(v));
                Seq::filter_distributes_over_add(a, b, pin_is(v));
                a.lemma_filter_push(x, pin_is(v));
                assert(a + seq![x] =~= a.push(x));
                pins@.take(k as int).lemma_filter_push(x, pin_is(v));
                assert(with_pin(old_out, v) == with_pin(pins@.take(k as int), v));
                if v == x.min_pinned {
                    lemma_with_pin_none(b, v);
                    assert(with_pin(new_out, v) =~= with_pin(a, v).push(x));
                    assert(with_pin(old_out, v) =~= with_pin(a, v));
                } else {
                    assert(with_pin(new_out, v) =~= with_pin(a, v) + with_pin(b, v));
                }
            }
        }
        k = k + 1;
    }
    assert(pins@.take(n as int) =~= pins@);
    out
}

/// The listing line of a pin: its worker's type if the worker is known.
pub open spec fn pin_report(p: WorkerPin, workers: Map<u32, WorkerType>) -> PinReport {
    PinReport {
        context_id: p.context_id,
        min_pinned: p.min_pinned,
        worker: if workers.contains_key(p.context_id) {
            Some(workers[p.context_id])
        } else {
            None
        },
    }
}

/// The listing lines of pins, in the pins' order.
pub fn pin_reports(pins: &Vec<WorkerPin>, workers: &HashMap<u32, WorkerType>) -> (r: Vec<
    PinReport,
>)
    ensures
        r@ == pins@.map_values(|p: WorkerPin| pin_report(p, workers@)),
{
    let n = pins.len();
    let mut out: Vec<PinReport> = Vec::new();
    let mut i: usize = 0;
    while i < n
        invariant
            n == pins@.len(),
            i <= n,
            out@ =~= pins@.take(i as int).map_values(|p: WorkerPin| pin_report(p, workers@)),
        decreases n - i,
    {
        let p = pins[i];
        let worker = match workers.get(&p.context_id) {
            Some(w) => Some(*w),
            None => None,
        };
        out.push(PinReport { context_id: p.context_id, min_pinned: p.min_pinned, worker });
        proof {
            assert(pins@.take(i + 1) =~= pins@.take(i as int).push(p));
        }
        i = i + 1;
    }
    assert(pins@.take(n as int) =~= pins@);
    out
}

/// The stable sort of pins by `min_pinned`.
pub open spec fn sorted_pins(s: Seq<WorkerPin>) -> Seq<WorkerPin> {
    choose|r: Seq<WorkerPin>| stably_sorted(r, s)
}

/// The pin listing: one line per pin, in ascending order of what it pins (pins with the same
/// id in their given order), each with its worker's type if the worker is known.
pub fn pinned_report(pins: &Vec<WorkerPin>, workers: &HashMap<u32, WorkerType>) -> (r: Vec<
    PinReport,
>)
    ensures
        stably_sorted(sorted_pins(pins@), pins@),
        r@ == sorted_pins(pins@).map_values(|p: WorkerPin| pin_report(p, workers@)),
{
    let sorted = sort_pins(pins);
    proof {
        law_stable_sort_unique(sorted@, sorted_pins(pins@), pins@);
    }
    pin_reports(&sorted, workers)
}

} // verus!
