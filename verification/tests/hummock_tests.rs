use std::collections::HashMap;

use rwcore::hummock::{
    pin_reports, pinned_report, sanity_check, sanity_check_level, sort_pins, GroupLevels,
    IssueKind, LevelFacts, LevelIssue, LevelType, PinReport, SstNeighbourFacts, SstPairFacts,
    WorkerPin, WorkerType,
};

const OK_PAIR: SstPairFacts = SstPairFacts { sstable_overlap: false, full_key_overlap: false };
const OK_NEXT: SstNeighbourFacts = SstNeighbourFacts { range_before: true, key_before: true };

fn level(idx: u32, level_type: LevelType, n: usize) -> LevelFacts {
    LevelFacts {
        level_idx: idx,
        level_type,
        pairs: (0..n).map(|j| vec![OK_PAIR; j]).collect(),
        neighbours: vec![OK_NEXT; n.saturating_sub(1)],
    }
}

#[test]
fn ordered_level_is_clean() {
    assert!(sanity_check_level(&level(1, LevelType::Nonoverlapping, 4)).is_empty());
    assert!(sanity_check_level(&level(1, LevelType::Nonoverlapping, 0)).is_empty());
}

#[test]
fn issues_in_the_order_found() {
    let mut l = level(2, LevelType::Nonoverlapping, 3);
    l.pairs[2][0] = SstPairFacts { sstable_overlap: true, full_key_overlap: true };
    l.neighbours[0] = SstNeighbourFacts { range_before: false, key_before: true };
    l.neighbours[1] = SstNeighbourFacts { range_before: true, key_before: false };
    let issues = sanity_check_level(&l);
    assert_eq!(
        issues,
        vec![
            LevelIssue { kind: IssueKind::RangeOrder, left: 0, right: 1 },
            LevelIssue { kind: IssueKind::KeyOrder, left: 1, right: 2 },
            LevelIssue { kind: IssueKind::SstableOverlap, left: 0, right: 2 },
            LevelIssue { kind: IssueKind::FullKeyOverlap, left: 0, right: 2 },
        ]
    );
}

#[test]
fn overlapping_level_is_not_checked() {
    let mut l = level(0, LevelType::Overlapping, 2);
    l.pairs[1][0] = SstPairFacts { sstable_overlap: true, full_key_overlap: true };
    l.neighbours[0] = SstNeighbourFacts { range_before: false, key_before: false };
    assert!(sanity_check_level(&l).is_empty());
}

#[test]
fn reports_label_sub_levels_and_levels() {
    let mut bad = level(3, LevelType::Nonoverlapping, 2);
    bad.neighbours[0].key_before = false;
    let groups = vec![GroupLevels {
        l0_sub_levels: Some(vec![level(7, LevelType::Overlapping, 1), level(12, LevelType::Nonoverlapping, 2)]),
        levels: vec![level(1, LevelType::Nonoverlapping, 0), bad],
    }];
    let reports = sanity_check(&groups);
    let labels: Vec<&str> = reports.iter().map(|r| r.label.as_str()).collect();
    assert_eq!(labels, vec!["0-7", "0-12", "1", "3"]);
    assert!(reports[0].issues.is_empty());
    assert_eq!(reports[3].issues, vec![LevelIssue { kind: IssueKind::KeyOrder, left: 0, right: 1 }]);
}

#[test]
fn pins_sorted_stably() {
    let pins = vec![
        WorkerPin { context_id: 1, min_pinned: 30 },
        WorkerPin { context_id: 2, min_pinned: 10 },
        WorkerPin { context_id: 3, min_pinned: 30 },
        WorkerPin { context_id: 4, min_pinned: 20 },
        WorkerPin { context_id: 5, min_pinned: 10 },
    ];
    let sorted = sort_pins(&pins);
    let mut expected = pins.clone();
    expected.sort_by_key(|p| p.min_pinned);
    assert_eq!(sorted, expected);
    let ids: Vec<u32> = sorted.iter().map(|p| p.context_id).collect();
    assert_eq!(ids, vec![2, 5, 4, 1, 3]);
}

#[test]
fn pin_listing_names_known_workers() {
    let pins = vec![
        WorkerPin { context_id: 1, min_pinned: 30 },
        WorkerPin { context_id: 9, min_pinned: 10 },
    ];
    let mut workers = HashMap::new();
    workers.insert(1u32, WorkerType::ComputeNode);
    let lines = pinned_report(&pins, &workers);
    assert_eq!(
        lines,
        vec![
            PinReport { context_id: 9, min_pinned: 10, worker: None },
            PinReport { context_id: 1, min_pinned: 30, worker: Some(WorkerType::ComputeNode) },
        ]
    );
    let unsorted = pin_reports(&pins, &workers);
    assert_eq!(unsorted[0].worker, Some(WorkerType::ComputeNode));
    assert_eq!(unsorted[1].worker, None);
}
