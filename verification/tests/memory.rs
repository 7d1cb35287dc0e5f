use bugs::memory::{
    dedup_limit, experience_positions, experience_scenes, is_visible, meditation_details, related_scene_count, should_meditate,
    store_target,
    MemoryStats, StoreTarget,
};
use bugs::types::{MemoryCategory, MemoryScope, OwnerId, SubAgentType};

#[test]
fn stats_sum_scene_counts() {
    let s = MemoryStats::of(3, &vec![2, 5]);
    assert_eq!((s.global_count, s.scene_count, s.total_entries), (3, 2, 10));
    assert_eq!(MemoryStats::of(0, &vec![]).total_entries, 0);
}

#[test]
fn store_routing() {
    assert_eq!(store_target(&MemoryScope::All), Some(StoreTarget::Global));
    assert_eq!(store_target(&MemoryScope::Single(7)), Some(StoreTarget::Scene(7)));
    assert_eq!(store_target(&MemoryScope::Partial(vec![1, 2])), None);
}

#[test]
fn visibility() {
    let all = vec![OwnerId::All];
    assert!(is_visible(&all, SubAgentType::General, OwnerId::Agent(1), None));
    assert!(is_visible(&all, SubAgentType::General, OwnerId::Agent(1), Some(SubAgentType::Browser)));
    assert!(!is_visible(&all, SubAgentType::FileOp, OwnerId::Agent(1), Some(SubAgentType::Browser)));
    let mine = vec![OwnerId::Agent(2)];
    assert!(is_visible(&mine, SubAgentType::Browser, OwnerId::Agent(2), Some(SubAgentType::Browser)));
    assert!(!is_visible(&mine, SubAgentType::Browser, OwnerId::Agent(3), None));
    assert!(!is_visible(&vec![], SubAgentType::General, OwnerId::All, None));
}

#[test]
fn meditation_counts() {
    assert_eq!(dedup_limit(10), 100);
    assert_eq!(dedup_limit(10_000), 100);
    assert_eq!(dedup_limit(10_001), 50);
    let scopes = vec![
        MemoryScope::Single(1),
        MemoryScope::All,
        MemoryScope::Single(2),
        MemoryScope::Single(1),
        MemoryScope::Partial(vec![1, 2]),
        MemoryScope::Single(1),
        MemoryScope::Single(2),
        MemoryScope::Single(3),
        MemoryScope::Single(3),
        MemoryScope::Single(3),
        MemoryScope::Single(3),
    ];
    assert_eq!(related_scene_count(&scopes), 2);
    assert_eq!(related_scene_count(&vec![]), 0);
    assert_eq!(related_scene_count(&vec![MemoryScope::All; 5]), 0);
}

#[test]
fn meditation_report_lines() {
    let lines = meditation_details(1, 2, 3, 4, 5, 6, 7);
    assert_eq!(
        lines,
        vec![
            "合并 1 条重复记忆",
            "强化 2 条高频记忆",
            "清理 3 条低信任记忆",
            "提炼 4 条经验为通用知识",
            "发现 5 个场景关联",
            "预判 6 个可能需求",
            "7 条记忆待确认",
        ]
    );
}

#[test]
fn experiences_grouped_by_scene() {
    let es = vec![
        (MemoryCategory::Experience, MemoryScope::Single(1)),
        (MemoryCategory::Knowledge, MemoryScope::Single(1)),
        (MemoryCategory::Experience, MemoryScope::Single(2)),
        (MemoryCategory::Experience, MemoryScope::Single(1)),
        (MemoryCategory::Experience, MemoryScope::All),
        (MemoryCategory::Experience, MemoryScope::Single(1)),
        (MemoryCategory::Experience, MemoryScope::Single(2)),
    ];
    assert_eq!(experience_scenes(&es, 3), vec![1]);
    let mut two = experience_scenes(&es, 2);
    two.sort();
    assert_eq!(two, vec![1, 2]);
    assert_eq!(experience_positions(&es, 1), vec![0, 3, 5]);
    assert_eq!(experience_positions(&es, 2), vec![2, 6]);
    assert!(experience_positions(&es, 9).is_empty());
    assert!(experience_scenes(&es, 4).is_empty());
}

#[test]
fn idle_detect() {
    let now = std::time::Instant::now();
    if let (Some(last), Some(ago)) =
        (now.checked_sub(std::time::Duration::from_secs(7200)), now.checked_sub(std::time::Duration::from_secs(4000)))
    {
        let idle = std::time::Duration::from_secs(300);
        assert!(should_meditate(&ago, &last, &idle, false));
        assert!(!should_meditate(&ago, &last, &idle, true));
        assert!(!should_meditate(&now, &last, &idle, false));
    }
}
