use vipune::rrf::{gather_ranks, rank_fused, RrfConfig, DEFAULT_K};
use vipune::Memory;

/// Fusion as a caller runs it: the library finds the places and orders the
/// records, the reciprocal sums are computed here.
fn rrf_fusion(result_lists: Vec<Vec<Memory>>, config: Option<RrfConfig>) -> Vec<Memory> {
    let config = config.unwrap_or_default();
    if result_lists.is_empty() {
        return vec![];
    }
    let k = f64::from_bits(config.k);
    let entries = gather_ranks(&result_lists);
    let scores: Vec<u64> = entries
        .iter()
        .map(|entry| {
            let mut total = 0.0f64;
            for (n, rank) in entry.ranks.iter().enumerate() {
                let part = 1.0f64 / (k + *rank as f64);
                if n == 0 {
                    total = part;
                } else {
                    total += part;
                }
            }
            total.to_bits()
        })
        .collect();
    rank_fused(&entries, &scores)
}

fn score(m: &Memory) -> f64 {
    f64::from_bits(m.similarity.unwrap())
}

fn create_test_memory(
    id: &str,
    content: &str,
    project_id: &str,
    similarity: Option<f64>,
) -> Memory {
    Memory {
        id: id.to_string(),
        project_id: project_id.to_string(),
        content: content.to_string(),
        metadata: None,
        similarity: similarity.map(|s| s.to_bits()),
        created_at: "2024-01-01T00:00:00Z".to_string(),
        updated_at: "2024-01-01T00:00:00Z".to_string(),
    }
}

#[test]
fn test_rrf_fusion_basic() {
    let semantic_results = vec![
        create_test_memory("mem-1", "rust programming", "proj-a", Some(0.9)),
        create_test_memory("mem-2", "python code", "proj-a", Some(0.7)),
    ];

    let bm25_results = vec![
        create_test_memory("mem-2", "python code", "proj-a", Some(0.5)),
        create_test_memory("mem-3", "database query", "proj-a", Some(0.3)),
    ];

    let fused = rrf_fusion(vec![semantic_results, bm25_results], None);

    assert_eq!(fused.len(), 3);

    assert_eq!(fused[0].id, "mem-2");
    assert!(score(&fused[0]) > score(&fused[1]));
}

#[test]
fn test_rrf_fusion_empty_lists() {
    let fused = rrf_fusion(vec![], None);
    assert!(fused.is_empty());
}

#[test]
fn test_rrf_fusion_single_list() {
    let results = vec![
        create_test_memory("mem-1", "content 1", "proj-a", Some(0.9)),
        create_test_memory("mem-2", "content 2", "proj-a", Some(0.8)),
    ];

    let fused = rrf_fusion(vec![results], None);

    assert_eq!(fused.len(), 2);
    assert_eq!(fused[0].id, "mem-1");
}

#[test]
fn test_rrf_fusion_duplicate_documents() {
    let memory = create_test_memory("mem-1", "shared content", "proj-a", Some(0.8));

    let list1 = vec![memory.clone()];
    let list2 = vec![memory.clone()];
    let list3 = vec![memory];

    let default_config = RrfConfig::default();
    let fused = rrf_fusion(vec![list1, list2, list3], None);

    assert_eq!(fused.len(), 1);

    let expected_score = 3.0 * (1.0 / (f64::from_bits(default_config.k) + 1.0));
    assert!((score(&fused[0]) - expected_score).abs() < 0.001);
}

#[test]
fn test_rrf_fusion_different_k_values() {
    let configs = [
        RrfConfig { k: 10.0f64.to_bits() },
        RrfConfig { k: 100.0f64.to_bits() },
    ];

    let semantic_results = vec![create_test_memory("mem-1", "doc1", "proj-a", Some(0.9))];
    let bm25_results = vec![create_test_memory("mem-1", "doc1", "proj-a", Some(0.9))];

    for &config in &[configs[0], configs[1]] {
        let fused = rrf_fusion(
            vec![semantic_results.clone(), bm25_results.clone()],
            Some(config),
        );

        let expected_score = 2.0 * (1.0 / (f64::from_bits(config.k) + 1.0));
        assert!((score(&fused[0]) - expected_score).abs() < 0.001);
    }
}

#[test]
fn test_rrf_fusion_ranking_priority() {
    let semantic_results = vec![
        create_test_memory("mem-1", "doc_a", "proj-a", Some(0.9)),
        create_test_memory("mem-3", "doc_c", "proj-a", Some(0.8)),
        create_test_memory("mem-2", "doc_b", "proj-a", Some(0.7)),
    ];

    let bm25_results = vec![
        create_test_memory("mem-2", "doc_b", "proj-a", Some(0.9)),
        create_test_memory("mem-3", "doc_c", "proj-a", Some(0.8)),
        create_test_memory("mem-1", "doc_a", "proj-a", Some(0.7)),
    ];

    let fused = rrf_fusion(vec![semantic_results, bm25_results], None);

    assert_eq!(fused.len(), 3);

    assert_eq!(score(&fused[0]), score(&fused[1]));
    assert!(score(&fused[2]) < score(&fused[0]));
}

#[test]
fn test_rrf_fusion_preserves_metadata() {
    let memory = Memory {
        id: "mem-1".to_string(),
        project_id: "proj-a".to_string(),
        content: "test content".to_string(),
        metadata: Some("metadata".to_string()),
        similarity: Some(0.9f64.to_bits()),
        created_at: "2024-01-01T00:00:00Z".to_string(),
        updated_at: "2024-01-01T00:00:00Z".to_string(),
    };

    let fused = rrf_fusion(vec![vec![memory]], None);

    assert_eq!(fused.len(), 1);
    assert_eq!(fused[0].metadata, Some("metadata".to_string()));
    assert_eq!(fused[0].project_id, "proj-a");
}

#[test]
fn test_rrf_fusion_empty_lists_in_vector() {
    let results = vec![create_test_memory("mem-1", "content", "proj-a", Some(0.9))];

    let fused = rrf_fusion(vec![vec![], results.clone()], None);

    assert_eq!(fused.len(), 1);
    assert_eq!(fused[0].id, "mem-1");
}

#[test]
fn test_rrf_fusion_many_results() {
    let list1: Vec<Memory> = (1..=10)
        .map(|i| {
            create_test_memory(
                &format!("mem-{}", i),
                &format!("content {}", i),
                "proj-a",
                None,
            )
        })
        .collect();

    let list2: Vec<Memory> = (5..=15)
        .map(|i| {
            create_test_memory(
                &format!("mem-{}", i),
                &format!("content {}", i),
                "proj-a",
                None,
            )
        })
        .collect();

    let fused = rrf_fusion(vec![list1, list2], None);

    assert_eq!(fused.len(), 15);
    verify_top_results_are_overlap(&fused, 5, 10);
}

fn verify_top_results_are_overlap(results: &[Memory], start: u32, end: u32) {
    let mut overlap_count = 0;
    for (_idx, result) in results.iter().take((end - start + 1) as usize).enumerate() {
        let id_num = result
            .id
            .strip_prefix("mem-")
            .unwrap()
            .parse::<u32>()
            .unwrap();
        if id_num >= start && id_num <= end {
            overlap_count += 1;
        }
    }
    assert!(
        overlap_count >= 3,
        "Expected at least 3 overlapping documents in top results, got {}",
        overlap_count
    );
}

#[test]
fn test_rrf_fusion_order_consistency() {
    let list1 = vec![
        create_test_memory("mem-1", "a", "proj-a", None),
        create_test_memory("mem-2", "b", "proj-a", None),
    ];
    let list2 = vec![
        create_test_memory("mem-2", "b", "proj-a", None),
        create_test_memory("mem-1", "a", "proj-a", None),
    ];

    let fused1 = rrf_fusion(vec![list1.clone(), list2.clone()], None);
    let fused2 = rrf_fusion(vec![list1, list2], None);

    assert_eq!(fused1.len(), fused2.len());
    for (r1, r2) in fused1.iter().zip(fused2.iter()) {
        assert_eq!(r1.id, r2.id);
    }
}

#[test]
fn default_damping_is_twenty_five() {
    assert_eq!(f64::from_bits(DEFAULT_K), 25.0);
    assert_eq!(f64::from_bits(RrfConfig::default().k), 25.0);
}

#[test]
fn three_first_places_score_three_twenty_sixths() {
    let m = create_test_memory("only", "x", "p", None);
    let fused = rrf_fusion(vec![vec![m.clone()], vec![m.clone()], vec![m]], None);
    assert_eq!(fused.len(), 1);
    let one: f64 = 1.0 / 26.0;
    assert_eq!(score(&fused[0]), one + one + one);
    assert!((score(&fused[0]) - 0.1154).abs() < 1e-4);
}

#[test]
fn places_are_gathered_in_reading_order() {
    let a = |s: Option<f64>| create_test_memory("a", "first a", "p", s);
    let b = create_test_memory("b", "the b", "p", None);
    let c = create_test_memory("c", "the c", "p", Some(0.5));
    let later_a = Memory { content: "later a".to_string(), ..a(Some(0.1)) };
    let lists = vec![
        vec![b.clone(), a(Some(0.9))],
        vec![],
        vec![later_a.clone(), c.clone(), later_a, b.clone()],
    ];
    let entries = gather_ranks(&lists);
    let ids: Vec<&str> = entries.iter().map(|e| e.memory.id.as_str()).collect();
    assert_eq!(ids, vec!["b", "a", "c"]);
    assert_eq!(entries[0].ranks, vec![1, 4]);
    assert_eq!(entries[1].ranks, vec![2, 1, 3]);
    assert_eq!(entries[2].ranks, vec![2]);
    assert_eq!(entries[1].memory.content, "first a");
    assert_eq!(entries[1].memory.similarity, Some(0.9f64.to_bits()));
    assert_eq!(entries[2].memory.similarity, Some(0.5f64.to_bits()));
}

#[test]
fn nothing_to_fuse_gives_nothing() {
    assert!(gather_ranks(&vec![]).is_empty());
    assert!(gather_ranks(&vec![vec![], vec![]]).is_empty());
    assert!(rank_fused(&vec![], &vec![]).is_empty());
    assert!(rrf_fusion(vec![vec![], vec![], vec![]], None).is_empty());
}

#[test]
fn fused_records_are_exactly_those_that_appear() {
    let lists = vec![
        vec![
            create_test_memory("x", "", "p", None),
            create_test_memory("y", "", "p", None),
        ],
        vec![
            create_test_memory("z", "", "p", None),
            create_test_memory("x", "", "p", None),
        ],
    ];
    let fused = rrf_fusion(lists, None);
    let mut ids: Vec<String> = fused.iter().map(|m| m.id.clone()).collect();
    assert_eq!(ids[0], "x");
    ids.sort();
    assert_eq!(ids, vec!["x", "y", "z"]);
    assert!(fused.iter().all(|m| m.id != "absent"));
}

#[test]
fn equal_scores_are_ordered_by_id() {
    let entries = gather_ranks(&vec![vec![
        create_test_memory("mem-10", "", "p", None),
        create_test_memory("mem-2", "", "p", None),
        create_test_memory("Mem-3", "", "p", None),
        create_test_memory("mem-é", "", "p", None),
        create_test_memory("mem-", "", "p", None),
        create_test_memory("mem-\u{10000}", "", "p", None),
        create_test_memory("mem-\u{ffff}", "", "p", None),
    ]]);
    let tie = 0.5f64.to_bits();
    let scores = vec![tie; entries.len()];
    let fused = rank_fused(&entries, &scores);
    let ids: Vec<String> = fused.iter().map(|m| m.id.clone()).collect();
    let mut sorted = ids.clone();
    sorted.sort();
    assert_eq!(ids, sorted);
    assert_eq!(ids[0], "Mem-3");
    assert!(fused.iter().all(|m| m.similarity == Some(tie)));
}

#[test]
fn score_decides_before_id() {
    let entries = gather_ranks(&vec![vec![
        create_test_memory("a", "", "p", None),
        create_test_memory("b", "", "p", None),
        create_test_memory("c", "", "p", None),
        create_test_memory("d", "", "p", None),
    ]]);
    let scores: Vec<u64> = [0.25f64, 0.75, -0.0, 0.0].iter().map(|s| s.to_bits()).collect();
    let fused = rank_fused(&entries, &scores);
    let ids: Vec<&str> = fused.iter().map(|m| m.id.as_str()).collect();
    assert_eq!(ids, vec!["b", "a", "c", "d"]);
    assert_eq!(fused[0].similarity, Some(0.75f64.to_bits()));
    assert_eq!(fused[2].similarity, Some((-0.0f64).to_bits()));
}
