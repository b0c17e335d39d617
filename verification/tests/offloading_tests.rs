use cluaiz_engines::llama::expert_offloading::{advice_span, ExpertResidency};
use cluaiz_engines::llama::expert_offloading::MoeModelInfo;
use cluaiz_engines::onnx::expert_offloading::{max_expert_sessions, OnnxExpertShardManifest, OnnxMoeSessionPool};

#[test]
fn routing_moves_experts_to_the_back_and_evicts_the_oldest() {
    let mut r = ExpertResidency::new(0, 4, vec![(0, 1)]);
    let a = r.on_routing_decision(0, &vec![1, 2], None, 3);
    assert_eq!(a.willneed, vec![(0, 1), (0, 2)]);
    assert!(a.dontneed.is_empty());
    assert_eq!(a.prefetch, vec![(1, vec![1, 2])]);
    assert_eq!(r.last_active_experts(), &vec![(0, 1), (0, 2)]);

    let b = r.on_routing_decision(1, &vec![5, 6], None, 3);
    // (0, 1) is the oldest and leaves the list, but it is pinned: no release.
    assert_eq!(r.last_active_experts(), &vec![(0, 2), (1, 5), (1, 6)]);
    assert!(b.dontneed.is_empty());

    let c = r.on_routing_decision(1, &vec![5, 7], None, 3);
    // 5 moves to the back; (0, 2) leaves and is released.
    assert_eq!(r.last_active_experts(), &vec![(1, 6), (1, 5), (1, 7)]);
    assert_eq!(c.dontneed, vec![(0, 2)]);
}

#[test]
fn routing_skips_gpu_layers_and_groups_predictions() {
    let mut r = ExpertResidency::new(2, 6, vec![]);
    let predicted = vec![(3, 1), (1, 4), (3, 2), (4, 0)];
    let a = r.on_routing_decision(1, &vec![0, 9], Some(&predicted), 16);
    assert_eq!(a.willneed, vec![(3, 1), (3, 2), (4, 0)]);
    assert_eq!(a.prefetch, vec![(3, vec![1, 2]), (1, vec![4]), (4, vec![0])]);
    let last = r.on_routing_decision(5, &vec![3], None, 16);
    assert!(last.prefetch.is_empty());
}

#[test]
fn routing_decision_from_the_original_scenario() {
    let mut r = ExpertResidency::new(0, 2, vec![]);
    let a = r.on_routing_decision(0, &vec![2, 5], Some(&vec![(1, 3)]), 2);
    assert_eq!(a.willneed, vec![(0, 2), (0, 5), (1, 3)]);
    assert_eq!(a.prefetch, vec![(1, vec![3])]);
    assert_eq!(r.last_active_experts(), &vec![(0, 2), (0, 5)]);
}

#[test]
fn prewarm_takes_the_hottest_first() {
    let r = ExpertResidency::new(0, 2, vec![]);
    let freq = vec![0, 5, 9, 5, 0, 1, 7, 2, 3, 4, 6, 8];
    assert_eq!(r.prewarm_experts(2, &freq), vec![2, 11, 6, 10, 1, 3, 9, 8]);
    assert_eq!(r.prewarm_experts(1, &vec![0, 0, 3]), vec![2]);
    let all_gpu = ExpertResidency::new(2, 2, vec![]);
    assert!(all_gpu.prewarm_experts(2, &freq).is_empty());
}

#[test]
fn purge_targets_skip_the_kept_layer_and_gpu_layers() {
    let r = ExpertResidency::new(1, 4, vec![]);
    assert_eq!(r.purge_targets(2, 2), vec![(1, 0), (1, 1), (3, 0), (3, 1)]);
}

#[test]
fn session_pool_reuses_and_evicts_lru() {
    assert_eq!(max_expert_sessions(0, 2048), 2);
    assert_eq!(max_expert_sessions(10 * 52430848, 2048), 10);
    let mut pool = OnnxMoeSessionPool::new(2);
    assert!(pool.prepare_experts(0, &vec![1, 2], 1).is_ok());
    assert!(pool.prepare_experts(1, &vec![3], 2).is_ok());
    assert_eq!(pool.active_sessions(), 2);
    // Layer 0 with a subset of a held slot reuses it.
    assert!(pool.prepare_experts(0, &vec![2], 3).is_ok());
    assert_eq!(pool.active_sessions(), 2);
    assert_eq!(pool.slot_list()[0].last_used, 3);
    // A new need evicts the least recently used (layer 1).
    assert!(pool.prepare_experts(2, &vec![4], 4).is_ok());
    assert_eq!(pool.active_sessions(), 2);
    assert_eq!(pool.slot_list()[0].layer, 0);
    assert_eq!(pool.slot_list()[1].layer, 2);
    assert_eq!(pool.slot_list()[1].expert_ids, vec![4]);
}

use cluaiz_engines::llama::expert_offloading::{chunk_experts, offload_chunks};

#[test]
fn chunk_experts_are_picked_and_completed() {
    assert_eq!(chunk_experts(5, 3, 0, 128), Some(vec![1, 22, 35, 48, 81, 103, 111, 126]));
    assert_eq!(chunk_experts(-7, 10, 2, 64), Some(vec![10, 14, 27, 31, 44, 48, 57, 61]));
    // Repeated picks are completed by counting up from the last pick.
    assert_eq!(chunk_experts(1, 0, 0, 9), Some(vec![0, 1, 2, 4, 5, 6, 7, 8]));
    assert_eq!(chunk_experts(5, 3, 0, 16), Some(vec![0, 1, 3, 6, 7, 8, 14, 15]));
    // Fewer than eight experts, or counting up into a pick: never completes.
    assert_eq!(chunk_experts(0, 0, 0, 4), None);
    assert_eq!(chunk_experts(1710, 1, 0, 16), None);
}

#[test]
fn offloaded_layers_fall_into_chunks() {
    let chunks = offload_chunks(1, 6, 2, 128, 5, 3).unwrap();
    assert_eq!(chunks.len(), 3);
    assert_eq!(chunks[0].targets, vec![0, 1]);
    assert_eq!(chunks[2].targets, vec![4]);
    assert_eq!((chunks[2].start_layer, chunks[2].end_layer), (5, 5));
    assert_eq!(chunks[1].experts, vec![5, 12, 18, 46, 63, 65, 99, 112]);
    assert_eq!(
        chunks[0].description,
        "Chunk 1/3: Layers [1..2] (2 Layers Bulk / 6 Total) | Experts [3, 18, 46, 52, 61, 95, 97, 112]/128"
    );
    assert!(offload_chunks(6, 6, 2, 128, 5, 3).unwrap().is_empty());
    assert!(offload_chunks(0, 2, 0, 4, 0, 0).is_none());
}

#[test]
fn shard_manifest_takes_the_model_counts() {
    let info = MoeModelInfo {
        is_moe: true,
        expert_count: 64,
        moe_layer_count: 24,
        active_experts_per_token: 8,
        total_expert_bytes: 1 << 30,
        expert_size_bytes: 1 << 24,
        dense_backbone_bytes: 1 << 28,
    };
    let m = OnnxExpertShardManifest::from_model_dir("/models/moe/model.onnx", &info);
    assert_eq!(m.n_experts, 64);
    assert_eq!(m.n_layers, 24);
    assert!(m.entries.is_empty());
}

#[test]
fn advice_covers_the_three_tensors_inside_the_mapping() {
    assert_eq!(advice_span(4, 2, 1000, 10, 20, 30, 2000), Some((1000, 60)));
    assert_eq!(advice_span(4, 2, 1940, 10, 20, 30, 2000), Some((1940, 60)));
    assert_eq!(advice_span(4, 2, 1941, 10, 20, 30, 2000), None);
    assert_eq!(advice_span(1, 2, 0, 10, 20, 30, 2000), None);
    assert_eq!(advice_span(4, 2, 0, u64::MAX, 1, 1, u64::MAX), None);
}
