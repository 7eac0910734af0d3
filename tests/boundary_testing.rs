use avmnif::boundary_testing::{HeapSnapshot, HopRecord, PingPongLoop};

#[test]
fn test_heap_snapshot_creation() {
    let snap = HeapSnapshot::new(1000, 10, 2000);
    assert_eq!(snap.total_bytes, 1000);
    assert_eq!(snap.alloc_count, 10);
    assert_eq!(snap.peak_bytes, 2000);
}

#[test]
fn test_heap_delta() {
    let snap1 = HeapSnapshot::new(1000, 10, 2000);
    let snap2 = HeapSnapshot::new(1500, 15, 2500);
    assert_eq!(snap2.delta_bytes(&snap1), 500);
}

#[test]
fn test_hop_record_creation() {
    let hop = HopRecord {
        hop_num: 1,
        heap_before: HeapSnapshot::new(1000, 10, 2000),
        heap_after: HeapSnapshot::new(1050, 11, 2050),
        errors: Vec::new(),
        state: Vec::new(),
        is_deterministic: true,
    };

    assert_eq!(hop.hop_num, 1);
    assert!(hop.is_deterministic);
}

#[test]
fn test_ping_pong_loop_creation() {
    let loop_obj = PingPongLoop::new();
    assert_eq!(loop_obj.analysis.total_hops, 0);
    assert_eq!(loop_obj.analysis.hops.len(), 0);
}

#[test]
fn test_ping_pong_loop_run() {
    let mut loop_obj = PingPongLoop::new();
    let analysis = loop_obj.run(5);

    assert_eq!(analysis.total_hops, 5);
    assert_eq!(analysis.hops.len(), 5);
    assert!(analysis.all_deterministic);
}

#[test]
fn test_ping_pong_multiple_hops() {
    let mut loop_obj = PingPongLoop::new();
    let analysis = loop_obj.run(10);

    assert_eq!(analysis.total_hops, 10);
    for (i, hop) in analysis.hops.iter().enumerate() {
        assert_eq!(hop.hop_num, (i + 1) as u32);
    }
}

#[test]
fn test_heap_growth_detection() {
    let mut loop_obj = PingPongLoop::new();
    loop_obj.run_with_heap_detection(5, 100);

    let analysis = loop_obj.analysis();
    // The simulated heap grows by hop_num each hop
    // After 5 hops: total growth is roughly 5*1 = 5 bytes (well under threshold)
    assert!(analysis.heap_growth.is_none() || analysis.heap_growth.unwrap() < 100);
}

#[test]
fn test_error_drift_detection() {
    let mut loop_obj = PingPongLoop::new();
    loop_obj.run_with_error_detection(3);

    let analysis = loop_obj.analysis_mut();
    assert!(!analysis.detect_error_drift());
}

#[test]
fn test_evidence_report_generation() {
    let mut loop_obj = PingPongLoop::new();
    loop_obj.run(3);

    let report = loop_obj.analysis().evidence_report();
    assert!(report.contains("Total hops: 3"));
    assert!(report.contains("All deterministic:"));
    assert!(report.contains("Hop Details"));
}

#[test]
fn test_state_preservation_across_hops() {
    let mut loop_obj = PingPongLoop::new();
    loop_obj.state.push(("key".to_string(), 42));

    let analysis = loop_obj.run(3);

    // State should be preserved in recorded hops
    assert_eq!(
        analysis.hops[0].state.iter().find(|(k, _)| k == "key").map(|(_, v)| v),
        Some(&42)
    );
}

#[test]
fn test_long_run_stability() {
    let mut loop_obj = PingPongLoop::new();
    let analysis = loop_obj.run(100);

    // Long run should maintain determinism
    assert!(analysis.all_deterministic);
    assert_eq!(analysis.total_hops, 100);
}
