use abr_sim::abr::abr_type_from_selector;
use abr_sim::metrics::qoe::evaluate_qoe;
use abr_sim::models::{ABRType, SessionMetrics, SimError, SimulationConfig};
use abr_sim::playback::engine::{run_simulation, NO_PREVIOUS_BITRATE};

/// Ten bandwidth samples (kbps) with varying throughput.
fn sample_trace() -> Vec<u32> {
    vec![1500, 2500, 800, 3000, 1200, 600, 2000, 1800, 900, 2200]
}

fn config(abr_type: ABRType, cap_ms: u64, seg_ms: u64, threshold_ms: u64) -> SimulationConfig {
    SimulationConfig {
        abr_type,
        buffer_size_max_ms: cap_ms,
        segment_duration_ms: seg_ms,
        stall_threshold_ms: threshold_ms,
    }
}

#[test]
fn test_throughput_based_strategy() {
    let config = config(ABRType::ThroughputBased { window_size: 3 }, 10_000, 1_000, 500);
    let metrics = run_simulation(&config, &sample_trace()).unwrap();

    assert_eq!(metrics.len(), 10);
    assert!(metrics.iter().any(|m| m.bitrate_kbps < 2000));
}

#[test]
fn test_simulate_with_config_via_ffi() {
    let config = config(abr_type_from_selector(2, 3), 10_000, 1_000, 500);
    let metrics = run_simulation(&config, &sample_trace()).unwrap();
    let score = evaluate_qoe(&metrics).unwrap();
    assert!(score.final_score > 0);
}

#[test]
fn test_run_simulation_with_custom_config() {
    let config = config(ABRType::Fixed, 10_000, 1_000, 500);
    let metrics = run_simulation(&config, &sample_trace()).unwrap();
    let qoe = evaluate_qoe(&metrics).unwrap();
    println!(
        "score {} | total bitrate {} over {} | stalls {} | switches {}",
        qoe.final_score, qoe.total_bitrate_kbps, qoe.record_count, qoe.stall_count, qoe.switch_count
    );

    assert_eq!(metrics.len(), 10);
    assert!(metrics.iter().any(|m| m.stalled == true || m.switch == true));
}

#[test]
fn test_buffer_based_strategy_outputs_varied_bitrates() {
    let config = config(ABRType::BufferBased, 12_000, 1_000, 200);
    let metrics = run_simulation(&config, &sample_trace()).unwrap();
    let qoe = evaluate_qoe(&metrics).unwrap();
    println!("score {} | stalls {} | switches {}", qoe.final_score, qoe.stall_count, qoe.switch_count);

    let mut distinct: Vec<u32> = Vec::new();
    for m in &metrics {
        if !distinct.contains(&m.bitrate_kbps) {
            distinct.push(m.bitrate_kbps);
        }
    }
    assert!(distinct.len() > 1);
}

#[test]
fn test_qoe_scoring_for_throughput_based() {
    let config = config(ABRType::ThroughputBased { window_size: 3 }, 10_000, 1_000, 500);
    let metrics = run_simulation(&config, &sample_trace()).unwrap();
    let qoe = evaluate_qoe(&metrics).unwrap();
    println!("score {} | stalls {} | switches {}", qoe.final_score, qoe.stall_count, qoe.switch_count);

    assert!(qoe.final_score > 10, "QoE score too low!");
}

#[test]
fn record_count_matches_sample_count() {
    let kinds = [ABRType::Fixed, ABRType::BufferBased, ABRType::ThroughputBased { window_size: 2 }];
    for kind in kinds {
        for len in [0usize, 1, 5, 10] {
            let trace: Vec<u32> = sample_trace().into_iter().take(len).collect();
            let metrics = run_simulation(&config(kind, 10_000, 1_000, 500), &trace).unwrap();
            assert_eq!(metrics.len(), len);
            for (i, m) in metrics.iter().enumerate() {
                assert_eq!(m.timestamp as usize, i);
            }
        }
    }
}

#[test]
fn buffer_stays_within_capacity() {
    let kinds = [ABRType::Fixed, ABRType::BufferBased, ABRType::ThroughputBased { window_size: 3 }];
    let traces = [sample_trace(), vec![100_000; 30], vec![1; 5]];
    for kind in kinds {
        for trace in &traces {
            let metrics = run_simulation(&config(kind, 3_000, 2_000, 0), trace).unwrap();
            assert!(metrics.iter().all(|m| m.buffer_level_ms <= 3_000));
        }
    }
    let filled = run_simulation(&config(ABRType::Fixed, 3_000, 2_000, 0), &vec![100_000; 5]).unwrap();
    assert_eq!(filled.last().unwrap().buffer_level_ms, 3_000);
    let drained = run_simulation(&config(ABRType::Fixed, 3_000, 1_000, 0), &vec![1; 3]).unwrap();
    assert_eq!(drained.last().unwrap().buffer_level_ms, 0);
}

#[test]
fn first_record_is_a_switch_from_the_sentinel() {
    assert_eq!(NO_PREVIOUS_BITRATE, 0);
    let kinds = [ABRType::Fixed, ABRType::BufferBased, ABRType::ThroughputBased { window_size: 3 }];
    for kind in kinds {
        let metrics = run_simulation(&config(kind, 10_000, 1_000, 500), &sample_trace()).unwrap();
        assert!(metrics[0].bitrate_kbps != NO_PREVIOUS_BITRATE);
        assert!(metrics[0].switch);
    }
}

#[test]
fn fixed_session_keeps_one_bitrate() {
    let metrics = run_simulation(&config(ABRType::Fixed, 10_000, 1_000, 500), &sample_trace()).unwrap();
    assert!(metrics.iter().all(|m| m.bitrate_kbps == 1000));
    assert!(metrics.iter().skip(1).all(|m| !m.switch));
}

#[test]
fn exact_records_of_a_short_session() {
    let metrics = run_simulation(&config(ABRType::Fixed, 10_000, 1_000, 500), &vec![1000, 2000, 500, 3000]).unwrap();
    let expected = vec![
        SessionMetrics { timestamp: 0, bitrate_kbps: 1000, buffer_level_ms: 1000, stalled: true, switch: true },
        SessionMetrics { timestamp: 1, bitrate_kbps: 1000, buffer_level_ms: 1500, stalled: false, switch: false },
        SessionMetrics { timestamp: 2, bitrate_kbps: 1000, buffer_level_ms: 500, stalled: false, switch: false },
        // 1000 kbit at 3000 kbps take 333.3 ms, rounded up to 334.
        SessionMetrics { timestamp: 3, bitrate_kbps: 1000, buffer_level_ms: 1166, stalled: false, switch: false },
    ];
    assert_eq!(metrics, expected);
}

#[test]
fn stall_adds_one_segment_without_penalty() {
    let metrics = run_simulation(&config(ABRType::BufferBased, 10_000, 1_500, 2_000), &vec![100, 100]).unwrap();
    assert!(metrics[0].stalled && metrics[1].stalled);
    assert_eq!(metrics[0].buffer_level_ms, 1_500);
    assert_eq!(metrics[1].buffer_level_ms, 3_000);
    assert_eq!(metrics[1].bitrate_kbps, 750);
    assert!(metrics[1].switch);
}

#[test]
fn end_to_end_throughput_session() {
    let metrics = run_simulation(&config(ABRType::ThroughputBased { window_size: 3 }, 10_000, 1_000, 500), &sample_trace()).unwrap();
    assert_eq!(metrics.len(), 10);
    assert!(metrics.iter().any(|m| m.bitrate_kbps < 2000));
    // window [1500] -> mean 1500 -> 1500; [1500, 2500] -> 2000 -> 2000; [1500, 2500, 800] -> 1600 -> 1500.
    assert_eq!(metrics[0].bitrate_kbps, 1500);
    assert_eq!(metrics[1].bitrate_kbps, 2000);
    assert_eq!(metrics[2].bitrate_kbps, 1500);
}

#[test]
fn configuration_errors() {
    let trace = sample_trace();
    assert_eq!(run_simulation(&config(ABRType::Fixed, 10_000, 0, 500), &trace), Err(SimError::InvalidSegmentDuration));
    assert_eq!(run_simulation(&config(ABRType::Fixed, 0, 0, 500), &trace), Err(SimError::InvalidSegmentDuration));
    assert_eq!(run_simulation(&config(ABRType::Fixed, 0, 1_000, 500), &trace), Err(SimError::InvalidBufferCapacity));
    assert_eq!(
        run_simulation(&config(ABRType::ThroughputBased { window_size: 0 }, 10_000, 1_000, 500), &trace),
        Err(SimError::InvalidWindowSize)
    );
}

#[test]
fn zero_bandwidth_is_rejected() {
    let c = config(ABRType::BufferBased, 10_000, 1_000, 500);
    assert_eq!(run_simulation(&c, &vec![1000, 0, 500, 0]), Err(SimError::ZeroBandwidth { index: 1 }));
    assert_eq!(run_simulation(&c, &vec![0]), Err(SimError::ZeroBandwidth { index: 0 }));
}

#[test]
fn selector_defaults_to_fixed() {
    assert_eq!(abr_type_from_selector(0, 3), ABRType::Fixed);
    assert_eq!(abr_type_from_selector(1, 3), ABRType::BufferBased);
    assert_eq!(abr_type_from_selector(2, 4), ABRType::ThroughputBased { window_size: 4 });
    assert_eq!(abr_type_from_selector(9, 4), ABRType::Fixed);
}

#[test]
fn default_configuration() {
    let c = SimulationConfig::default();
    assert_eq!(c, config(ABRType::Fixed, 10_000, 1_000, 500));
    assert_eq!(ABRType::default(), ABRType::Fixed);
}
