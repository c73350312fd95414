use autonomous_infrastructure_risk::config::PolicyConfig;
use autonomous_infrastructure_risk::config::ReportingConfig;
use autonomous_infrastructure_risk::config::SimulationConfig;
use autonomous_infrastructure_risk::config::TierConfig;
use autonomous_infrastructure_risk::engine::SimulationEngine;
use autonomous_infrastructure_risk::engine::SimulationResults;
use autonomous_infrastructure_risk::event::EventType;

fn one_tier_config() -> SimulationConfig {
    SimulationConfig {
        time_steps: 1,
        initial_agents: 8,
        capacity_tiers: vec![TierConfig {
            name: "Alpha".to_string(),
            max_capacity: 10,
            congestion_threshold: 700_000,
            failure_base_rate: 0,
        }],
        policy: PolicyConfig {
            launch_rate: 0,
            mitigation_strength: 0,
            compliance_rate: 0,
            deorbit_threshold: 1_000_000,
        },
        reporting: ReportingConfig {
            report_interval: 1,
            hedging_enabled: false,
            confidence_modulation: false,
            ambiguity_level: 500_000,
        },
        random_seed: Some(42),
    }
}

#[test]
fn scenario_one_tier_single_tick_reports_degrading() {
    let mut engine = SimulationEngine::new(one_tier_config());
    let results = engine.run();

    assert_eq!(results.reports.len(), 1);
    let report = &results.reports[0];
    assert_eq!(report.timestamp, 0);
    // 8 of 10 slots: utilization exactly 0.8
    assert_eq!(report.ground_truth_utilization, 800_000);
    assert_eq!(report.stability_class, "Degrading");
    assert_eq!(report.ground_truth_risk, 0);
    assert_eq!(report.agent_count, 8);
    assert_eq!(report.recent_events, 0);
    assert_eq!(
        report.report_text,
        "System experiencing elevated utilization at 80.0%. \
         Alpha tier experiencing elevated utilization at 80.0% of capacity. \
         No significant conjunction events detected, with risk levels stable. \
         Debris mitigation protocols remain nominal."
    );

    assert_eq!(results.final_agent_count, 8);
    assert!(results.events.is_empty());
    assert_eq!(results.cascading_failures, 0);
}

#[test]
fn empty_population_with_no_launches_stays_empty() {
    let mut config = one_tier_config();
    config.initial_agents = 0;
    config.time_steps = 120;
    config.reporting.report_interval = 30;
    let mut engine = SimulationEngine::new(config);
    let results = engine.run();

    assert_eq!(results.final_agent_count, 0);
    assert!(results.events.is_empty());
    assert_eq!(results.cascading_failures, 0);
    assert_eq!(results.reports.len(), 4);
    for report in &results.reports {
        assert_eq!(report.agent_count, 0);
        assert_eq!(report.ground_truth_utilization, 0);
        assert_eq!(report.recent_events, 0);
        assert_eq!(report.stability_class, "Stable");
    }
}

#[test]
fn reports_appear_exactly_at_interval_multiples() {
    let mut config = SimulationConfig::default();
    config.time_steps = 25;
    config.reporting.report_interval = 10;
    let mut engine = SimulationEngine::new(config);
    let results = engine.run();

    assert_eq!(results.reports.len(), 3);
    let stamps: Vec<u64> = results.reports.iter().map(|r| r.timestamp).collect();
    assert_eq!(stamps, vec![0, 10, 20]);
}

#[test]
fn recent_events_recount_matches_the_final_log() {
    let mut config = SimulationConfig::default();
    config.time_steps = 60;
    let mut engine = SimulationEngine::new(config);
    let results = engine.run();

    let interval = 10u64;
    for report in &results.reports {
        let lo = report.timestamp.saturating_sub(interval);
        let expected = results
            .events
            .iter()
            .filter(|e| e.timestamp >= lo && e.timestamp <= report.timestamp)
            .count();
        assert_eq!(report.recent_events, expected);
    }
}

#[test]
fn cascading_tally_counts_the_typed_events() {
    // a small, hot system: one almost-full tier with a low threshold keeps
    // severity above the cascade gate for many ticks
    let config = SimulationConfig {
        time_steps: 400,
        initial_agents: 100,
        capacity_tiers: vec![TierConfig {
            name: "Hot".to_string(),
            max_capacity: 100,
            congestion_threshold: 100_000,
            failure_base_rate: 2_000,
        }],
        policy: PolicyConfig {
            launch_rate: 0,
            mitigation_strength: 0,
            compliance_rate: 0,
            deorbit_threshold: 1_000_000,
        },
        reporting: ReportingConfig {
            report_interval: 100,
            hedging_enabled: true,
            confidence_modulation: true,
            ambiguity_level: 500_000,
        },
        random_seed: Some(7),
    };
    let mut engine = SimulationEngine::new(config);
    let results = engine.run();

    let typed = results
        .events
        .iter()
        .filter(|e| e.event_type == EventType::CascadingFailure)
        .count();
    assert_eq!(results.cascading_failures, typed);
    // the run should actually have produced some cascades to count
    assert!(typed > 0, "expected cascading failures in a hot system");
}

#[test]
fn event_log_is_timestamp_monotone_and_within_the_run() {
    let mut config = SimulationConfig::default();
    config.time_steps = 80;
    let mut engine = SimulationEngine::new(config);
    let results = engine.run();

    for pair in results.events.windows(2) {
        assert!(pair[0].timestamp <= pair[1].timestamp);
    }
    for event in &results.events {
        assert!(event.timestamp < 80);
    }
}

#[test]
fn decayed_agents_are_cleaned_up() {
    // health decays by 0.9999 per tick and nothing else touches it here;
    // after 50_000 ticks every agent is far below the death threshold
    let config = SimulationConfig {
        time_steps: 50_000,
        initial_agents: 3,
        capacity_tiers: vec![TierConfig {
            name: "Quiet".to_string(),
            max_capacity: 100,
            congestion_threshold: 900_000,
            failure_base_rate: 0,
        }],
        policy: PolicyConfig {
            launch_rate: 0,
            mitigation_strength: 0,
            compliance_rate: 0,
            deorbit_threshold: 1_000_000,
        },
        reporting: ReportingConfig {
            report_interval: 25_000,
            hedging_enabled: false,
            confidence_modulation: false,
            ambiguity_level: 0,
        },
        random_seed: Some(1),
    };
    let mut engine = SimulationEngine::new(config);
    let results = engine.run();
    assert_eq!(results.final_agent_count, 0);
    assert!(results.events.is_empty());
}

#[test]
fn deorbit_accounting_keeps_tier_counts_in_step_with_the_population() {
    // an over-full tier forces deorbits until utilization falls to the
    // threshold; each removed agent must release exactly one slot, so the
    // tier count and the live population must agree once deorbits stop
    let config = SimulationConfig {
        time_steps: 30,
        initial_agents: 10,
        capacity_tiers: vec![TierConfig {
            name: "Full".to_string(),
            max_capacity: 10,
            congestion_threshold: 1_000_000,
            failure_base_rate: 0,
        }],
        policy: PolicyConfig {
            launch_rate: 0,
            mitigation_strength: 0,
            compliance_rate: 0,
            deorbit_threshold: 500_000,
        },
        reporting: ReportingConfig {
            report_interval: 1,
            hedging_enabled: false,
            confidence_modulation: false,
            ambiguity_level: 0,
        },
        random_seed: Some(42),
    };
    let mut engine = SimulationEngine::new(config);
    let results = engine.run();

    let deorbits = results
        .events
        .iter()
        .filter(|e| e.event_type == EventType::Deorbit)
        .count();
    assert!(deorbits > 0, "expected forced deorbits from an over-full tier");
    assert_eq!(results.final_agent_count, 10 - deorbits);

    // by the last tick utilization is at or below the deorbit threshold,
    // no deorbit is in flight, and the count matches the live population
    let last = results.reports.last().unwrap();
    assert_eq!(
        last.ground_truth_utilization,
        last.agent_count as u64 * 100_000
    );
    assert!(last.ground_truth_utilization <= 500_000);
}

#[test]
fn launch_ids_stay_disjoint_from_a_large_initial_population() {
    let config = SimulationConfig {
        time_steps: 1,
        initial_agents: 12_000,
        capacity_tiers: vec![TierConfig {
            name: "Wide".to_string(),
            max_capacity: 1_000_000,
            congestion_threshold: 1_000_000,
            failure_base_rate: 0,
        }],
        policy: PolicyConfig {
            launch_rate: 1_000_000,
            mitigation_strength: 0,
            compliance_rate: 0,
            deorbit_threshold: 1_000_000,
        },
        reporting: ReportingConfig {
            report_interval: 1,
            hedging_enabled: false,
            confidence_modulation: false,
            ambiguity_level: 0,
        },
        random_seed: Some(3),
    };
    let mut engine = SimulationEngine::new(config);
    let results = engine.run();

    let launches: Vec<_> = results
        .events
        .iter()
        .filter(|e| e.event_type == EventType::Launch)
        .collect();
    assert_eq!(launches.len(), 1);
    // the launch id range starts past the initial ids, not inside them
    assert_eq!(launches[0].agent_ids, vec![12_000]);
}

fn assert_same_results(a: &SimulationResults, b: &SimulationResults) {
    assert_eq!(a.final_agent_count, b.final_agent_count);
    assert_eq!(a.cascading_failures, b.cascading_failures);
    assert_eq!(a.reports.len(), b.reports.len());
    for (ra, rb) in a.reports.iter().zip(b.reports.iter()) {
        assert_eq!(ra.timestamp, rb.timestamp);
        assert_eq!(ra.report_text, rb.report_text);
        assert_eq!(ra.ground_truth_utilization, rb.ground_truth_utilization);
        assert_eq!(ra.ground_truth_risk, rb.ground_truth_risk);
        assert_eq!(ra.agent_count, rb.agent_count);
        assert_eq!(ra.stability_class, rb.stability_class);
        assert_eq!(ra.recent_events, rb.recent_events);
    }
    assert_eq!(a.events.len(), b.events.len());
    for (ea, eb) in a.events.iter().zip(b.events.iter()) {
        assert_eq!(ea.timestamp, eb.timestamp);
        assert_eq!(ea.event_type, eb.event_type);
        assert_eq!(ea.tier_id, eb.tier_id);
        assert_eq!(ea.agent_ids, eb.agent_ids);
        assert_eq!(ea.severity, eb.severity);
    }
}

#[test]
fn identical_seed_and_configuration_reproduce_the_run() {
    let mut config = SimulationConfig::default();
    config.time_steps = 120;
    let mut first = SimulationEngine::new(config);
    let results_a = first.run();

    let mut config = SimulationConfig::default();
    config.time_steps = 120;
    let mut second = SimulationEngine::new(config);
    let results_b = second.run();

    assert_same_results(&results_a, &results_b);
    assert!(!results_a.events.is_empty() || results_a.reports.len() > 0);
}
