use autonomous_infrastructure_risk::agent::Agent;
use autonomous_infrastructure_risk::config::PolicyConfig;
use autonomous_infrastructure_risk::config::SimulationConfig;
use autonomous_infrastructure_risk::event::Event;
use autonomous_infrastructure_risk::event::EventType;
use autonomous_infrastructure_risk::tier::CapacityTier;

#[test]
fn test_agent_creation() {
    let agent = Agent::new(1, 0, true);
    assert_eq!(agent.id, 1);
    assert_eq!(agent.tier_id, 0);
    assert!(agent.is_alive());
}

#[test]
fn test_agent_damage() {
    let mut agent = Agent::new(1, 0, true);
    agent.apply_damage(500_000);
    assert_eq!(agent.health, 500_000);
    assert!(agent.is_alive());

    agent.apply_damage(600_000);
    assert!(!agent.is_alive());
}

#[test]
fn test_utilization() {
    let mut tier = CapacityTier::new(0, "Test".to_string(), 100, 700_000, 1_000);
    assert_eq!(tier.utilization(), 0);

    tier.current_count = 50;
    assert_eq!(tier.utilization(), 500_000);
}

#[test]
fn test_congestion() {
    let mut tier = CapacityTier::new(0, "Test".to_string(), 100, 700_000, 1_000);
    tier.current_count = 60;
    assert!(!tier.is_congested());

    tier.current_count = 80;
    assert!(tier.is_congested());
}

#[test]
fn agent_tick_decays_health_and_ages() {
    let mut agent = Agent::new(7, 2, false);
    agent.tick();
    assert_eq!(agent.age, 1);
    // 1_000_000 * 9999 / 10000
    assert_eq!(agent.health, 999_900);
    agent.tick();
    assert_eq!(agent.age, 2);
    assert_eq!(agent.health, 999_800);
}

#[test]
fn agent_damage_clamps_at_zero() {
    let mut agent = Agent::new(0, 0, true);
    agent.apply_damage(1_500_000);
    assert_eq!(agent.health, 0);
    assert!(!agent.is_alive());
}

#[test]
fn agent_heal_caps_at_full_health() {
    let mut agent = Agent::new(0, 0, true);
    agent.heal();
    assert_eq!(agent.health, 1_000_000);
    agent.apply_damage(25_000);
    agent.heal();
    assert_eq!(agent.health, 985_000);
}

#[test]
fn alive_boundary_is_exclusive() {
    let mut agent = Agent::new(0, 0, true);
    agent.apply_damage(1_000_000 - 10_001);
    assert_eq!(agent.health, 10_001);
    assert!(agent.is_alive());
    agent.apply_damage(1);
    assert_eq!(agent.health, 10_000);
    assert!(!agent.is_alive());
}

#[test]
fn utilization_is_exact_ratio() {
    let mut tier = CapacityTier::new(0, "Alpha".to_string(), 10, 700_000, 0);
    tier.current_count = 8;
    assert_eq!(tier.utilization(), 800_000);
    tier.current_count = 3;
    assert_eq!(tier.utilization(), 300_000);
    tier.current_count = 12;
    assert_eq!(tier.utilization(), 1_200_000);
}

#[test]
fn severity_is_zero_up_to_threshold_then_linear() {
    let mut tier = CapacityTier::new(0, "Alpha".to_string(), 10, 700_000, 0);
    tier.current_count = 7;
    assert_eq!(tier.congestion_severity(), 0);
    tier.current_count = 8;
    // (800_000 - 700_000) * 1_000_000 / 300_000
    assert_eq!(tier.congestion_severity(), 333_333);
    tier.current_count = 10;
    // full utilization reaches severity 1.0 exactly
    assert_eq!(tier.congestion_severity(), 1_000_000);
}

#[test]
fn effective_rate_escalates_quadratically_above_threshold() {
    let mut tier = CapacityTier::new(0, "Alpha".to_string(), 10, 700_000, 1_000);
    tier.current_count = 5;
    assert_eq!(tier.effective_failure_rate(), 1_000);
    // continuity: exactly at the threshold the formula still gives the base
    tier.current_count = 7;
    assert_eq!(tier.effective_failure_rate(), 1_000);
    tier.current_count = 8;
    // base * (1 + 10 * 0.1^2) = 1000 * 1.1
    assert_eq!(tier.effective_failure_rate(), 1_100);
    tier.current_count = 10;
    // base * (1 + 10 * 0.3^2) = 1000 * 1.9
    assert_eq!(tier.effective_failure_rate(), 1_900);
}

#[test]
fn add_and_remove_agent_move_count_and_remove_saturates() {
    let mut tier = CapacityTier::new(3, "Beta".to_string(), 5, 500_000, 0);
    tier.add_agent();
    tier.add_agent();
    assert_eq!(tier.current_count, 2);
    tier.remove_agent();
    assert_eq!(tier.current_count, 1);
    tier.remove_agent();
    tier.remove_agent();
    assert_eq!(tier.current_count, 0);
}

#[test]
fn event_constructors_set_kind_and_fields() {
    let e = Event::launch(4, 2, 77);
    assert_eq!(e.event_type, EventType::Launch);
    assert_eq!(e.timestamp, 4);
    assert_eq!(e.tier_id, 2);
    assert_eq!(e.agent_ids, vec![77]);
    assert_eq!(e.severity, 0);

    let e = Event::collision(9, 1, vec![5], 250_000);
    assert_eq!(e.event_type, EventType::Collision);
    assert_eq!(e.severity, 250_000);

    let e = Event::deorbit(3, 0, 11);
    assert_eq!(e.event_type, EventType::Deorbit);
    assert_eq!(e.agent_ids, vec![11]);
    assert_eq!(e.severity, 0);

    let e = Event::cascading_failure(8, 2, vec![1, 2, 3], 900_000);
    assert_eq!(e.event_type, EventType::CascadingFailure);
    assert_eq!(e.agent_ids, vec![1, 2, 3]);
    assert_eq!(e.severity, 900_000);
}

#[test]
fn default_config_matches_stock_values() {
    let c = SimulationConfig::default();
    assert_eq!(c.time_steps, 1000);
    assert_eq!(c.initial_agents, 500);
    assert_eq!(c.capacity_tiers.len(), 3);
    assert_eq!(c.capacity_tiers[0].name, "LEO-Low");
    assert_eq!(c.capacity_tiers[0].max_capacity, 200);
    assert_eq!(c.capacity_tiers[0].congestion_threshold, 700_000);
    assert_eq!(c.capacity_tiers[0].failure_base_rate, 1_000);
    assert_eq!(c.capacity_tiers[2].name, "LEO-High");
    assert_eq!(c.policy.launch_rate, 20_000);
    assert_eq!(c.policy.deorbit_threshold, 900_000);
    assert_eq!(c.reporting.report_interval, 10);
    assert!(c.reporting.hedging_enabled);
    assert_eq!(c.random_seed, Some(42));
}

#[test]
fn config_builders_replace_their_fields() {
    let c = SimulationConfig::default()
        .with_time_steps(25)
        .with_policy(PolicyConfig {
            launch_rate: 0,
            mitigation_strength: 0,
            compliance_rate: 0,
            deorbit_threshold: 1_000_000,
        });
    assert_eq!(c.time_steps, 25);
    assert_eq!(c.policy.launch_rate, 0);
    assert_eq!(c.policy.deorbit_threshold, 1_000_000);
    assert_eq!(c.initial_agents, 500);
}
