use autonomous_infrastructure_risk::agent::Agent;
use autonomous_infrastructure_risk::config::PolicyConfig;
use autonomous_infrastructure_risk::dynamics::SystemDynamics;
use autonomous_infrastructure_risk::event::Event;
use autonomous_infrastructure_risk::event::EventType;
use autonomous_infrastructure_risk::policy::PolicyEngine;
use autonomous_infrastructure_risk::rng::SimulationRng;
use autonomous_infrastructure_risk::tier::CapacityTier;

fn tier_with_count(id: usize, count: u64, threshold: u64, base_rate: u64) -> CapacityTier {
    let mut t = CapacityTier::new(id, format!("Tier-{}", id), 10, threshold, base_rate);
    t.current_count = count;
    t
}

#[test]
fn dynamics_full_tier_collides_and_cascades_with_scripted_draws() {
    // A full tier (utilization 1.0, threshold 0.5): effective rate is
    // 10_000 * (1 + 10 * 0.5^2) = 35_000, severity is exactly 1.0.
    // Scripted zero draws make every Bernoulli succeed and every damage
    // draw return its lower bound.
    let tiers = vec![tier_with_count(0, 10, 500_000, 10_000)];
    let mut agents = vec![Agent::new(0, 0, true), Agent::new(1, 0, false)];
    let mut events: Vec<Event> = Vec::new();
    let mut rng = SimulationRng::scripted(vec![0]);

    SystemDynamics::new().update(&tiers, &mut agents, &mut events, 3, &mut rng);

    // aging first: 1_000_000 * 9999 / 10000 = 999_900; then one collision
    // at minimum damage 0.1 and one cascade strike at minimum damage 0.3
    assert_eq!(agents[0].age, 1);
    assert_eq!(agents[0].health, 999_900 - 100_000 - 300_000);
    assert_eq!(agents[1].health, 999_900 - 100_000 - 300_000);

    assert_eq!(events.len(), 3);
    assert_eq!(events[0].event_type, EventType::Collision);
    assert_eq!(events[0].timestamp, 3);
    assert_eq!(events[0].tier_id, 0);
    assert_eq!(events[0].agent_ids, vec![0]);
    assert_eq!(events[0].severity, 100_000);
    assert_eq!(events[1].event_type, EventType::Collision);
    assert_eq!(events[1].agent_ids, vec![1]);
    assert_eq!(events[2].event_type, EventType::CascadingFailure);
    assert_eq!(events[2].agent_ids, vec![0, 1]);
    assert_eq!(events[2].severity, 1_000_000);
}

#[test]
fn dynamics_quiet_tier_only_ages() {
    let tiers = vec![tier_with_count(0, 3, 700_000, 10_000)];
    let mut agents = vec![Agent::new(0, 0, true)];
    let mut events: Vec<Event> = Vec::new();
    let mut rng = SimulationRng::scripted(vec![0]);

    SystemDynamics::new().update(&tiers, &mut agents, &mut events, 0, &mut rng);

    assert_eq!(agents[0].age, 1);
    assert_eq!(agents[0].health, 999_900);
    assert!(events.is_empty());
}

#[test]
fn cascade_strikes_at_most_first_five_agents() {
    let tiers = vec![tier_with_count(0, 10, 0, 0)];
    let mut agents: Vec<Agent> = (0..8).map(|i| Agent::new(i, 0, false)).collect();
    let mut events: Vec<Event> = Vec::new();
    let mut rng = SimulationRng::scripted(vec![0]);

    SystemDynamics::new().update(&tiers, &mut agents, &mut events, 0, &mut rng);

    // base rate zero: no collision events; severity 1.0 > 0.8 fires the
    // cascade against the first five agents in population order
    let cascades: Vec<&Event> = events
        .iter()
        .filter(|e| e.event_type == EventType::CascadingFailure)
        .collect();
    assert_eq!(cascades.len(), 1);
    assert_eq!(cascades[0].agent_ids, vec![0, 1, 2, 3, 4]);
    for agent in agents.iter().take(5) {
        assert_eq!(agent.health, 999_900 - 300_000);
    }
    for agent in agents.iter().skip(5) {
        assert_eq!(agent.health, 999_900);
    }
}

#[test]
fn launch_adds_agent_with_monotonic_id_and_logs_event() {
    let config = PolicyConfig {
        launch_rate: 1_000_000,
        mitigation_strength: 0,
        compliance_rate: 0,
        deorbit_threshold: 1_000_000,
    };
    let mut policy = PolicyEngine::new(config);
    let mut tiers = vec![
        tier_with_count(0, 0, 700_000, 0),
        tier_with_count(1, 0, 700_000, 0),
    ];
    let mut agents: Vec<Agent> = Vec::new();
    let mut events: Vec<Event> = Vec::new();
    // draws: launch Bernoulli (certain), tier pick 1, compliance (certain no)
    let mut rng = SimulationRng::scripted(vec![0, 1, 0]);

    policy.apply(&mut tiers, &mut agents, &mut events, 5, &mut rng);

    assert_eq!(agents.len(), 1);
    assert_eq!(agents[0].id, 10_000);
    assert_eq!(agents[0].tier_id, 1);
    assert!(!agents[0].compliance);
    assert_eq!(agents[0].health, 1_000_000);
    assert_eq!(tiers[0].current_count, 0);
    assert_eq!(tiers[1].current_count, 1);
    assert_eq!(events.len(), 1);
    assert_eq!(events[0].event_type, EventType::Launch);
    assert_eq!(events[0].timestamp, 5);
    assert_eq!(events[0].tier_id, 1);
    assert_eq!(events[0].agent_ids, vec![10_000]);

    let mut rng = SimulationRng::scripted(vec![0, 0, 0]);
    policy.apply(&mut tiers, &mut agents, &mut events, 6, &mut rng);
    assert_eq!(agents[1].id, 10_001);
}

#[test]
fn zero_launch_rate_never_launches() {
    let config = PolicyConfig {
        launch_rate: 0,
        mitigation_strength: 0,
        compliance_rate: 0,
        deorbit_threshold: 1_000_000,
    };
    let mut policy = PolicyEngine::new(config);
    let mut tiers = vec![tier_with_count(0, 0, 700_000, 0)];
    let mut agents: Vec<Agent> = Vec::new();
    let mut events: Vec<Event> = Vec::new();
    let mut rng = SimulationRng::scripted(vec![0]);

    policy.apply(&mut tiers, &mut agents, &mut events, 0, &mut rng);

    assert!(agents.is_empty());
    assert!(events.is_empty());
    assert_eq!(tiers[0].current_count, 0);
}

#[test]
fn mitigation_heals_only_compliant_agents() {
    let config = PolicyConfig {
        launch_rate: 0,
        // probability mitigation_strength / 10 = 1.0: every draw succeeds
        mitigation_strength: 10_000_000,
        compliance_rate: 0,
        deorbit_threshold: 1_000_000,
    };
    let mut policy = PolicyEngine::new(config);
    let mut tiers = vec![tier_with_count(0, 2, 700_000, 0)];
    let mut compliant = Agent::new(0, 0, true);
    compliant.apply_damage(500_000);
    let mut defiant = Agent::new(1, 0, false);
    defiant.apply_damage(500_000);
    let mut agents = vec![compliant, defiant];
    let mut events: Vec<Event> = Vec::new();
    let mut rng = SimulationRng::scripted(vec![0]);

    policy.apply(&mut tiers, &mut agents, &mut events, 0, &mut rng);

    assert_eq!(agents[0].health, 510_000);
    assert_eq!(agents[1].health, 500_000);
    assert!(events.is_empty());
}

#[test]
fn deorbit_kills_first_picked_agent_and_releases_its_slot_once() {
    let config = PolicyConfig {
        launch_rate: 0,
        mitigation_strength: 0,
        compliance_rate: 0,
        deorbit_threshold: 900_000,
    };
    let mut policy = PolicyEngine::new(config);
    // utilization 1.0 exceeds the deorbit threshold 0.9
    let mut tiers = vec![tier_with_count(0, 10, 700_000, 0)];
    let mut agents = vec![Agent::new(0, 0, false), Agent::new(1, 0, false)];
    let mut events: Vec<Event> = Vec::new();
    let mut rng = SimulationRng::scripted(vec![0]);

    policy.apply(&mut tiers, &mut agents, &mut events, 2, &mut rng);

    assert_eq!(agents[0].health, 0);
    assert!(agents[0].deorbited);
    assert!(!agents[0].is_alive());
    // only the first agent of the tier is picked this tick
    assert_eq!(agents[1].health, 1_000_000);
    assert_eq!(tiers[0].current_count, 9);
    assert_eq!(events.len(), 1);
    assert_eq!(events[0].event_type, EventType::Deorbit);
    assert_eq!(events[0].timestamp, 2);
    assert_eq!(events[0].agent_ids, vec![0]);
    assert_eq!(events[0].severity, 0);
}

#[test]
fn scripted_and_seeded_sources_stay_in_range() {
    let mut rng = SimulationRng::new(Some(9));
    for _ in 0..100 {
        let v = rng.gen_range(100_000, 500_000);
        assert!((100_000..500_000).contains(&v));
        assert!(!rng.gen_bool(0));
        assert!(rng.gen_bool(1_000_000));
    }
    // a one-value range is forced, whatever the generator holds
    assert_eq!(rng.gen_range(5, 6), 5);

    let mut scripted = SimulationRng::scripted(vec![7, 123]);
    assert_eq!(scripted.gen_range(0, 1_000_000), 7);
    assert_eq!(scripted.gen_range(0, 100), 23);
}
