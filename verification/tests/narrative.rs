use autonomous_infrastructure_risk::config::ReportingConfig;
use autonomous_infrastructure_risk::language::LanguageGenerator;
use autonomous_infrastructure_risk::stability::StabilityClass;
use autonomous_infrastructure_risk::stability::class_label;
use autonomous_infrastructure_risk::stability::classify_stability;
use autonomous_infrastructure_risk::template::TemplateBank;
use autonomous_infrastructure_risk::tier::CapacityTier;

fn reporting(hedging: bool, modulation: bool) -> ReportingConfig {
    ReportingConfig {
        report_interval: 10,
        hedging_enabled: hedging,
        confidence_modulation: modulation,
        ambiguity_level: 500_000,
    }
}

fn tier_with_count(id: usize, name: &str, count: u64) -> CapacityTier {
    let mut t = CapacityTier::new(id, name.to_string(), 10, 700_000, 1_000);
    t.current_count = count;
    t
}

#[test]
fn stability_boundaries_classify_upward() {
    assert_eq!(class_label(classify_stability(599_999)), "Stable");
    assert_eq!(class_label(classify_stability(600_000)), "Degrading");
    assert_eq!(class_label(classify_stability(849_999)), "Degrading");
    assert_eq!(class_label(classify_stability(850_000)), "Critical");
    assert_eq!(class_label(classify_stability(0)), "Stable");
}

#[test]
fn template_openings_render_percentages() {
    let bank = TemplateBank::new();
    assert_eq!(
        bank.stable_opening(400_000, false),
        "Operational status nominal. System utilization at 40.0%."
    );
    // hedging adds the reserve clause only above half utilization
    assert_eq!(
        bank.stable_opening(400_000, true),
        "Operational status nominal. System utilization at 40.0%."
    );
    assert_eq!(
        bank.stable_opening(550_000, true),
        "Operational status nominal. System utilization at 55.0%. Capacity reserves adequate."
    );
    assert_eq!(
        bank.degrading_opening(650_000, true),
        "System experiencing elevated utilization at 65.0%. Trend monitoring ongoing."
    );
    assert_eq!(
        bank.critical_opening(900_000, false),
        "Critical utilization detected at 90.0%. Immediate attention required."
    );
    assert_eq!(
        bank.critical_opening(900_000, true),
        "Critical utilization detected at 90.0%. Immediate attention required, though some uncertainty remains in projections."
    );
}

#[test]
fn percent_rendering_rounds_half_up_in_tenths() {
    let bank = TemplateBank::new();
    assert_eq!(
        bank.stable_opening(805_500, false),
        "Operational status nominal. System utilization at 80.6%."
    );
    assert_eq!(
        bank.stable_opening(805_499, false),
        "Operational status nominal. System utilization at 80.5%."
    );
    assert_eq!(
        bank.stable_opening(1_000_000, false),
        "Operational status nominal. System utilization at 100.0%."
    );
}

#[test]
fn narrative_no_congestion() {
    let generator = LanguageGenerator::new(reporting(false, false));
    let tiers = vec![tier_with_count(0, "Alpha", 3), tier_with_count(1, "Beta", 4)];
    let text = generator.generate_report(&tiers, 350_000, 500, 0, StabilityClass::Stable);
    assert_eq!(
        text,
        "Operational status nominal. System utilization at 35.0%. \
         All capacity tiers operating within normal parameters. \
         No significant conjunction events detected, with risk levels stable. \
         All systems nominal."
    );
}

#[test]
fn narrative_names_the_single_congested_tier() {
    let generator = LanguageGenerator::new(reporting(false, false));
    let tiers = vec![tier_with_count(0, "Alpha", 3), tier_with_count(1, "Beta", 8)];
    let text = generator.generate_report(&tiers, 550_000, 500, 2, StabilityClass::Stable);
    assert_eq!(
        text,
        "Operational status nominal. System utilization at 55.0%. \
         Beta tier experiencing elevated utilization at 80.0% of capacity. \
         Limited conjunction activity observed (2 events), with risk levels stable. \
         All systems nominal."
    );
}

#[test]
fn narrative_counts_multiple_congested_tiers_without_names() {
    let generator = LanguageGenerator::new(reporting(true, true));
    let tiers = vec![
        tier_with_count(0, "Alpha", 9),
        tier_with_count(1, "Beta", 8),
        tier_with_count(2, "Gamma", 1),
    ];
    let text = generator.generate_report(&tiers, 600_000, 500, 0, StabilityClass::Degrading);
    assert!(text.contains("Multiple capacity tiers (2) showing congestion patterns."));
    assert!(!text.contains("Alpha tier"));
    assert!(!text.contains("Beta tier"));
}

#[test]
fn event_summary_buckets_and_hedges() {
    let hedged = LanguageGenerator::new(reporting(true, false));
    let plain = LanguageGenerator::new(reporting(false, false));
    let tiers = vec![tier_with_count(0, "Alpha", 1)];

    // many events, elevated risk, hedging on
    let text = hedged.generate_report(&tiers, 100_000, 20_000, 12, StabilityClass::Stable);
    assert!(text.contains(
        "Increased conjunction activity detected (12 events), though elevated risk persists."
    ));

    // same numbers with hedging off keep the stable-risk clause
    let text = plain.generate_report(&tiers, 100_000, 20_000, 12, StabilityClass::Stable);
    assert!(text.contains(
        "Increased conjunction activity detected (12 events), with risk levels stable."
    ));

    // risk at the limit is not elevated
    let text = hedged.generate_report(&tiers, 100_000, 10_000, 3, StabilityClass::Stable);
    assert!(text.contains(
        "Limited conjunction activity observed (3 events), with risk levels stable."
    ));

    // five events reach the increased-activity bucket
    let text = plain.generate_report(&tiers, 100_000, 0, 5, StabilityClass::Stable);
    assert!(text.contains("Increased conjunction activity detected (5 events)"));
    let text = plain.generate_report(&tiers, 100_000, 0, 4, StabilityClass::Stable);
    assert!(text.contains("Limited conjunction activity observed (4 events)"));
}

#[test]
fn closing_depends_on_class_modulation_and_utilization() {
    let modulated = LanguageGenerator::new(reporting(false, true));
    let plain = LanguageGenerator::new(reporting(false, false));
    let tiers = vec![tier_with_count(0, "Alpha", 1)];

    let text = modulated.generate_report(&tiers, 900_000, 0, 0, StabilityClass::Critical);
    assert!(text.ends_with("Mitigation protocols engaged. Continued monitoring advised."));

    let text = plain.generate_report(&tiers, 900_000, 0, 0, StabilityClass::Critical);
    assert!(text.ends_with("Mitigation protocols active."));

    let text = plain.generate_report(&tiers, 750_000, 0, 0, StabilityClass::Degrading);
    assert!(text.ends_with("Debris mitigation protocols remain nominal."));

    let text = plain.generate_report(&tiers, 700_000, 0, 0, StabilityClass::Degrading);
    assert!(text.ends_with("All systems nominal."));
}

#[test]
fn narrative_can_understate_a_masked_congested_tier() {
    // One severely congested tier masked by calm neighbours: the average
    // stays Stable and the opening stays nominal, while the tier summary
    // still names the hot tier. The divergence is intended.
    let generator = LanguageGenerator::new(reporting(false, false));
    let tiers = vec![
        tier_with_count(0, "Hot", 10),
        tier_with_count(1, "Cold-A", 0),
        tier_with_count(2, "Cold-B", 0),
    ];
    let avg = (1_000_000 + 0 + 0) / 3;
    let text = generator.generate_report(&tiers, avg, 0, 0, classify_stability(avg));
    assert!(text.starts_with("Operational status nominal."));
    assert!(text.contains("Hot tier experiencing elevated utilization at 100.0% of capacity."));
}
