use phantom_core::audit::{Adversary, PrivacyAuditor, PrivacyConfig};

#[test]
fn test_audit_high_risk() {
    let config = PrivacyConfig {
        use_mixnet: false,
        use_psi: false,
        is_sharded: false,
        cover_traffic_enabled: false,
        selected_adversary: Adversary::GlobalNationState,
    };
    let report = PrivacyAuditor::audit(&config);
    assert!(report.risk_score < 40);
    assert!(report.recommendations.len() >= 3);
}

#[test]
fn test_audit_paranoia_gold() {
    let config = PrivacyConfig {
        use_mixnet: true,
        use_psi: true,
        is_sharded: true,
        cover_traffic_enabled: true,
        selected_adversary: Adversary::GlobalNationState,
    };
    let report = PrivacyAuditor::audit(&config);
    assert_eq!(report.risk_score, 100);
}

#[test]
fn test_audit_exact_high_risk_score() {
    // Baseline 50, no bonuses, then the 30-point nation-state penalty.
    let config = PrivacyConfig {
        use_mixnet: false,
        use_psi: false,
        is_sharded: false,
        cover_traffic_enabled: false,
        selected_adversary: Adversary::GlobalNationState,
    };
    let report = PrivacyAuditor::audit(&config);
    assert_eq!(report.risk_score, 20);
    assert_eq!(report.recommendations.len(), 4);
    assert_eq!(report.status_color, "#FF5252");
}

#[test]
fn test_audit_network_monitor_penalty() {
    // Baseline 50 + psi 10 + sharding 10 = 70, minus 10 for a network
    // monitor without a mixnet.
    let config = PrivacyConfig {
        use_mixnet: false,
        use_psi: true,
        is_sharded: true,
        cover_traffic_enabled: false,
        selected_adversary: Adversary::NetworkMonitor,
    };
    let report = PrivacyAuditor::audit(&config);
    assert_eq!(report.risk_score, 60);
    assert_eq!(report.status_color, "#FFD600");
    assert_eq!(report.recommendations.len(), 1);
    assert_eq!(
        report.recommendations[0],
        "Switch to Mixnet for metadata resistance against passive observers."
    );
}

#[test]
fn test_audit_local_thief_no_penalty() {
    // Baseline 50 + mixnet 20 + cover 10 = 80: green without psi/sharding.
    let config = PrivacyConfig {
        use_mixnet: true,
        use_psi: false,
        is_sharded: false,
        cover_traffic_enabled: true,
        selected_adversary: Adversary::LocalThief,
    };
    let report = PrivacyAuditor::audit(&config);
    assert_eq!(report.risk_score, 80);
    assert_eq!(report.status_color, "#00E676");
    assert_eq!(report.recommendations.len(), 2);
}
