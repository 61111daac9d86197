//! Privacy-configuration scoring and advisory.
//!
//! The auditor grades a client configuration against a chosen adversary
//! model and produces a safety score (0-100, higher is safer), a list of
//! recommendations for the settings that fall short, and a traffic-light
//! colour for the user interface.

use vstd::prelude::*;

verus! {

/// The adversary the user wants to defend against.
#[derive(Debug, Clone, Copy, PartialEq, Eq, Structural)]
pub enum Adversary {
    LocalThief,
    NetworkMonitor,
    GlobalNationState,
}

/// The privacy-relevant switches of the client configuration.
#[derive(Debug, Clone)]
pub struct PrivacyConfig {
    pub use_mixnet: bool,
    pub use_psi: bool,
    pub is_sharded: bool,
    pub cover_traffic_enabled: bool,
    pub selected_adversary: Adversary,
}

/// The auditor's verdict on a configuration.
#[derive(Debug, Clone)]
pub struct AuditReport {
    pub risk_score: u32,
    pub recommendations: Vec<String>,
    pub status_color: String,
}

/// Stateless auditor; all state lives in the configuration it grades.
pub struct PrivacyAuditor;

/// The score before the adversary adjustment: a baseline of 50 plus a
/// bonus for each protective setting that is switched on.
pub open spec fn base_score(c: PrivacyConfig) -> int {
    50 + (if c.use_mixnet {
        20 + (if c.cover_traffic_enabled {
            10int
        } else {
            0int
        })
    } else {
        0int
    }) + (if c.use_psi {
        10int
    } else {
        0int
    }) + (if c.is_sharded {
        10int
    } else {
        0int
    })
}

/// The adversary adjustment: a saturating penalty where the configuration
/// is too weak for the selected adversary.
pub open spec fn adjusted_score(c: PrivacyConfig) -> int {
    let s = base_score(c);
    match c.selected_adversary {
        Adversary::GlobalNationState => if !c.use_mixnet || !c.cover_traffic_enabled {
            if s >= 30 {
                s - 30
            } else {
                0int
            }
        } else {
            s
        },
        Adversary::NetworkMonitor => if !c.use_mixnet {
            if s >= 10 {
                s - 10
            } else {
                0int
            }
        } else {
            s
        },
        Adversary::LocalThief => s,
    }
}

/// The final score, clamped to 0-100.
pub open spec fn audit_score(c: PrivacyConfig) -> int {
    if adjusted_score(c) > 100 {
        100int
    } else {
        adjusted_score(c)
    }
}

/// The exact recommendation texts, in the order the auditor emits them.
pub open spec fn audit_recs(c: PrivacyConfig) -> Seq<Seq<char>> {
    let transport: Seq<Seq<char>> = if c.use_mixnet {
        if c.cover_traffic_enabled {
            Seq::empty()
        } else {
            seq!["Enable Cover Traffic to defeat timing attacks."@]
        }
    } else {
        seq!["Switch to Mixnet for metadata resistance against passive observers."@]
    };
    let discovery: Seq<Seq<char>> = if c.use_psi {
        Seq::empty()
    } else {
        seq!["Use PSI discovery to prevent address book exposure."@]
    };
    let resilience: Seq<Seq<char>> = if c.is_sharded {
        Seq::empty()
    } else {
        seq!["Shard your identity to prevent single-point device compromise."@]
    };
    let adversary: Seq<Seq<char>> = if c.selected_adversary is GlobalNationState && (!c.use_mixnet
        || !c.cover_traffic_enabled) {
        seq![
            "CRITICAL: Onion routing is insufficient against a Global Nation State. Use Paranoia Mixnet."@,
        ]
    } else {
        Seq::empty()
    };
    transport + discovery + resilience + adversary
}

/// The traffic-light colour for a given final score.
pub open spec fn audit_color(c: PrivacyConfig) -> Seq<char> {
    if audit_score(c) <= 40 {
        "#FF5252"@
    } else if audit_score(c) <= 75 {
        "#FFD600"@
    } else {
        "#00E676"@
    }
}

impl PrivacyAuditor {
    /// Grades a configuration: exact score, recommendations and colour.
    pub fn audit(config: &PrivacyConfig) -> (report: AuditReport)
        ensures
            report.risk_score == audit_score(*config),
            report.recommendations.deep_view() == audit_recs(*config),
            report.status_color@ == audit_color(*config),
    {
        let mut score: u32 = 50;
        let mut recommendations: Vec<String> = Vec::new();

        if config.use_mixnet {
            score = score + 20;
            if config.cover_traffic_enabled {
                score = score + 10;
            } else {
                recommendations.push(String::from_str(
                    "Enable Cover Traffic to defeat timing attacks.",
                ));
            }
        } else {
            recommendations.push(String::from_str(
                "Switch to Mixnet for metadata resistance against passive observers.",
            ));
        }

        if config.use_psi {
            score = score + 10;
        } else {
            recommendations.push(String::from_str(
                "Use PSI discovery to prevent address book exposure.",
            ));
        }

        if config.is_sharded {
            score = score + 10;
        } else {
            recommendations.push(String::from_str(
                "Shard your identity to prevent single-point device compromise.",
            ));
        }

        match config.selected_adversary {
            Adversary::GlobalNationState => {
                if !config.use_mixnet || !config.cover_traffic_enabled {
                    score = if score >= 30 {
                        score - 30
                    } else {
                        0
                    };
                    recommendations.push(String::from_str(
                        "CRITICAL: Onion routing is insufficient against a Global Nation State. Use Paranoia Mixnet.",
                    ));
                }
            },
            Adversary::NetworkMonitor => {
                if !config.use_mixnet {
                    score = if score >= 10 {
                        score - 10
                    } else {
                        0
                    };
                }
            },
            Adversary::LocalThief => {},
        }

        let clamped_score = if score > 100 {
            100
        } else {
            score
        };
        let status_color = if clamped_score <= 40 {
            String::from_str("#FF5252")
        } else if clamped_score <= 75 {
            String::from_str("#FFD600")
        } else {
            String::from_str("#00E676")
        };

        proof {
            assert(recommendations.deep_view() =~~= audit_recs(*config));
        }

        AuditReport { risk_score: clamped_score, recommendations, status_color }
    }
}

} // verus!
