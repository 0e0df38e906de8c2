use sector_view::classify::classify_significance;
use sector_view::classify::OutlierType;
use sector_view::classify::SignificanceLevel;
use sector_view::detect::detect_all_outliers;
use sector_view::detect::detect_sector_outliers;
use sector_view::detect::SectorRows;
use sector_view::fixed::Fx;
use sector_view::score::calculate_composite_score;
use sector_view::score::calculate_z_scores;
use sector_view::score::ZScores;
use sector_view::stats::calculate_stats;
use sector_view::stats::MetricRow;
use sector_view::types::Sector;

fn fx(raw: i64) -> Fx {
    Fx::from_raw(raw)
}

fn price_row(stock_id: i32, symbol: &str, price_units: i64) -> MetricRow {
    MetricRow {
        stock_id,
        symbol: symbol.to_string(),
        name: format!("Company {symbol}"),
        sector_id: 1,
        price_change_percent: Fx::from_units(price_units),
        pe_ratio: None,
        pb_ratio: None,
        volume: None,
        avg_volume_10d: None,
    }
}

// Scenario: three rows with price changes [1, 2, 3] and no optional
// metrics. The sector statistics are mean 2.0 and std 1.0; the row with
// value 3 has price_z = 1.0 and composite sqrt(0.3*1/0.3) = 1.0, below a
// threshold of 1.5, so nothing is flagged.
#[test]
fn test_scenario_three_prices_below_threshold() {
    let rows = vec![price_row(1, "A", 1), price_row(2, "B", 2), price_row(3, "C", 3)];

    let stats = calculate_stats(&rows);
    assert_eq!(stats.price.mean.raw, 2_000_000);
    assert_eq!(stats.price.std_dev.raw, 1_000_000);

    let z = calculate_z_scores(&rows[2], &stats);
    assert_eq!(z.price_z.raw, 1_000_000);
    let composite = calculate_composite_score(&z);
    assert_eq!(composite.raw, 1_000_000);

    let outliers = detect_sector_outliers(&rows, fx(1_500_000));
    assert!(outliers.is_empty());
}

// Scenario: pe_z = 2.0 and pb_z = 2.0 with everything else absent
// classifies as Overvalued — rule two fires before Mixed.
#[test]
fn test_scenario_overvalued_rule_fires_before_mixed() {
    let z = ZScores {
        price_z: fx(0),
        pe_z: Some(fx(2_000_000)),
        pb_z: Some(fx(2_000_000)),
        volume_z: None,
    };
    assert!(matches!(
        sector_view::classify::classify_outlier(&z),
        OutlierType::Overvalued
    ));
}

// Scenario: pe_z = -2.0 and price_z = -2.0 with pb_z absent falls
// through the Undervalued rule (which needs pb_z) to ValueTrap.
#[test]
fn test_scenario_value_trap_after_undervalued_fails() {
    let z = ZScores {
        price_z: fx(-2_000_000),
        pe_z: Some(fx(-2_000_000)),
        pb_z: None,
        volume_z: None,
    };
    assert!(matches!(
        sector_view::classify::classify_outlier(&z),
        OutlierType::ValueTrap
    ));
}

// Scenario: all four z-scores at 2.0 give a composite of exactly 2.0,
// which lands in the Strong tier.
#[test]
fn test_scenario_all_twos_composite_strong() {
    let z = ZScores {
        price_z: fx(2_000_000),
        pe_z: Some(fx(2_000_000)),
        pb_z: Some(fx(2_000_000)),
        volume_z: Some(fx(2_000_000)),
    };
    let composite = calculate_composite_score(&z);
    assert_eq!(composite.raw, 2_000_000);
    assert!(matches!(classify_significance(composite), SignificanceLevel::Strong));
}

// Scenario: a sector with only two stocks returns an empty list
// regardless of the threshold.
#[test]
fn test_scenario_two_stocks_insufficient_sample() {
    let rows = vec![price_row(1, "A", 1), price_row(2, "B", 100)];
    assert!(detect_sector_outliers(&rows, fx(100_000)).is_empty());
    assert!(detect_sector_outliers(&rows, fx(5_000_000)).is_empty());
}

// Running the pipeline twice over identical input rows and the same
// threshold yields identical output lists.
#[test]
fn test_detection_idempotent() {
    let build = || {
        vec![
            price_row(1, "A", 0),
            price_row(2, "B", 0),
            price_row(3, "C", 3),
            price_row(4, "D", -2),
        ]
    };
    let first = detect_sector_outliers(&build(), fx(1_000_000));
    let second = detect_sector_outliers(&build(), fx(1_000_000));
    assert_eq!(first, second);
}

// The unrounded composite is what the threshold and the tier see; the
// stored score is rounded to two decimals. Prices [0, 0, 3] give the
// third row std 1.732050 and z = 1.154701; the stored composite rounds
// to 1.15.
#[test]
fn test_flagged_score_rounded_to_cents() {
    let rows = vec![price_row(1, "A", 0), price_row(2, "B", 0), price_row(3, "C", 3)];
    let stats = calculate_stats(&rows);
    assert_eq!(stats.price.std_dev.raw, 1_732_050);

    let outliers = detect_sector_outliers(&rows, fx(1_000_000));
    assert_eq!(outliers.len(), 1);
    assert_eq!(outliers[0].stock_id, 3);
    assert_eq!(outliers[0].z_scores.price_z.raw, 1_154_701);
    assert_eq!(outliers[0].composite_score.raw, 1_150_000);
    assert!(matches!(outliers[0].outlier_type, OutlierType::Mixed));
    assert!(matches!(outliers[0].significance_level, SignificanceLevel::Moderate));
}

// Flagged stocks come back sorted by composite score descending.
#[test]
fn test_results_sorted_descending() {
    let rows = vec![
        price_row(1, "A", 1),
        price_row(2, "B", 2),
        price_row(3, "C", 3),
        price_row(4, "D", 20),
        price_row(5, "E", -10),
    ];
    let outliers = detect_sector_outliers(&rows, fx(1));
    assert!(outliers.len() >= 2);
    for w in outliers.windows(2) {
        assert!(w[0].composite_score.raw >= w[1].composite_score.raw);
    }
}

// The whole-universe entry point returns one summary per sector, in the
// caller-supplied order, with matching counts.
#[test]
fn test_detect_all_outliers_per_sector_summaries() {
    let tech = SectorRows {
        sector: Sector { id: 1, name: "Technology".to_string(), symbol: "XLK".to_string() },
        rows: vec![
            price_row(1, "A", 0),
            price_row(2, "B", 0),
            price_row(3, "C", 30),
        ],
    };
    let energy = SectorRows {
        sector: Sector { id: 2, name: "Energy".to_string(), symbol: "XLE".to_string() },
        rows: vec![price_row(4, "D", 1), price_row(5, "E", 2)],
    };
    let results = detect_all_outliers(&vec![tech, energy], fx(1_000_000));
    assert_eq!(results.len(), 2);
    assert_eq!(results[0].sector_id, 1);
    assert_eq!(results[0].sector_name, "Technology");
    assert_eq!(results[0].sector_symbol, "XLK");
    assert_eq!(results[0].outlier_count, results[0].outliers.len());
    assert_eq!(results[0].outlier_count, 1);
    assert_eq!(results[1].sector_id, 2);
    // two rows: too small a sample
    assert_eq!(results[1].outlier_count, 0);
}

// Negating every z-score leaves the composite unchanged (scores are
// squared), checked on an asymmetric set.
#[test]
fn test_composite_invariant_under_negation() {
    let z = ZScores {
        price_z: fx(1_234_567),
        pe_z: Some(fx(-765_432)),
        pb_z: None,
        volume_z: Some(fx(2_222_222)),
    };
    let neg = ZScores {
        price_z: fx(-1_234_567),
        pe_z: Some(fx(765_432)),
        pb_z: None,
        volume_z: Some(fx(-2_222_222)),
    };
    assert_eq!(calculate_composite_score(&z).raw, calculate_composite_score(&neg).raw);
}

// An empty batch is below the minimum sample size.
#[test]
fn test_empty_input_gives_empty_result() {
    let rows: Vec<MetricRow> = Vec::new();
    assert!(detect_sector_outliers(&rows, fx(1_500_000)).is_empty());
}

// The threshold comparison is inclusive: composite scores exactly equal
// to the threshold are flagged, and equal scores keep row order.
#[test]
fn test_threshold_met_exactly_is_flagged() {
    let rows = vec![price_row(1, "A", 1), price_row(2, "B", 2), price_row(3, "C", 3)];
    // rows A and C both have composite exactly 1.0; B has 0.0
    let outliers = detect_sector_outliers(&rows, fx(1_000_000));
    assert_eq!(outliers.len(), 2);
    assert_eq!(outliers[0].stock_id, 1);
    assert_eq!(outliers[1].stock_id, 3);
    assert_eq!(outliers[0].composite_score.raw, 1_000_000);
    assert_eq!(outliers[1].composite_score.raw, 1_000_000);
}

