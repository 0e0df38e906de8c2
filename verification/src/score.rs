//! Z-scores and the weighted composite anomaly score.
//!
//! A z-score expresses one metric value's deviation from the sector mean in
//! units of the sector standard deviation. The composite score is a
//! weighted root-mean-square over whichever z-scores are defined: price
//! 0.3, P/E 0.3, P/B 0.2, volume 0.2, renormalized over the present
//! metrics so that absent metrics neither penalize nor inflate the score.

use vstd::prelude::*;

use crate::fixed::Fx;
use crate::fixed::FX_SCALE;
use crate::fixed::FX_STD_EPSILON;
use crate::fixed::FX_Z_LIMIT;
use crate::fixed::div_i128;
use crate::fixed::div_to_zero;
use crate::fixed::fx_in_range;
use crate::fixed::is_sqrt_floor;
use crate::fixed::lemma_div_to_zero_bound;
use crate::fixed::lemma_div_to_zero_nonneg;
use crate::fixed::lemma_sqrt_floor_is;
use crate::fixed::sqrt_floor;
use crate::fixed::sqrt_i128;
use crate::stats::MetricRow;
use crate::stats::MetricStats;
use crate::stats::SectorStatistics;
use crate::stats::metric_stats_in_range;
use crate::stats::row_in_range;
use crate::stats::row_volume_ratio;
use crate::stats::stats_in_range;

verus! {

/// Weight of the price-change z-score in the composite (0.3).
pub const W_PRICE: i64 = 300_000;

/// Weight of the P/E z-score in the composite (0.3).
pub const W_PE: i64 = 300_000;

/// Weight of the P/B z-score in the composite (0.2).
pub const W_PB: i64 = 200_000;

/// Weight of the volume-ratio z-score in the composite (0.2).
pub const W_VOL: i64 = 200_000;

/// One stock's sector-relative z-scores. `price_z` is always defined;
/// the other three are `None` wherever the raw metric, the sector
/// statistic, or a usable standard deviation is missing.
#[derive(Clone, Copy, Debug, PartialEq)]
pub struct ZScores {
    pub pe_z: Option<Fx>,
    pub pb_z: Option<Fx>,
    pub price_z: Fx,
    pub volume_z: Option<Fx>,
}

/// The raw z-score of raw value `x` against mean `mean` and standard
/// deviation `std`.
pub open spec fn z_raw(x: int, mean: int, std: int) -> int
    recommends
        std > 0,
{
    div_to_zero((x - mean) * FX_SCALE, std)
}

/// The z-scores of one row against its sector's statistics.
///
/// The price z-score is zero when the price standard deviation is
/// degenerate (at most 0.001). Each optional z-score is defined exactly
/// when the row has the raw value, the sector statistic exists, and that
/// statistic's standard deviation exceeds 0.001.
pub open spec fn spec_z_scores(row: MetricRow, st: SectorStatistics) -> ZScores {
    ZScores {
        pe_z: match (row.pe_ratio, st.pe) {
            (Some(pe), Some(ms)) => if ms.std_dev.raw > FX_STD_EPSILON {
                Some(Fx { raw: z_raw(pe.raw as int, ms.mean.raw as int, ms.std_dev.raw as int) as i64 })
            } else {
                None
            },
            _ => None,
        },
        pb_z: match (row.pb_ratio, st.pb) {
            (Some(pb), Some(ms)) => if ms.std_dev.raw > FX_STD_EPSILON {
                Some(Fx { raw: z_raw(pb.raw as int, ms.mean.raw as int, ms.std_dev.raw as int) as i64 })
            } else {
                None
            },
            _ => None,
        },
        price_z: Fx {
            raw: if st.price.std_dev.raw > FX_STD_EPSILON {
                z_raw(
                    row.price_change_percent.raw as int,
                    st.price.mean.raw as int,
                    st.price.std_dev.raw as int,
                ) as i64
            } else {
                0
            },
        },
        volume_z: match (row_volume_ratio(row), st.volume_ratio) {
            (Some(q), Some(ms)) => if ms.std_dev.raw > FX_STD_EPSILON {
                Some(Fx { raw: z_raw(q, ms.mean.raw as int, ms.std_dev.raw as int) as i64 })
            } else {
                None
            },
            _ => None,
        },
    }
}

/// Every defined z-score has raw magnitude within [`FX_Z_LIMIT`].
pub open spec fn z_in_range(z: ZScores) -> bool {
    &&& -FX_Z_LIMIT <= z.price_z.raw <= FX_Z_LIMIT
    &&& (z.pe_z matches Some(f) ==> -FX_Z_LIMIT <= f.raw <= FX_Z_LIMIT)
    &&& (z.pb_z matches Some(f) ==> -FX_Z_LIMIT <= f.raw <= FX_Z_LIMIT)
    &&& (z.volume_z matches Some(f) ==> -FX_Z_LIMIT <= f.raw <= FX_Z_LIMIT)
}

/// One in-range value z-scored against in-range statistics with a
/// non-degenerate standard deviation.
fn z_score(x: Fx, ms: &MetricStats) -> (r: Fx)
    requires
        fx_in_range(x),
        metric_stats_in_range(*ms),
        ms.std_dev.raw > FX_STD_EPSILON,
    ensures
        r.raw == z_raw(x.raw as int, ms.mean.raw as int, ms.std_dev.raw as int) as i64,
        -FX_Z_LIMIT <= r.raw <= FX_Z_LIMIT,
{
    let diff: i128 = x.raw as i128 - ms.mean.raw as i128;
    proof {
        assert(-2_000_000_000_000_000_000 <= diff * (FX_SCALE as int)
            <= 2_000_000_000_000_000_000) by (nonlinear_arith)
            requires -2_000_000_000_000 <= diff <= 2_000_000_000_000;
    }
    let num: i128 = diff * (FX_SCALE as i128);
    let q = div_i128(num, ms.std_dev.raw as i128);
    proof {
        assert((ms.std_dev.raw as int) * (FX_Z_LIMIT as int) >= 2_002_000_000_000_000_000)
            by (nonlinear_arith)
            requires ms.std_dev.raw as int >= 1001;
        lemma_div_to_zero_bound(num as int, ms.std_dev.raw as int, FX_Z_LIMIT as int);
    }
    Fx { raw: q as i64 }
}

/// The z-scores of `row` against `stats`, per [`spec_z_scores`].
pub fn calculate_z_scores(row: &MetricRow, stats: &SectorStatistics) -> (z: ZScores)
    requires
        row_in_range(*row),
        stats_in_range(*stats),
    ensures
        z == spec_z_scores(*row, *stats),
        z_in_range(z),
{
    let price_z = if stats.price.std_dev.raw > FX_STD_EPSILON {
        z_score(row.price_change_percent, &stats.price)
    } else {
        Fx { raw: 0 }
    };

    let pe_z = match (row.pe_ratio, stats.pe) {
        (Some(pe), Some(ms)) => if ms.std_dev.raw > FX_STD_EPSILON {
            Some(z_score(pe, &ms))
        } else {
            None
        },
        _ => None,
    };

    let pb_z = match (row.pb_ratio, stats.pb) {
        (Some(pb), Some(ms)) => if ms.std_dev.raw > FX_STD_EPSILON {
            Some(z_score(pb, &ms))
        } else {
            None
        },
        _ => None,
    };

    let volume_z = match (row.volume, row.avg_volume_10d, stats.volume_ratio) {
        (Some(v), Some(av), Some(ms)) => if av > 0 && ms.std_dev.raw > FX_STD_EPSILON {
            let ratio = crate::stats::volume_ratio(v, av);
            Some(z_score(ratio, &ms))
        } else {
            None
        },
        _ => None,
    };

    ZScores { pe_z, pb_z, price_z, volume_z }
}

/// The weighted sum of squared z-scores over the defined metrics.
pub open spec fn weighted_sq_sum(z: ZScores) -> int {
    W_PRICE * ((z.price_z.raw as int) * (z.price_z.raw as int)) + (match z.pe_z {
        Some(f) => W_PE * ((f.raw as int) * (f.raw as int)),
        None => 0,
    }) + (match z.pb_z {
        Some(f) => W_PB * ((f.raw as int) * (f.raw as int)),
        None => 0,
    }) + (match z.volume_z {
        Some(f) => W_VOL * ((f.raw as int) * (f.raw as int)),
        None => 0,
    })
}

/// The total weight of the defined metrics. Price is always defined, so
/// this is at least 0.3.
pub open spec fn total_weight(z: ZScores) -> int {
    W_PRICE as int + (if z.pe_z is Some {
        W_PE as int
    } else {
        0
    }) + (if z.pb_z is Some {
        W_PB as int
    } else {
        0
    }) + (if z.volume_z is Some {
        W_VOL as int
    } else {
        0
    })
}

/// The composite anomaly score: the square root of the weighted mean of
/// the squared z-scores over the defined metrics.
pub open spec fn composite_of(z: ZScores) -> int {
    sqrt_floor(div_to_zero(weighted_sq_sum(z), total_weight(z)))
}

/// The composite anomaly score of one stock's z-scores, per
/// [`composite_of`]. The result is non-negative: sign is discarded, high
/// and low deviations score alike.
pub fn calculate_composite_score(z: &ZScores) -> (r: Fx)
    requires
        z_in_range(*z),
    ensures
        r.raw == composite_of(*z),
        0 <= r.raw <= FX_Z_LIMIT,
{
    let ghost zbound: int = 4_000_000_000_000_000_000_000_000_000_000;
    let zp: i128 = z.price_z.raw as i128;
    proof {
        assert(0 <= zp * zp <= 4_000_000_000_000_000_000_000_000_000_000) by (nonlinear_arith)
            requires -2_000_000_000_000_000 <= zp <= 2_000_000_000_000_000;
    }
    let mut ws: i128 = 300_000 * (zp * zp);
    let mut tw: i128 = 300_000;
    if let Some(f) = z.pe_z {
        let v: i128 = f.raw as i128;
        proof {
            assert(0 <= v * v <= 4_000_000_000_000_000_000_000_000_000_000) by (nonlinear_arith)
                requires -2_000_000_000_000_000 <= v <= 2_000_000_000_000_000;
        }
        ws = ws + 300_000 * (v * v);
        tw = tw + 300_000;
    }
    if let Some(f) = z.pb_z {
        let v: i128 = f.raw as i128;
        proof {
            assert(0 <= v * v <= 4_000_000_000_000_000_000_000_000_000_000) by (nonlinear_arith)
                requires -2_000_000_000_000_000 <= v <= 2_000_000_000_000_000;
        }
        ws = ws + 200_000 * (v * v);
        tw = tw + 200_000;
    }
    if let Some(f) = z.volume_z {
        let v: i128 = f.raw as i128;
        proof {
            assert(0 <= v * v <= 4_000_000_000_000_000_000_000_000_000_000) by (nonlinear_arith)
                requires -2_000_000_000_000_000 <= v <= 2_000_000_000_000_000;
        }
        ws = ws + 200_000 * (v * v);
        tw = tw + 200_000;
    }
    proof {
        assert(ws == weighted_sq_sum(*z));
        assert(tw == total_weight(*z));
        assert(0 <= ws <= tw * zbound);
        lemma_div_to_zero_bound(ws as int, tw as int, zbound);
        lemma_div_to_zero_nonneg(ws as int, tw as int);
    }
    let q = div_i128(ws, tw);
    let r = sqrt_i128(q);
    proof {
        assert(r <= FX_Z_LIMIT) by (nonlinear_arith)
            requires
                is_sqrt_floor(q as int, r as int),
                0 <= q <= 4_000_000_000_000_000_000_000_000_000_000,
        ;
    }
    Fx { raw: r as i64 }
}

/// The negation of a fixed-point value.
pub open spec fn fx_negated(f: Fx) -> Fx {
    Fx { raw: (-f.raw) as i64 }
}

/// The same z-scores with every defined score negated.
pub open spec fn z_negated(z: ZScores) -> ZScores {
    ZScores {
        pe_z: match z.pe_z {
            Some(f) => Some(fx_negated(f)),
            None => None,
        },
        pb_z: match z.pb_z {
            Some(f) => Some(fx_negated(f)),
            None => None,
        },
        price_z: fx_negated(z.price_z),
        volume_z: match z.volume_z {
            Some(f) => Some(fx_negated(f)),
            None => None,
        },
    }
}

/// Negating every z-score leaves the composite score unchanged: the
/// composite squares each score, so sign is discarded.
pub proof fn lemma_composite_negation_invariant(z: ZScores)
    requires
        z_in_range(z),
    ensures
        composite_of(z_negated(z)) == composite_of(z),
{
    let n = z_negated(z);
    assert(n.price_z.raw as int == -(z.price_z.raw as int));
    assert((n.price_z.raw as int) * (n.price_z.raw as int)
        == (z.price_z.raw as int) * (z.price_z.raw as int)) by (nonlinear_arith)
        requires n.price_z.raw as int == -(z.price_z.raw as int);
    match z.pe_z {
        Some(f) => {
            let g = n.pe_z->Some_0;
            assert((g.raw as int) * (g.raw as int) == (f.raw as int) * (f.raw as int))
                by (nonlinear_arith)
                requires g.raw as int == -(f.raw as int);
        },
        None => {},
    }
    match z.pb_z {
        Some(f) => {
            let g = n.pb_z->Some_0;
            assert((g.raw as int) * (g.raw as int) == (f.raw as int) * (f.raw as int))
                by (nonlinear_arith)
                requires g.raw as int == -(f.raw as int);
        },
        None => {},
    }
    match z.volume_z {
        Some(f) => {
            let g = n.volume_z->Some_0;
            assert((g.raw as int) * (g.raw as int) == (f.raw as int) * (f.raw as int))
                by (nonlinear_arith)
                requires g.raw as int == -(f.raw as int);
        },
        None => {},
    }
    assert(weighted_sq_sum(n) == weighted_sq_sum(z));
    assert(total_weight(n) == total_weight(z));
}

} // verus!
