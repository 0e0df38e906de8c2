//! Sector statistics: per-metric sample mean and sample standard deviation.
//!
//! For each tracked metric (price-change %, P/E, P/B, volume ratio) the
//! aggregator computes the sample mean and the Bessel-corrected sample
//! standard deviation over the rows that define the metric. Price-change
//! statistics are always present; the three optional metrics get
//! statistics only when at least two rows contribute a value.

use vstd::prelude::*;

use crate::fixed::Fx;
use crate::fixed::FX_INPUT_LIMIT;
use crate::fixed::FX_SCALE;
use crate::fixed::FX_STD_LIMIT;
use crate::fixed::MAX_ROWS;
use crate::fixed::div_i128;
use crate::fixed::div_to_zero;
use crate::fixed::fx_in_range;
use crate::fixed::is_sqrt_floor;
use crate::fixed::lemma_div_to_zero_bound;
use crate::fixed::lemma_sqrt_floor_is;
use crate::fixed::sqrt_floor;
use crate::fixed::sqrt_i128;

verus! {

/// One stock's latest metric snapshot within a sector.
#[derive(Clone, Debug)]
pub struct MetricRow {
    pub stock_id: i32,
    pub symbol: String,
    pub name: String,
    pub sector_id: i32,
    pub price_change_percent: Fx,
    pub pe_ratio: Option<Fx>,
    pub pb_ratio: Option<Fx>,
    pub volume: Option<i64>,
    pub avg_volume_10d: Option<i64>,
}

/// Sample mean and sample standard deviation of one metric.
#[derive(Clone, Copy, Debug)]
pub struct MetricStats {
    pub mean: Fx,
    pub std_dev: Fx,
}

/// Per-metric sector statistics, recomputed on every detection call.
#[derive(Clone, Copy, Debug)]
pub struct SectorStatistics {
    pub price: MetricStats,
    pub pe: Option<MetricStats>,
    pub pb: Option<MetricStats>,
    pub volume_ratio: Option<MetricStats>,
}

/// Raw value of a row's volume ratio, `volume / avg_volume_10d`, defined
/// only when both counts are present and the average is positive.
pub open spec fn row_volume_ratio(r: MetricRow) -> Option<int> {
    match (r.volume, r.avg_volume_10d) {
        (Some(v), Some(av)) => if av > 0 {
            Some(div_to_zero(v * FX_SCALE, av as int))
        } else {
            None
        },
        _ => None,
    }
}

/// A row the engine accepts: every present value representable within the
/// engine's fixed-point range, volume counts non-negative.
pub open spec fn row_in_range(r: MetricRow) -> bool {
    &&& fx_in_range(r.price_change_percent)
    &&& (r.pe_ratio matches Some(f) ==> fx_in_range(f))
    &&& (r.pb_ratio matches Some(f) ==> fx_in_range(f))
    &&& (r.volume matches Some(v) ==> v >= 0)
    &&& (r.avg_volume_10d matches Some(av) ==> av >= 0)
    &&& (row_volume_ratio(r) matches Some(q) ==> q <= FX_INPUT_LIMIT)
}

/// The raw values of a sequence of fixed-point numbers.
pub open spec fn fx_raws(s: Seq<Fx>) -> Seq<int> {
    s.map_values(|f: Fx| f.raw as int)
}

/// The price-change values of the rows, in row order.
pub open spec fn price_raws(rows: Seq<MetricRow>) -> Seq<int>
    decreases rows.len(),
{
    if rows.len() == 0 {
        Seq::empty()
    } else {
        price_raws(rows.drop_last()).push(rows.last().price_change_percent.raw as int)
    }
}

/// The P/E values of the rows that have one, in row order.
pub open spec fn pe_values(rows: Seq<MetricRow>) -> Seq<int>
    decreases rows.len(),
{
    if rows.len() == 0 {
        Seq::empty()
    } else {
        pe_values(rows.drop_last()) + match rows.last().pe_ratio {
            Some(f) => seq![f.raw as int],
            None => Seq::empty(),
        }
    }
}

/// The P/B values of the rows that have one, in row order.
pub open spec fn pb_values(rows: Seq<MetricRow>) -> Seq<int>
    decreases rows.len(),
{
    if rows.len() == 0 {
        Seq::empty()
    } else {
        pb_values(rows.drop_last()) + match rows.last().pb_ratio {
            Some(f) => seq![f.raw as int],
            None => Seq::empty(),
        }
    }
}

/// The volume ratios of the rows where the ratio is defined, in row order.
pub open spec fn volume_ratio_values(rows: Seq<MetricRow>) -> Seq<int>
    decreases rows.len(),
{
    if rows.len() == 0 {
        Seq::empty()
    } else {
        volume_ratio_values(rows.drop_last()) + match row_volume_ratio(rows.last()) {
            Some(q) => seq![q],
            None => Seq::empty(),
        }
    }
}

/// The sum of a sequence of integers.
pub open spec fn sum_of(s: Seq<int>) -> int
    decreases s.len(),
{
    if s.len() == 0 {
        0
    } else {
        sum_of(s.drop_last()) + s.last()
    }
}

/// The sample mean: the sum divided by the size, zero for an empty sample.
pub open spec fn mean_of(s: Seq<int>) -> int {
    if s.len() == 0 {
        0
    } else {
        div_to_zero(sum_of(s), s.len() as int)
    }
}

/// The sum of squared deviations from `m`.
pub open spec fn sq_dev_sum(s: Seq<int>, m: int) -> int
    decreases s.len(),
{
    if s.len() == 0 {
        0
    } else {
        sq_dev_sum(s.drop_last(), m) + (s.last() - m) * (s.last() - m)
    }
}

/// The sample standard deviation with Bessel's correction: zero for fewer
/// than two samples, else the square root of the sum of squared deviations
/// from the mean divided by `n - 1`. In fixed point the raw standard
/// deviation is the floor square root of the raw variance quotient.
pub open spec fn std_of(s: Seq<int>) -> int {
    if s.len() < 2 {
        0
    } else {
        sqrt_floor(div_to_zero(sq_dev_sum(s, mean_of(s)), s.len() - 1))
    }
}

/// For a sample of size one the sample standard deviation is zero; for an
/// empty sample both the mean and the standard deviation are zero.
pub proof fn lemma_degenerate_sample_stats(s: Seq<int>)
    ensures
        s.len() == 1 ==> std_of(s) == 0,
        s.len() == 0 ==> mean_of(s) == 0 && std_of(s) == 0,
{
}

/// The statistics of one metric's sample, as fixed-point values.
pub open spec fn spec_metric_stats(s: Seq<int>) -> MetricStats {
    MetricStats {
        mean: Fx { raw: mean_of(s) as i64 },
        std_dev: Fx { raw: std_of(s) as i64 },
    }
}

/// The sector statistics of a batch of rows: price statistics over all
/// rows, optional-metric statistics only over at least two contributing
/// rows.
pub open spec fn spec_sector_stats(rows: Seq<MetricRow>) -> SectorStatistics {
    SectorStatistics {
        price: spec_metric_stats(price_raws(rows)),
        pe: if pe_values(rows).len() >= 2 {
            Some(spec_metric_stats(pe_values(rows)))
        } else {
            None
        },
        pb: if pb_values(rows).len() >= 2 {
            Some(spec_metric_stats(pb_values(rows)))
        } else {
            None
        },
        volume_ratio: if volume_ratio_values(rows).len() >= 2 {
            Some(spec_metric_stats(volume_ratio_values(rows)))
        } else {
            None
        },
    }
}

/// Statistics the engine can take z-scores against: mean within the input
/// range, standard deviation within its computed bound.
pub open spec fn metric_stats_in_range(ms: MetricStats) -> bool {
    &&& -FX_INPUT_LIMIT <= ms.mean.raw <= FX_INPUT_LIMIT
    &&& 0 <= ms.std_dev.raw <= FX_STD_LIMIT
}

pub open spec fn stats_in_range(st: SectorStatistics) -> bool {
    &&& metric_stats_in_range(st.price)
    &&& (st.pe matches Some(ms) ==> metric_stats_in_range(ms))
    &&& (st.pb matches Some(ms) ==> metric_stats_in_range(ms))
    &&& (st.volume_ratio matches Some(ms) ==> metric_stats_in_range(ms))
}

/// All values of `s` have magnitude at most `c`.
pub open spec fn all_within(s: Seq<int>, c: int) -> bool {
    forall|i: int| 0 <= i < s.len() ==> -c <= #[trigger] s[i] <= c
}

/// A sum of values bounded by `c` is bounded by `c` times the length.
pub proof fn lemma_sum_of_bound(s: Seq<int>, c: int)
    requires
        c >= 0,
        all_within(s, c),
    ensures
        -(s.len() * c) <= sum_of(s) <= s.len() * c,
    decreases s.len(),
{
    if s.len() > 0 {
        assert(all_within(s.drop_last(), c));
        lemma_sum_of_bound(s.drop_last(), c);
        assert(-c <= s.last() <= c);
        assert((s.len() - 1) * c + c == s.len() * c) by (nonlinear_arith);
    }
}

/// The mean of values bounded by `c` is bounded by `c`.
pub proof fn lemma_mean_of_bound(s: Seq<int>, c: int)
    requires
        c >= 0,
        all_within(s, c),
    ensures
        -c <= mean_of(s) <= c,
{
    if s.len() > 0 {
        lemma_sum_of_bound(s, c);
        assert(s.len() * c <= s.len() as int * c) by (nonlinear_arith);
        lemma_div_to_zero_bound(sum_of(s), s.len() as int, c);
    }
}

/// The sum of squared deviations is non-negative, and bounded by the
/// length times the square of the largest deviation.
pub proof fn lemma_sq_dev_sum_bounds(s: Seq<int>, m: int, d: int)
    requires
        d >= 0,
        forall|i: int| 0 <= i < s.len() ==> -d <= #[trigger] s[i] - m <= d,
    ensures
        0 <= sq_dev_sum(s, m) <= s.len() * (d * d),
    decreases s.len(),
{
    if s.len() > 0 {
        lemma_sq_dev_sum_bounds(s.drop_last(), m, d);
        let e = s.last() - m;
        assert(0 <= e * e <= d * d) by (nonlinear_arith)
            requires -d <= e <= d;
        assert((s.len() - 1) * (d * d) + d * d == s.len() * (d * d)) by (nonlinear_arith);
    }
}

/// The standard deviation of at most [`MAX_ROWS`] values within the input
/// range lies within [`FX_STD_LIMIT`].
pub proof fn lemma_std_of_bound(s: Seq<int>)
    requires
        s.len() <= MAX_ROWS,
        all_within(s, FX_INPUT_LIMIT as int),
    ensures
        0 <= std_of(s) <= FX_STD_LIMIT,
{
    if s.len() >= 2 {
        lemma_mean_of_bound(s, FX_INPUT_LIMIT as int);
        let m = mean_of(s);
        let d = 2 * FX_INPUT_LIMIT as int;
        assert(forall|i: int| 0 <= i < s.len() ==> -d <= #[trigger] s[i] - m <= d);
        lemma_sq_dev_sum_bounds(s, m, d);
        let ssd = sq_dev_sum(s, m);
        crate::fixed::lemma_div_to_zero_nonneg(ssd, s.len() - 1);
        let q = div_to_zero(ssd, s.len() - 1);
        assert(ssd <= 4_000_000_000_000_000_000_000_000_000_000) by (nonlinear_arith)
            requires
                ssd <= s.len() * (d * d),
                0 <= s.len() <= 1_000_000,
                d == 2_000_000_000_000,
        ;
        let r = sqrt_floor(q);
        crate::fixed::lemma_sqrt_floor_exists(q);
        assert(is_sqrt_floor(q, r));
        assert(r <= FX_STD_LIMIT) by (nonlinear_arith)
            requires
                is_sqrt_floor(q, r),
                0 <= q <= 4_000_000_000_000_000_000_000_000_000_000,
        ;
    }
}

/// Sample mean and sample standard deviation of a list of values.
///
/// Size zero gives `(0, 0)`; size one gives `(x, 0)`; otherwise the mean
/// and the Bessel-corrected standard deviation, both exact fixed-point
/// results as [`mean_of`] and [`std_of`] state them.
pub fn mean_std(values: &Vec<Fx>) -> (r: (Fx, Fx))
    requires
        values@.len() <= MAX_ROWS,
        forall|i: int| 0 <= i < values@.len() ==> fx_in_range(#[trigger] values@[i]),
    ensures
        r.0.raw == mean_of(fx_raws(values@)),
        r.1.raw == std_of(fx_raws(values@)),
        -FX_INPUT_LIMIT <= r.0.raw <= FX_INPUT_LIMIT,
        0 <= r.1.raw <= FX_STD_LIMIT,
{
    let ghost s = fx_raws(values@);
    proof {
        assert(forall|i: int| 0 <= i < s.len()
            ==> -FX_INPUT_LIMIT <= #[trigger] s[i] <= FX_INPUT_LIMIT);
        lemma_mean_of_bound(s, FX_INPUT_LIMIT as int);
        lemma_std_of_bound(s);
    }
    let n = values.len();
    if n == 0 {
        return (Fx { raw: 0 }, Fx { raw: 0 });
    }
    let mut sum: i128 = 0;
    let mut i: usize = 0;
    while i < n
        invariant
            n == values@.len() <= MAX_ROWS,
            0 <= i <= n,
            s == fx_raws(values@),
            forall|k: int| 0 <= k < s.len()
                ==> -FX_INPUT_LIMIT <= #[trigger] s[k] <= FX_INPUT_LIMIT,
            sum == sum_of(s.take(i as int)),
            -(i as int) * (FX_INPUT_LIMIT as int) <= sum
                <= (i as int) * (FX_INPUT_LIMIT as int),
        decreases n - i,
    {
        proof {
            assert(s.take(i + 1).drop_last() =~= s.take(i as int));
            assert(s.take(i + 1).last() == s[i as int]);
            assert((i as int) * (FX_INPUT_LIMIT as int) + FX_INPUT_LIMIT
                == (i + 1) * (FX_INPUT_LIMIT as int)) by (nonlinear_arith);
        }
        sum = sum + values[i].raw as i128;
        i = i + 1;
    }
    proof {
        assert(s.take(n as int) =~= s);
    }
    let mean128 = div_i128(sum, n as i128);
    proof {
        assert((n as int) * (FX_INPUT_LIMIT as int) >= sum >= -((n as int) * (FX_INPUT_LIMIT as int)));
        lemma_div_to_zero_bound(sum as int, n as int, FX_INPUT_LIMIT as int);
    }
    let mean = Fx { raw: mean128 as i64 };
    if n == 1 {
        return (mean, Fx { raw: 0 });
    }
    let ghost m = mean_of(s);
    let ghost dbound = 2 * FX_INPUT_LIMIT as int;
    let mut ssd: i128 = 0;
    let mut j: usize = 0;
    while j < n
        invariant
            n == values@.len() <= MAX_ROWS,
            0 <= j <= n,
            s == fx_raws(values@),
            forall|k: int| 0 <= k < s.len()
                ==> -FX_INPUT_LIMIT <= #[trigger] s[k] <= FX_INPUT_LIMIT,
            mean.raw == m,
            -FX_INPUT_LIMIT <= m <= FX_INPUT_LIMIT,
            dbound == 2 * FX_INPUT_LIMIT as int,
            ssd == sq_dev_sum(s.take(j as int), m),
            0 <= ssd <= (j as int) * (dbound * dbound),
        decreases n - j,
    {
        let d: i128 = values[j].raw as i128 - mean.raw as i128;
        proof {
            assert(s.take(j + 1).drop_last() =~= s.take(j as int));
            assert(s.take(j + 1).last() == s[j as int]);
            assert(0 <= d * d <= dbound * dbound) by (nonlinear_arith)
                requires -dbound <= d <= dbound;
            assert((j as int) * (dbound * dbound) + dbound * dbound
                == (j + 1) * (dbound * dbound)) by (nonlinear_arith);
            assert((j + 1) * (dbound * dbound)
                <= 4_000_000_000_000_000_000_000_000_000_000) by (nonlinear_arith)
                requires 0 <= j + 1 <= 1_000_000, dbound == 2_000_000_000_000;
        }
        ssd = ssd + d * d;
        j = j + 1;
    }
    proof {
        assert(s.take(n as int) =~= s);
        assert((n as int) * (dbound * dbound)
            <= 4_000_000_000_000_000_000_000_000_000_000) by (nonlinear_arith)
            requires 0 <= n as int <= 1_000_000, dbound == 2_000_000_000_000;
        crate::fixed::lemma_div_to_zero_nonneg(ssd as int, (n - 1) as int);
    }
    let variance = div_i128(ssd, (n - 1) as i128);
    let std128 = sqrt_i128(variance);
    proof {
        lemma_sqrt_floor_is(variance as int, std128 as int);
        assert(std128 <= FX_STD_LIMIT) by (nonlinear_arith)
            requires
                is_sqrt_floor(variance as int, std128 as int),
                0 <= variance <= 4_000_000_000_000_000_000_000_000_000_000,
        ;
    }
    (mean, Fx { raw: std128 as i64 })
}


/// A row's volume ratio, `volume / avg_volume_10d`, in fixed point.
pub fn volume_ratio(v: i64, av: i64) -> (r: Fx)
    requires
        0 <= v,
        0 < av,
        div_to_zero(v * FX_SCALE, av as int) <= FX_INPUT_LIMIT,
    ensures
        r.raw == div_to_zero(v * FX_SCALE, av as int),
        fx_in_range(r),
{
    let num: i128 = (v as i128) * (FX_SCALE as i128);
    let q = div_i128(num, av as i128);
    proof {
        crate::fixed::lemma_div_to_zero_nonneg(num as int, av as int);
    }
    Fx { raw: q as i64 }
}

/// Sector statistics of a batch of rows, per [`spec_sector_stats`]:
/// price-change statistics over all rows; P/E, P/B and volume-ratio
/// statistics only where at least two rows contribute a value.
pub fn calculate_stats(rows: &Vec<MetricRow>) -> (st: SectorStatistics)
    requires
        rows@.len() <= MAX_ROWS,
        forall|i: int| 0 <= i < rows@.len() ==> row_in_range(#[trigger] rows@[i]),
    ensures
        st == spec_sector_stats(rows@),
        stats_in_range(st),
{
    let n = rows.len();
    let mut prices: Vec<Fx> = Vec::new();
    let mut pes: Vec<Fx> = Vec::new();
    let mut pbs: Vec<Fx> = Vec::new();
    let mut ratios: Vec<Fx> = Vec::new();
    let mut i: usize = 0;
    while i < n
        invariant
            n == rows@.len() <= MAX_ROWS,
            0 <= i <= n,
            forall|k: int| 0 <= k < rows@.len() ==> row_in_range(#[trigger] rows@[k]),
            fx_raws(prices@) == price_raws(rows@.take(i as int)),
            fx_raws(pes@) == pe_values(rows@.take(i as int)),
            fx_raws(pbs@) == pb_values(rows@.take(i as int)),
            fx_raws(ratios@) == volume_ratio_values(rows@.take(i as int)),
            prices@.len() <= i,
            pes@.len() <= i,
            pbs@.len() <= i,
            ratios@.len() <= i,
            forall|k: int| 0 <= k < prices@.len() ==> fx_in_range(#[trigger] prices@[k]),
            forall|k: int| 0 <= k < pes@.len() ==> fx_in_range(#[trigger] pes@[k]),
            forall|k: int| 0 <= k < pbs@.len() ==> fx_in_range(#[trigger] pbs@[k]),
            forall|k: int| 0 <= k < ratios@.len() ==> fx_in_range(#[trigger] ratios@[k]),
        decreases n - i,
    {
        let row = &rows[i];
        proof {
            assert(rows@.take(i + 1).drop_last() =~= rows@.take(i as int));
            assert(rows@.take(i + 1).last() == rows@[i as int]);
        }
        let ghost old_prices = prices@;
        prices.push(row.price_change_percent);
        proof {
            assert(fx_raws(prices@) =~= fx_raws(old_prices).push(
                row.price_change_percent.raw as int));
        }
        if let Some(pe) = row.pe_ratio {
            let ghost old_pes = pes@;
            pes.push(pe);
            proof {
                assert(fx_raws(pes@) =~= fx_raws(old_pes).push(pe.raw as int));
                assert(fx_raws(old_pes).push(pe.raw as int)
                    =~= fx_raws(old_pes) + seq![pe.raw as int]);
            }
        }
        if let Some(pb) = row.pb_ratio {
            let ghost old_pbs = pbs@;
            pbs.push(pb);
            proof {
                assert(fx_raws(pbs@) =~= fx_raws(old_pbs).push(pb.raw as int));
                assert(fx_raws(old_pbs).push(pb.raw as int)
                    =~= fx_raws(old_pbs) + seq![pb.raw as int]);
            }
        }
        match (row.volume, row.avg_volume_10d) {
            (Some(v), Some(av)) => {
                if av > 0 {
                    let q = volume_ratio(v, av);
                    let ghost old_ratios = ratios@;
                    ratios.push(q);
                    proof {
                        assert(fx_raws(ratios@) =~= fx_raws(old_ratios).push(q.raw as int));
                        assert(fx_raws(old_ratios).push(q.raw as int)
                            =~= fx_raws(old_ratios) + seq![q.raw as int]);
                    }
                }
            },
            _ => {},
        }
        i = i + 1;
    }
    proof {
        assert(rows@.take(n as int) =~= rows@);
    }
    let (price_mean, price_std) = mean_std(&prices);
    let price = MetricStats { mean: price_mean, std_dev: price_std };
    let pe = if pes.len() >= 2 {
        let (m, s) = mean_std(&pes);
        Some(MetricStats { mean: m, std_dev: s })
    } else {
        None
    };
    let pb = if pbs.len() >= 2 {
        let (m, s) = mean_std(&pbs);
        Some(MetricStats { mean: m, std_dev: s })
    } else {
        None
    };
    let vr = if ratios.len() >= 2 {
        let (m, s) = mean_std(&ratios);
        Some(MetricStats { mean: m, std_dev: s })
    } else {
        None
    };
    SectorStatistics { price, pe, pb, volume_ratio: vr }
}


/// Whether the engine accepts this row: every present value within the
/// fixed-point range, per [`row_in_range`].
pub fn row_accepted(r: &MetricRow) -> (b: bool)
    ensures
        b == row_in_range(*r),
{
    if !(-FX_INPUT_LIMIT <= r.price_change_percent.raw && r.price_change_percent.raw
        <= FX_INPUT_LIMIT) {
        return false;
    }
    if let Some(f) = r.pe_ratio {
        if !(-FX_INPUT_LIMIT <= f.raw && f.raw <= FX_INPUT_LIMIT) {
            return false;
        }
    }
    if let Some(f) = r.pb_ratio {
        if !(-FX_INPUT_LIMIT <= f.raw && f.raw <= FX_INPUT_LIMIT) {
            return false;
        }
    }
    if let Some(v) = r.volume {
        if v < 0 {
            return false;
        }
    }
    if let Some(av) = r.avg_volume_10d {
        if av < 0 {
            return false;
        }
    }
    match (r.volume, r.avg_volume_10d) {
        (Some(v), Some(av)) => {
            if av > 0 {
                let num: i128 = (v as i128) * (FX_SCALE as i128);
                let q = div_i128(num, av as i128);
                q <= FX_INPUT_LIMIT as i128
            } else {
                true
            }
        },
        _ => true,
    }
}

/// Whether the engine accepts this batch: within the row-count limit and
/// every row within range.
pub fn rows_accepted(rows: &Vec<MetricRow>) -> (b: bool)
    ensures
        b == (rows@.len() <= MAX_ROWS && crate::detect::rows_in_range(rows@)),
{
    if rows.len() > MAX_ROWS {
        return false;
    }
    let n = rows.len();
    let mut i: usize = 0;
    while i < n
        invariant
            n == rows@.len(),
            0 <= i <= n,
            forall|k: int| 0 <= k < i ==> row_in_range(#[trigger] rows@[k]),
        decreases n - i,
    {
        if !row_accepted(&rows[i]) {
            return false;
        }
        i = i + 1;
    }
    true
}

} // verus!
