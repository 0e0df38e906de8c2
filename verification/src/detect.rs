//! The detection pipeline: rows in, sorted flagged outliers out.
//!
//! Per sector the pipeline rejects batches of fewer than three rows,
//! computes sector statistics, scores every row, keeps the rows whose
//! composite score reaches the threshold, and returns them sorted by
//! composite score descending (ties keep row order). The whole result is
//! a function of the input rows and the threshold alone.

use vstd::prelude::*;

use crate::classify::OutlierType;
use crate::classify::SignificanceLevel;
use crate::classify::classify_outlier;
use crate::classify::classify_significance;
use crate::classify::spec_classify;
use crate::classify::spec_significance;
use crate::fixed::Fx;
use crate::fixed::FX_Z_LIMIT;
use crate::fixed::MAX_ROWS;
use crate::score::calculate_composite_score;
use crate::score::calculate_z_scores;
use crate::score::composite_of;
use crate::score::spec_z_scores;
use crate::score::ZScores;
use crate::stats::MetricRow;
use crate::stats::SectorStatistics;
use crate::stats::calculate_stats;
use crate::stats::row_in_range;
use crate::stats::spec_sector_stats;
use crate::types::Sector;
use vstd::multiset::Multiset;
use vstd::seq_lib::lemma_multiset_commutative;

verus! {

/// One flagged stock: its z-scores, its composite score rounded to two
/// decimal places, and its classification.
#[derive(Clone, Debug, PartialEq)]
pub struct OutlierStock {
    pub stock_id: i32,
    pub symbol: String,
    pub name: String,
    pub z_scores: ZScores,
    pub composite_score: Fx,
    pub outlier_type: OutlierType,
    pub significance_level: SignificanceLevel,
}

/// One sector's detection summary.
#[derive(Clone, Debug)]
pub struct SectorOutliers {
    pub sector_id: i32,
    pub sector_name: String,
    pub sector_symbol: String,
    pub outlier_count: usize,
    pub outliers: Vec<OutlierStock>,
}

/// A sector together with its metric rows, the input of a whole-universe
/// detection call.
#[derive(Clone, Debug)]
pub struct SectorRows {
    pub sector: Sector,
    pub rows: Vec<MetricRow>,
}

/// A non-negative raw score rounded to the nearest hundredth of a unit,
/// halves rounding up.
pub open spec fn round_to_cents(raw: int) -> int
    recommends
        raw >= 0,
{
    ((raw + 5_000) / 10_000) * 10_000
}

/// Round a composite score to two decimal places for presentation.
fn round_score(score: Fx) -> (r: Fx)
    requires
        0 <= score.raw <= FX_Z_LIMIT,
    ensures
        r.raw == round_to_cents(score.raw as int),
        0 <= r.raw <= FX_Z_LIMIT + 5_000,
{
    let q: u64 = ((score.raw as u64) + 5_000) / 10_000;
    Fx { raw: (q * 10_000) as i64 }
}

/// What the pipeline makes of one row: `None` where the composite score
/// stays below the threshold, else the flagged stock with its rounded
/// score and its labels. The threshold test and the significance tier use
/// the unrounded score; only the stored score is rounded.
pub open spec fn spec_outlier_for(row: MetricRow, st: SectorStatistics, threshold: Fx) -> Option<
    OutlierStock,
> {
    let z = spec_z_scores(row, st);
    let c = composite_of(z);
    if c >= threshold.raw {
        Some(
            OutlierStock {
                stock_id: row.stock_id,
                symbol: row.symbol,
                name: row.name,
                z_scores: z,
                composite_score: Fx { raw: round_to_cents(c) as i64 },
                outlier_type: spec_classify(z),
                significance_level: spec_significance(Fx { raw: c as i64 }),
            },
        )
    } else {
        None
    }
}

/// The flagged stocks of a batch, in row order.
pub open spec fn spec_flagged(rows: Seq<MetricRow>, st: SectorStatistics, threshold: Fx) -> Seq<
    OutlierStock,
>
    decreases rows.len(),
{
    if rows.len() == 0 {
        Seq::empty()
    } else {
        spec_flagged(rows.drop_last(), st, threshold) + match spec_outlier_for(
            rows.last(),
            st,
            threshold,
        ) {
            Some(o) => seq![o],
            None => Seq::empty(),
        }
    }
}

/// Insert `x` into a list sorted by composite score descending, after
/// every element with an equal or higher score: a stable insertion.
pub open spec fn insert_desc(s: Seq<OutlierStock>, x: OutlierStock) -> Seq<OutlierStock>
    decreases s.len(),
{
    if s.len() == 0 {
        seq![x]
    } else if s[0].composite_score.raw >= x.composite_score.raw {
        seq![s[0]] + insert_desc(s.drop_first(), x)
    } else {
        seq![x] + s
    }
}

/// Stable insertion sort by composite score descending.
pub open spec fn sort_desc(s: Seq<OutlierStock>) -> Seq<OutlierStock>
    decreases s.len(),
{
    if s.len() == 0 {
        Seq::empty()
    } else {
        insert_desc(sort_desc(s.drop_last()), s.last())
    }
}

/// Sorted by composite score descending.
pub open spec fn sorted_desc(s: Seq<OutlierStock>) -> bool {
    forall|i: int, j: int|
        0 <= i < j < s.len() ==> s[i].composite_score.raw >= s[j].composite_score.raw
}

/// Every element of a stable insertion is the inserted one or one of the
/// list's own.
proof fn lemma_insert_desc_elems(s: Seq<OutlierStock>, x: OutlierStock)
    ensures
        insert_desc(s, x).len() == s.len() + 1,
        forall|i: int|
            0 <= i < insert_desc(s, x).len() ==> (insert_desc(s, x)[i] == x || s.contains(
                #[trigger] insert_desc(s, x)[i],
            )),
    decreases s.len(),
{
    if s.len() == 0 {
    } else if s[0].composite_score.raw >= x.composite_score.raw {
        lemma_insert_desc_elems(s.drop_first(), x);
        let r = insert_desc(s, x);
        assert forall|i: int| 0 <= i < r.len() implies (r[i] == x || s.contains(#[trigger] r[i])) by {
            if i == 0 {
                assert(s.contains(s[0]));
            } else {
                let ri = insert_desc(s.drop_first(), x);
                assert(r[i] == ri[i - 1]);
                if ri[i - 1] != x {
                    let k = choose|k: int| 0 <= k < s.drop_first().len() && s.drop_first()[k]
                        == ri[i - 1];
                    assert(s[k + 1] == ri[i - 1]);
                }
            }
        }
    } else {
        assert forall|i: int| 0 <= i < insert_desc(s, x).len() implies (insert_desc(s, x)[i] == x
            || s.contains(#[trigger] insert_desc(s, x)[i])) by {
            if i > 0 {
                assert(insert_desc(s, x)[i] == s[i - 1]);
                assert(s.contains(s[i - 1]));
            }
        }
    }
}

/// Stable insertion into a sorted list keeps it sorted.
pub proof fn lemma_insert_desc_sorted(s: Seq<OutlierStock>, x: OutlierStock)
    requires
        sorted_desc(s),
    ensures
        sorted_desc(insert_desc(s, x)),
        insert_desc(s, x).len() == s.len() + 1,
    decreases s.len(),
{
    lemma_insert_desc_elems(s, x);
    if s.len() == 0 {
    } else if s[0].composite_score.raw >= x.composite_score.raw {
        let t = s.drop_first();
        assert(sorted_desc(t)) by {
            assert(forall|i: int, j: int|
                0 <= i < j < t.len() ==> t[i] == s[i + 1] && t[j] == s[j + 1]);
        }
        lemma_insert_desc_sorted(t, x);
        lemma_insert_desc_elems(t, x);
        let r = insert_desc(s, x);
        let ri = insert_desc(t, x);
        assert forall|i: int, j: int| 0 <= i < j < r.len() implies r[i].composite_score.raw
            >= r[j].composite_score.raw by {
            if i == 0 {
                assert(r[j] == ri[j - 1]);
                if ri[j - 1] != x {
                    let k = choose|k: int| 0 <= k < t.len() && t[k] == ri[j - 1];
                    assert(t[k] == s[k + 1]);
                }
            } else {
                assert(r[i] == ri[i - 1] && r[j] == ri[j - 1]);
            }
        }
    } else {
        let r = insert_desc(s, x);
        assert forall|i: int, j: int| 0 <= i < j < r.len() implies r[i].composite_score.raw
            >= r[j].composite_score.raw by {
            if i == 0 {
                assert(r[j] == s[j - 1]);
                if j == 1 {
                } else {
                    assert(s[0].composite_score.raw >= s[j - 1].composite_score.raw);
                }
            } else {
                assert(r[i] == s[i - 1] && r[j] == s[j - 1]);
            }
        }
    }
}

/// Sorting yields a sorted list of the same length.
pub proof fn lemma_sort_desc_sorted(s: Seq<OutlierStock>)
    ensures
        sorted_desc(sort_desc(s)),
        sort_desc(s).len() == s.len(),
    decreases s.len(),
{
    if s.len() > 0 {
        lemma_sort_desc_sorted(s.drop_last());
        lemma_insert_desc_sorted(sort_desc(s.drop_last()), s.last());
    }
}

/// Stable insertion adds exactly the inserted element to the contents.
pub proof fn lemma_insert_desc_multiset(s: Seq<OutlierStock>, x: OutlierStock)
    ensures
        insert_desc(s, x).to_multiset() =~= s.to_multiset().insert(x),
    decreases s.len(),
{
    broadcast use vstd::seq_lib::group_to_multiset_ensures;

    if s.len() == 0 {
        assert(seq![x] =~= Seq::<OutlierStock>::empty().push(x));
        assert(s.to_multiset() =~= Multiset::<OutlierStock>::empty());
    } else if s[0].composite_score.raw >= x.composite_score.raw {
        let t = s.drop_first();
        lemma_insert_desc_multiset(t, x);
        lemma_multiset_commutative(seq![s[0]], insert_desc(t, x));
        lemma_multiset_commutative(seq![s[0]], t);
        assert(s =~= seq![s[0]] + t);
        assert(seq![s[0]] =~= Seq::<OutlierStock>::empty().push(s[0]));
        assert(insert_desc(s, x).to_multiset() =~= s.to_multiset().insert(x));
    } else {
        lemma_multiset_commutative(seq![x], s);
        assert(seq![x] =~= Seq::<OutlierStock>::empty().push(x));
        assert(insert_desc(s, x).to_multiset() =~= s.to_multiset().insert(x));
    }
}

/// Sorting keeps exactly the flagged stocks: the sorted list is a
/// permutation of its input.
pub proof fn lemma_sort_desc_multiset(s: Seq<OutlierStock>)
    ensures
        sort_desc(s).to_multiset() =~= s.to_multiset(),
    decreases s.len(),
{
    broadcast use vstd::seq_lib::group_to_multiset_ensures;

    if s.len() > 0 {
        lemma_sort_desc_multiset(s.drop_last());
        lemma_insert_desc_multiset(sort_desc(s.drop_last()), s.last());
        assert(s =~= s.drop_last().push(s.last()));
    }
}

/// A stable insertion at the scan point: before it every score is at
/// least the new one, at it the first lower score.
proof fn lemma_insert_desc_split(s: Seq<OutlierStock>, x: OutlierStock, j: int)
    requires
        0 <= j <= s.len(),
        forall|k: int|
            0 <= k < j ==> (#[trigger] s[k]).composite_score.raw >= x.composite_score.raw,
        j < s.len() ==> s[j].composite_score.raw < x.composite_score.raw,
    ensures
        insert_desc(s, x) == s.take(j) + seq![x] + s.skip(j),
    decreases s.len(),
{
    if j == 0 {
        assert(insert_desc(s, x) =~= s.take(0) + seq![x] + s.skip(0));
    } else {
        let t = s.drop_first();
        assert(forall|k: int| 0 <= k < j - 1 ==> (#[trigger] t[k]) == s[k + 1]);
        lemma_insert_desc_split(t, x, j - 1);
        assert(insert_desc(s, x) == seq![s[0]] + insert_desc(t, x));
        assert(seq![s[0]] + (t.take(j - 1) + seq![x] + t.skip(j - 1)) =~= s.take(j) + seq![x]
            + s.skip(j));
    }
}

/// Insert one flagged stock into the sorted result list, after every
/// stock with an equal or higher composite score.
fn insert_outlier_desc(out: &mut Vec<OutlierStock>, o: OutlierStock)
    ensures
        final(out)@ == insert_desc(old(out)@, o),
{
    let mut j: usize = 0;
    while j < out.len() && out[j].composite_score.raw >= o.composite_score.raw
        invariant
            0 <= j <= out@.len(),
            forall|k: int|
                0 <= k < j ==> (#[trigger] out@[k]).composite_score.raw
                    >= o.composite_score.raw,
        decreases out@.len() - j,
    {
        j = j + 1;
    }
    proof {
        lemma_insert_desc_split(out@, o, j as int);
    }
    out.insert(j, o);
    proof {
        assert(old(out)@.insert(j as int, o) =~= old(out)@.take(j as int) + seq![o] + old(
            out,
        )@.skip(j as int));
    }
}

/// All rows of a batch are within the engine's input range.
pub open spec fn rows_in_range(rows: Seq<MetricRow>) -> bool {
    forall|i: int| 0 <= i < rows.len() ==> row_in_range(#[trigger] rows[i])
}

/// What a detection call returns: nothing for fewer than three rows, else
/// the flagged stocks sorted by composite score descending, ties keeping
/// row order.
pub open spec fn spec_detect_sector(rows: Seq<MetricRow>, threshold: Fx) -> Seq<OutlierStock> {
    if rows.len() < 3 {
        Seq::empty()
    } else {
        sort_desc(spec_flagged(rows, spec_sector_stats(rows), threshold))
    }
}

/// Detect outliers within a single sector.
///
/// Fewer than three rows give an empty list (too small a sample for
/// meaningful statistics). Otherwise every row whose composite score
/// reaches the threshold is returned with its z-scores, rounded score and
/// classification, sorted by composite score descending. The result is
/// exactly [`spec_detect_sector`] of the inputs: a pure function of the
/// row list and the threshold.
pub fn detect_sector_outliers(rows: &Vec<MetricRow>, threshold: Fx) -> (r: Vec<OutlierStock>)
    requires
        rows@.len() <= MAX_ROWS,
        rows_in_range(rows@),
    ensures
        r@ == spec_detect_sector(rows@, threshold),
        rows@.len() < 3 ==> r@.len() == 0,
        sorted_desc(r@),
        rows@.len() >= 3 ==> r@.to_multiset() == spec_flagged(
            rows@,
            spec_sector_stats(rows@),
            threshold,
        ).to_multiset(),
{
    let n = rows.len();
    if n < 3 {
        return Vec::new();
    }
    let stats = calculate_stats(rows);
    let mut out: Vec<OutlierStock> = Vec::new();
    let mut i: usize = 0;
    while i < n
        invariant
            n == rows@.len() <= MAX_ROWS,
            0 <= i <= n,
            rows_in_range(rows@),
            stats == spec_sector_stats(rows@),
            crate::stats::stats_in_range(stats),
            out@ == sort_desc(spec_flagged(rows@.take(i as int), stats, threshold)),
        decreases n - i,
    {
        let ghost prefix = spec_flagged(rows@.take(i as int), stats, threshold);
        let row = &rows[i];
        proof {
            assert(rows@.take(i + 1).drop_last() =~= rows@.take(i as int));
            assert(rows@.take(i + 1).last() == rows@[i as int]);
        }
        let z = calculate_z_scores(row, &stats);
        let composite = calculate_composite_score(&z);
        if composite.raw >= threshold.raw {
            let outlier_type = classify_outlier(&z);
            let significance = classify_significance(composite);
            let rounded = round_score(composite);
            let o = OutlierStock {
                stock_id: row.stock_id,
                symbol: row.symbol.clone(),
                name: row.name.clone(),
                z_scores: z,
                composite_score: rounded,
                outlier_type,
                significance_level: significance,
            };
            proof {
                assert(o == spec_outlier_for(rows@[i as int], stats, threshold)->Some_0);
                assert(spec_flagged(rows@.take(i + 1), stats, threshold) =~= prefix.push(o));
                assert(prefix.push(o) =~= prefix + seq![o]);
            }
            insert_outlier_desc(&mut out, o);
            proof {
                assert(spec_flagged(rows@.take(i + 1), stats, threshold).drop_last() =~= prefix);
            }
        } else {
            proof {
                assert(spec_flagged(rows@.take(i + 1), stats, threshold) =~= prefix);
            }
        }
        i = i + 1;
    }
    proof {
        assert(rows@.take(n as int) =~= rows@);
        lemma_sort_desc_sorted(spec_flagged(rows@, stats, threshold));
        lemma_sort_desc_multiset(spec_flagged(rows@, stats, threshold));
    }
    out
}

/// The pipeline is a pure function of its inputs: two detections over
/// identical rows and an identical threshold return identical lists, as
/// the `ensures` of [`detect_sector_outliers`] pins each result to
/// [`spec_detect_sector`] of the inputs alone.
pub proof fn lemma_detection_deterministic(
    rows: Seq<MetricRow>,
    threshold: Fx,
    a: Seq<OutlierStock>,
    b: Seq<OutlierStock>,
)
    requires
        a == spec_detect_sector(rows, threshold),
        b == spec_detect_sector(rows, threshold),
    ensures
        a == b,
{
}

/// All batches are within the engine's input range.
pub open spec fn batches_in_range(batches: Seq<SectorRows>) -> bool {
    forall|i: int|
        0 <= i < batches.len() ==> (#[trigger] batches[i]).rows@.len() <= MAX_ROWS
            && rows_in_range(batches[i].rows@)
}

/// Detect outliers across all sectors, one summary per batch, in the
/// caller-supplied sector order.
pub fn detect_all_outliers(sector_rows: &Vec<SectorRows>, threshold: Fx) -> (r: Vec<
    SectorOutliers,
>)
    requires
        batches_in_range(sector_rows@),
    ensures
        r@.len() == sector_rows@.len(),
        forall|i: int|
            0 <= i < r@.len() ==> {
                &&& (#[trigger] r@[i]).sector_id == sector_rows@[i].sector.id
                &&& r@[i].sector_name == sector_rows@[i].sector.name
                &&& r@[i].sector_symbol == sector_rows@[i].sector.symbol
                &&& r@[i].outliers@ == spec_detect_sector(sector_rows@[i].rows@, threshold)
                &&& r@[i].outlier_count == r@[i].outliers@.len()
            },
{
    let mut results: Vec<SectorOutliers> = Vec::new();
    let n = sector_rows.len();
    let mut i: usize = 0;
    while i < n
        invariant
            n == sector_rows@.len(),
            0 <= i <= n,
            batches_in_range(sector_rows@),
            results@.len() == i,
            forall|k: int|
                0 <= k < i ==> {
                    &&& (#[trigger] results@[k]).sector_id == sector_rows@[k].sector.id
                    &&& results@[k].sector_name == sector_rows@[k].sector.name
                    &&& results@[k].sector_symbol == sector_rows@[k].sector.symbol
                    &&& results@[k].outliers@ == spec_detect_sector(
                        sector_rows@[k].rows@,
                        threshold,
                    )
                    &&& results@[k].outlier_count == results@[k].outliers@.len()
                },
        decreases n - i,
    {
        let batch = &sector_rows[i];
        let outliers = detect_sector_outliers(&batch.rows, threshold);
        let count = outliers.len();
        results.push(
            SectorOutliers {
                sector_id: batch.sector.id,
                sector_name: batch.sector.name.clone(),
                sector_symbol: batch.sector.symbol.clone(),
                outlier_count: count,
                outliers,
            },
        );
        i = i + 1;
    }
    results
}

} // verus!
