//! Outlier-type classification and significance tiering.
//!
//! The classifier is a priority-ordered rule chain evaluated per stock:
//! the first rule whose comparisons all hold names the outlier type.
//! Thresholds are strict, and a missing z-score never satisfies a
//! comparison, so rows with absent metrics fall through to later rules or
//! to `Mixed`. The significance tier buckets the composite score.

use vstd::prelude::*;

use crate::fixed::Fx;
use crate::fixed::FX_SCALE;
use crate::score::ZScores;

verus! {

/// Why a stock is anomalous: the label of the first matching rule.
#[derive(Clone, Copy, Debug, PartialEq, Eq, Structural)]
pub enum OutlierType {
    Undervalued,
    Overvalued,
    Momentum,
    ValueTrap,
    GrowthPremium,
    Mixed,
}

/// Coarse severity bucket of the composite score.
#[derive(Clone, Copy, Debug, PartialEq, Eq, Structural)]
pub enum SignificanceLevel {
    Moderate,
    Strong,
    Extreme,
}

/// The P/E z-score is defined and strictly below -1.
pub open spec fn pe_low(z: ZScores) -> bool {
    z.pe_z matches Some(f) && f.raw < -FX_SCALE
}

/// The P/E z-score is defined and strictly above 1.
pub open spec fn pe_high(z: ZScores) -> bool {
    z.pe_z matches Some(f) && f.raw > FX_SCALE
}

/// The P/B z-score is defined and strictly below -1.
pub open spec fn pb_low(z: ZScores) -> bool {
    z.pb_z matches Some(f) && f.raw < -FX_SCALE
}

/// The P/B z-score is defined and strictly above 1.
pub open spec fn pb_high(z: ZScores) -> bool {
    z.pb_z matches Some(f) && f.raw > FX_SCALE
}

/// The price z-score is strictly above 1.
pub open spec fn price_high(z: ZScores) -> bool {
    z.price_z.raw > FX_SCALE
}

/// The price z-score is strictly below -1.
pub open spec fn price_low(z: ZScores) -> bool {
    z.price_z.raw < -FX_SCALE
}

/// The volume z-score is defined and strictly above 1.
pub open spec fn vol_high(z: ZScores) -> bool {
    z.volume_z matches Some(f) && f.raw > FX_SCALE
}

/// The ordered rule chain: the first matching rule labels the stock.
pub open spec fn spec_classify(z: ZScores) -> OutlierType {
    if pe_low(z) && pb_low(z) {
        OutlierType::Undervalued
    } else if pe_high(z) && pb_high(z) {
        OutlierType::Overvalued
    } else if price_high(z) && vol_high(z) {
        OutlierType::Momentum
    } else if pe_low(z) && price_low(z) {
        OutlierType::ValueTrap
    } else if pe_high(z) && price_high(z) {
        OutlierType::GrowthPremium
    } else {
        OutlierType::Mixed
    }
}

/// Classify the type of outlier from the z-score directions, per
/// [`spec_classify`]: the first rule of the ordered chain that holds.
pub fn classify_outlier(z: &ZScores) -> (t: OutlierType)
    ensures
        t == spec_classify(*z),
{
    let is_pe_low = match z.pe_z {
        Some(f) => f.raw < -FX_SCALE,
        None => false,
    };
    let is_pe_high = match z.pe_z {
        Some(f) => f.raw > FX_SCALE,
        None => false,
    };
    let is_pb_low = match z.pb_z {
        Some(f) => f.raw < -FX_SCALE,
        None => false,
    };
    let is_pb_high = match z.pb_z {
        Some(f) => f.raw > FX_SCALE,
        None => false,
    };
    let is_price_high = z.price_z.raw > FX_SCALE;
    let is_price_low = z.price_z.raw < -FX_SCALE;
    let is_vol_high = match z.volume_z {
        Some(f) => f.raw > FX_SCALE,
        None => false,
    };

    if is_pe_low && is_pb_low {
        OutlierType::Undervalued
    } else if is_pe_high && is_pb_high {
        OutlierType::Overvalued
    } else if is_price_high && is_vol_high {
        OutlierType::Momentum
    } else if is_pe_low && is_price_low {
        OutlierType::ValueTrap
    } else if is_pe_high && is_price_high {
        OutlierType::GrowthPremium
    } else {
        OutlierType::Mixed
    }
}

/// The significance tier of a composite score: below 2.0 `Moderate`,
/// from 2.0 up to but excluding 3.0 `Strong`, from 3.0 on `Extreme`.
pub open spec fn spec_significance(score: Fx) -> SignificanceLevel {
    if score.raw >= 3 * FX_SCALE {
        SignificanceLevel::Extreme
    } else if score.raw >= 2 * FX_SCALE {
        SignificanceLevel::Strong
    } else {
        SignificanceLevel::Moderate
    }
}

/// Classify the significance level of a composite score, per
/// [`spec_significance`].
pub fn classify_significance(score: Fx) -> (l: SignificanceLevel)
    ensures
        l == spec_significance(score),
{
    if score.raw >= 3_000_000 {
        SignificanceLevel::Extreme
    } else if score.raw >= 2_000_000 {
        SignificanceLevel::Strong
    } else {
        SignificanceLevel::Moderate
    }
}

/// No rule of the classifier fires through an absent z-score: every label
/// that needs an optional metric is produced only when that metric's
/// z-score is defined, and a row whose P/E and volume z-scores are both
/// absent can only classify as `Mixed`.
pub proof fn lemma_classify_requires_present_scores(z: ZScores)
    ensures
        spec_classify(z) == OutlierType::Undervalued ==> z.pe_z is Some && z.pb_z is Some,
        spec_classify(z) == OutlierType::Overvalued ==> z.pe_z is Some && z.pb_z is Some,
        spec_classify(z) == OutlierType::Momentum ==> z.volume_z is Some,
        spec_classify(z) == OutlierType::ValueTrap ==> z.pe_z is Some,
        spec_classify(z) == OutlierType::GrowthPremium ==> z.pe_z is Some,
        z.pe_z is None && z.volume_z is None ==> spec_classify(z) == OutlierType::Mixed,
{
}

/// The tier boundaries are closed on the lower edge of each tier: the
/// `Strong` tier is exactly the scores in [2.0, 3.0), so a score of 2.0 is
/// `Strong` and a score of 3.0 is `Extreme`, never the lower tier.
pub proof fn lemma_significance_tiers(score: Fx)
    ensures
        spec_significance(score) == SignificanceLevel::Strong
            <==> 2 * FX_SCALE <= score.raw < 3 * FX_SCALE,
        spec_significance(score) == SignificanceLevel::Extreme <==> score.raw >= 3 * FX_SCALE,
        spec_significance(score) == SignificanceLevel::Moderate <==> score.raw < 2 * FX_SCALE,
{
}

impl OutlierType {
    /// The display name of this outlier type.
    pub fn label(&self) -> (r: &'static str)
        ensures
            r@ == spec_outlier_label(*self),
    {
        match self {
            OutlierType::Undervalued => "Undervalued",
            OutlierType::Overvalued => "Overvalued",
            OutlierType::Momentum => "Momentum",
            OutlierType::ValueTrap => "ValueTrap",
            OutlierType::GrowthPremium => "GrowthPremium",
            OutlierType::Mixed => "Mixed",
        }
    }
}

/// The display name of an outlier type.
pub open spec fn spec_outlier_label(t: OutlierType) -> Seq<char> {
    match t {
        OutlierType::Undervalued => "Undervalued"@,
        OutlierType::Overvalued => "Overvalued"@,
        OutlierType::Momentum => "Momentum"@,
        OutlierType::ValueTrap => "ValueTrap"@,
        OutlierType::GrowthPremium => "GrowthPremium"@,
        OutlierType::Mixed => "Mixed"@,
    }
}

impl SignificanceLevel {
    /// The display name of this significance level.
    pub fn label(&self) -> (r: &'static str)
        ensures
            r@ == spec_significance_label(*self),
    {
        match self {
            SignificanceLevel::Moderate => "Moderate",
            SignificanceLevel::Strong => "Strong",
            SignificanceLevel::Extreme => "Extreme",
        }
    }
}

/// The display name of a significance level.
pub open spec fn spec_significance_label(l: SignificanceLevel) -> Seq<char> {
    match l {
        SignificanceLevel::Moderate => "Moderate"@,
        SignificanceLevel::Strong => "Strong"@,
        SignificanceLevel::Extreme => "Extreme"@,
    }
}

} // verus!
