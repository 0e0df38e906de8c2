//! Market-data request URLs and quote arithmetic.
//!
//! The quote provider's chart endpoint gives the latest price, the
//! previous close and the day's volume; the fundamentals endpoint gives
//! the valuation ratios. This module builds those request URLs exactly
//! and computes the price change figures from the fetched values.

use vstd::prelude::*;
use vstd::string::StringExecFns;

use crate::fixed::Fx;
use crate::fixed::FX_SCALE;
use crate::fixed::div_i128;
use crate::fixed::div_to_zero;
use crate::fixed::fx_in_range;

verus! {

/// The chart API URL for a symbol: the chart endpoint, the symbol, and
/// the one-day range and interval parameters.
pub fn build_chart_url(symbol: &str) -> (url: String)
    ensures
        url@ == "https://query1.finance.yahoo.com/v8/finance/chart/"@ + symbol@
            + "?range=1d&interval=1d"@,
{
    let mut url = String::from_str("https://query1.finance.yahoo.com/v8/finance/chart/");
    url.append(symbol);
    url.append("?range=1d&interval=1d");
    url
}

/// The fundamentals API URL for a symbol and session crumb: the
/// quote-summary endpoint, the symbol, the three modules, and the crumb.
pub fn build_fundamentals_url(symbol: &str, crumb: &str) -> (url: String)
    ensures
        url@ == "https://query2.finance.yahoo.com/v10/finance/quoteSummary/"@ + symbol@
            + "?modules=defaultKeyStatistics,summaryDetail,price&crumb="@ + crumb@,
{
    let mut url = String::from_str("https://query2.finance.yahoo.com/v10/finance/quoteSummary/");
    url.append(symbol);
    url.append("?modules=defaultKeyStatistics,summaryDetail,price&crumb=");
    url.append(crumb);
    url
}

/// The raw percent change from `prev` to `prev + change`: zero when the
/// previous close is zero, else `change / prev` times one hundred.
pub open spec fn percent_change_raw(change: int, prev: int) -> int {
    if prev > 0 {
        div_to_zero(change * 100 * FX_SCALE, prev)
    } else {
        0
    }
}

/// Price change and percent change from the current price and the
/// previous close. A zero previous close gives a zero percent change
/// rather than a division blow-up.
pub fn calculate_price_change(price: Fx, prev_close: Fx) -> (r: (Fx, Fx))
    requires
        fx_in_range(price),
        fx_in_range(prev_close),
        prev_close.raw >= 0,
        -(i64::MAX as int) <= percent_change_raw(
            price.raw - prev_close.raw,
            prev_close.raw as int,
        ) <= i64::MAX as int,
    ensures
        r.0.raw == price.raw - prev_close.raw,
        r.1.raw == percent_change_raw(price.raw - prev_close.raw, prev_close.raw as int),
{
    let change = Fx { raw: price.raw - prev_close.raw };
    let percent = if prev_close.raw > 0 {
        let num: i128 = (change.raw as i128) * 100 * (FX_SCALE as i128);
        let q = div_i128(num, prev_close.raw as i128);
        Fx { raw: q as i64 }
    } else {
        Fx { raw: 0 }
    };
    (change, percent)
}

/// What the chart response means: no price means no quote; a missing
/// previous close defaults to the price itself (a zero change).
pub fn resolve_chart_meta(price: Option<Fx>, prev_close: Option<Fx>, volume: Option<i64>) -> (r:
    Option<(Fx, Fx, Option<i64>)>)
    ensures
        r is Some <==> price is Some,
        r matches Some(t) ==> {
            &&& t.0 == price->Some_0
            &&& t.1 == (match prev_close {
                Some(p) => p,
                None => price->Some_0,
            })
            &&& t.2 == volume
        },
{
    match price {
        Some(p) => {
            let prev = match prev_close {
                Some(pc) => pc,
                None => p,
            };
            Some((p, prev, volume))
        },
        None => None,
    }
}

} // verus!
