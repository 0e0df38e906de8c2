use sector_view::fixed::Fx;
use sector_view::market::build_chart_url;
use sector_view::market::build_fundamentals_url;
use sector_view::market::calculate_price_change;
use sector_view::market::resolve_chart_meta;
use std::time::Instant;

// ---- URL construction ----

#[test]
fn test_build_chart_url_standard_symbol() {
    let url = build_chart_url("AAPL");
    assert_eq!(
        url,
        "https://query1.finance.yahoo.com/v8/finance/chart/AAPL?range=1d&interval=1d"
    );
}

#[test]
fn test_build_chart_url_with_dot_symbol() {
    // Symbols like BRK.B should appear unmodified in the URL
    let url = build_chart_url("BRK.B");
    assert!(url.contains("BRK.B"), "URL should contain 'BRK.B': {url}");
}

#[test]
fn test_build_chart_url_contains_required_query_params() {
    let url = build_chart_url("MSFT");
    assert!(url.contains("range=1d"), "Missing range param: {url}");
    assert!(url.contains("interval=1d"), "Missing interval param: {url}");
}

#[test]
fn test_build_chart_url_symbol_varies() {
    assert_ne!(build_chart_url("AAPL"), build_chart_url("MSFT"));
}

#[test]
fn test_build_fundamentals_url_contains_symbol_and_crumb() {
    let url = build_fundamentals_url("AAPL", "my-crumb");
    assert!(url.contains("AAPL"), "Missing symbol: {url}");
    assert!(url.contains("crumb=my-crumb"), "Missing crumb: {url}");
}

#[test]
fn test_build_fundamentals_url_contains_required_modules() {
    let url = build_fundamentals_url("AAPL", "crumb");
    assert!(url.contains("defaultKeyStatistics"), "Missing module: {url}");
    assert!(url.contains("summaryDetail"), "Missing module: {url}");
    assert!(url.contains("price"), "Missing module: {url}");
}

#[test]
fn test_build_fundamentals_url_crumb_varies() {
    let url1 = build_fundamentals_url("AAPL", "crumb-aaa");
    let url2 = build_fundamentals_url("AAPL", "crumb-bbb");
    assert!(url1.contains("crumb-aaa"));
    assert!(url2.contains("crumb-bbb"));
    assert_ne!(url1, url2);
}

#[test]
fn test_build_fundamentals_url_symbol_varies() {
    let url_msft = build_fundamentals_url("MSFT", "crumb");
    let url_goog = build_fundamentals_url("GOOGL", "crumb");
    assert!(url_msft.contains("MSFT"));
    assert!(url_goog.contains("GOOGL"));
    assert_ne!(url_msft, url_goog);
}

// ---- Price change calculation ----

#[test]
fn test_calculate_price_change_gain() {
    let (change, pct) = calculate_price_change(Fx::from_units(110), Fx::from_units(100));
    assert_eq!(change.raw, 10_000_000);
    assert_eq!(pct.raw, 10_000_000);
}

#[test]
fn test_calculate_price_change_loss() {
    let (change, pct) = calculate_price_change(Fx::from_units(90), Fx::from_units(100));
    assert_eq!(change.raw, -10_000_000);
    assert_eq!(pct.raw, -10_000_000);
}

#[test]
fn test_calculate_price_change_no_movement() {
    let (change, pct) = calculate_price_change(Fx::from_units(100), Fx::from_units(100));
    assert_eq!(change.raw, 0);
    assert_eq!(pct.raw, 0);
}

#[test]
fn test_calculate_price_change_zero_prev_close_returns_zero_percent() {
    // Prevent division by zero — percent should be 0 rather than blowing up
    let (change, pct) = calculate_price_change(Fx::from_units(150), Fx::from_units(0));
    assert_eq!(change.raw, 150_000_000);
    assert_eq!(pct.raw, 0);
}

#[test]
fn test_calculate_price_change_fractional() {
    // price 150.25, prev close 147.50: change 2.75, percent (2.75 / 147.50) * 100
    let (change, pct) = calculate_price_change(Fx::from_raw(150_250_000), Fx::from_raw(147_500_000));
    assert_eq!(change.raw, 2_750_000);
    assert_eq!(pct.raw, 1_864_406);
}

// ---- Chart meta resolution ----

#[test]
fn test_resolve_chart_meta_requires_price() {
    assert!(resolve_chart_meta(None, Some(Fx::from_units(100)), Some(5)).is_none());
}

#[test]
fn test_resolve_chart_meta_missing_prev_close_defaults_to_price() {
    let (price, prev, volume) =
        resolve_chart_meta(Some(Fx::from_units(150)), None, Some(75_000_000)).unwrap();
    assert_eq!(price.raw, 150_000_000);
    assert_eq!(prev.raw, 150_000_000);
    assert_eq!(volume, Some(75_000_000));
}

// ---- Performance ----

#[test]
fn test_url_construction_performance_500_symbols() {
    let symbols: Vec<String> = (0..500).map(|i| format!("S{i:03}")).collect();
    let start = Instant::now();
    for sym in &symbols {
        let _ = build_chart_url(sym);
        let _ = build_fundamentals_url(sym, "test-crumb");
    }
    let elapsed = start.elapsed();
    assert!(
        elapsed.as_millis() < 50,
        "URL construction for 500 symbols took {}ms, expected < 50ms",
        elapsed.as_millis()
    );
}
