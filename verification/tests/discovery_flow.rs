use sector_view::db::split_sql_statements;
use sector_view::discovery::lookup_sector;
use sector_view::discovery::map_yahoo_sector_to_db;
use sector_view::discovery::plan_russell_upsert;
use sector_view::discovery::plan_stock_upsert;
use sector_view::discovery::resolve_threshold;
use sector_view::discovery::tally_actions;
use sector_view::discovery::UpsertAction;
use sector_view::fixed::Fx;

// ---- plan_stock_upsert ----

#[test]
fn test_plan_unknown_sector_is_error() {
    assert_eq!(plan_stock_upsert(None, None), UpsertAction::UnknownSector);
    assert_eq!(plan_stock_upsert(None, Some((7, Some(3)))), UpsertAction::UnknownSector);
}

#[test]
fn test_plan_new_stock_is_inserted() {
    assert_eq!(plan_stock_upsert(Some(3), None), UpsertAction::Insert);
}

#[test]
fn test_plan_changed_sector_is_updated() {
    assert_eq!(plan_stock_upsert(Some(3), Some((7, Some(2)))), UpsertAction::Update);
    assert_eq!(plan_stock_upsert(Some(3), Some((7, None))), UpsertAction::Update);
}

#[test]
fn test_plan_same_sector_is_unchanged() {
    assert_eq!(plan_stock_upsert(Some(3), Some((7, Some(3)))), UpsertAction::Unchanged);
}

#[test]
fn test_plan_russell_upsert() {
    assert_eq!(plan_russell_upsert(true), UpsertAction::Unchanged);
    assert_eq!(plan_russell_upsert(false), UpsertAction::Insert);
}

#[test]
fn test_tally_actions_counts_each_kind() {
    let actions = vec![
        UpsertAction::Insert,
        UpsertAction::Unchanged,
        UpsertAction::Insert,
        UpsertAction::UnknownSector,
        UpsertAction::Update,
        UpsertAction::Insert,
    ];
    let (inserted, updated, unchanged) = tally_actions(&actions);
    assert_eq!(inserted, 3);
    assert_eq!(updated, 1);
    assert_eq!(unchanged, 1);
}

// ---- lookup_sector ----

#[test]
fn test_lookup_sector_finds_id() {
    let table = vec![
        ("Technology".to_string(), 1),
        ("Energy".to_string(), 2),
        ("Financials".to_string(), 3),
    ];
    assert_eq!(lookup_sector(&table, "Energy"), Some(2));
    assert_eq!(lookup_sector(&table, "Financials"), Some(3));
}

#[test]
fn test_lookup_sector_unknown_name() {
    let table = vec![("Technology".to_string(), 1)];
    assert_eq!(lookup_sector(&table, "Shipping"), None);
    assert_eq!(lookup_sector(&vec![], "Technology"), None);
}

#[test]
fn test_lookup_sector_first_match_wins() {
    let table = vec![("Technology".to_string(), 1), ("Technology".to_string(), 9)];
    assert_eq!(lookup_sector(&table, "Technology"), Some(1));
}

// ---- map_yahoo_sector_to_db ----

#[test]
fn test_yahoo_sector_known_labels() {
    assert_eq!(map_yahoo_sector_to_db("Technology"), Some("Technology"));
    assert_eq!(map_yahoo_sector_to_db("Healthcare"), Some("Health Care"));
    assert_eq!(map_yahoo_sector_to_db("Financial Services"), Some("Financials"));
    assert_eq!(map_yahoo_sector_to_db("Consumer Cyclical"), Some("Consumer Discretionary"));
    assert_eq!(map_yahoo_sector_to_db("Communication Services"), Some("Communication Services"));
    assert_eq!(map_yahoo_sector_to_db("Industrials"), Some("Industrials"));
    assert_eq!(map_yahoo_sector_to_db("Consumer Defensive"), Some("Consumer Staples"));
    assert_eq!(map_yahoo_sector_to_db("Energy"), Some("Energy"));
    assert_eq!(map_yahoo_sector_to_db("Utilities"), Some("Utilities"));
    assert_eq!(map_yahoo_sector_to_db("Real Estate"), Some("Real Estate"));
    assert_eq!(map_yahoo_sector_to_db("Basic Materials"), Some("Materials"));
}

#[test]
fn test_yahoo_sector_unknown_label() {
    assert_eq!(map_yahoo_sector_to_db("Cryptocurrency"), None);
    assert_eq!(map_yahoo_sector_to_db(""), None);
}

// ---- resolve_threshold ----

#[test]
fn test_resolve_threshold_explicit_wins() {
    let t = resolve_threshold(Some(Fx::from_raw(2_700_000)), "sp500");
    assert_eq!(t.raw, 2_700_000);
}

#[test]
fn test_resolve_threshold_defaults() {
    assert_eq!(resolve_threshold(None, "sp500").raw, 1_500_000);
    assert_eq!(resolve_threshold(None, "russell2000").raw, 2_000_000);
    assert_eq!(resolve_threshold(None, "anything").raw, 1_500_000);
}

// ---- split_sql_statements ----

#[test]
fn test_split_sql_statements_basic() {
    let stmts = split_sql_statements("CREATE TABLE a (x INT); INSERT INTO a VALUES (1);");
    assert_eq!(stmts, vec!["CREATE TABLE a (x INT)", "INSERT INTO a VALUES (1)"]);
}

#[test]
fn test_split_sql_statements_skips_blank_pieces() {
    let stmts = split_sql_statements("  ;\nSELECT 1;\n\n;  SELECT 2  ;;");
    assert_eq!(stmts, vec!["SELECT 1", "SELECT 2"]);
}

#[test]
fn test_split_sql_statements_empty_script() {
    assert!(split_sql_statements("").is_empty());
    assert!(split_sql_statements(" \n ; ; \n").is_empty());
}
