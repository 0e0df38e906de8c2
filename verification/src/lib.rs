//! Sector-relative outlier detection for per-stock market metrics.
//!
//! The engine takes a flat list of per-stock metric rows for one sector,
//! computes per-metric sector statistics and per-stock z-scores, combines
//! them into a weighted composite anomaly score, and classifies every stock
//! that clears a caller-supplied threshold. All real-valued quantities are
//! carried as fixed-point numbers in millionths, so the whole pipeline is
//! exact integer arithmetic with a proved contract.
//!
//! Around the engine sit the verified pure parts of the wider application:
//! CSV and HTML-table extraction of index constituents, market-data URL
//! construction, and the decision rules of the discovery and refresh flows.

pub mod classify;
pub mod csv;
pub mod db;
pub mod detect;
pub mod discovery;
pub mod fixed;
pub mod market;
pub mod score;
pub mod stats;
pub mod text;
pub mod types;
pub mod wiki;

pub use fixed::Fx;
pub use fixed::FX_SCALE;
