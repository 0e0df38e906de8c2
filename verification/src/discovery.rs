//! Decision rules of the stock-discovery and refresh flows.
//!
//! Discovery walks a list of stocks found upstream and decides, per
//! stock, whether to insert it, update its sector, or leave it alone;
//! the caller performs the store operations and tallies the outcomes.
//! This module also maps the quote provider's sector labels to the
//! library's sector names and fixes the default detection threshold per
//! universe.

use vstd::prelude::*;

use crate::fixed::Fx;
use crate::text::chars_eq;
use crate::text::str_chars;

verus! {

/// What discovery decides to do with one found stock.
#[derive(Clone, Copy, Debug, PartialEq, Eq, Structural)]
pub enum UpsertAction {
    /// The stock's sector is not one the library tracks: record an error.
    UnknownSector,
    /// The stock is new: insert it.
    Insert,
    /// The stock exists with another sector: update it.
    Update,
    /// The stock exists with the same sector: leave it.
    Unchanged,
}

/// The decision for one found stock: `sector_id` is the tracked sector
/// resolved for it (if any), `existing` the stored stock's id and sector
/// (if one is stored).
pub open spec fn spec_plan_upsert(sector_id: Option<i32>, existing: Option<(i32, Option<i32>)>)
    -> UpsertAction {
    match sector_id {
        None => UpsertAction::UnknownSector,
        Some(sid) => match existing {
            None => UpsertAction::Insert,
            Some((_id, cur)) => if cur == Some(sid) {
                UpsertAction::Unchanged
            } else {
                UpsertAction::Update
            },
        },
    }
}

/// Decide what to do with one discovered stock, per [`spec_plan_upsert`]:
/// an unresolvable sector is an error, a new stock is inserted, a changed
/// sector is updated, anything else is left unchanged.
pub fn plan_stock_upsert(sector_id: Option<i32>, existing: Option<(i32, Option<i32>)>) -> (a:
    UpsertAction)
    ensures
        a == spec_plan_upsert(sector_id, existing),
{
    match sector_id {
        None => UpsertAction::UnknownSector,
        Some(sid) => match existing {
            None => UpsertAction::Insert,
            Some((_id, cur)) => {
                let same = match cur {
                    Some(c) => c == sid,
                    None => false,
                };
                if same {
                    UpsertAction::Unchanged
                } else {
                    UpsertAction::Update
                }
            },
        },
    }
}

/// The decision for one small-cap holding, which carries no sector: a
/// stored stock is left unchanged, a new one is inserted.
pub fn plan_russell_upsert(exists: bool) -> (a: UpsertAction)
    ensures
        a == (if exists {
            UpsertAction::Unchanged
        } else {
            UpsertAction::Insert
        }),
{
    if exists {
        UpsertAction::Unchanged
    } else {
        UpsertAction::Insert
    }
}

/// How many of the actions equal `a`.
pub open spec fn count_action(s: Seq<UpsertAction>, a: UpsertAction) -> int
    decreases s.len(),
{
    if s.len() == 0 {
        0
    } else {
        count_action(s.drop_last(), a) + if s.last() == a {
            1int
        } else {
            0int
        }
    }
}

/// Tally a discovery run: how many stocks were inserted, updated and
/// left unchanged.
pub fn tally_actions(actions: &Vec<UpsertAction>) -> (r: (u32, u32, u32))
    requires
        actions@.len() <= u32::MAX,
    ensures
        r.0 == count_action(actions@, UpsertAction::Insert),
        r.1 == count_action(actions@, UpsertAction::Update),
        r.2 == count_action(actions@, UpsertAction::Unchanged),
{
    proof {
        lemma_count_action_bound(actions@, UpsertAction::Insert);
        lemma_count_action_bound(actions@, UpsertAction::Update);
        lemma_count_action_bound(actions@, UpsertAction::Unchanged);
    }
    let n = actions.len();
    let mut inserted: u32 = 0;
    let mut updated: u32 = 0;
    let mut unchanged: u32 = 0;
    let mut i: usize = 0;
    while i < n
        invariant
            n == actions@.len() <= u32::MAX,
            0 <= i <= n,
            inserted == count_action(actions@.take(i as int), UpsertAction::Insert),
            updated == count_action(actions@.take(i as int), UpsertAction::Update),
            unchanged == count_action(actions@.take(i as int), UpsertAction::Unchanged),
        decreases n - i,
    {
        proof {
            assert(actions@.take(i + 1).drop_last() =~= actions@.take(i as int));
            assert(actions@.take(i + 1).last() == actions@[i as int]);
            lemma_count_action_bound(actions@.take(i as int), UpsertAction::Insert);
            lemma_count_action_bound(actions@.take(i as int), UpsertAction::Update);
            lemma_count_action_bound(actions@.take(i as int), UpsertAction::Unchanged);
        }
        match actions[i] {
            UpsertAction::Insert => {
                inserted = inserted + 1;
            },
            UpsertAction::Update => {
                updated = updated + 1;
            },
            UpsertAction::Unchanged => {
                unchanged = unchanged + 1;
            },
            UpsertAction::UnknownSector => {},
        }
        i = i + 1;
    }
    proof {
        assert(actions@.take(n as int) =~= actions@);
    }
    (inserted, updated, unchanged)
}

/// A count of actions never exceeds the number of actions.
proof fn lemma_count_action_bound(s: Seq<UpsertAction>, a: UpsertAction)
    ensures
        0 <= count_action(s, a) <= s.len(),
    decreases s.len(),
{
    if s.len() > 0 {
        lemma_count_action_bound(s.drop_last(), a);
    }
}

/// What one discovery run found, for the caller to report.
#[derive(Clone, Debug)]
pub struct DiscoveryResult {
    pub stocks_discovered: u32,
    pub stocks_updated: u32,
    pub stocks_unchanged: u32,
    pub errors: Vec<String>,
}

/// The sector id stored under the first table entry whose name matches.
pub open spec fn spec_lookup_sector(table: Seq<(String, i32)>, name: Seq<char>) -> Option<i32>
    decreases table.len(),
{
    if table.len() == 0 {
        None
    } else if table[0].0@ == name {
        Some(table[0].1)
    } else {
        spec_lookup_sector(table.drop_first(), name)
    }
}

/// Look a sector name up in a name-to-id table, per
/// [`spec_lookup_sector`]: the first matching entry's id.
pub fn lookup_sector(table: &Vec<(String, i32)>, name: &str) -> (r: Option<i32>)
    ensures
        r == spec_lookup_sector(table@, name@),
{
    let needle = str_chars(name);
    let n = table.len();
    proof {
        assert(table@.skip(0) =~= table@);
    }
    let mut i: usize = 0;
    while i < n
        invariant
            n == table@.len(),
            0 <= i <= n,
            needle@ == name@,
            spec_lookup_sector(table@, name@) == spec_lookup_sector(
                table@.skip(i as int),
                name@,
            ),
        decreases n - i,
    {
        let entry_chars = str_chars(table[i].0.as_str());
        proof {
            assert(table@.skip(i as int)[0] == table@[i as int]);
            assert(table@.skip(i as int).drop_first() =~= table@.skip(i + 1));
        }
        if chars_eq(&entry_chars, &needle) {
            return Some(table[i].1);
        }
        i = i + 1;
    }
    None
}

/// The library's sector name for a quote provider's sector label, where
/// the label is one of the known ones.
pub open spec fn spec_yahoo_to_db(n: Seq<char>) -> Option<Seq<char>> {
    if n == "Technology"@ {
        Some("Technology"@)
    } else if n == "Healthcare"@ {
        Some("Health Care"@)
    } else if n == "Financial Services"@ {
        Some("Financials"@)
    } else if n == "Consumer Cyclical"@ {
        Some("Consumer Discretionary"@)
    } else if n == "Communication Services"@ {
        Some("Communication Services"@)
    } else if n == "Industrials"@ {
        Some("Industrials"@)
    } else if n == "Consumer Defensive"@ {
        Some("Consumer Staples"@)
    } else if n == "Energy"@ {
        Some("Energy"@)
    } else if n == "Utilities"@ {
        Some("Utilities"@)
    } else if n == "Real Estate"@ {
        Some("Real Estate"@)
    } else if n == "Basic Materials"@ {
        Some("Materials"@)
    } else {
        None
    }
}

/// Map a quote provider's sector label to the library's sector name,
/// per [`spec_yahoo_to_db`]; an unknown label maps to nothing.
pub fn map_yahoo_sector_to_db(yahoo_sector: &str) -> (r: Option<&'static str>)
    ensures
        r is Some <==> spec_yahoo_to_db(yahoo_sector@) is Some,
        r matches Some(s) ==> spec_yahoo_to_db(yahoo_sector@) == Some(s@),
{
    let nc = str_chars(yahoo_sector);
    if chars_eq(&nc, &str_chars("Technology")) {
        Some("Technology")
    } else if chars_eq(&nc, &str_chars("Healthcare")) {
        Some("Health Care")
    } else if chars_eq(&nc, &str_chars("Financial Services")) {
        Some("Financials")
    } else if chars_eq(&nc, &str_chars("Consumer Cyclical")) {
        Some("Consumer Discretionary")
    } else if chars_eq(&nc, &str_chars("Communication Services")) {
        Some("Communication Services")
    } else if chars_eq(&nc, &str_chars("Industrials")) {
        Some("Industrials")
    } else if chars_eq(&nc, &str_chars("Consumer Defensive")) {
        Some("Consumer Staples")
    } else if chars_eq(&nc, &str_chars("Energy")) {
        Some("Energy")
    } else if chars_eq(&nc, &str_chars("Utilities")) {
        Some("Utilities")
    } else if chars_eq(&nc, &str_chars("Real Estate")) {
        Some("Real Estate")
    } else if chars_eq(&nc, &str_chars("Basic Materials")) {
        Some("Materials")
    } else {
        None
    }
}

/// The default composite-score threshold of a universe: the small-cap
/// universe is noisier, so it gets 2.0; every other universe gets 1.5.
pub open spec fn spec_default_threshold(universe: Seq<char>) -> int {
    if universe == "russell2000"@ {
        2_000_000
    } else {
        1_500_000
    }
}

/// The detection threshold to use: the requested one where the caller
/// gave one, else the universe's default per [`spec_default_threshold`].
pub fn resolve_threshold(requested: Option<Fx>, universe: &str) -> (t: Fx)
    ensures
        t == (match requested {
            Some(r) => r,
            None => Fx { raw: spec_default_threshold(universe@) as i64 },
        }),
{
    match requested {
        Some(r) => r,
        None => {
            let uc = str_chars(universe);
            let target = str_chars("russell2000");
            if chars_eq(&uc, &target) {
                Fx { raw: 2_000_000 }
            } else {
                Fx { raw: 1_500_000 }
            }
        },
    }
}

} // verus!
