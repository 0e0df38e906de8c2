//! Index-constituent extraction from an encyclopedia table.
//!
//! The large-cap constituent list is published as an HTML table whose
//! rows carry the ticker, the security name and the GICS sector. An HTML
//! library selects the table and hands its cells over as plain text; the
//! verified logic here assembles and filters the rows, and translates the
//! encyclopedia's sector-name variants to the library's sector names.

use vstd::prelude::*;

use crate::text::chars_eq;
use crate::text::chars_to_string;
use crate::text::str_chars;
use crate::text::trim_chars;
use crate::text::trimmed;

verus! {

/// One constituent row of the table: ticker, security name, GICS sector.
#[derive(Clone, Debug)]
pub struct WikiStock {
    pub symbol: String,
    pub name: String,
    pub gics_sector: String,
}

/// One table cell as plain text: the text of its first link, if it has
/// one, and its full text.
#[derive(Clone, Debug)]
pub struct WikiCell {
    pub link_text: Option<String>,
    pub text: String,
}

/// The plain-text view of one cell.
pub open spec fn cell_view(c: WikiCell) -> (Option<Seq<char>>, Seq<char>) {
    (
        match c.link_text {
            Some(t) => Some(t@),
            None => None,
        },
        c.text@,
    )
}

/// The plain-text views of the extracted table rows.
pub open spec fn rows_view(rows: Seq<Vec<WikiCell>>) -> Seq<Seq<(Option<Seq<char>>, Seq<char>)>> {
    rows.map_values(|row: Vec<WikiCell>| row@.map_values(|c: WikiCell| cell_view(c)))
}

/// What the HTML library extracts from a document: `None` when no
/// sortable wikitable exists, else the data rows (the first row skipped)
/// of the first such table, each row the plain text of its `td` cells.
pub uninterp spec fn wiki_table_cells(html: Seq<char>) -> Option<
    Seq<Seq<(Option<Seq<char>>, Seq<char>)>>,
>;

/// Relies on scraper's CSS selection over its parsed HTML document: the
/// rows after the first of the first `table.wikitable.sortable`, each
/// row's `td` cells, and per cell the text of its first `a` element and
/// the cell's full text, in document order. The extraction depends on
/// the HTML text alone; [`wiki_table_cells`] names its result.
#[verifier::external_body]
fn extract_wikitable(html: &str) -> (r: Option<Vec<Vec<WikiCell>>>)
    ensures
        r is Some <==> wiki_table_cells(html@) is Some,
        r matches Some(rows) ==> Some(rows_view(rows@)) == wiki_table_cells(html@),
{
    let table_sel = scraper::Selector::parse("table.wikitable.sortable").unwrap();
    let tr_sel = scraper::Selector::parse("tr").unwrap();
    let td_sel = scraper::Selector::parse("td").unwrap();
    let a_sel = scraper::Selector::parse("a").unwrap();
    let document = scraper::Html::parse_document(html);
    let table = document.select(&table_sel).next()?;
    Some(table.select(&tr_sel).skip(1).map(|row| row.select(&td_sel).map(|cell| WikiCell {
        link_text: cell.select(&a_sel).next().map(|a| a.text().collect()),
        text: cell.text().collect(),
    }).collect()).collect())
}

/// The text a cell contributes: its first link's text where it has a
/// link, else its own text.
pub open spec fn cell_text(c: (Option<Seq<char>>, Seq<char>)) -> Seq<char> {
    match c.0 {
        Some(t) => t,
        None => c.1,
    }
}

/// What one table row yields: nothing for a row of fewer than four
/// cells or one whose trimmed symbol or sector is empty, else the
/// trimmed symbol, name and GICS sector. Symbol and name prefer their
/// cell's link text; the sector is the cell's own text.
pub open spec fn spec_row_stock(row: Seq<(Option<Seq<char>>, Seq<char>)>) -> Option<
    (Seq<char>, Seq<char>, Seq<char>),
> {
    if row.len() < 4 {
        None
    } else {
        let symbol = trimmed(cell_text(row[0]));
        let name = trimmed(cell_text(row[1]));
        let sector = trimmed(row[2].1);
        if symbol.len() == 0 || sector.len() == 0 {
            None
        } else {
            Some((symbol, name, sector))
        }
    }
}

/// The stocks of the table rows, in row order.
pub open spec fn spec_rows_stocks(rows: Seq<Seq<(Option<Seq<char>>, Seq<char>)>>) -> Seq<
    (Seq<char>, Seq<char>, Seq<char>),
>
    decreases rows.len(),
{
    if rows.len() == 0 {
        Seq::empty()
    } else {
        spec_rows_stocks(rows.drop_last()) + match spec_row_stock(rows.last()) {
            Some(s) => seq![s],
            None => Seq::empty(),
        }
    }
}

/// What the page yields: `None` where no constituent table exists, else
/// its stocks.
pub open spec fn spec_parse_sp500(html: Seq<char>) -> Option<
    Seq<(Seq<char>, Seq<char>, Seq<char>)>,
> {
    match wiki_table_cells(html) {
        Some(rows) => Some(spec_rows_stocks(rows)),
        None => None,
    }
}

/// The plain-text views of assembled stocks.
pub open spec fn stocks_view(v: Seq<WikiStock>) -> Seq<(Seq<char>, Seq<char>, Seq<char>)> {
    v.map_values(|s: WikiStock| (s.symbol@, s.name@, s.gics_sector@))
}

/// Assemble one extracted row, per [`spec_row_stock`].
fn assemble_row(row: &Vec<WikiCell>) -> (r: Option<WikiStock>)
    ensures
        r is Some <==> spec_row_stock(row@.map_values(|c: WikiCell| cell_view(c))) is Some,
        r matches Some(s) ==> spec_row_stock(row@.map_values(|c: WikiCell| cell_view(c))) == Some(
            (s.symbol@, s.name@, s.gics_sector@),
        ),
{
    if row.len() < 4 {
        return None;
    }
    let symbol_chars = match &row[0].link_text {
        Some(t) => str_chars(t.as_str()),
        None => str_chars(row[0].text.as_str()),
    };
    let name_chars = match &row[1].link_text {
        Some(t) => str_chars(t.as_str()),
        None => str_chars(row[1].text.as_str()),
    };
    let sector_chars = str_chars(row[2].text.as_str());
    let symbol = trim_chars(&symbol_chars);
    let name = trim_chars(&name_chars);
    let sector = trim_chars(&sector_chars);
    if symbol.len() == 0 || sector.len() == 0 {
        return None;
    }
    Some(
        WikiStock {
            symbol: chars_to_string(&symbol),
            name: chars_to_string(&name),
            gics_sector: chars_to_string(&sector),
        },
    )
}

/// Parse the constituent page into its stock rows, per
/// [`spec_parse_sp500`]: an error where the page has no constituent
/// table, else every well-formed data row's trimmed symbol, name and
/// sector.
pub fn parse_sp500_html(html: &str) -> (r: Result<Vec<WikiStock>, String>)
    ensures
        r is Ok <==> wiki_table_cells(html@) is Some,
        r matches Ok(v) ==> Some(stocks_view(v@)) == spec_parse_sp500(html@),
        r matches Err(e) ==> e@ == "Could not find S&P 500 table on Wikipedia"@,
{
    let rows = match extract_wikitable(html) {
        Some(rows) => rows,
        None => {
            return Err(String::from_str("Could not find S&P 500 table on Wikipedia"));
        },
    };
    let ghost rv = rows_view(rows@);
    let n = rows.len();
    let mut out: Vec<WikiStock> = Vec::new();
    proof {
        assert(stocks_view(out@) =~= Seq::<(Seq<char>, Seq<char>, Seq<char>)>::empty());
        assert(rv.take(0) =~= Seq::<Seq<(Option<Seq<char>>, Seq<char>)>>::empty());
    }
    let mut i: usize = 0;
    while i < n
        invariant
            n == rows@.len(),
            rv == rows_view(rows@),
            0 <= i <= n,
            stocks_view(out@) == spec_rows_stocks(rv.take(i as int)),
        decreases n - i,
    {
        proof {
            assert(rv.take(i + 1).drop_last() =~= rv.take(i as int));
            assert(rv.take(i + 1).last() == rv[i as int]);
        }
        match assemble_row(&rows[i]) {
            Some(s) => {
                let ghost old_out = out@;
                let ghost sv = (s.symbol@, s.name@, s.gics_sector@);
                out.push(s);
                proof {
                    assert(stocks_view(out@) =~= stocks_view(old_out).push(sv));
                    assert(stocks_view(old_out).push(sv) =~= stocks_view(old_out) + seq![sv]);
                }
            },
            None => {},
        }
        i = i + 1;
    }
    proof {
        assert(rv.take(n as int) =~= rv);
    }
    Ok(out)
}

/// The library's name for an encyclopedia sector-name variant: the one
/// known alias maps to `Technology`; every other name passes through
/// unchanged.
pub open spec fn spec_alias(n: Seq<char>) -> Seq<char> {
    if n == "Information Technology"@ {
        "Technology"@
    } else {
        n
    }
}

/// Map a known encyclopedia GICS sector-name variant to the library's
/// sector name, per [`spec_alias`]; an unknown name is returned
/// unchanged.
pub fn apply_wikipedia_name_alias<'a>(name: &'a str) -> (r: &'a str)
    ensures
        r@ == spec_alias(name@),
{
    let nc = str_chars(name);
    let target = str_chars("Information Technology");
    if chars_eq(&nc, &target) {
        "Technology"
    } else {
        name
    }
}

} // verus!
