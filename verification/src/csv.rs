//! Index-holdings CSV extraction.
//!
//! The holdings file of the small-cap index ETF carries metadata rows, a
//! header row naming the columns, and one row per holding. The parser
//! finds the header by its `Ticker` and `Asset Class` columns, then keeps
//! every equity row with a real ticker, as `(ticker, name)` pairs.

use vstd::prelude::*;

use crate::text::chars_eq;
use crate::text::chars_to_string;
use crate::text::contains_chars;
use crate::text::contains_seq;
use crate::text::lower_seq;
use crate::text::split_char;
use crate::text::str_chars;
use crate::text::to_lower_chars;
use crate::text::trim_chars;
use crate::text::trimmed;
use crate::text::views_of;

verus! {

/// CSV field splitting, walked from position `i`: a double quote toggles
/// the quoted state and is dropped, a comma outside quotes finishes the
/// current field, every other character joins it.
pub open spec fn split_csv_rec(
    s: Seq<char>,
    i: int,
    in_quotes: bool,
    cur: Seq<char>,
    acc: Seq<Seq<char>>,
) -> Seq<Seq<char>>
    decreases s.len() - i,
{
    if i < 0 || i >= s.len() {
        acc.push(cur)
    } else if s[i] == '"' {
        split_csv_rec(s, i + 1, !in_quotes, cur, acc)
    } else if s[i] == ',' && !in_quotes {
        split_csv_rec(s, i + 1, in_quotes, Seq::empty(), acc.push(cur))
    } else {
        split_csv_rec(s, i + 1, in_quotes, cur.push(s[i]), acc)
    }
}

/// The fields of one CSV line, commas inside double quotes respected.
pub open spec fn spec_split_csv(s: Seq<char>) -> Seq<Seq<char>> {
    split_csv_rec(s, 0, false, Seq::empty(), Seq::empty())
}

/// The fields of one CSV line as character vectors, per
/// [`spec_split_csv`].
fn split_csv_fields(s: &Vec<char>) -> (r: Vec<Vec<char>>)
    ensures
        views_of(r@) == spec_split_csv(s@),
{
    let n = s.len();
    let mut acc: Vec<Vec<char>> = Vec::new();
    let mut cur: Vec<char> = Vec::new();
    let mut in_quotes = false;
    proof {
        assert(views_of(acc@) =~= Seq::<Seq<char>>::empty());
        assert(cur@ =~= Seq::<char>::empty());
    }
    let mut i: usize = 0;
    while i < n
        invariant
            n == s@.len(),
            0 <= i <= n,
            split_csv_rec(s@, i as int, in_quotes, cur@, views_of(acc@)) == spec_split_csv(s@),
        decreases n - i,
    {
        let c = s[i];
        if c == '"' {
            in_quotes = !in_quotes;
        } else if c == ',' && !in_quotes {
            let ghost old_acc = acc@;
            acc.push(cur);
            proof {
                assert(views_of(acc@) =~= views_of(old_acc).push(cur@));
            }
            cur = Vec::new();
        } else {
            cur.push(c);
        }
        i = i + 1;
    }
    let ghost old_acc = acc@;
    let ghost last_cur = cur@;
    acc.push(cur);
    proof {
        assert(views_of(acc@) =~= views_of(old_acc).push(last_cur));
    }
    acc
}

/// The views of a vector of string pairs.
pub open spec fn string_pairs(v: Seq<(String, String)>) -> Seq<(Seq<char>, Seq<char>)> {
    v.map_values(|p: (String, String)| (p.0@, p.1@))
}

/// Split a CSV line into its fields, respecting double-quoted fields,
/// per [`spec_split_csv`].
pub fn split_csv_line(line: &str) -> (r: Vec<String>)
    ensures
        r@.map_values(|f: String| f@) == spec_split_csv(line@),
{
    let cs = str_chars(line);
    let fields = split_csv_fields(&cs);
    let m = fields.len();
    let mut out: Vec<String> = Vec::new();
    let mut i: usize = 0;
    while i < m
        invariant
            m == fields@.len(),
            0 <= i <= m,
            views_of(fields@) == spec_split_csv(line@),
            out@.map_values(|f: String| f@) =~= views_of(fields@).take(i as int),
        decreases m - i,
    {
        let f = chars_to_string(&fields[i]);
        let ghost old_out = out@;
        out.push(f);
        proof {
            assert(out@.map_values(|g: String| g@) =~= old_out.map_values(
                |g: String| g@,
            ).push(f@));
            assert(views_of(fields@).take(i + 1) =~= views_of(fields@).take(i as int).push(
                views_of(fields@)[i as int],
            ));
        }
        i = i + 1;
    }
    proof {
        assert(views_of(fields@).take(m as int) =~= views_of(fields@));
    }
    out
}

/// A line that announces the column header: it mentions both `ticker`
/// and `asset class`, case-insensitively.
pub open spec fn is_header_line(line: Seq<char>) -> bool {
    contains_seq(lower_seq(line), "ticker"@) && contains_seq(lower_seq(line), "asset class"@)
}

/// The last column whose trimmed, lowercased text equals `name`.
pub open spec fn last_col_match(cols: Seq<Seq<char>>, name: Seq<char>) -> Option<int>
    decreases cols.len(),
{
    if cols.len() == 0 {
        None
    } else if lower_seq(trimmed(cols.last())) == name {
        Some(cols.len() - 1)
    } else {
        last_col_match(cols.drop_last(), name)
    }
}

/// Find the last column matching `name`, per [`last_col_match`].
fn find_col(cols: &Vec<Vec<char>>, name: &Vec<char>) -> (r: Option<usize>)
    ensures
        r is Some <==> last_col_match(views_of(cols@), name@) is Some,
        r matches Some(i) ==> last_col_match(views_of(cols@), name@) == Some(i as int),
{
    let n = cols.len();
    proof {
        assert(views_of(cols@).take(n as int) =~= views_of(cols@));
    }
    let mut k: usize = n;
    while k > 0
        invariant
            n == cols@.len(),
            0 <= k <= n,
            last_col_match(views_of(cols@), name@) == last_col_match(
                views_of(cols@).take(k as int),
                name@,
            ),
        decreases k,
    {
        let t = trim_chars(&cols[k - 1]);
        let lowered = to_lower_chars(&t);
        proof {
            assert(views_of(cols@).take(k as int).last() == views_of(cols@)[k - 1]);
            assert(views_of(cols@).take(k as int).drop_last() =~= views_of(cols@).take(k - 1));
        }
        if chars_eq(&lowered, name) {
            return Some(k - 1);
        }
        k = k - 1;
    }
    proof {
        assert(views_of(cols@).take(0) =~= Seq::<Seq<char>>::empty());
    }
    None
}

/// An optional column index, as an integer.
pub open spec fn opt_col(o: Option<int>) -> int {
    match o {
        Some(i) => i,
        None => 0,
    }
}

/// The larger of two integers.
pub open spec fn max_int(a: int, b: int) -> int {
    if a >= b {
        a
    } else {
        b
    }
}

/// What one data row yields under the header's column indices: nothing
/// when the row is too short to reach the needed columns, when its asset
/// class is not `Equity` (case-insensitively), or when its trimmed
/// ticker is empty or the placeholder dash; else the trimmed ticker and
/// the trimmed name, the ticker standing in for a missing name column.
pub open spec fn spec_parse_data_line(
    cols: Seq<Seq<char>>,
    tc: int,
    nc: Option<int>,
    ac: Option<int>,
) -> Option<(Seq<char>, Seq<char>)>
    recommends
        0 <= tc,
        nc matches Some(n) ==> 0 <= n,
        ac matches Some(a) ==> 0 <= a,
{
    let required_max = max_int(tc, max_int(opt_col(nc), opt_col(ac)));
    if cols.len() <= required_max {
        None
    } else if ac matches Some(a) && lower_seq(trimmed(cols[a])) != "equity"@ {
        None
    } else {
        let ticker = trimmed(cols[tc]);
        let name = match nc {
            Some(n) => trimmed(cols[n]),
            None => ticker,
        };
        if ticker.len() == 0 || ticker == "-"@ {
            None
        } else {
            Some((ticker, name))
        }
    }
}

/// An optional exec column index, as a spec option over integers.
pub open spec fn opt_int(o: Option<usize>) -> Option<int> {
    match o {
        Some(i) => Some(i as int),
        None => None,
    }
}

/// Extract one data row, per [`spec_parse_data_line`].
fn parse_data_cols(
    cols: &Vec<Vec<char>>,
    tc: usize,
    nc: Option<usize>,
    ac: Option<usize>,
    equity: &Vec<char>,
    dash: &Vec<char>,
) -> (r: Option<(String, String)>)
    requires
        equity@ == "equity"@,
        dash@ == "-"@,
    ensures
        r is Some <==> spec_parse_data_line(views_of(cols@), tc as int, opt_int(nc), opt_int(ac))
            is Some,
        r matches Some(p) ==> spec_parse_data_line(
            views_of(cols@),
            tc as int,
            opt_int(nc),
            opt_int(ac),
        ) == Some((p.0@, p.1@)),
{
    let ncv = match nc {
        Some(n) => n,
        None => 0,
    };
    let acv = match ac {
        Some(a) => a,
        None => 0,
    };
    let mut required_max = tc;
    if ncv > required_max {
        required_max = ncv;
    }
    if acv > required_max {
        required_max = acv;
    }
    if cols.len() <= required_max {
        return None;
    }
    if let Some(a) = ac {
        let t = trim_chars(&cols[a]);
        let lowered = to_lower_chars(&t);
        if !chars_eq(&lowered, equity) {
            return None;
        }
    }
    let ticker = trim_chars(&cols[tc]);
    if ticker.len() == 0 || chars_eq(&ticker, dash) {
        return None;
    }
    let name = match nc {
        Some(n) => trim_chars(&cols[n]),
        None => {
            let mut copy: Vec<char> = Vec::new();
            let mut i: usize = 0;
            while i < ticker.len()
                invariant
                    0 <= i <= ticker@.len(),
                    copy@ =~= ticker@.take(i as int),
                decreases ticker@.len() - i,
            {
                copy.push(ticker[i]);
                proof {
                    assert(copy@ =~= ticker@.take(i + 1));
                }
                i = i + 1;
            }
            proof {
                assert(copy@ =~= ticker@);
            }
            copy
        },
    };
    let t = chars_to_string(&ticker);
    let nm = chars_to_string(&name);
    Some((t, nm))
}

/// The header state and collected pairs, walked over the lines from
/// index `i`: before the header is found each line is tested for the
/// header columns; after it each line is parsed as a data row.
pub open spec fn parse_iwm_rec(
    lines: Seq<Seq<char>>,
    i: int,
    hdr: Option<(int, Option<int>, Option<int>)>,
    acc: Seq<(Seq<char>, Seq<char>)>,
) -> Seq<(Seq<char>, Seq<char>)>
    decreases lines.len() - i,
{
    if i < 0 || i >= lines.len() {
        acc
    } else {
        let line = lines[i];
        match hdr {
            None => {
                if is_header_line(line) {
                    let cols = spec_split_csv(line);
                    match last_col_match(cols, "ticker"@) {
                        Some(tc) => parse_iwm_rec(
                            lines,
                            i + 1,
                            Some(
                                (
                                    tc,
                                    last_col_match(cols, "name"@),
                                    last_col_match(cols, "asset class"@),
                                ),
                            ),
                            acc,
                        ),
                        None => parse_iwm_rec(lines, i + 1, None, acc),
                    }
                } else {
                    parse_iwm_rec(lines, i + 1, None, acc)
                }
            },
            Some((tc, nc, ac)) => {
                match spec_parse_data_line(spec_split_csv(line), tc, nc, ac) {
                    Some(p) => parse_iwm_rec(lines, i + 1, hdr, acc.push(p)),
                    None => parse_iwm_rec(lines, i + 1, hdr, acc),
                }
            },
        }
    }
}

/// A line piece with one trailing carriage return removed.
pub open spec fn strip_cr(l: Seq<char>) -> Seq<char> {
    if l.len() > 0 && l.last() == '\r' {
        l.drop_last()
    } else {
        l
    }
}

/// The lines of a text: the pieces between newlines, each with one
/// trailing carriage return dropped, and no final empty piece.
pub open spec fn spec_lines(s: Seq<char>) -> Seq<Seq<char>> {
    let pieces = split_char(s, '\n');
    let kept = if pieces.len() > 0 && pieces.last().len() == 0 {
        pieces.drop_last()
    } else {
        pieces
    };
    kept.map_values(|l: Seq<char>| strip_cr(l))
}

/// The lines of a character vector, per [`spec_lines`].
fn split_lines(s: &Vec<char>) -> (r: Vec<Vec<char>>)
    ensures
        views_of(r@) == spec_lines(s@),
{
    let pieces = crate::text::split_chars_on(s, '\n');
    let ghost kept = if views_of(pieces@).len() > 0 && views_of(pieces@).last().len() == 0 {
        views_of(pieces@).drop_last()
    } else {
        views_of(pieces@)
    };
    let end = if pieces.len() > 0 && pieces[pieces.len() - 1].len() == 0 {
        pieces.len() - 1
    } else {
        pieces.len()
    };
    proof {
        assert(kept =~= views_of(pieces@).take(end as int));
    }
    let mut out: Vec<Vec<char>> = Vec::new();
    let mut i: usize = 0;
    while i < end
        invariant
            end <= pieces@.len(),
            0 <= i <= end,
            kept == views_of(pieces@).take(end as int),
            views_of(out@) =~= kept.take(i as int).map_values(|l: Seq<char>| strip_cr(l)),
        decreases end - i,
    {
        let p = &pieces[i];
        let lim = if p.len() > 0 && p[p.len() - 1] == '\r' {
            p.len() - 1
        } else {
            p.len()
        };
        let mut q: Vec<char> = Vec::new();
        let mut j: usize = 0;
        while j < lim
            invariant
                lim <= p@.len(),
                0 <= j <= lim,
                q@ =~= p@.take(j as int),
            decreases lim - j,
        {
            q.push(p[j]);
            proof {
                assert(q@ =~= p@.take(j + 1));
            }
            j = j + 1;
        }
        proof {
            if p@.len() > 0 && p@.last() == '\r' {
                assert(q@ =~= p@.drop_last());
            } else {
                assert(q@ =~= p@);
            }
            assert(q@ =~= strip_cr(p@));
        }
        let ghost old_out = out@;
        out.push(q);
        proof {
            assert(views_of(out@) =~= views_of(old_out).push(strip_cr(p@)));
            assert(kept.take(i + 1) =~= kept.take(i as int).push(kept[i as int]));
            assert(kept.take(i + 1).map_values(|l: Seq<char>| strip_cr(l)) =~= kept.take(
                i as int,
            ).map_values(|l: Seq<char>| strip_cr(l)).push(strip_cr(kept[i as int])));
        }
        i = i + 1;
    }
    proof {
        assert(kept.take(end as int) =~= kept);
    }
    out
}

/// What the holdings CSV yields: the `(ticker, name)` pairs of its
/// equity rows, in file order, none before the header row.
pub open spec fn spec_parse_iwm(csv: Seq<char>) -> Seq<(Seq<char>, Seq<char>)> {
    parse_iwm_rec(spec_lines(csv), 0, None, Seq::empty())
}

/// The header state of the exec parser, as the spec sees it.
pub open spec fn hdr_view(h: Option<(usize, Option<usize>, Option<usize>)>) -> Option<
    (int, Option<int>, Option<int>),
> {
    match h {
        Some((t, n, a)) => Some((t as int, opt_int(n), opt_int(a))),
        None => None,
    }
}

/// Parse an index-holdings CSV into `(ticker, name)` pairs, per
/// [`spec_parse_iwm`].
///
/// The file's metadata rows are skipped until a header row names both the
/// `Ticker` and `Asset Class` columns; from then on every row whose asset
/// class is `Equity` and whose ticker is neither empty nor a dash
/// contributes one pair.
pub fn parse_iwm_csv(csv: &str) -> (r: Vec<(String, String)>)
    ensures
        string_pairs(r@) == spec_parse_iwm(csv@),
{
    let cs = str_chars(csv);
    let lines = split_lines(&cs);
    let n = lines.len();
    let ticker_needle = str_chars("ticker");
    let asset_needle = str_chars("asset class");
    let name_needle = str_chars("name");
    let equity_needle = str_chars("equity");
    let dash_needle = str_chars("-");
    let mut header: Option<(usize, Option<usize>, Option<usize>)> = None;
    let mut out: Vec<(String, String)> = Vec::new();
    proof {
        assert(string_pairs(out@) =~= Seq::<(Seq<char>, Seq<char>)>::empty());
    }
    let mut i: usize = 0;
    while i < n
        invariant
            n == lines@.len(),
            views_of(lines@) == spec_lines(csv@),
            0 <= i <= n,
            ticker_needle@ == "ticker"@,
            asset_needle@ == "asset class"@,
            name_needle@ == "name"@,
            equity_needle@ == "equity"@,
            dash_needle@ == "-"@,
            parse_iwm_rec(spec_lines(csv@), i as int, hdr_view(header), string_pairs(out@))
                == spec_parse_iwm(csv@),
        decreases n - i,
    {
        let line = &lines[i];
        match header {
            None => {
                let lowered = to_lower_chars(line);
                let has_ticker = contains_chars(&lowered, &ticker_needle);
                let has_asset = contains_chars(&lowered, &asset_needle);
                if has_ticker && has_asset {
                    let cols = split_csv_fields(line);
                    let tc = find_col(&cols, &ticker_needle);
                    match tc {
                        Some(t) => {
                            let ncol = find_col(&cols, &name_needle);
                            let acol = find_col(&cols, &asset_needle);
                            header = Some((t, ncol, acol));
                        },
                        None => {},
                    }
                }
            },
            Some((tc, ncol, acol)) => {
                let cols = split_csv_fields(line);
                match parse_data_cols(&cols, tc, ncol, acol, &equity_needle, &dash_needle) {
                    Some(p) => {
                        let ghost old_out = out@;
                        let ghost pv = (p.0@, p.1@);
                        out.push(p);
                        proof {
                            assert(string_pairs(out@) =~= string_pairs(old_out).push(pv));
                        }
                    },
                    None => {},
                }
            },
        }
        i = i + 1;
    }
    out
}

} // verus!
