//! Migration-script splitting.
//!
//! A migration file holds several SQL statements separated by
//! semicolons. The store layer runs them one at a time; the splitting —
//! separate on semicolons, trim each piece, keep the non-empty ones — is
//! verified here.

use vstd::prelude::*;

use crate::text::chars_to_string;
use crate::text::split_char;
use crate::text::str_chars;
use crate::text::trim_chars;
use crate::text::trimmed;
use crate::text::views_of;

verus! {

/// The trimmed, non-empty pieces of a sequence of pieces.
pub open spec fn nonempty_trimmed(pieces: Seq<Seq<char>>) -> Seq<Seq<char>>
    decreases pieces.len(),
{
    if pieces.len() == 0 {
        Seq::empty()
    } else {
        nonempty_trimmed(pieces.drop_last()) + (if trimmed(pieces.last()).len() > 0 {
            seq![trimmed(pieces.last())]
        } else {
            Seq::empty()
        })
    }
}

/// The statements of a migration script: the semicolon-separated pieces,
/// trimmed, empty pieces dropped.
pub open spec fn spec_sql_statements(sql: Seq<char>) -> Seq<Seq<char>> {
    nonempty_trimmed(split_char(sql, ';'))
}

/// Split a migration script into its statements, per
/// [`spec_sql_statements`].
pub fn split_sql_statements(sql: &str) -> (r: Vec<String>)
    ensures
        r@.map_values(|s: String| s@) == spec_sql_statements(sql@),
{
    let cs = str_chars(sql);
    let pieces = crate::text::split_chars_on(&cs, ';');
    let ghost pv = views_of(pieces@);
    let n = pieces.len();
    let mut out: Vec<String> = Vec::new();
    proof {
        assert(out@.map_values(|s: String| s@) =~= Seq::<Seq<char>>::empty());
        assert(pv.take(0) =~= Seq::<Seq<char>>::empty());
    }
    let mut i: usize = 0;
    while i < n
        invariant
            n == pieces@.len(),
            pv == views_of(pieces@),
            0 <= i <= n,
            out@.map_values(|s: String| s@) == nonempty_trimmed(pv.take(i as int)),
        decreases n - i,
    {
        proof {
            assert(pv.take(i + 1).drop_last() =~= pv.take(i as int));
            assert(pv.take(i + 1).last() == pv[i as int]);
        }
        let t = trim_chars(&pieces[i]);
        if t.len() > 0 {
            let s = chars_to_string(&t);
            let ghost old_out = out@;
            out.push(s);
            proof {
                assert(out@.map_values(|x: String| x@) =~= old_out.map_values(
                    |x: String| x@,
                ).push(t@));
                assert(old_out.map_values(|x: String| x@).push(t@) =~= old_out.map_values(
                    |x: String| x@,
                ) + seq![t@]);
            }
        }
        i = i + 1;
    }
    proof {
        assert(pv.take(n as int) =~= pv);
    }
    out
}

} // verus!
