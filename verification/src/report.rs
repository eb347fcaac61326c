//! Plain-value helpers behind the report and catalogue-import edges: cell
//! formatting, row splitting, and turning raw catalogue rows into entries.

use vstd::prelude::*;
use crate::opening::Opening;
use crate::text;
use crate::text::{int_rep, segs_of};

verus! {

broadcast use vstd::string::group_string_axioms;

/// Formats an optional boundary index for a report cell: the number in
/// decimal, or a single space when the boundary was never set.
pub fn convert_to_string(input: Option<i32>) -> (r: String)
    ensures
        input matches Some(a) ==> r@ == int_rep(a as int),
        input is None ==> r@ == " "@,
{
    match input {
        Some(a) => text::i32_to_string(a),
        None => String::from_str(" "),
    }
}

/// Splits one tab-separated catalogue row into its cells.
pub fn format_row(row: &str) -> (r: Vec<String>)
    ensures
        r.deep_view() == segs_of(row@, '\t'),
        r.len() >= 1,
{
    text::split_char(row, '\t')
}

/// The catalogue rows that carry an entry: at least three cells, and not
/// the header row.
pub open spec fn entry_rows(rows: Seq<Seq<Seq<char>>>) -> Seq<Seq<Seq<char>>> {
    rows.filter(|r: Seq<Seq<char>>| r.len() >= 3 && r[0] != "eco"@)
}

/// Builds catalogue entries from split rows: every row with a code, a
/// name and a move text — skipping the header row — becomes an entry, with
/// identifiers assigned in sequence starting at `id`.
pub fn collect_openings(rows: &Vec<Vec<String>>, id: &mut i32) -> (r: Vec<Opening>)
    requires
        *old(id) >= 0,
        *old(id) + rows@.len() <= i32::MAX,
    ensures
        *final(id) == *old(id) + entry_rows(rows.deep_view()).len(),
        r@.len() == entry_rows(rows.deep_view()).len(),
        forall|t: int|
            0 <= t < r@.len() ==> {
                let kept = entry_rows(rows.deep_view());
                &&& #[trigger] r@[t].id == *old(id) + t
                &&& r@[t].eco@ == kept[t][0]
                &&& r@[t].name@ == kept[t][1]
                &&& r@[t].pgn@ == kept[t][2]
            },
{
    proof {
        reveal_strlit("eco");
    }
    let ghost rws = rows.deep_view();
    let ghost start = *id;
    let mut out: Vec<Opening> = Vec::new();
    let mut i: usize = 0;
    proof {
        assert(rws.take(0).filter(|r: Seq<Seq<char>>| r.len() >= 3 && r[0] != "eco"@)
            =~= Seq::<Seq<Seq<char>>>::empty());
    }
    while i < rows.len()
        invariant
            0 <= i <= rows@.len(),
            rws == rows.deep_view(),
            start == *old(id),
            start >= 0,
            start + rws.len() <= i32::MAX,
            *id == start + entry_rows(rws.take(i as int)).len(),
            entry_rows(rws.take(i as int)).len() <= i,
            out@.len() == entry_rows(rws.take(i as int)).len(),
            forall|t: int|
                0 <= t < out@.len() ==> {
                    &&& (#[trigger] out@[t]).id == start + t
                    &&& out@[t].eco@ == entry_rows(rws.take(i as int))[t][0]
                    &&& out@[t].name@ == entry_rows(rws.take(i as int))[t][1]
                    &&& out@[t].pgn@ == entry_rows(rws.take(i as int))[t][2]
                },
        decreases rows@.len() - i,
    {
        proof {
            assert(rws.take(i + 1).drop_last() =~= rws.take(i as int));
            assert(rws.take(i + 1).last() == rws[i as int]);
            reveal_with_fuel(Seq::filter, 2);
        }
        let row = &rows[i];
        assert(row.deep_view() == rws[i as int]);
        if row.len() >= 3 && !text::str_eq(row[0].as_str(), "eco") {
            assert(row@[0]@ == rws[i as int][0]);
            assert(row@[1]@ == rws[i as int][1]);
            assert(row@[2]@ == rws[i as int][2]);
            let eco = String::from_str(row[0].as_str());
            let name = String::from_str(row[1].as_str());
            let pgn = String::from_str(row[2].as_str());
            let ghost out_old = out@;
            out.push(Opening::new(*id, eco, name, pgn));
            *id = *id + 1;
            proof {
                assert(entry_rows(rws.take(i + 1)) =~= entry_rows(rws.take(i as int)).push(
                    rws[i as int],
                ));
                let kept = entry_rows(rws.take(i + 1));
                assert forall|t: int| 0 <= t < out@.len() implies {
                    &&& #[trigger] out@[t].id == start + t
                    &&& out@[t].eco@ == kept[t][0]
                    &&& out@[t].name@ == kept[t][1]
                    &&& out@[t].pgn@ == kept[t][2]
                } by {
                    if t < out_old.len() {
                        assert(out@[t] == out_old[t]);
                        assert(kept[t] == entry_rows(rws.take(i as int))[t]);
                    } else {
                        assert(out@[t] == out@.last());
                        assert(kept[t] == rws[i as int]);
                    }
                }
            }
        } else {
            proof {
                assert(row@.len() >= 3 ==> row@[0]@ == rws[i as int][0]);
                assert(entry_rows(rws.take(i + 1)) =~= entry_rows(rws.take(i as int)));
                let kept = entry_rows(rws.take(i + 1));
                assert forall|t: int| 0 <= t < out@.len() implies {
                    &&& #[trigger] out@[t].id == start + t
                    &&& out@[t].eco@ == kept[t][0]
                    &&& out@[t].name@ == kept[t][1]
                    &&& out@[t].pgn@ == kept[t][2]
                } by {
                    assert(kept == entry_rows(rws.take(i as int)));
                }
            }
        }
        i += 1;
    }
    proof {
        assert(rws.take(rws.len() as int) =~= rws);
    }
    out
}

} // verus!
