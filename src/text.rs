//! Text that the client sends: the comma-joined lists of a price query and
//! the INSERT statement that stores prices.
use vstd::prelude::*;

verus! {

/// `parts` joined with `,` between neighbours.
pub open spec fn joined(parts: Seq<String>) -> Seq<char>
    decreases parts.len(),
{
    if parts.len() == 0 {
        seq![]
    } else if parts.len() == 1 {
        parts[0]@
    } else {
        joined(parts.drop_last()) + ","@ + parts.last()@
    }
}

/// Joins `parts` with `,`.
pub fn join_with_commas(parts: &Vec<String>) -> (r: String)
    ensures
        r@ == joined(parts@),
{
    let mut r = String::new();
    let mut i: usize = 0;
    while i < parts.len()
        invariant
            i <= parts@.len(),
            r@ == joined(parts@.subrange(0, i as int)),
        decreases parts@.len() - i,
    {
        proof {
            let sub = parts@.subrange(0, i as int + 1);
            assert(sub.drop_last() == parts@.subrange(0, i as int));
        }
        if i > 0 {
            r.append(",");
        }
        r.append(parts[i].as_str());
        i = i + 1;
    }
    assert(parts@.subrange(0, parts@.len() as int) == parts@);
    r
}

/// One row of the INSERT statement: the asset, the time of the insert and
/// the price, as text.
pub open spec fn row_text(asset_id: Seq<char>, created_at: Seq<char>, price: Seq<char>) -> Seq<char> {
    "('"@ + asset_id + "', '"@ + created_at + "', "@ + price + ")"@
}

/// The rows `(asset id, price text)` joined with `,`, all stamped `created_at`.
pub open spec fn rows_text(rows: Seq<(String, String)>, created_at: Seq<char>) -> Seq<char>
    decreases rows.len(),
{
    if rows.len() == 0 {
        seq![]
    } else if rows.len() == 1 {
        row_text(rows[0].0@, created_at, rows[0].1@)
    } else {
        rows_text(rows.drop_last(), created_at) + ","@ + row_text(
            rows.last().0@,
            created_at,
            rows.last().1@,
        )
    }
}

/// The statement that stores `rows` in the price table.
pub open spec fn insert_statement_text(rows: Seq<(String, String)>, created_at: Seq<char>) -> Seq<char> {
    "INSERT INTO oracle_prices (asset_id, created_at, usd_price) VALUES "@ + rows_text(rows, created_at)
}

/// Builds the statement that stores each `(asset id, price text)` of `rows`
/// with the time `created_at`.
pub fn insert_statement(rows: &Vec<(String, String)>, created_at: &String) -> (r: String)
    ensures
        r@ == insert_statement_text(rows@, created_at@),
{
    let mut body = String::new();
    let mut i: usize = 0;
    while i < rows.len()
        invariant
            i <= rows@.len(),
            body@ == rows_text(rows@.subrange(0, i as int), created_at@),
        decreases rows@.len() - i,
    {
        proof {
            let sub = rows@.subrange(0, i as int + 1);
            assert(sub.drop_last() == rows@.subrange(0, i as int));
        }
        if i > 0 {
            body.append(",");
        }
        body.append("('");
        body.append(rows[i].0.as_str());
        body.append("', '");
        body.append(created_at.as_str());
        body.append("', ");
        body.append(rows[i].1.as_str());
        body.append(")");
        i = i + 1;
    }
    assert(rows@.subrange(0, rows@.len() as int) == rows@);
    let mut r = String::from_str("INSERT INTO oracle_prices (asset_id, created_at, usd_price) VALUES ");
    r.append(body.as_str());
    r
}

} // verus!
