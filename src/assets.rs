//! The assets the oracle tracks: price-source identifiers and the asset
//! identifiers under which their prices are stored.
use vstd::prelude::*;

verus! {

/// The stored asset identifier for a price-source identifier, if tracked.
pub open spec fn asset_of(source_id: Seq<char>) -> Option<Seq<char>> {
    if source_id == "bitcoin"@ {
        Some("btc"@)
    } else if source_id == "ethereum"@ {
        Some("eth"@)
    } else if source_id == "usd-coin"@ {
        Some("usdc"@)
    } else if source_id == "tether"@ {
        Some("usdt"@)
    } else if source_id == "solana"@ {
        Some("sol"@)
    } else if source_id == "jupiter-exchange-solana"@ {
        Some("jup"@)
    } else {
        None
    }
}

/// The price-source identifiers of all tracked assets.
pub open spec fn source_ids_spec() -> Seq<Seq<char>> {
    seq![
        "bitcoin"@,
        "ethereum"@,
        "usd-coin"@,
        "tether"@,
        "solana"@,
        "jupiter-exchange-solana"@,
    ]
}

/// Lists the price-source identifiers of all tracked assets.
pub fn source_ids() -> (r: Vec<String>)
    ensures
        r@.map_values(|s: String| s@) == source_ids_spec(),
{
    let r = vec![
        String::from_str("bitcoin"),
        String::from_str("ethereum"),
        String::from_str("usd-coin"),
        String::from_str("tether"),
        String::from_str("solana"),
        String::from_str("jupiter-exchange-solana"),
    ];
    assert(r@.map_values(|s: String| s@) =~= source_ids_spec());
    r
}

fn matches_literal(s: &String, lit: &str) -> (r: bool)
    ensures
        r == (s@ == lit@),
{
    let l = String::from_str(lit);
    *s == l
}

/// Looks up the stored asset identifier of a price-source identifier.
pub fn asset_id_for(source_id: &String) -> (r: Option<String>)
    ensures
        r is None <==> asset_of(source_id@) is None,
        r matches Some(a) ==> asset_of(source_id@) == Some(a@),
{
    if matches_literal(source_id, "bitcoin") {
        Some(String::from_str("btc"))
    } else if matches_literal(source_id, "ethereum") {
        Some(String::from_str("eth"))
    } else if matches_literal(source_id, "usd-coin") {
        Some(String::from_str("usdc"))
    } else if matches_literal(source_id, "tether") {
        Some(String::from_str("usdt"))
    } else if matches_literal(source_id, "solana") {
        Some(String::from_str("sol"))
    } else if matches_literal(source_id, "jupiter-exchange-solana") {
        Some(String::from_str("jup"))
    } else {
        None
    }
}

/// The prices to store from `quotes` of `(source id, quoted price)`: each
/// tracked asset that has a price, under its stored identifier, in order.
pub open spec fn selected<P>(quotes: Seq<(String, Option<P>)>) -> Seq<(Seq<char>, P)>
    decreases quotes.len(),
{
    if quotes.len() == 0 {
        seq![]
    } else {
        let rest = selected(quotes.drop_last());
        match (asset_of(quotes.last().0@), quotes.last().1) {
            (Some(a), Some(p)) => rest.push((a, p)),
            _ => rest,
        }
    }
}

/// Keeps the quotes of tracked assets that carry a price, each under its
/// stored asset identifier.
pub fn select_prices<P: Copy>(quotes: &Vec<(String, Option<P>)>) -> (r: Vec<(String, P)>)
    ensures
        r@.map_values(|x: (String, P)| (x.0@, x.1)) == selected(quotes@),
{
    let mut r: Vec<(String, P)> = Vec::new();
    let mut i: usize = 0;
    while i < quotes.len()
        invariant
            i <= quotes@.len(),
            r@.map_values(|x: (String, P)| (x.0@, x.1)) == selected(quotes@.subrange(0, i as int)),
        decreases quotes@.len() - i,
    {
        proof {
            let sub = quotes@.subrange(0, i as int + 1);
            assert(sub.drop_last() == quotes@.subrange(0, i as int));
        }
        let ghost before = r@;
        match asset_id_for(&quotes[i].0) {
            Some(a) => {
                match quotes[i].1 {
                    Some(p) => {
                        r.push((a, p));
                        assert(r@.map_values(|x: (String, P)| (x.0@, x.1)) =~= before.map_values(
                            |x: (String, P)| (x.0@, x.1),
                        ).push((a@, p)));
                    },
                    None => {},
                }
            },
            None => {},
        }
        i = i + 1;
    }
    assert(quotes@.subrange(0, quotes@.len() as int) == quotes@);
    r
}

} // verus!
