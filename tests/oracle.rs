use price_oracle::assets::{asset_id_for, select_prices, source_ids};
use price_oracle::quotes::{check_api_key, price_params, ConfigError};
use price_oracle::text::{insert_statement, join_with_commas};

fn strings(items: &[&str]) -> Vec<String> {
    items.iter().map(|s| s.to_string()).collect()
}

#[test]
fn tracked_assets_map_to_tickers() {
    let cases = [
        ("bitcoin", "btc"),
        ("ethereum", "eth"),
        ("usd-coin", "usdc"),
        ("tether", "usdt"),
        ("solana", "sol"),
        ("jupiter-exchange-solana", "jup"),
    ];
    for (id, asset) in cases {
        assert_eq!(asset_id_for(&id.to_string()), Some(asset.to_string()));
    }
    assert_eq!(asset_id_for(&"dogecoin".to_string()), None);
    assert_eq!(asset_id_for(&"".to_string()), None);
    assert_eq!(asset_id_for(&"Bitcoin".to_string()), None);
}

#[test]
fn source_ids_are_the_tracked_ones() {
    let ids = source_ids();
    assert_eq!(ids.len(), 6);
    for id in &ids {
        assert!(asset_id_for(id).is_some());
    }
}

#[test]
fn select_keeps_tracked_priced_quotes() {
    let quotes = vec![
        ("bitcoin".to_string(), Some(65000.5f64)),
        ("dogecoin".to_string(), Some(0.1)),
        ("tether".to_string(), None),
        ("solana".to_string(), Some(150.0)),
    ];
    let chosen = select_prices(&quotes);
    assert_eq!(
        chosen,
        vec![("btc".to_string(), 65000.5), ("sol".to_string(), 150.0)]
    );
    let none: Vec<(String, Option<f64>)> = Vec::new();
    assert!(select_prices(&none).is_empty());
}

#[test]
fn join_places_commas_between() {
    assert_eq!(join_with_commas(&strings(&[])), "");
    assert_eq!(join_with_commas(&strings(&["usd"])), "usd");
    assert_eq!(join_with_commas(&strings(&["bitcoin", "ethereum", "tether"])), "bitcoin,ethereum,tether");
}

#[test]
fn price_params_for_request() {
    let params = price_params(&strings(&["bitcoin", "solana"]), &strings(&["usd"]));
    assert_eq!(
        params,
        vec![
            ("ids".to_string(), "bitcoin,solana".to_string()),
            ("vs_currencies".to_string(), "usd".to_string()),
            ("precision".to_string(), "full".to_string()),
        ]
    );
}

#[test]
fn empty_api_key_is_refused() {
    assert_eq!(check_api_key(String::new()), Err(ConfigError::MissingApiKey));
    assert_eq!(check_api_key("abc".to_string()), Ok("abc".to_string()));
}

#[test]
fn insert_statement_lists_rows() {
    let rows = vec![
        ("btc".to_string(), "65000.5".to_string()),
        ("eth".to_string(), "3000".to_string()),
    ];
    let ts = "2024-01-01 00:00:00 UTC".to_string();
    assert_eq!(
        insert_statement(&rows, &ts),
        "INSERT INTO oracle_prices (asset_id, created_at, usd_price) VALUES \
         ('btc', '2024-01-01 00:00:00 UTC', 65000.5),('eth', '2024-01-01 00:00:00 UTC', 3000)"
    );
    assert_eq!(
        insert_statement(&Vec::new(), &ts),
        "INSERT INTO oracle_prices (asset_id, created_at, usd_price) VALUES "
    );
}
