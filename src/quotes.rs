//! The price query: its parameters and the key that authorises it.
use vstd::prelude::*;

use crate::text::{join_with_commas, joined};

verus! {

/// Why a client could not be configured.
#[derive(Clone, Copy, Debug, PartialEq, Eq, Structural)]
pub enum ConfigError {
    /// The price source needs an API key and none was given.
    MissingApiKey,
}

/// Accepts an API key for the price source, refusing an empty one.
pub fn check_api_key(api_key: String) -> (r: Result<String, ConfigError>)
    ensures
        api_key@.len() == 0 <==> r == Err::<String, ConfigError>(ConfigError::MissingApiKey),
        r matches Ok(k) ==> k@ == api_key@,
{
    if api_key.as_str().unicode_len() == 0 {
        Err(ConfigError::MissingApiKey)
    } else {
        Ok(api_key)
    }
}

/// The query parameters asking for the latest prices of `ids` in
/// `currencies`, at full precision.
pub open spec fn price_params_spec(ids: Seq<String>, currencies: Seq<String>) -> Seq<(Seq<char>, Seq<char>)> {
    seq![
        ("ids"@, joined(ids)),
        ("vs_currencies"@, joined(currencies)),
        ("precision"@, "full"@),
    ]
}

/// Builds the query parameters of a latest-price request.
pub fn price_params(ids: &Vec<String>, currencies: &Vec<String>) -> (r: Vec<(String, String)>)
    ensures
        r@.map_values(|p: (String, String)| (p.0@, p.1@)) == price_params_spec(ids@, currencies@),
{
    let r = vec![
        (String::from_str("ids"), join_with_commas(ids)),
        (String::from_str("vs_currencies"), join_with_commas(currencies)),
        (String::from_str("precision"), String::from_str("full")),
    ];
    assert(r@.map_values(|p: (String, String)| (p.0@, p.1@)) =~= price_params_spec(ids@, currencies@));
    r
}

} // verus!
