//! Token prices given by the oracle.

use vstd::prelude::*;
use crate::account_map::AccountMap;
use crate::asset::Asset;
use crate::utils::TokenId;

verus! {

/// A price: `multiplier / 10^decimals` units of value per smallest unit of the token.
#[derive(Clone, Copy, PartialEq, Eq, Debug)]
pub struct Price {
    pub multiplier: u128,
    pub decimals: u8,
}

/// The prices of tokens.
pub struct Prices {
    pub prices: AccountMap<Price>,
}

impl Prices {
    /// No prices.
    pub fn new() -> (r: Prices)
        ensures
            r.prices.wf(),
            r.prices.view() == Map::<Seq<char>, Price>::empty(),
    {
        Prices { prices: AccountMap::new() }
    }

    /// The given prices.
    pub fn from_prices(prices: AccountMap<Price>) -> (r: Prices)
        ensures
            r.prices == prices,
    {
        Prices { prices }
    }

    /// The price of `token_id`, which must be known.
    pub fn get_unwrap(&self, token_id: &TokenId) -> (r: Price)
        requires
            self.prices.wf(),
            self.prices.view().contains_key(token_id@),
        ensures
            r == self.prices.view()[token_id@],
    {
        match self.prices.get(token_id) {
            Some(p) => p,
            None => Price { multiplier: 0, decimals: 0 },
        }
    }
}

/// The last prices once `pairs` were recorded in turn: a price is recorded
/// for a token that already has a last price or that has an asset.
pub open spec fn prices_recorded(last: Map<Seq<char>, Price>, asset_tokens: Set<Seq<char>>, pairs: Seq<(Seq<char>, Price)>)
    -> Map<Seq<char>, Price>
    decreases pairs.len(),
{
    if pairs.len() == 0 {
        last
    } else {
        let m = prices_recorded(last, asset_tokens, pairs.drop_last());
        let (k, v) = pairs.last();
        if m.contains_key(k) || asset_tokens.contains(k) { m.insert(k, v) } else { m }
    }
}

/// Records `prices` as the last prices, for the tokens that already have a
/// last price or that have an asset (see `prices_recorded`); prices of other
/// tokens are left out.
pub fn internal_set_prices(last_prices: &mut AccountMap<Price>, assets: &AccountMap<Asset>, prices: &Prices)
    requires
        old(last_prices).wf(),
        assets.wf(),
        prices.prices.wf(),
    ensures
        final(last_prices).wf(),
        final(last_prices)@ == prices_recorded(old(last_prices)@, assets@.dom(), prices.prices.pairs()),
{
    let n = prices.prices.len();
    let mut i: usize = 0;
    while i < n
        invariant
            n == prices.prices.pairs().len(),
            i <= n,
            assets.wf(),
            last_prices.wf(),
            last_prices@ == prices_recorded(old(last_prices)@, assets@.dom(), prices.prices.pairs().take(i as int)),
        decreases n - i,
    {
        let (token_id, price) = prices.prices.entry_at(i);
        proof {
            assert(prices.prices.pairs().take(i as int + 1).drop_last() =~= prices.prices.pairs().take(i as int));
        }
        if last_prices.get_ref(token_id).is_some() || assets.get_ref(token_id).is_some() {
            last_prices.insert(token_id, price);
        }
        i = i + 1;
    }
    proof {
        assert(prices.prices.pairs().take(n as int) =~= prices.prices.pairs());
    }
}

} // verus!
