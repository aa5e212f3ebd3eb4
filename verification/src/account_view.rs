//! What an account's supply and positions are worth, asset by asset: the
//! balance its shares come to and the current yearly rate.

use vstd::prelude::*;
use crate::account_map::AccountMap;
use crate::asset::{Asset, supply_apr_ok, supply_apr_raw, borrow_apr_raw};
use crate::big_decimal::{BigDecimal, big, pow_fits, pow_raw};
use crate::pool::spec_shares_to_amount;
use crate::account::Account;
use crate::booster_staking::BoosterStaking;
use crate::position::Position;
use crate::utils::{AccountId, Balance, Shares, TokenId, MS_PER_YEAR, REGULAR_POSITION};

verus! {

/// One asset of an account.
pub struct AssetView {
    pub token_id: TokenId,
    /// What the shares are worth.
    pub balance: Balance,
    /// The shares the account holds of the asset's pool.
    pub shares: Shares,
    /// The current yearly rate: the supply rate, or for a debt the borrow rate.
    pub apr: BigDecimal,
}

/// The assets of a position.
pub struct PositionView {
    pub collateral: Vec<AssetView>,
    pub borrowed: Vec<AssetView>,
}

/// The yearly rate of an asset can be computed: its borrow rate, or its
/// supply rate where the shares are supplied.
pub open spec fn view_apr_ok(asset: Asset, is_borrowing: bool, margin_debt_discount_rate: u32) -> bool {
    if is_borrowing {
        &&& asset.rate_ok()
        &&& pow_fits(big(), asset.spec_rate(), MS_PER_YEAR as nat)
        &&& asset.spec_rate() >= big()
    } else {
        supply_apr_ok(asset, margin_debt_discount_rate)
    }
}

/// `v` is the view of `shares` of `token_id` in `asset`: borrowed shares are
/// worth their part of the borrowed pool, rounded up, with the borrow rate;
/// supplied shares their part of the supply, rounded down, with the supply
/// rate.
pub open spec fn is_asset_view(v: AssetView, token_id: Seq<char>, shares: Shares, asset: Asset, is_borrowing: bool,
    margin_debt_discount_rate: u32) -> bool
{
    &&& v.token_id@ == token_id
    &&& v.shares == shares
    &&& v.balance == (if is_borrowing {
        spec_shares_to_amount(asset.borrowed.shares as nat, asset.borrowed.balance as nat, shares as nat, true)
    } else {
        spec_shares_to_amount(asset.supplied.shares as nat, asset.supplied.balance as nat, shares as nat, false)
    })
    &&& v.apr@ == (if is_borrowing { borrow_apr_raw(asset) } else { supply_apr_raw(asset, margin_debt_discount_rate) })
}

/// The view of `shares` of `token_id` in `asset`; see `is_asset_view`.
pub fn get_asset_view(token_id: TokenId, shares: Shares, asset: &Asset, is_borrowing: bool, margin_debt_discount_rate: u32)
    -> (r: AssetView)
    requires
        view_apr_ok(*asset, is_borrowing, margin_debt_discount_rate),
    ensures
        is_asset_view(r, token_id@, shares, *asset, is_borrowing, margin_debt_discount_rate),
{
    let apr = if is_borrowing { asset.get_borrow_apr() } else { asset.get_supply_apr(margin_debt_discount_rate) };
    let balance = if is_borrowing {
        asset.borrowed.shares_to_amount(shares, true)
    } else {
        asset.supplied.shares_to_amount(shares, false)
    };
    AssetView { token_id, balance, shares, apr }
}

/// Every token held in `shares` has its asset in `assets`, whose rate can be computed.
pub open spec fn assets_known(shares: AccountMap<Shares>, assets: AccountMap<Asset>, is_borrowing: bool,
    margin_debt_discount_rate: u32) -> bool
{
    forall|i: int| 0 <= i < shares.pairs().len() ==> {
        &&& #[trigger] assets@.contains_key(shares.pairs()[i].0)
        &&& view_apr_ok(assets@[shares.pairs()[i].0], is_borrowing, margin_debt_discount_rate)
    }
}

/// `views` are the views of the held `shares`, in order.
pub open spec fn are_asset_views(views: Seq<AssetView>, shares: AccountMap<Shares>, assets: AccountMap<Asset>,
    is_borrowing: bool, margin_debt_discount_rate: u32) -> bool
{
    &&& views.len() == shares.pairs().len()
    &&& forall|i: int| 0 <= i < views.len() ==> #[trigger] is_asset_view(views[i], shares.pairs()[i].0,
        shares.pairs()[i].1, assets@[shares.pairs()[i].0], is_borrowing, margin_debt_discount_rate)
}

/// The views of the shares held, token by token, in the order they are held.
pub fn asset_views(shares: &AccountMap<Shares>, assets: &AccountMap<Asset>, is_borrowing: bool, margin_debt_discount_rate: u32)
    -> (r: Vec<AssetView>)
    requires
        shares.wf(),
        assets.wf(),
        assets_known(*shares, *assets, is_borrowing, margin_debt_discount_rate),
    ensures
        are_asset_views(r@, *shares, *assets, is_borrowing, margin_debt_discount_rate),
{
    let n = shares.len();
    let mut views: Vec<AssetView> = Vec::new();
    let mut i: usize = 0;
    while i < n
        invariant
            n == shares.pairs().len(),
            i <= n,
            assets.wf(),
            assets_known(*shares, *assets, is_borrowing, margin_debt_discount_rate),
            views@.len() == i,
            forall|j: int| 0 <= j < i ==> #[trigger] is_asset_view(views@[j], shares.pairs()[j].0,
                shares.pairs()[j].1, assets@[shares.pairs()[j].0], is_borrowing, margin_debt_discount_rate),
        decreases n - i,
    {
        let (token_id, s) = shares.entry_at(i);
        assert(assets@.contains_key(shares.pairs()[i as int].0));
        let asset = match assets.get_ref(token_id) {
            Some(a) => a,
            None => { return views; },
        };
        let v = get_asset_view(token_id.clone(), s, asset, is_borrowing, margin_debt_discount_rate);
        views.push(v);
        i = i + 1;
    }
    views
}

/// Every token of the position has its asset in `assets`, whose rate can be
/// computed.
pub open spec fn position_assets_known(position: Position, assets: AccountMap<Asset>, margin_debt_discount_rate: u32) -> bool {
    match position {
        Position::RegularPosition(p) => assets_known(p.collateral, assets, false, margin_debt_discount_rate)
            && assets_known(p.borrowed, assets, true, margin_debt_discount_rate),
        Position::LPTokenPosition(p) => assets@.contains_key(p.lpt_id@)
            && view_apr_ok(assets@[p.lpt_id@], false, margin_debt_discount_rate)
            && assets_known(p.borrowed, assets, true, margin_debt_discount_rate),
    }
}

/// `v` is the view of `position`: its collateral as supplied shares and its
/// debts as borrowed ones, in the order they are held; an LP-token position
/// shows its LP token as its one collateral.
pub open spec fn is_position_view(v: PositionView, position: Position, assets: AccountMap<Asset>, margin_debt_discount_rate: u32) -> bool {
    match position {
        Position::RegularPosition(p) =>
            are_asset_views(v.collateral@, p.collateral, assets, false, margin_debt_discount_rate)
            && are_asset_views(v.borrowed@, p.borrowed, assets, true, margin_debt_discount_rate),
        Position::LPTokenPosition(p) =>
            v.collateral@.len() == 1
            && is_asset_view(v.collateral@[0], p.lpt_id@, p.collateral, assets@[p.lpt_id@], false, margin_debt_discount_rate)
            && are_asset_views(v.borrowed@, p.borrowed, assets, true, margin_debt_discount_rate),
    }
}

/// The view of a position: its collateral as supplied shares and its debts
/// as borrowed ones; an LP-token position shows its LP token as its one
/// collateral.
pub fn position_view(position: &Position, assets: &AccountMap<Asset>, margin_debt_discount_rate: u32) -> (r: PositionView)
    requires
        position.wf(),
        assets.wf(),
        position_assets_known(*position, *assets, margin_debt_discount_rate),
    ensures
        is_position_view(r, *position, *assets, margin_debt_discount_rate),
{
    match position {
        Position::RegularPosition(p) => PositionView {
            collateral: asset_views(&p.collateral, assets, false, margin_debt_discount_rate),
            borrowed: asset_views(&p.borrowed, assets, true, margin_debt_discount_rate),
        },
        Position::LPTokenPosition(p) => {
            let mut collateral: Vec<AssetView> = Vec::new();
            match assets.get_ref(&p.lpt_id) {
                Some(a) => collateral.push(get_asset_view(p.lpt_id.clone(), p.collateral, a, false, margin_debt_discount_rate)),
                None => {},
            }
            PositionView { collateral, borrowed: asset_views(&p.borrowed, assets, true, margin_debt_discount_rate) }
        },
    }
}

/// An account with its regular position, asset by asset.
pub struct AccountDetailedView {
    pub account_id: AccountId,
    /// The assets supplied but not used as collateral.
    pub supplied: Vec<AssetView>,
    /// The collateral of the regular position.
    pub collateral: Vec<AssetView>,
    /// The debts of the regular position.
    pub borrowed: Vec<AssetView>,
    /// The stake of the booster token.
    pub booster_staking: Option<BoosterStaking>,
}

/// An account with all its positions, asset by asset.
pub struct AccountAllPositionsDetailedView {
    pub account_id: AccountId,
    /// The assets supplied but not used as collateral.
    pub supplied: Vec<AssetView>,
    /// Each position by name, in the order the account holds them.
    pub positions: Vec<(String, PositionView)>,
    /// The stake of the booster token.
    pub booster_staking: Option<BoosterStaking>,
    pub is_locked: bool,
}

/// Every asset of the account's supply and of every position has its asset
/// in `assets`, whose rate can be computed.
pub open spec fn account_assets_known(account: Account, assets: AccountMap<Asset>, margin_debt_discount_rate: u32) -> bool {
    &&& assets_known(account.supplied, assets, false, margin_debt_discount_rate)
    &&& forall|i: int| 0 <= i < account.positions.pairs().len()
        ==> #[trigger] position_assets_known(account.positions.pairs()[i].1, assets, margin_debt_discount_rate)
}

/// Every asset of the account's supply and of its regular position has its
/// asset in `assets`, whose rate can be computed.
pub open spec fn regular_assets_known(account: Account, assets: AccountMap<Asset>, margin_debt_discount_rate: u32) -> bool {
    &&& assets_known(account.supplied, assets, false, margin_debt_discount_rate)
    &&& account.positions@.contains_key(REGULAR_POSITION@) ==> match account.positions@[REGULAR_POSITION@] {
        Position::RegularPosition(p) => position_assets_known(Position::RegularPosition(p), assets, margin_debt_discount_rate),
        Position::LPTokenPosition(_) => true,
    }
}

/// The view of an account with its regular position: its supply, and the
/// collateral and debts of its regular position (none where it has no
/// regular position, or one of another kind under that name).
pub fn account_into_regular_position_detailed_view(account: Account, assets: &AccountMap<Asset>, margin_debt_discount_rate: u32)
    -> (r: AccountDetailedView)
    requires
        account.wf(),
        assets.wf(),
        regular_assets_known(account, *assets, margin_debt_discount_rate),
    ensures
        r.account_id == account.account_id,
        are_asset_views(r.supplied@, account.supplied, *assets, false, margin_debt_discount_rate),
        match account.positions@.get(REGULAR_POSITION@) {
            Some(Position::RegularPosition(p)) =>
                are_asset_views(r.collateral@, p.collateral, *assets, false, margin_debt_discount_rate)
                && are_asset_views(r.borrowed@, p.borrowed, *assets, true, margin_debt_discount_rate),
            _ => r.collateral@.len() == 0 && r.borrowed@.len() == 0,
        },
        r.booster_staking == account.booster_staking,
{
    let supplied = asset_views(&account.supplied, assets, false, margin_debt_discount_rate);
    let regular = REGULAR_POSITION.to_string();
    let (collateral, borrowed) = match account.positions.get_ref(&regular) {
        Some(Position::RegularPosition(p)) => (
            asset_views(&p.collateral, assets, false, margin_debt_discount_rate),
            asset_views(&p.borrowed, assets, true, margin_debt_discount_rate),
        ),
        _ => (Vec::new(), Vec::new()),
    };
    AccountDetailedView {
        account_id: account.account_id,
        supplied,
        collateral,
        borrowed,
        booster_staking: account.booster_staking,
    }
}

/// The view of an account with all its positions: its supply, and each
/// position by name in the order it holds them (see `is_position_view`).
pub fn account_into_all_positions_detailed_view(account: Account, assets: &AccountMap<Asset>, margin_debt_discount_rate: u32)
    -> (r: AccountAllPositionsDetailedView)
    requires
        account.wf(),
        assets.wf(),
        account_assets_known(account, *assets, margin_debt_discount_rate),
    ensures
        r.account_id == account.account_id,
        are_asset_views(r.supplied@, account.supplied, *assets, false, margin_debt_discount_rate),
        r.positions@.len() == account.positions.pairs().len(),
        forall|i: int| 0 <= i < r.positions@.len() ==> {
            &&& #[trigger] r.positions@[i].0@ == account.positions.pairs()[i].0
            &&& is_position_view(r.positions@[i].1, account.positions.pairs()[i].1, *assets, margin_debt_discount_rate)
        },
        r.booster_staking == account.booster_staking,
        r.is_locked == account.is_locked,
{
    let supplied = asset_views(&account.supplied, assets, false, margin_debt_discount_rate);
    let n = account.positions.len();
    let mut positions: Vec<(String, PositionView)> = Vec::new();
    let mut i: usize = 0;
    while i < n
        invariant
            n == account.positions.pairs().len(),
            i <= n,
            account.wf(),
            assets.wf(),
            account_assets_known(account, *assets, margin_debt_discount_rate),
            positions@.len() == i,
            forall|j: int| 0 <= j < i ==> {
                &&& #[trigger] positions@[j].0@ == account.positions.pairs()[j].0
                &&& is_position_view(positions@[j].1, account.positions.pairs()[j].1, *assets, margin_debt_discount_rate)
            },
        decreases n - i,
    {
        let (name, position) = account.positions.entry_ref_at(i);
        proof {
            account.positions.lemma_view_at(i as int);
            assert(position_assets_known(account.positions.pairs()[i as int].1, *assets, margin_debt_discount_rate));
        }
        let v = position_view(position, assets, margin_debt_discount_rate);
        positions.push((name.clone(), v));
        i = i + 1;
    }
    AccountAllPositionsDetailedView {
        account_id: account.account_id,
        supplied,
        positions,
        booster_staking: account.booster_staking,
        is_locked: account.is_locked,
    }
}

} // verus!
