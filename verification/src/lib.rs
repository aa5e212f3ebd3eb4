//! Verified core of a NEAR lending and margin-trading protocol: fixed-point
//! arithmetic, share pools, interest accrual, accounts and their positions,
//! the checks on batches of actions and their execution, the health of
//! positions, liquidation (of regular and of shadow LP-token positions) and
//! closing by force, oracle prices, tokens received, margin trading (opening,
//! decreasing, running a batch of margin actions, settling a trade's return)
//! and the event lines the contract logs.

pub mod wide;
pub mod utils;
pub mod big_decimal;
pub mod pool;
pub mod account_map;
pub mod asset_config;
pub mod events;
pub mod asset;
pub mod storage_tracker;
pub mod whitelist;
pub mod position;
pub mod margin_config;
pub mod margin_position;
pub mod margin_base_token_limit;
pub mod margin_trading;
pub mod margin_health;
pub mod position_health;
pub mod protocol_debts;
pub mod config;
pub mod booster_staking;
pub mod prices;
pub mod actions;
pub mod lending;
pub mod json;
pub mod pyth;
pub mod legacy;
pub mod account;
pub mod account_lending;
pub mod account_view;
pub mod margin_actions;
pub mod margin_account;
pub mod shadow;
pub mod involved;
pub mod execute;
pub mod account_health;
pub mod batch;
pub mod liquidation;
pub mod force_close;
pub mod margin_open;
pub mod fungible_token;
pub mod margin_decrease;
pub mod margin_execute;
pub mod shadow_liquidation;
pub mod margin_settle;
