//! Swap messages to dexes and the settlement arithmetic of margin positions.

use vstd::prelude::*;
use crate::account_map::AccountMap;
use crate::asset::Asset;
use crate::margin_position::MarginTradingPosition;
use crate::pool::{Pool, spec_amount_to_shares, spec_shares_to_amount, lemma_shares_to_amount_le_balance};
use crate::utils::{AccountId, Balance, Shares, TokenId, MAX_RATIO, UNIT, u128_ratio};
use crate::json::{dec, json_amount, json_string, member, push_amount, push_dec, push_json_string, push_key, push_opt_string, string_push};

verus! {

/// How a client asks to trade: a dex and the text of its swap actions.
#[derive(Clone)]
pub struct SwapIndication {
    pub dex_id: AccountId,
    pub swap_action_text: String,
}

/// One swap of a RefV1 dex.
pub struct RefV1SwapAction {
    /// The pool to swap in.
    pub pool_id: u64,
    /// The token swapped from.
    pub token_in: AccountId,
    /// The amount swapped; when `None`, what the previous step gave.
    pub amount_in: Option<u128>,
    /// The token swapped to.
    pub token_out: AccountId,
    /// The least amount of `token_out` accepted.
    pub min_amount_out: u128,
}

/// An action of a RefV1 dex.
pub enum RefV1Action {
    Swap(RefV1SwapAction),
}

impl RefV1Action {
    /// The swap of the action.
    pub open spec fn swap(&self) -> RefV1SwapAction {
        match self {
            RefV1Action::Swap(a) => *a,
        }
    }

    /// The token swapped from.
    pub fn get_token_in(&self) -> (r: AccountId)
        ensures
            r == self.swap().token_in,
    {
        match self {
            RefV1Action::Swap(action) => action.token_in.clone(),
        }
    }

    /// The amount swapped (which must be given).
    pub fn get_amount_in(&self) -> (r: u128)
        requires
            self.swap().amount_in is Some,
        ensures
            r == self.swap().amount_in.unwrap(),
    {
        match self {
            RefV1Action::Swap(action) => match action.amount_in {
                Some(a) => a,
                None => 0,
            },
        }
    }

    /// The token swapped to.
    pub fn get_token_out(&self) -> (r: AccountId)
        ensures
            r == self.swap().token_out,
    {
        match self {
            RefV1Action::Swap(action) => action.token_out.clone(),
        }
    }

    /// The least amount accepted.
    pub fn get_min_amount_out(&self) -> (r: u128)
        ensures
            r == self.swap().min_amount_out,
    {
        match self {
            RefV1Action::Swap(action) => action.min_amount_out,
        }
    }
}

/// The sum of the amounts in of the actions that swap from `token`.
pub open spec fn amount_in_sum(actions: Seq<RefV1Action>, token: Seq<char>) -> nat
    decreases actions.len(),
{
    if actions.len() == 0 {
        0
    } else {
        amount_in_sum(actions.drop_last(), token) + if actions.last().swap().token_in@ == token {
            actions.last().swap().amount_in.unwrap() as nat
        } else {
            0
        }
    }
}

/// The sum of the least amounts out of the actions that swap to `token`.
pub open spec fn min_amount_out_sum(actions: Seq<RefV1Action>, token: Seq<char>) -> nat
    decreases actions.len(),
{
    if actions.len() == 0 {
        0
    } else {
        min_amount_out_sum(actions.drop_last(), token) + if actions.last().swap().token_out@ == token {
            actions.last().swap().min_amount_out as nat
        } else {
            0
        }
    }
}

/// Every action that swaps from `token` gives its amount, and their sum fits.
pub open spec fn amounts_in_given(actions: Seq<RefV1Action>, token: Seq<char>) -> bool {
    &&& forall|i: int| 0 <= i < actions.len() && (#[trigger] actions[i]).swap().token_in@ == token
        ==> actions[i].swap().amount_in is Some
    &&& forall|n: int| 0 <= n <= actions.len() ==> #[trigger] amount_in_sum(actions.take(n), token) <= u128::MAX
}

/// The message sent with tokens to a RefV1 dex.
pub enum RefV1TokenReceiverMessage {
    Execute {
        referral_id: Option<AccountId>,
        /// The swaps, in order.
        actions: Vec<RefV1Action>,
        /// When given, the dex sends the output back with this message.
        client_echo: Option<String>,
        skip_degen_price_sync: Option<bool>,
    },
}

impl RefV1TokenReceiverMessage {
    /// The actions.
    pub open spec fn actions(&self) -> Seq<RefV1Action> {
        match self {
            RefV1TokenReceiverMessage::Execute { actions, .. } => actions@,
        }
    }

    /// The client echo.
    pub open spec fn client_echo(&self) -> Option<String> {
        match self {
            RefV1TokenReceiverMessage::Execute { client_echo, .. } => *client_echo,
        }
    }

    /// The token of the first action, and the sum of the amounts in of the
    /// actions that swap from it.
    pub fn get_token_in(&self) -> (r: (AccountId, Balance))
        requires
            self.actions().len() > 0,
            amounts_in_given(self.actions(), self.actions()[0].swap().token_in@),
        ensures
            r.0 == self.actions()[0].swap().token_in,
            r.1 == amount_in_sum(self.actions(), r.0@),
    {
        match self {
            RefV1TokenReceiverMessage::Execute { actions, .. } => {
                let token_in = actions[0].get_token_in();
                let mut sum: u128 = 0;
                let mut i: usize = 0;
                while i < actions.len()
                    invariant
                        i <= actions@.len(),
                        actions@ == self.actions(),
                        token_in == self.actions()[0].swap().token_in,
                        amounts_in_given(actions@, token_in@),
                        sum == amount_in_sum(actions@.take(i as int), token_in@),
                    decreases actions@.len() - i,
                {
                    assert(actions@.take(i as int + 1).drop_last() =~= actions@.take(i as int));
                    assert(actions@.take(i as int + 1).last() == actions@[i as int]);
                    assert(amount_in_sum(actions@.take(i as int + 1), token_in@) <= u128::MAX);
                    let t = actions[i].get_token_in();
                    if t == token_in {
                        sum = sum + actions[i].get_amount_in();
                    }
                    i = i + 1;
                }
                assert(actions@.take(actions@.len() as int) =~= actions@);
                (token_in, sum)
            },
        }
    }

    /// The token of the last action, and the sum of the least amounts out of
    /// the actions that swap to it.
    pub fn get_token_out(&self) -> (r: (AccountId, Balance))
        requires
            self.actions().len() > 0,
            forall|n: int| 0 <= n <= self.actions().len() ==> #[trigger] min_amount_out_sum(self.actions().take(n),
                self.actions().last().swap().token_out@) <= u128::MAX,
        ensures
            r.0 == self.actions().last().swap().token_out,
            r.1 == min_amount_out_sum(self.actions(), r.0@),
    {
        match self {
            RefV1TokenReceiverMessage::Execute { actions, .. } => {
                let token_out = actions[actions.len() - 1].get_token_out();
                let mut sum: u128 = 0;
                let mut i: usize = 0;
                while i < actions.len()
                    invariant
                        i <= actions@.len(),
                        actions@ == self.actions(),
                        actions@.len() > 0,
                        token_out == self.actions().last().swap().token_out,
                        forall|n: int| 0 <= n <= actions@.len() ==> #[trigger] min_amount_out_sum(actions@.take(n), token_out@) <= u128::MAX,
                        sum == min_amount_out_sum(actions@.take(i as int), token_out@),
                    decreases actions@.len() - i,
                {
                    assert(actions@.take(i as int + 1).drop_last() =~= actions@.take(i as int));
                    assert(actions@.take(i as int + 1).last() == actions@[i as int]);
                    assert(min_amount_out_sum(actions@.take(i as int + 1), token_out@) <= u128::MAX);
                    let t = actions[i].get_token_out();
                    if t == token_out {
                        sum = sum + actions[i].get_min_amount_out();
                    }
                    i = i + 1;
                }
                assert(actions@.take(actions@.len() as int) =~= actions@);
                (token_out, sum)
            },
        }
    }

    /// The client echo.
    pub fn get_client_echo(&self) -> (r: Option<String>)
        ensures
            r == self.client_echo(),
    {
        match self {
            RefV1TokenReceiverMessage::Execute { client_echo, .. } => match client_echo {
                Some(e) => Some(e.clone()),
                None => None,
            },
        }
    }

    /// Sets the client echo.
    pub fn set_client_echo(&mut self, echo: &String)
        ensures
            final(self).client_echo() == Some(*echo),
            final(self).actions() == old(self).actions(),
            *old(self) matches RefV1TokenReceiverMessage::Execute { referral_id, actions, skip_degen_price_sync, .. }
                && *final(self) == (RefV1TokenReceiverMessage::Execute {
                    referral_id, actions, client_echo: Some(*echo), skip_degen_price_sync }),
    {
        match self {
            RefV1TokenReceiverMessage::Execute { client_echo, .. } => {
                *client_echo = Some(echo.clone());
            },
        }
    }
}

/// The message sent with tokens to a RefV2 dex.
pub enum RefV2TokenReceiverMessage {
    Deposit,
    Swap {
        pool_ids: Vec<String>,
        output_token: AccountId,
        min_output_amount: u128,
        skip_unwrap_near: Option<bool>,
        /// When given, the dex sends the output back with this message.
        client_echo: Option<String>,
    },
}

impl RefV2TokenReceiverMessage {
    /// The output token, the least output amount and whether unwrapping NEAR
    /// is skipped, of a swap message.
    pub fn get_token_out(&self) -> (r: (AccountId, Balance, Option<bool>))
        requires
            self is Swap,
        ensures
            self matches RefV2TokenReceiverMessage::Swap { output_token, min_output_amount, skip_unwrap_near, .. }
                && r.0 == output_token && r.1 == min_output_amount && r.2 == skip_unwrap_near,
    {
        match self {
            RefV2TokenReceiverMessage::Swap { output_token, min_output_amount, skip_unwrap_near, .. } =>
                (output_token.clone(), *min_output_amount, *skip_unwrap_near),
            RefV2TokenReceiverMessage::Deposit => (String::new(), 0, None),
        }
    }

    /// The client echo of a swap message.
    pub fn get_client_echo(&self) -> (r: Option<String>)
        requires
            self is Swap,
        ensures
            self matches RefV2TokenReceiverMessage::Swap { client_echo, .. } && r == client_echo,
    {
        match self {
            RefV2TokenReceiverMessage::Swap { client_echo, .. } => match client_echo {
                Some(e) => Some(e.clone()),
                None => None,
            },
            RefV2TokenReceiverMessage::Deposit => None,
        }
    }

    /// Sets the client echo of a swap message.
    pub fn set_client_echo(&mut self, echo: &String)
        requires
            *old(self) is Swap,
        ensures
            *old(self) matches RefV2TokenReceiverMessage::Swap { pool_ids, output_token, min_output_amount, skip_unwrap_near, .. }
                && *final(self) == (RefV2TokenReceiverMessage::Swap {
                    pool_ids, output_token, min_output_amount, skip_unwrap_near, client_echo: Some(*echo) }),
    {
        match self {
            RefV2TokenReceiverMessage::Swap { client_echo, .. } => {
                *client_echo = Some(echo.clone());
            },
            RefV2TokenReceiverMessage::Deposit => {},
        }
    }
}

/// A message to a dex of either version.
pub enum MsgToDex {
    RefV1(RefV1TokenReceiverMessage),
    RefV2(RefV2TokenReceiverMessage),
}

/// A swap to perform: the dex and its message.
pub struct SwapDetail {
    pub dex_id: AccountId,
    pub dex_msg: MsgToDex,
}

impl SwapDetail {
    /// Whether the swap spends exactly `amount_in` of `token_in` (always true of RefV2 messages).
    pub fn verify_token_in(&self, token_in: &AccountId, amount_in: Balance) -> (r: bool)
        requires
            self.dex_msg matches MsgToDex::RefV1(m) ==> m.actions().len() > 0
                && amounts_in_given(m.actions(), m.actions()[0].swap().token_in@),
        ensures
            r == match self.dex_msg {
                MsgToDex::RefV1(m) => m.actions()[0].swap().token_in@ == token_in@
                    && amount_in_sum(m.actions(), m.actions()[0].swap().token_in@) == amount_in,
                MsgToDex::RefV2(_) => true,
            },
    {
        match &self.dex_msg {
            MsgToDex::RefV1(refv1_msg) => {
                let (msg_token_in, msg_amount_in) = refv1_msg.get_token_in();
                msg_token_in == *token_in && msg_amount_in == amount_in
            },
            MsgToDex::RefV2(_refv2_msg) => true,
        }
    }

    /// Whether the swap asks for at least `min_amount_out` of `token_out`
    /// exactly (and, for RefV2, skips unwrapping NEAR).
    pub fn verify_token_out(&self, token_out: &AccountId, min_amount_out: Balance) -> (r: bool)
        requires
            self.dex_msg matches MsgToDex::RefV1(m) ==> m.actions().len() > 0
                && forall|n: int| 0 <= n <= m.actions().len() ==> #[trigger] min_amount_out_sum(m.actions().take(n),
                    m.actions().last().swap().token_out@) <= u128::MAX,
            self.dex_msg matches MsgToDex::RefV2(m) ==> m is Swap,
        ensures
            r == match self.dex_msg {
                MsgToDex::RefV1(m) => m.actions().last().swap().token_out@ == token_out@
                    && min_amount_out_sum(m.actions(), m.actions().last().swap().token_out@) == min_amount_out,
                MsgToDex::RefV2(m) => m matches RefV2TokenReceiverMessage::Swap { output_token, min_output_amount, skip_unwrap_near, .. }
                    && output_token@ == token_out@ && min_output_amount == min_amount_out
                    && skip_unwrap_near == Some(true),
            },
    {
        match &self.dex_msg {
            MsgToDex::RefV1(refv1_msg) => {
                let (msg_token_out, msg_min_amount_out) = refv1_msg.get_token_out();
                msg_token_out == *token_out && msg_min_amount_out == min_amount_out
            },
            MsgToDex::RefV2(refv2_msg) => {
                let (msg_token_out, msg_min_amount_out, skip_unwrap_near) = refv2_msg.get_token_out();
                msg_token_out == *token_out && msg_min_amount_out == min_amount_out
                    && match skip_unwrap_near {
                        Some(b) => b,
                        None => false,
                    }
            },
        }
    }

    /// The client echo of the message.
    pub fn get_client_echo(&self) -> (r: Option<String>)
        requires
            self.dex_msg matches MsgToDex::RefV2(m) ==> m is Swap,
        ensures
            r == match self.dex_msg {
                MsgToDex::RefV1(m) => m.client_echo(),
                MsgToDex::RefV2(m) => match m {
                    RefV2TokenReceiverMessage::Swap { client_echo, .. } => client_echo,
                    RefV2TokenReceiverMessage::Deposit => None,
                },
            },
    {
        match &self.dex_msg {
            MsgToDex::RefV1(refv1_msg) => refv1_msg.get_client_echo(),
            MsgToDex::RefV2(refv2_msg) => refv2_msg.get_client_echo(),
        }
    }

    /// Sets the client echo of the message.
    pub fn set_client_echo(&mut self, echo: &String)
        requires
            old(self).dex_msg matches MsgToDex::RefV2(m) ==> m is Swap,
        ensures
            final(self).dex_id == old(self).dex_id,
            match (old(self).dex_msg, final(self).dex_msg) {
                (MsgToDex::RefV1(a), MsgToDex::RefV1(b)) => b.client_echo() == Some(*echo) && b.actions() == a.actions(),
                (MsgToDex::RefV2(a), MsgToDex::RefV2(b)) => b matches RefV2TokenReceiverMessage::Swap { client_echo, .. }
                    && client_echo == Some(*echo),
                _ => false,
            },
    {
        match &mut self.dex_msg {
            MsgToDex::RefV1(refv1_msg) => refv1_msg.set_client_echo(echo),
            MsgToDex::RefV2(refv2_msg) => refv2_msg.set_client_echo(echo),
        }
    }
}

/// What the protocol sends along with a swap, which the dex echoes back.
#[derive(Clone)]
pub struct SwapReference {
    pub account_id: AccountId,
    pub pos_id: String,
    pub amount_in: u128,
    pub action_ts: u64,
    pub op: String,
    pub liquidator_id: Option<AccountId>,
}

/// The ways a margin position is decreased.
#[derive(Clone, Copy, PartialEq, Eq, Debug)]
pub enum DecreaseOperation {
    /// The user decreases the position.
    Decrease,
    /// The user closes the position.
    Close,
    /// A liquidator closes an unhealthy position.
    Liquidate,
    /// An underwater position is closed by force.
    ForceClose,
    /// A keeper executes a stop order.
    Stop,
}

impl DecreaseOperation {
    /// The operation named `s`: "decrease", "close", "liquidate", "forceclose" or "stop".
    pub fn from_str(s: &str) -> (r: Option<DecreaseOperation>)
        ensures
            r == (if s@ == "decrease"@ { Some(DecreaseOperation::Decrease) }
                else if s@ == "close"@ { Some(DecreaseOperation::Close) }
                else if s@ == "liquidate"@ { Some(DecreaseOperation::Liquidate) }
                else if s@ == "forceclose"@ { Some(DecreaseOperation::ForceClose) }
                else if s@ == "stop"@ { Some(DecreaseOperation::Stop) }
                else { None }),
    {
        let owned = String::from_str(s);
        if owned == String::from_str("decrease") {
            Some(DecreaseOperation::Decrease)
        } else if owned == String::from_str("close") {
            Some(DecreaseOperation::Close)
        } else if owned == String::from_str("liquidate") {
            Some(DecreaseOperation::Liquidate)
        } else if owned == String::from_str("forceclose") {
            Some(DecreaseOperation::ForceClose)
        } else if owned == String::from_str("stop") {
            Some(DecreaseOperation::Stop)
        } else {
            None
        }
    }

    /// Whether the operation closes the whole position.
    pub fn is_full_close(&self) -> (r: bool)
        ensures
            r == !(*self is Decrease),
    {
        match self {
            DecreaseOperation::Decrease => false,
            _ => true,
        }
    }

    /// Whether remaining debt is repaid from collateral.
    pub fn should_repay_from_collateral(&self) -> (r: bool)
        ensures
            r == !(*self is Decrease),
    {
        self.is_full_close()
    }

    /// Whether the protocol reserve may cover bad debt.
    pub fn can_use_protocol_reserve(&self) -> (r: bool)
        ensures
            r == (*self is ForceClose),
    {
        match self {
            DecreaseOperation::ForceClose => true,
            _ => false,
        }
    }

    /// Whether benefits go to the protocol owner (and liquidator) rather than the position owner.
    pub fn benefits_to_protocol_owner(&self) -> (r: bool)
        ensures
            r == (*self is Liquidate || *self is ForceClose),
    {
        match self {
            DecreaseOperation::Liquidate => true,
            DecreaseOperation::ForceClose => true,
            _ => false,
        }
    }
}

/// The result of repaying the debt of a position out of a swap.
pub struct DebtRepaymentResult {
    /// Debt repaid.
    pub repay_amount: Balance,
    /// Debt shares repaid.
    pub repay_shares: Shares,
    /// Left over after the whole debt is repaid.
    pub leftover_amount: Balance,
    /// Holding-position fee paid.
    pub holding_fee_paid: Balance,
    /// Debt capital left.
    pub remaining_debt_cap: Balance,
}

/// Shares left to the owner(s) when a position is settled.
pub struct SettlementBenefits {
    /// Collateral token shares.
    pub collateral_shares: u128,
    /// Debt token shares (from what was left over).
    pub debt_token_shares: u128,
    /// Position token shares.
    pub position_token_shares: u128,
}

/// Changes to the supplied shares of a margin account, per token of a position.
pub struct MarginAccountUpdates {
    pub token_c_update: (AccountId, u128),
    pub token_d_update: (AccountId, u128),
    pub token_p_update: (AccountId, u128),
}

impl SettlementBenefits {
    /// No benefits.
    pub fn default() -> (r: SettlementBenefits)
        ensures
            r.collateral_shares == 0 && r.debt_token_shares == 0 && r.position_token_shares == 0,
    {
        SettlementBenefits { collateral_shares: 0, debt_token_shares: 0, position_token_shares: 0 }
    }

    /// Whether any shares are left.
    pub fn has_any(&self) -> (r: bool)
        ensures
            r == (self.collateral_shares > 0 || self.debt_token_shares > 0 || self.position_token_shares > 0),
    {
        self.collateral_shares > 0 || self.debt_token_shares > 0 || self.position_token_shares > 0
    }

    /// The benefits as changes per token of `position`.
    pub fn to_margin_updates(&self, position: &MarginTradingPosition) -> (r: MarginAccountUpdates)
        ensures
            r.token_c_update == (position.token_c_id, self.collateral_shares),
            r.token_d_update == (position.token_d_id, self.debt_token_shares),
            r.token_p_update == (position.token_p_id, self.position_token_shares),
    {
        MarginAccountUpdates {
            token_c_update: (position.token_c_id.clone(), self.collateral_shares),
            token_d_update: (position.token_d_id.clone(), self.debt_token_shares),
            token_p_update: (position.token_p_id.clone(), self.position_token_shares),
        }
    }
}

/// A stop-order service fee to settle.
pub struct StopServiceFeeInfo {
    pub token_id: TokenId,
    pub amount: Balance,
}

impl MarginAccountUpdates {
    /// The shares of the debt token, counting the collateral's when it is the same token.
    pub open spec fn spec_token_d_amount(&self) -> nat {
        if self.token_c_update.0@ == self.token_d_update.0@ {
            (self.token_c_update.1 + self.token_d_update.1) as nat
        } else {
            self.token_d_update.1 as nat
        }
    }

    /// The shares of the position token, counting the collateral's when it is the same token.
    pub open spec fn spec_token_p_amount(&self) -> nat {
        if self.token_c_update.0@ == self.token_p_update.0@ {
            (self.token_c_update.1 + self.token_p_update.1) as nat
        } else {
            self.token_p_update.1 as nat
        }
    }

    /// The shares of the debt token, counting the collateral's when it is the same token.
    pub fn get_token_d_amount(&self) -> (r: u128)
        requires
            self.spec_token_d_amount() <= u128::MAX,
        ensures
            r == self.spec_token_d_amount(),
    {
        if self.token_c_update.0 == self.token_d_update.0 {
            self.token_c_update.1 + self.token_d_update.1
        } else {
            self.token_d_update.1
        }
    }

    /// The shares of the position token, counting the collateral's when it is the same token.
    pub fn get_token_p_amount(&self) -> (r: u128)
        requires
            self.spec_token_p_amount() <= u128::MAX,
        ensures
            r == self.spec_token_p_amount(),
    {
        if self.token_c_update.0 == self.token_p_update.0 {
            self.token_c_update.1 + self.token_p_update.1
        } else {
            self.token_p_update.1
        }
    }

    /// The changes of the debt and position tokens as a map (the position
    /// token's entry wins when they are the same token).
    pub fn to_hash_map(&self) -> (r: AccountMap<u128>)
        requires
            self.spec_token_d_amount() <= u128::MAX,
            self.spec_token_p_amount() <= u128::MAX,
        ensures
            r.wf(),
            r.view() == Map::<Seq<char>, u128>::empty()
                .insert(self.token_d_update.0@, self.spec_token_d_amount() as u128)
                .insert(self.token_p_update.0@, self.spec_token_p_amount() as u128),
    {
        let mut m = AccountMap::new();
        m.insert(&self.token_d_update.0, self.get_token_d_amount());
        m.insert(&self.token_p_update.0, self.get_token_p_amount());
        m
    }
}

/// When the debt and position tokens differ and the collateral is one of
/// them, the map of `to_hash_map` holds exactly those two tokens, and their
/// amounts count every update once: together they make the collateral, debt
/// and position updates.
pub proof fn lemma_updates_counted_once(u: MarginAccountUpdates)
    requires
        u.token_d_update.0@ != u.token_p_update.0@,
        u.token_c_update.0@ == u.token_d_update.0@ || u.token_c_update.0@ == u.token_p_update.0@,
        u.spec_token_d_amount() <= u128::MAX,
        u.spec_token_p_amount() <= u128::MAX,
    ensures
        ({
            let (d, p) = (u.token_d_update.0@, u.token_p_update.0@);
            let m = Map::<Seq<char>, u128>::empty().insert(d, u.spec_token_d_amount() as u128)
                .insert(p, u.spec_token_p_amount() as u128);
            &&& m.dom() == set![d, p]
            &&& m[d] + m[p] == u.token_c_update.1 + u.token_d_update.1 + u.token_p_update.1
        }),
{
    let (d, p) = (u.token_d_update.0@, u.token_p_update.0@);
    let m = Map::<Seq<char>, u128>::empty().insert(d, u.spec_token_d_amount() as u128)
        .insert(p, u.spec_token_p_amount() as u128);
    assert(m.dom() =~= set![d, p]);
}

/// The split of `total` liquidation benefit shares between protocol,
/// liquidator and user: the protocol's and liquidator's ratios of it (rounded
/// down), and the rest to the user; when the two ratios make up the whole,
/// the liquidator gets the rest instead and the user nothing.
pub open spec fn spec_benefit_distribution(total: nat, protocol_rate: nat, liquidator_rate: nat) -> (nat, nat, nat) {
    let to_owner = total * protocol_rate / 10000;
    if protocol_rate + liquidator_rate == 10000 {
        (to_owner, (total - to_owner) as nat, 0)
    } else {
        let to_liquidator = total * liquidator_rate / 10000;
        (to_owner, to_liquidator, (total - to_owner - to_liquidator) as nat)
    }
}

/// The split of the benefits can be computed without overflow or a negative share.
pub open spec fn benefit_distribution_ok(total: nat, protocol_rate: nat, liquidator_rate: nat) -> bool {
    &&& protocol_rate + liquidator_rate <= u32::MAX
    &&& total * protocol_rate / 10000 <= u128::MAX
    &&& protocol_rate + liquidator_rate != 10000 ==> {
        &&& total * liquidator_rate / 10000 <= u128::MAX
        &&& total * protocol_rate / 10000 + total * liquidator_rate / 10000 <= total
    }
}

/// Splits `total_benefit_shares` between protocol owner, liquidator and user.
pub fn calculate_benefit_distribution(total_benefit_shares: u128, liq_benefit_protocol_rate: u32, liq_benefit_liquidator_rate: u32) -> (r: (u128, u128, u128))
    requires
        benefit_distribution_ok(total_benefit_shares as nat, liq_benefit_protocol_rate as nat, liq_benefit_liquidator_rate as nat),
    ensures
        (r.0 as nat, r.1 as nat, r.2 as nat) == spec_benefit_distribution(total_benefit_shares as nat,
            liq_benefit_protocol_rate as nat, liq_benefit_liquidator_rate as nat),
{
    let to_owner = u128_ratio(total_benefit_shares, liq_benefit_protocol_rate as u128, MAX_RATIO as u128);
    if liq_benefit_protocol_rate + liq_benefit_liquidator_rate == MAX_RATIO {
        assert((total_benefit_shares as nat) * (liq_benefit_protocol_rate as nat) / 10000 <= total_benefit_shares) by (nonlinear_arith)
            requires liq_benefit_protocol_rate <= 10000;
        (to_owner, total_benefit_shares - to_owner, 0)
    } else {
        let to_liquidator = u128_ratio(total_benefit_shares, liq_benefit_liquidator_rate as u128, MAX_RATIO as u128);
        (to_owner, to_liquidator, total_benefit_shares - to_owner - to_liquidator)
    }
}

/// The benefit split gives out exactly the benefits: the shares of protocol,
/// liquidator and user add up to the total; and while the protocol and
/// liquidator ratios add up to at most 100%, the split can always be computed.
pub proof fn lemma_benefit_distribution_conserves(total: u128, protocol_rate: u32, liquidator_rate: u32)
    requires
        protocol_rate + liquidator_rate <= MAX_RATIO,
    ensures
        benefit_distribution_ok(total as nat, protocol_rate as nat, liquidator_rate as nat),
        ({
            let (o, l, u) = spec_benefit_distribution(total as nat, protocol_rate as nat, liquidator_rate as nat);
            o + l + u == total
        }),
{
    let t = total as nat;
    assert(t * (protocol_rate as nat) / 10000 <= t) by (nonlinear_arith) requires protocol_rate <= 10000;
    assert(t * (liquidator_rate as nat) / 10000 <= t) by (nonlinear_arith) requires liquidator_rate <= 10000;
    assert(t * (protocol_rate as nat) / 10000 + t * (liquidator_rate as nat) / 10000 <= t) by (nonlinear_arith)
        requires protocol_rate + liquidator_rate <= 10000;
}

/// The holding-position fee of a position: its debt capital times the
/// holding-position interest accumulated by one `UNIT` since it opened.
pub open spec fn holding_fee(position: MarginTradingPosition, asset_debt: Asset) -> nat {
    (position.debt_cap as nat) * ((asset_debt.unit_acc_hp_interest - position.uahpi_at_open) as nat) / (UNIT as nat)
}

/// The debt of a position in tokens (rounded up).
pub open spec fn debt_amount(position: MarginTradingPosition, asset_debt: Asset) -> nat {
    spec_shares_to_amount(asset_debt.margin_debt.shares as nat, asset_debt.margin_debt.balance as nat,
        position.token_d_shares as nat, true)
}

/// The part of the debt capital that `swap_amount` repays, in proportion to
/// the debt plus the holding-position fee.
pub open spec fn repay_cap(position: MarginTradingPosition, asset_debt: Asset, swap_amount: nat) -> nat {
    (position.debt_cap as nat) * swap_amount / (debt_amount(position, asset_debt) + holding_fee(position, asset_debt))
}

/// `calculate_debt_repayment` succeeds.
pub open spec fn debt_repayment_ok(position: MarginTradingPosition, asset_debt: Asset, swap_amount: nat) -> bool {
    let debt = debt_amount(position, asset_debt);
    let fee = holding_fee(position, asset_debt);
    let cap = repay_cap(position, asset_debt, swap_amount);
    &&& asset_debt.unit_acc_hp_interest >= position.uahpi_at_open
    &&& fee <= u128::MAX
    &&& debt + fee <= u128::MAX
    &&& debt + fee > 0
    &&& cap <= u128::MAX
    &&& if cap >= position.debt_cap {
        swap_amount >= debt + fee
    } else {
        let part = fee * cap / (position.debt_cap as nat);
        &&& swap_amount >= part
        &&& spec_amount_to_shares(asset_debt.margin_debt.shares as nat, asset_debt.margin_debt.balance as nat,
            (swap_amount - part) as nat, false) <= u128::MAX
    }
}

/// What repaying the debt of `position` out of `swap_amount` gives: when the
/// swap covers the debt and the fee, all the debt is repaid and the rest is
/// left over; otherwise the swap repays its share `cap` of the debt capital,
/// paying the same share of the fee, and the rest of the swap repays debt.
pub open spec fn spec_debt_repayment(position: MarginTradingPosition, asset_debt: Asset, swap_amount: nat) -> DebtRepaymentResult {
    let debt = debt_amount(position, asset_debt);
    let fee = holding_fee(position, asset_debt);
    let cap = repay_cap(position, asset_debt, swap_amount);
    if cap >= position.debt_cap {
        DebtRepaymentResult {
            repay_amount: debt as u128,
            repay_shares: position.token_d_shares,
            leftover_amount: (swap_amount - debt - fee) as u128,
            holding_fee_paid: fee as u128,
            remaining_debt_cap: 0,
        }
    } else {
        let part = fee * cap / (position.debt_cap as nat);
        DebtRepaymentResult {
            repay_amount: (swap_amount - part) as u128,
            repay_shares: spec_amount_to_shares(asset_debt.margin_debt.shares as nat,
                asset_debt.margin_debt.balance as nat, (swap_amount - part) as nat, false) as u128,
            leftover_amount: 0,
            holding_fee_paid: part as u128,
            remaining_debt_cap: (position.debt_cap - cap) as u128,
        }
    }
}

/// Repays the debt of `position` out of `swap_amount` tokens got back from a
/// swap, paying the holding-position fee along: when the swap covers the
/// debt and the fee, all the debt is repaid and the rest left over;
/// otherwise the swap repays its share of the debt capital, with the same
/// share of the fee.
pub fn calculate_debt_repayment(position: &MarginTradingPosition, asset_debt: &Asset, swap_amount: Balance) -> (r: DebtRepaymentResult)
    requires
        debt_repayment_ok(*position, *asset_debt, swap_amount as nat),
    ensures
        r == spec_debt_repayment(*position, *asset_debt, swap_amount as nat),
        r.repay_amount + r.holding_fee_paid + r.leftover_amount == swap_amount,
{
    let debt_amount = asset_debt.margin_debt.shares_to_amount(position.token_d_shares, true);
    let holding_fee = u128_ratio(position.debt_cap, asset_debt.unit_acc_hp_interest - position.uahpi_at_open, UNIT);
    let repay_cap = u128_ratio(position.debt_cap, swap_amount, debt_amount + holding_fee);
    if repay_cap >= position.debt_cap {
        DebtRepaymentResult {
            repay_amount: debt_amount,
            repay_shares: position.token_d_shares,
            leftover_amount: swap_amount - debt_amount - holding_fee,
            holding_fee_paid: holding_fee,
            remaining_debt_cap: 0,
        }
    } else {
        let proportional_fee = u128_ratio(holding_fee, repay_cap, position.debt_cap);
        assert((holding_fee as nat) * (repay_cap as nat) / (position.debt_cap as nat) <= holding_fee) by (nonlinear_arith)
            requires repay_cap < position.debt_cap;
        let repay_amount = swap_amount - proportional_fee;
        DebtRepaymentResult {
            repay_amount,
            repay_shares: asset_debt.margin_debt.amount_to_shares(repay_amount, false),
            leftover_amount: 0,
            holding_fee_paid: proportional_fee,
            remaining_debt_cap: position.debt_cap - repay_cap,
        }
    }
}

/// `repay_debt_from_collateral` succeeds.
pub open spec fn repay_from_collateral_ok(position: MarginTradingPosition, asset_debt: Asset) -> bool {
    (position.token_d_shares == 0 || position.token_d_id@ != position.token_c_id@) || {
        let remaining = debt_amount(position, asset_debt);
        let needed = spec_amount_to_shares(asset_debt.supplied.shares as nat, asset_debt.supplied.balance as nat, remaining, true);
        &&& needed <= u128::MAX
        &&& needed > position.token_c_shares ==> spec_amount_to_shares(asset_debt.margin_debt.shares as nat,
            asset_debt.margin_debt.balance as nat,
            spec_shares_to_amount(asset_debt.supplied.shares as nat, asset_debt.supplied.balance as nat,
                position.token_c_shares as nat, false), false) <= u128::MAX
    }
}

/// What repaying the rest of the debt from the collateral gives (debt
/// shares repaid, collateral shares used, amount): nothing when there is no
/// debt or the collateral is another token; all the debt when the
/// collateral covers it (the collateral shares needed rounded up); else all
/// the collateral (its amount rounded down, repaying the debt shares that
/// amount buys, rounded down).
pub open spec fn spec_repay_from_collateral(position: MarginTradingPosition, asset_debt: Asset) -> (u128, u128, u128) {
    if position.token_d_shares == 0 || position.token_d_id@ != position.token_c_id@ {
        (0u128, 0u128, 0u128)
    } else {
        let remaining = debt_amount(position, asset_debt);
        let needed = spec_amount_to_shares(asset_debt.supplied.shares as nat, asset_debt.supplied.balance as nat, remaining, true);
        if needed <= position.token_c_shares {
            (position.token_d_shares, needed as u128, remaining as u128)
        } else {
            let c_amount = spec_shares_to_amount(asset_debt.supplied.shares as nat, asset_debt.supplied.balance as nat,
                position.token_c_shares as nat, false);
            (spec_amount_to_shares(asset_debt.margin_debt.shares as nat, asset_debt.margin_debt.balance as nat, c_amount, false) as u128,
                position.token_c_shares, c_amount as u128)
        }
    }
}

/// Repays what is left of the debt from the collateral, when the collateral
/// is the debt token: returns the debt shares repaid, the collateral shares
/// used and the amount. All the debt when the collateral covers it, else all
/// the collateral; nothing when there is no debt or the tokens differ.
pub fn repay_debt_from_collateral(position: &MarginTradingPosition, asset_debt: &Asset) -> (r: (Shares, Shares, Balance))
    requires
        repay_from_collateral_ok(*position, *asset_debt),
    ensures
        r == spec_repay_from_collateral(*position, *asset_debt),
{
    if position.token_d_shares == 0 || position.token_d_id != position.token_c_id {
        return (0, 0, 0);
    }
    let remaining_debt = asset_debt.margin_debt.shares_to_amount(position.token_d_shares, true);
    let collateral_shares_needed = asset_debt.supplied.amount_to_shares(remaining_debt, true);
    if collateral_shares_needed <= position.token_c_shares {
        (position.token_d_shares, collateral_shares_needed, remaining_debt)
    } else {
        let collateral_amount = asset_debt.supplied.shares_to_amount(position.token_c_shares, false);
        let debt_shares = asset_debt.margin_debt.amount_to_shares(collateral_amount, false);
        (debt_shares, position.token_c_shares, collateral_amount)
    }
}

/// Covers what is left of a position's debt with the asset's reserve (as far
/// as it goes) and writes the debt off: the position's debt shares and their
/// amount leave the margin-debt pool. Returns the debt written off and the
/// part of it that the reserve did not cover (a new protocol debt), or
/// `None` when the position has no debt left.
pub fn cover_debt_from_protocol_reserve(position: &mut MarginTradingPosition, asset_debt: &mut Asset) -> (r: Option<(Balance, Balance)>)
    requires
        old(position).token_d_shares <= old(asset_debt).margin_debt.shares,
    ensures
        old(position).token_d_shares == 0 ==> r is None && *final(position) == *old(position) && *final(asset_debt) == *old(asset_debt),
        old(position).token_d_shares > 0 ==> {
            let remaining = debt_amount(*old(position), *old(asset_debt));
            &&& r == Some(((remaining as u128), (if old(asset_debt).reserved >= remaining { 0 } else { remaining - old(asset_debt).reserved }) as u128))
            &&& *final(position) == (MarginTradingPosition { token_d_shares: 0, ..*old(position) })
            &&& *final(asset_debt) == (Asset {
                reserved: (if old(asset_debt).reserved >= remaining { old(asset_debt).reserved - remaining } else { 0 }) as u128,
                margin_debt: Pool {
                    shares: (old(asset_debt).margin_debt.shares - old(position).token_d_shares) as u128,
                    balance: (old(asset_debt).margin_debt.balance - remaining) as u128,
                },
                ..*old(asset_debt)
            })
        },
        r matches Some((written_off, uncovered)) ==> (old(asset_debt).reserved - final(asset_debt).reserved) + uncovered == written_off,
{
    if position.token_d_shares == 0 {
        return None;
    }
    let remaining_debt = asset_debt.margin_debt.shares_to_amount(position.token_d_shares, true);
    let uncovered_debt;
    if asset_debt.reserved >= remaining_debt {
        asset_debt.reserved = asset_debt.reserved - remaining_debt;
        uncovered_debt = 0;
    } else {
        uncovered_debt = remaining_debt - asset_debt.reserved;
        asset_debt.reserved = 0;
    }
    asset_debt.margin_debt.withdraw(position.token_d_shares, remaining_debt);
    position.token_d_shares = 0;
    Some((remaining_debt, uncovered_debt))
}

} // verus!

verus! {

// ----- the JSON text of the messages to the dexes -----

/// A JSON boolean or `null`.
pub open spec fn json_opt_bool(b: Option<bool>) -> Seq<char> {
    match b {
        Some(true) => seq!['t', 'r', 'u', 'e'],
        Some(false) => seq!['f', 'a', 'l', 's', 'e'],
        None => seq!['n', 'u', 'l', 'l'],
    }
}

/// An optional amount: a JSON string of its digits, or `null`.
pub open spec fn json_opt_amount(n: Option<u128>) -> Seq<char> {
    match n {
        Some(n) => json_amount(n as nat),
        None => seq!['n', 'u', 'l', 'l'],
    }
}

/// An optional string: the JSON string, or `null`.
pub open spec fn json_opt_text(s: Option<String>) -> Seq<char> {
    match s {
        Some(s) => json_string(s@),
        None => seq!['n', 'u', 'l', 'l'],
    }
}

/// One swap action as the dex reads it.
pub open spec fn swap_action_json(a: RefV1SwapAction) -> Seq<char> {
    seq!['{'] + member("pool_id"@, dec(a.pool_id as nat)) + seq![',']
        + member("token_in"@, json_string(a.token_in@)) + seq![',']
        + member("amount_in"@, json_opt_amount(a.amount_in)) + seq![',']
        + member("token_out"@, json_string(a.token_out@)) + seq![',']
        + member("min_amount_out"@, json_amount(a.min_amount_out as nat)) + seq!['}']
}

/// The actions, separated by commas.
pub open spec fn actions_json(actions: Seq<RefV1Action>) -> Seq<char>
    decreases actions.len(),
{
    if actions.len() == 0 {
        Seq::empty()
    } else if actions.len() == 1 {
        swap_action_json(actions[0].swap())
    } else {
        actions_json(actions.drop_last()) + seq![','] + swap_action_json(actions.last().swap())
    }
}

/// The names, each a JSON string, separated by commas.
pub open spec fn strings_json(names: Seq<String>) -> Seq<char>
    decreases names.len(),
{
    if names.len() == 0 {
        Seq::empty()
    } else if names.len() == 1 {
        json_string(names[0]@)
    } else {
        strings_json(names.drop_last()) + seq![','] + json_string(names.last()@)
    }
}

/// A RefV1 message as the dex reads it.
pub open spec fn ref_v1_json(m: RefV1TokenReceiverMessage) -> Seq<char> {
    match m {
        RefV1TokenReceiverMessage::Execute { referral_id, actions, client_echo, skip_degen_price_sync } => seq!['{']
            + member("referral_id"@, json_opt_text(referral_id)) + seq![',']
            + member("actions"@, seq!['['] + actions_json(actions@) + seq![']']) + seq![',']
            + member("client_echo"@, json_opt_text(client_echo)) + seq![',']
            + member("skip_degen_price_sync"@, json_opt_bool(skip_degen_price_sync)) + seq!['}'],
    }
}

/// A RefV2 message as the dex reads it.
pub open spec fn ref_v2_json(m: RefV2TokenReceiverMessage) -> Seq<char> {
    match m {
        RefV2TokenReceiverMessage::Deposit => json_string("Deposit"@),
        RefV2TokenReceiverMessage::Swap { pool_ids, output_token, min_output_amount, skip_unwrap_near, client_echo } =>
            seq!['{'] + json_string("Swap"@) + seq![':'] + seq!['{']
            + member("pool_ids"@, seq!['['] + strings_json(pool_ids@) + seq![']']) + seq![',']
            + member("output_token"@, json_string(output_token@)) + seq![',']
            + member("min_output_amount"@, json_amount(min_output_amount as nat)) + seq![',']
            + member("skip_unwrap_near"@, json_opt_bool(skip_unwrap_near)) + seq![',']
            + member("client_echo"@, json_opt_text(client_echo)) + seq!['}'] + seq!['}'],
    }
}

fn push_opt_bool(out: &mut String, b: Option<bool>)
    ensures
        final(out)@ == old(out)@ + json_opt_bool(b),
{
    let ghost start = out@;
    match b {
        Some(true) => {
            string_push(out, 't');
            string_push(out, 'r');
            string_push(out, 'u');
            string_push(out, 'e');
        },
        Some(false) => {
            string_push(out, 'f');
            string_push(out, 'a');
            string_push(out, 'l');
            string_push(out, 's');
            string_push(out, 'e');
        },
        None => {
            string_push(out, 'n');
            string_push(out, 'u');
            string_push(out, 'l');
            string_push(out, 'l');
        },
    }
    assert(out@ =~= start + json_opt_bool(b));
}

fn push_opt_amount(out: &mut String, n: Option<u128>)
    ensures
        final(out)@ == old(out)@ + json_opt_amount(n),
{
    match n {
        Some(n) => push_amount(out, n),
        None => {
            let ghost start = out@;
            string_push(out, 'n');
            string_push(out, 'u');
            string_push(out, 'l');
            string_push(out, 'l');
            assert(out@ =~= start + json_opt_amount(None));
        },
    }
}

fn push_opt_text(out: &mut String, s: &Option<String>)
    ensures
        final(out)@ == old(out)@ + json_opt_text(*s),
{
    push_opt_string(out, s);
}

fn push_swap_action(out: &mut String, a: &RefV1SwapAction)
    ensures
        final(out)@ == old(out)@ + swap_action_json(*a),
{
    let ghost start = out@;
    string_push(out, '{');
    push_member_u64(out, "pool_id", a.pool_id);
    string_push(out, ',');
    push_member_text(out, "token_in", a.token_in.as_str());
    string_push(out, ',');
    push_member_opt_amount(out, "amount_in", a.amount_in);
    string_push(out, ',');
    push_member_text(out, "token_out", a.token_out.as_str());
    string_push(out, ',');
    push_member_amount(out, "min_amount_out", a.min_amount_out);
    string_push(out, '}');
    assert(out@ =~= start + swap_action_json(*a));
}

fn push_member_u64(out: &mut String, key: &str, n: u64)
    ensures
        final(out)@ == old(out)@ + member(key@, dec(n as nat)),
{
    let ghost start = out@;
    push_key(out, key);
    push_dec(out, n as u128);
    assert(out@ =~= start + member(key@, dec(n as nat)));
}

fn push_member_opt_amount(out: &mut String, key: &str, n: Option<u128>)
    ensures
        final(out)@ == old(out)@ + member(key@, json_opt_amount(n)),
{
    let ghost start = out@;
    push_key(out, key);
    push_opt_amount(out, n);
    assert(out@ =~= start + member(key@, json_opt_amount(n)));
}

fn push_actions(out: &mut String, actions: &Vec<RefV1Action>)
    ensures
        final(out)@ == old(out)@ + actions_json(actions@),
{
    let ghost start = out@;
    let mut i: usize = 0;
    while i < actions.len()
        invariant
            i <= actions@.len(),
            out@ == start + actions_json(actions@.take(i as int)),
        decreases actions@.len() - i,
    {
        let ghost before = out@;
        if i > 0 {
            string_push(out, ',');
        }
        match &actions[i] {
            RefV1Action::Swap(a) => push_swap_action(out, a),
        }
        proof {
            let t = actions@.take(i as int + 1);
            assert(t.drop_last() =~= actions@.take(i as int));
            assert(t.last() == actions@[i as int]);
            if i == 0 {
                assert(t.len() == 1);
                assert(t[0] == actions@[0]);
            }
            assert(out@ =~= start + actions_json(t));
        }
        i = i + 1;
    }
    assert(actions@.take(actions@.len() as int) =~= actions@);
}

fn push_strings(out: &mut String, names: &Vec<String>)
    ensures
        final(out)@ == old(out)@ + strings_json(names@),
{
    let ghost start = out@;
    let mut i: usize = 0;
    while i < names.len()
        invariant
            i <= names@.len(),
            out@ == start + strings_json(names@.take(i as int)),
        decreases names@.len() - i,
    {
        if i > 0 {
            string_push(out, ',');
        }
        push_json_string(out, names[i].as_str());
        proof {
            let t = names@.take(i as int + 1);
            assert(t.drop_last() =~= names@.take(i as int));
            assert(t.last() == names@[i as int]);
            if i == 0 {
                assert(t.len() == 1);
                assert(t[0] == names@[0]);
            }
            assert(out@ =~= start + strings_json(t));
        }
        i = i + 1;
    }
    assert(names@.take(names@.len() as int) =~= names@);
}

fn push_member_opt_text(out: &mut String, key: &str, s: &Option<String>)
    ensures
        final(out)@ == old(out)@ + member(key@, json_opt_text(*s)),
{
    let ghost start = out@;
    push_key(out, key);
    push_opt_text(out, s);
    assert(out@ =~= start + member(key@, json_opt_text(*s)));
}

fn push_member_opt_bool(out: &mut String, key: &str, b: Option<bool>)
    ensures
        final(out)@ == old(out)@ + member(key@, json_opt_bool(b)),
{
    let ghost start = out@;
    push_key(out, key);
    push_opt_bool(out, b);
    assert(out@ =~= start + member(key@, json_opt_bool(b)));
}

fn push_member_actions(out: &mut String, actions: &Vec<RefV1Action>)
    ensures
        final(out)@ == old(out)@ + member("actions"@, seq!['['] + actions_json(actions@) + seq![']']),
{
    let ghost start = out@;
    push_key(out, "actions");
    string_push(out, '[');
    push_actions(out, actions);
    string_push(out, ']');
    assert(out@ =~= start + member("actions"@, seq!['['] + actions_json(actions@) + seq![']']));
}

fn push_member_strings(out: &mut String, key: &str, names: &Vec<String>)
    ensures
        final(out)@ == old(out)@ + member(key@, seq!['['] + strings_json(names@) + seq![']']),
{
    let ghost start = out@;
    push_key(out, key);
    string_push(out, '[');
    push_strings(out, names);
    string_push(out, ']');
    assert(out@ =~= start + member(key@, seq!['['] + strings_json(names@) + seq![']']));
}

fn push_member_text(out: &mut String, key: &str, s: &str)
    ensures
        final(out)@ == old(out)@ + member(key@, json_string(s@)),
{
    let ghost start = out@;
    push_key(out, key);
    push_json_string(out, s);
    assert(out@ =~= start + member(key@, json_string(s@)));
}

fn push_member_amount(out: &mut String, key: &str, n: u128)
    ensures
        final(out)@ == old(out)@ + member(key@, json_amount(n as nat)),
{
    let ghost start = out@;
    push_key(out, key);
    push_amount(out, n);
    assert(out@ =~= start + member(key@, json_amount(n as nat)));
}

impl RefV1TokenReceiverMessage {
    /// The message as JSON text.
    pub fn to_msg_string(&self) -> (r: String)
        ensures
            r@ == ref_v1_json(*self),
    {
        let mut out = String::new();
        match self {
            RefV1TokenReceiverMessage::Execute { referral_id, actions, client_echo, skip_degen_price_sync } => {
                string_push(&mut out, '{');
                push_member_opt_text(&mut out, "referral_id", referral_id);
                string_push(&mut out, ',');
                push_member_actions(&mut out, actions);
                string_push(&mut out, ',');
                push_member_opt_text(&mut out, "client_echo", client_echo);
                string_push(&mut out, ',');
                push_member_opt_bool(&mut out, "skip_degen_price_sync", *skip_degen_price_sync);
                string_push(&mut out, '}');
                assert(out@ =~= ref_v1_json(*self));
            },
        }
        out
    }
}

impl RefV2TokenReceiverMessage {
    /// The message as JSON text.
    pub fn to_msg_string(&self) -> (r: String)
        ensures
            r@ == ref_v2_json(*self),
    {
        let mut out = String::new();
        match self {
            RefV2TokenReceiverMessage::Deposit => {
                push_json_string(&mut out, "Deposit");
                assert(out@ =~= ref_v2_json(*self));
            },
            RefV2TokenReceiverMessage::Swap { pool_ids, output_token, min_output_amount, skip_unwrap_near, client_echo } => {
                string_push(&mut out, '{');
                push_json_string(&mut out, "Swap");
                string_push(&mut out, ':');
                string_push(&mut out, '{');
                push_member_strings(&mut out, "pool_ids", pool_ids);
                string_push(&mut out, ',');
                push_member_text(&mut out, "output_token", output_token.as_str());
                string_push(&mut out, ',');
                push_member_amount(&mut out, "min_output_amount", *min_output_amount);
                string_push(&mut out, ',');
                push_member_opt_bool(&mut out, "skip_unwrap_near", *skip_unwrap_near);
                string_push(&mut out, ',');
                push_member_opt_text(&mut out, "client_echo", client_echo);
                string_push(&mut out, '}');
                string_push(&mut out, '}');
                assert(out@ =~= ref_v2_json(*self));
            },
        }
        out
    }
}

impl SwapDetail {
    /// The message for the dex, as JSON text.
    pub fn to_msg_string(&self) -> (r: String)
        ensures
            r@ == match self.dex_msg {
                MsgToDex::RefV1(m) => ref_v1_json(m),
                MsgToDex::RefV2(m) => ref_v2_json(m),
            },
    {
        match &self.dex_msg {
            MsgToDex::RefV1(refv1_msg) => refv1_msg.to_msg_string(),
            MsgToDex::RefV2(refv2_msg) => refv2_msg.to_msg_string(),
        }
    }
}

} // verus!

verus! {

// ----- settling the return of a decrease trade -----

/// The position and the debt asset after the repayment `r` of a decrease
/// trade, and the supply shares that what was left over buys (rounded
/// down; kept as supply only when it buys any).
pub open spec fn repaid(position: MarginTradingPosition, asset_debt: Asset, r: DebtRepaymentResult) -> (MarginTradingPosition, Asset, nat) {
    let a1 = Asset {
        margin_debt: Pool {
            shares: (asset_debt.margin_debt.shares - r.repay_shares) as u128,
            balance: (asset_debt.margin_debt.balance - r.repay_amount) as u128,
        },
        prot_fee: (asset_debt.prot_fee + r.holding_fee_paid) as u128,
        ..asset_debt
    };
    let p1 = MarginTradingPosition {
        token_d_shares: (position.token_d_shares - r.repay_shares) as u128,
        debt_cap: r.remaining_debt_cap,
        ..position
    };
    let s = spec_amount_to_shares(a1.supplied.shares as nat, a1.supplied.balance as nat, r.leftover_amount as nat, false);
    if r.leftover_amount > 0 && s > 0 {
        (p1, Asset {
            supplied: Pool {
                shares: (a1.supplied.shares + s) as u128,
                balance: (a1.supplied.balance + r.leftover_amount) as u128,
            },
            ..a1
        }, s)
    } else {
        (p1, a1, 0)
    }
}

/// The repayment `r` can be applied without going below zero or overflowing.
pub open spec fn repaid_ok(position: MarginTradingPosition, asset_debt: Asset, r: DebtRepaymentResult) -> bool {
    let s = spec_amount_to_shares(asset_debt.supplied.shares as nat, asset_debt.supplied.balance as nat, r.leftover_amount as nat, false);
    &&& r.repay_shares <= asset_debt.margin_debt.shares
    &&& r.repay_amount <= asset_debt.margin_debt.balance
    &&& r.repay_shares <= position.token_d_shares
    &&& asset_debt.prot_fee + r.holding_fee_paid <= u128::MAX
    &&& r.leftover_amount > 0 ==> {
        &&& s <= u128::MAX
        &&& s > 0 ==> asset_debt.supplied.shares + s <= u128::MAX && asset_debt.supplied.balance + r.leftover_amount <= u128::MAX
    }
}

/// The position and the debt asset after the rest of the debt is repaid
/// from the collateral (see `spec_repay_from_collateral`).
pub open spec fn collateral_repaid(position: MarginTradingPosition, asset_debt: Asset) -> (MarginTradingPosition, Asset) {
    let (rds, uss, ra) = spec_repay_from_collateral(position, asset_debt);
    if ra > 0 {
        (MarginTradingPosition {
            token_d_shares: (position.token_d_shares - rds) as u128,
            token_c_shares: (position.token_c_shares - uss) as u128,
            ..position
        }, Asset {
            supplied: Pool {
                shares: (asset_debt.supplied.shares - uss) as u128,
                balance: (asset_debt.supplied.balance - ra) as u128,
            },
            margin_debt: Pool {
                shares: (asset_debt.margin_debt.shares - rds) as u128,
                balance: (asset_debt.margin_debt.balance - ra) as u128,
            },
            ..asset_debt
        })
    } else {
        (position, asset_debt)
    }
}

/// Repaying from the collateral can be done without going below zero.
pub open spec fn collateral_repaid_ok(position: MarginTradingPosition, asset_debt: Asset) -> bool {
    let (rds, uss, ra) = spec_repay_from_collateral(position, asset_debt);
    &&& repay_from_collateral_ok(position, asset_debt)
    &&& ra > 0 ==> {
        &&& uss <= asset_debt.supplied.shares
        &&& ra <= asset_debt.supplied.balance
        &&& rds <= asset_debt.margin_debt.shares
        &&& ra <= asset_debt.margin_debt.balance
        &&& rds <= position.token_d_shares
        &&& uss <= position.token_c_shares
    }
}

/// The position and the debt asset after the reserve covers what is left
/// of the debt (see `cover_debt_from_protocol_reserve`), with the debt
/// written off and the part the reserve did not cover.
pub open spec fn reserve_covered(position: MarginTradingPosition, asset_debt: Asset) -> (MarginTradingPosition, Asset, Option<(u128, u128)>) {
    if position.token_d_shares == 0 {
        (position, asset_debt, None)
    } else {
        let remaining = debt_amount(position, asset_debt);
        (MarginTradingPosition { token_d_shares: 0, ..position }, Asset {
            reserved: (if asset_debt.reserved >= remaining { asset_debt.reserved - remaining } else { 0 }) as u128,
            margin_debt: Pool {
                shares: (asset_debt.margin_debt.shares - position.token_d_shares) as u128,
                balance: (asset_debt.margin_debt.balance - remaining) as u128,
            },
            ..asset_debt
        }, Some(((remaining as u128), (if asset_debt.reserved >= remaining { 0 } else { remaining - asset_debt.reserved }) as u128)))
    }
}

/// What settling the return `amount` of a decrease trade of kind `operation`
/// does: the swap repays the debt and the holding-position fee (the fee goes
/// to the protocol, what is left over becomes supply); a full close then
/// repays the rest of the debt from the collateral when it is the debt
/// token; a force close has the reserve cover the rest and writes it off;
/// the position is unlocked. Gives the new position and debt asset, the fee
/// paid, the supply shares left over, and what the reserve covered.
pub open spec fn settled(position: MarginTradingPosition, asset_debt: Asset, operation: DecreaseOperation, amount: nat)
    -> (MarginTradingPosition, Asset, nat, nat, Option<(u128, u128)>)
{
    let r = spec_debt_repayment(position, asset_debt, amount);
    let (p1, a1, s) = repaid(position, asset_debt, r);
    let (p2, a2) = if !(operation is Decrease) { collateral_repaid(p1, a1) } else { (p1, a1) };
    let (p3, a3, c) = if operation is ForceClose { reserve_covered(p2, a2) } else { (p2, a2, None) };
    (MarginTradingPosition { is_locking: false, ..p3 }, a3, r.holding_fee_paid as nat, s, c)
}

/// Settling succeeds: every step stays within its bounds.
pub open spec fn settle_ok(position: MarginTradingPosition, asset_debt: Asset, operation: DecreaseOperation, amount: nat) -> bool {
    let r = spec_debt_repayment(position, asset_debt, amount);
    let (p1, a1, s) = repaid(position, asset_debt, r);
    let (p2, a2) = if !(operation is Decrease) { collateral_repaid(p1, a1) } else { (p1, a1) };
    &&& debt_repayment_ok(position, asset_debt, amount)
    &&& repaid_ok(position, asset_debt, r)
    &&& !(operation is Decrease) ==> collateral_repaid_ok(p1, a1)
    &&& operation is ForceClose ==> p2.token_d_shares <= a2.margin_debt.shares
}

/// Settles the return `amount` of a decrease trade of kind `operation` on
/// the position and its debt asset (see `settled`). Returns the
/// holding-position fee paid, the supply shares of the debt token left over
/// for the owner(s), and, for a force close with debt left, the debt written
/// off and the part of it the reserve did not cover.
pub fn settle_decrease_trade_return(
    position: &mut MarginTradingPosition,
    asset_debt: &mut Asset,
    operation: DecreaseOperation,
    amount: Balance,
) -> (r: (Balance, u128, Option<(Balance, Balance)>))
    requires
        settle_ok(*old(position), *old(asset_debt), operation, amount as nat),
    ensures
        ({
            let (p, a, fee, s, c) = settled(*old(position), *old(asset_debt), operation, amount as nat);
            &&& *final(position) == p
            &&& *final(asset_debt) == a
            &&& r.0 == fee
            &&& r.1 == s
            &&& r.2 == c
        }),
{
    let ghost p0 = *position;
    let ghost a0 = *asset_debt;
    let repayment = calculate_debt_repayment(position, asset_debt, amount);
    asset_debt.margin_debt.withdraw(repayment.repay_shares, repayment.repay_amount);
    position.token_d_shares = position.token_d_shares - repayment.repay_shares;
    position.debt_cap = repayment.remaining_debt_cap;
    asset_debt.prot_fee = asset_debt.prot_fee + repayment.holding_fee_paid;
    let mut benefit: u128 = 0;
    if repayment.leftover_amount > 0 {
        let supply_shares = asset_debt.supplied.amount_to_shares(repayment.leftover_amount, false);
        if supply_shares > 0 {
            asset_debt.supplied.deposit(supply_shares, repayment.leftover_amount);
            benefit = supply_shares;
        }
    }
    let ghost p1 = *position;
    let ghost a1 = *asset_debt;
    assert((p1, a1, benefit as nat) == repaid(p0, a0, repayment));
    if operation.should_repay_from_collateral() {
        let (rds, uss, ra) = repay_debt_from_collateral(position, asset_debt);
        if ra > 0 {
            asset_debt.supplied.withdraw(uss, ra);
            asset_debt.margin_debt.withdraw(rds, ra);
            position.token_d_shares = position.token_d_shares - rds;
            position.token_c_shares = position.token_c_shares - uss;
        }
        assert((*position, *asset_debt) == collateral_repaid(p1, a1));
    }
    let ghost p2 = *position;
    let ghost a2 = *asset_debt;
    let mut covered: Option<(Balance, Balance)> = None;
    if operation.can_use_protocol_reserve() {
        covered = cover_debt_from_protocol_reserve(position, asset_debt);
        assert((*position, *asset_debt, covered) == reserve_covered(p2, a2));
    }
    position.is_locking = false;
    (repayment.holding_fee_paid, benefit, covered)
}

// ----- the return of an open trade, and the close of a position -----

/// The open fee, in collateral shares: `open_position_fee_rate` basis points
/// of the collateral, rounded down.
pub open spec fn open_fee_shares(mt: MarginTradingPosition, open_position_fee_rate: u32) -> nat {
    (mt.token_c_shares as nat) * (open_position_fee_rate as nat) / 10000
}

/// A supply pool with `fee_shares` shares, and the tokens they are worth
/// (rounded down), taken out and given to the protocol.
pub open spec fn fee_taken(asset: Asset, fee_shares: nat) -> (Asset, nat) {
    let fee = spec_shares_to_amount(asset.supplied.shares as nat, asset.supplied.balance as nat, fee_shares, false);
    (Asset {
        supplied: Pool {
            shares: (asset.supplied.shares - fee_shares) as u128,
            balance: (asset.supplied.balance - fee) as u128,
        },
        prot_fee: (asset.prot_fee + fee) as u128,
        ..asset
    }, fee)
}

/// What the return `amount` of the trade that opens `mt`, for `amount_in`
/// of debt, does: the pending debt becomes margin debt (its shares rounded
/// up), the position tokens are counted on their asset, the open fee is
/// taken out of the collateral (from the supply of the collateral token,
/// which is the debt token or the position token) for the protocol, and the
/// position records its debt, capital and position, and is unlocked. Gives
/// the new position, debt asset and position asset, and the fee in tokens.
pub open spec fn opened(
    mt: MarginTradingPosition,
    asset_debt: Asset,
    asset_position: Asset,
    amount_in: nat,
    amount: nat,
    open_position_fee_rate: u32,
) -> (MarginTradingPosition, Asset, Asset, nat) {
    let debt_shares = spec_amount_to_shares(asset_debt.margin_debt.shares as nat, asset_debt.margin_debt.balance as nat, amount_in, true);
    let ad1 = Asset {
        margin_pending_debt: (asset_debt.margin_pending_debt - amount_in) as u128,
        margin_debt: Pool {
            shares: (asset_debt.margin_debt.shares + debt_shares) as u128,
            balance: (asset_debt.margin_debt.balance + amount_in) as u128,
        },
        ..asset_debt
    };
    let ap1 = Asset { margin_position: (asset_position.margin_position + amount) as u128, ..asset_position };
    let fs = open_fee_shares(mt, open_position_fee_rate);
    let (ad2, ap2, fee) = if mt.token_c_id@ == mt.token_d_id@ {
        let (a, f) = fee_taken(ad1, fs);
        (a, ap1, f)
    } else {
        let (a, f) = fee_taken(ap1, fs);
        (ad1, a, f)
    };
    (MarginTradingPosition {
        token_c_shares: (mt.token_c_shares - fs) as u128,
        debt_cap: amount_in as u128,
        uahpi_at_open: asset_debt.unit_acc_hp_interest,
        token_d_shares: (mt.token_d_shares + debt_shares) as u128,
        token_p_amount: (mt.token_p_amount + amount) as u128,
        is_locking: false,
        ..mt
    }, ad2, ap2, fee)
}

/// Taking the fee out of this pool stays within its bounds.
pub open spec fn fee_ok(asset: Asset, fee_shares: nat) -> bool {
    let fee = spec_shares_to_amount(asset.supplied.shares as nat, asset.supplied.balance as nat, fee_shares, false);
    &&& fee_shares <= asset.supplied.shares
    &&& asset.prot_fee + fee <= u128::MAX
}

/// The open trade's return can be applied without going below zero or overflowing.
pub open spec fn open_ok(
    mt: MarginTradingPosition,
    asset_debt: Asset,
    asset_position: Asset,
    amount_in: nat,
    amount: nat,
    open_position_fee_rate: u32,
) -> bool {
    let debt_shares = spec_amount_to_shares(asset_debt.margin_debt.shares as nat, asset_debt.margin_debt.balance as nat, amount_in, true);
    let fs = open_fee_shares(mt, open_position_fee_rate);
    &&& amount_in <= asset_debt.margin_pending_debt
    &&& debt_shares <= u128::MAX
    &&& asset_debt.margin_debt.shares + debt_shares <= u128::MAX
    &&& asset_debt.margin_debt.balance + amount_in <= u128::MAX
    &&& asset_position.margin_position + amount <= u128::MAX
    &&& fs <= mt.token_c_shares
    &&& mt.token_d_shares + debt_shares <= u128::MAX
    &&& mt.token_p_amount + amount <= u128::MAX
    &&& if mt.token_c_id@ == mt.token_d_id@ { fee_ok(asset_debt, fs) } else { fee_ok(asset_position, fs) }
}

fn take_fee(asset: &mut Asset, fee_shares: u128) -> (fee: Balance)
    requires
        fee_ok(*old(asset), fee_shares as nat),
    ensures
        (*final(asset), fee as nat) == fee_taken(*old(asset), fee_shares as nat),
{
    let fee = asset.supplied.shares_to_amount(fee_shares, false);
    asset.supplied.withdraw(fee_shares, fee);
    asset.prot_fee = asset.prot_fee + fee;
    fee
}

/// Applies the return `amount` of the trade that opened `mt` with
/// `amount_in` of debt (see `opened`); returns the open fee in tokens.
pub fn apply_open_trade_return(
    mt: &mut MarginTradingPosition,
    asset_debt: &mut Asset,
    asset_position: &mut Asset,
    amount_in: Balance,
    amount: Balance,
    open_position_fee_rate: u32,
) -> (open_fee: Balance)
    requires
        open_ok(*old(mt), *old(asset_debt), *old(asset_position), amount_in as nat, amount as nat, open_position_fee_rate),
    ensures
        (*final(mt), *final(asset_debt), *final(asset_position), open_fee as nat)
            == opened(*old(mt), *old(asset_debt), *old(asset_position), amount_in as nat, amount as nat, open_position_fee_rate),
{
    asset_debt.margin_pending_debt = asset_debt.margin_pending_debt - amount_in;
    let debt_shares = asset_debt.margin_debt.amount_to_shares(amount_in, true);
    asset_debt.margin_debt.deposit(debt_shares, amount_in);
    asset_position.margin_position = asset_position.margin_position + amount;
    assert((mt.token_c_shares as nat) * (open_position_fee_rate as nat) / 10000 <= mt.token_c_shares);
    let fee_shares = u128_ratio(mt.token_c_shares, open_position_fee_rate as u128, MAX_RATIO as u128);
    let open_fee = if mt.token_c_id == mt.token_d_id {
        take_fee(asset_debt, fee_shares)
    } else {
        take_fee(asset_position, fee_shares)
    };
    mt.token_c_shares = mt.token_c_shares - fee_shares;
    mt.debt_cap = amount_in;
    mt.uahpi_at_open = asset_debt.unit_acc_hp_interest;
    mt.token_d_shares = mt.token_d_shares + debt_shares;
    mt.token_p_amount = mt.token_p_amount + amount;
    mt.is_locking = false;
    open_fee
}

/// What closing `position` leaves to the owner(s) on the benefits: its
/// collateral shares, and the supply shares that its position tokens buy
/// (rounded down) once returned to the supply of the position asset.
pub open spec fn closed(position: MarginTradingPosition, asset_position: Asset, benefits: SettlementBenefits) -> (Asset, SettlementBenefits) {
    let b1 = if position.token_c_shares > 0 {
        SettlementBenefits { collateral_shares: position.token_c_shares, ..benefits }
    } else {
        benefits
    };
    if position.token_p_amount > 0 {
        let s = spec_amount_to_shares(asset_position.supplied.shares as nat, asset_position.supplied.balance as nat,
            position.token_p_amount as nat, false);
        (Asset {
            supplied: Pool {
                shares: (asset_position.supplied.shares + s) as u128,
                balance: (asset_position.supplied.balance + position.token_p_amount) as u128,
            },
            margin_position: (asset_position.margin_position - position.token_p_amount) as u128,
            ..asset_position
        }, SettlementBenefits { position_token_shares: s as u128, ..b1 })
    } else {
        (asset_position, b1)
    }
}

/// Closing can be done without going below zero or overflowing.
pub open spec fn close_ok(position: MarginTradingPosition, asset_position: Asset) -> bool {
    let s = spec_amount_to_shares(asset_position.supplied.shares as nat, asset_position.supplied.balance as nat,
        position.token_p_amount as nat, false);
    position.token_p_amount > 0 ==> {
        &&& s <= u128::MAX
        &&& asset_position.supplied.shares + s <= u128::MAX
        &&& asset_position.supplied.balance + position.token_p_amount <= u128::MAX
        &&& position.token_p_amount <= asset_position.margin_position
    }
}

/// Settles the assets of a position whose debt is repaid (see `closed`):
/// its collateral and position tokens become benefits.
pub fn settle_closed_position(position: &MarginTradingPosition, asset_position: &mut Asset, benefits: &mut SettlementBenefits)
    requires
        close_ok(*position, *old(asset_position)),
    ensures
        (*final(asset_position), *final(benefits)) == closed(*position, *old(asset_position), *old(benefits)),
{
    if position.token_c_shares > 0 {
        benefits.collateral_shares = position.token_c_shares;
    }
    if position.token_p_amount > 0 {
        let position_shares = asset_position.supplied.amount_to_shares(position.token_p_amount, false);
        asset_position.supplied.deposit(position_shares, position.token_p_amount);
        asset_position.margin_position = asset_position.margin_position - position.token_p_amount;
        benefits.position_token_shares = position_shares;
    }
}

/// Settling a decrease trade keeps the books of margin debt: the debt
/// shares the position gives up are exactly those the debt pool loses, and
/// neither the position's debt nor the pool grows; a force close leaves the
/// position without debt, and so does a full close that repays all of it.
pub proof fn lemma_settlement_keeps_debt_books(
    position: MarginTradingPosition,
    asset_debt: Asset,
    operation: DecreaseOperation,
    amount: nat,
)
    requires
        settle_ok(position, asset_debt, operation, amount),
    ensures
        ({
            let (p, a, fee, s, c) = settled(position, asset_debt, operation, amount);
            &&& p.token_d_shares <= position.token_d_shares
            &&& asset_debt.margin_debt.shares - a.margin_debt.shares == position.token_d_shares - p.token_d_shares
            &&& a.margin_debt.balance <= asset_debt.margin_debt.balance
            &&& operation is ForceClose ==> p.token_d_shares == 0
            &&& !p.is_locking
        }),
{
    let r = spec_debt_repayment(position, asset_debt, amount);
    let (p1, a1, s1) = repaid(position, asset_debt, r);
    assert(p1.token_d_shares == position.token_d_shares - r.repay_shares);
    assert(a1.margin_debt.shares == asset_debt.margin_debt.shares - r.repay_shares);
    assert(a1.margin_debt.balance <= asset_debt.margin_debt.balance);
    let (p2, a2) = if !(operation is Decrease) { collateral_repaid(p1, a1) } else { (p1, a1) };
    if !(operation is Decrease) {
        let (rds, uss, ra) = spec_repay_from_collateral(p1, a1);
        if ra > 0 {
            assert(p2.token_d_shares == p1.token_d_shares - rds);
            assert(a2.margin_debt.shares == a1.margin_debt.shares - rds);
        } else {
            assert(p2 == p1 && a2 == a1);
        }
    }
    assert(p2.token_d_shares <= p1.token_d_shares);
    assert(a1.margin_debt.shares - a2.margin_debt.shares == p1.token_d_shares - p2.token_d_shares);
    assert(a2.margin_debt.balance <= a1.margin_debt.balance);
    if operation is ForceClose {
        if p2.token_d_shares != 0 {
            lemma_shares_to_amount_le_balance(a2.margin_debt.shares as nat, a2.margin_debt.balance as nat,
                p2.token_d_shares as nat, true);
        }
    }
}

/// Opening a position keeps the books too: the debt shares the position
/// takes are exactly those the debt pool gains, the open fee leaves the
/// collateral's supply pool for the protocol, and the collateral shares the
/// position gives up are the fee shares.
pub proof fn lemma_open_keeps_books(
    mt: MarginTradingPosition,
    asset_debt: Asset,
    asset_position: Asset,
    amount_in: nat,
    amount: nat,
    open_position_fee_rate: u32,
)
    requires
        open_ok(mt, asset_debt, asset_position, amount_in, amount, open_position_fee_rate),
    ensures
        ({
            let (m, ad, ap, fee) = opened(mt, asset_debt, asset_position, amount_in, amount, open_position_fee_rate);
            let fee_asset = if mt.token_c_id@ == mt.token_d_id@ { asset_debt } else { asset_position };
            let new_fee_asset = if mt.token_c_id@ == mt.token_d_id@ { ad } else { ap };
            &&& ad.margin_debt.shares - asset_debt.margin_debt.shares == m.token_d_shares - mt.token_d_shares
            &&& ad.margin_debt.balance - asset_debt.margin_debt.balance == amount_in
            &&& ad.margin_pending_debt + amount_in == asset_debt.margin_pending_debt
            &&& fee_asset.supplied.balance - new_fee_asset.supplied.balance == fee
            &&& new_fee_asset.prot_fee - fee_asset.prot_fee == fee
            &&& fee_asset.supplied.shares - new_fee_asset.supplied.shares == mt.token_c_shares - m.token_c_shares
        }),
{
    let fs = open_fee_shares(mt, open_position_fee_rate);
    let debt_shares = spec_amount_to_shares(asset_debt.margin_debt.shares as nat, asset_debt.margin_debt.balance as nat, amount_in, true);
    let (m, ad, ap, fee) = opened(mt, asset_debt, asset_position, amount_in, amount, open_position_fee_rate);
    assert(m.token_d_shares == mt.token_d_shares + debt_shares);
    assert(m.token_c_shares == mt.token_c_shares - fs);
    if mt.token_c_id@ == mt.token_d_id@ {
        let ad1 = Asset {
            margin_pending_debt: (asset_debt.margin_pending_debt - amount_in) as u128,
            margin_debt: Pool {
                shares: (asset_debt.margin_debt.shares + debt_shares) as u128,
                balance: (asset_debt.margin_debt.balance + amount_in) as u128,
            },
            ..asset_debt
        };
        lemma_shares_to_amount_le_balance(ad1.supplied.shares as nat, ad1.supplied.balance as nat, fs, false);
        assert(ad == fee_taken(ad1, fs).0);
    } else {
        let ap1 = Asset { margin_position: (asset_position.margin_position + amount) as u128, ..asset_position };
        lemma_shares_to_amount_le_balance(ap1.supplied.shares as nat, ap1.supplied.balance as nat, fs, false);
        assert(ap == fee_taken(ap1, fs).0);
    }
}

} // verus!
