//! Instructions for the ledger: what is to be moved, to whom. They are
//! data; the ledger carries them out after an operation has returned.

use crate::asset::{coin_amounts, token_amounts, AssetAmount, BalanceView, Coin};
use crate::error::ContractError;
use crate::state::GenericBalance;
use crate::totals::total_of;
use vstd::prelude::*;

verus! {

/// The error of the message encoder. Nothing is known of its contents.
#[verifier::external_type_specification]
#[verifier::external_body]
pub struct ExStdError(cosmwasm_std::StdError);

/// The JSON text, in bytes, of the message that asks a token contract to
/// transfer `amount` to `recipient`; absent where the encoder fails.
pub uninterp spec fn cw20_transfer_json(recipient: Seq<char>, amount: nat) -> Option<Seq<u8>>;

/// Calls `cosmwasm_std::to_json_binary` on `cw20::Cw20ExecuteMsg::Transfer`
/// with the given recipient and amount, and hands out the bytes of the
/// result. The contract claims only that the outcome is a function of the
/// two arguments, which it names `cw20_transfer_json`: the encoder reads
/// nothing but the message.
#[verifier::external_body]
fn encode_cw20_transfer(recipient: &String, amount: u128) -> (r: Result<
    Vec<u8>,
    cosmwasm_std::StdError,
>)
    ensures
        match r {
            Ok(bytes) => cw20_transfer_json(recipient@, amount as nat) == Some(bytes@),
            Err(_) => cw20_transfer_json(recipient@, amount as nat) is None,
        },
{
    let msg = cw20::Cw20ExecuteMsg::Transfer {
        recipient: recipient.clone(),
        amount: cosmwasm_std::Uint128::new(amount),
    };
    match cosmwasm_std::to_json_binary(&msg) {
        Ok(binary) => Ok(binary.0),
        Err(e) => Err(e),
    }
}

/// An instruction, as mathematics sees it.
#[allow(inconsistent_fields)]
pub enum TransferView {
    Bank { to_address: Seq<char>, amount: Seq<AssetAmount> },
    Cw20 { contract_addr: Seq<char>, recipient: Seq<char>, amount: nat, msg: Seq<u8> },
}

/// One instruction for the ledger.
#[derive(Debug, PartialEq, Eq)]
#[allow(inconsistent_fields)]
pub enum TransferMsg {
    /// Send native amounts, all in one instruction.
    Bank { to_address: String, amount: Vec<Coin> },
    /// Have a token contract transfer an amount: `msg` is the message for
    /// the contract, which says the same as `recipient` and `amount`.
    Cw20 { contract_addr: String, recipient: String, amount: u128, msg: Vec<u8> },
}

impl View for TransferMsg {
    type V = TransferView;

    open spec fn view(&self) -> TransferView {
        match self {
            TransferMsg::Bank { to_address, amount } => TransferView::Bank {
                to_address: to_address@,
                amount: coin_amounts(amount@),
            },
            TransferMsg::Cw20 { contract_addr, recipient, amount, msg } => TransferView::Cw20 {
                contract_addr: contract_addr@,
                recipient: recipient@,
                amount: *amount as nat,
                msg: msg@,
            },
        }
    }
}

/// The views of a list of instructions, in the list's order.
pub open spec fn transfers_view(msgs: Seq<TransferMsg>) -> Seq<TransferView> {
    Seq::new(msgs.len(), |i: int| msgs[i]@)
}

/// The instruction for one token amount, given the encoded message.
pub open spec fn token_transfer(to: Seq<char>, token: AssetAmount, msg: Seq<u8>) -> TransferView {
    TransferView::Cw20 { contract_addr: token.key, recipient: to, amount: token.amount, msg }
}

/// One instruction for each token amount, in the amounts' order; absent
/// where a message cannot be encoded.
pub open spec fn token_transfers(to: Seq<char>, tokens: Seq<AssetAmount>) -> Option<
    Seq<TransferView>,
>
    decreases tokens.len(),
{
    if tokens.len() == 0 {
        Some(Seq::empty())
    } else {
        match (
            token_transfers(to, tokens.drop_last()),
            cw20_transfer_json(to, tokens.last().amount),
        ) {
            (Some(front), Some(msg)) => Some(front.push(token_transfer(to, tokens.last(), msg))),
            _ => None,
        }
    }
}

/// The instructions that move a balance to an account: one for all native
/// amounts together, in their stored order, where there are any; then one
/// for each token amount, in their stored order. Absent where a message
/// cannot be encoded.
pub open spec fn transfers(to: Seq<char>, balance: BalanceView) -> Option<Seq<TransferView>> {
    match token_transfers(to, balance.cw20) {
        None => None,
        Some(tokens) => if balance.native.len() == 0 {
            Some(tokens)
        } else {
            Some(seq![TransferView::Bank { to_address: to, amount: balance.native }] + tokens)
        },
    }
}

/// The instruction that has a token contract transfer an amount, around a
/// message that was encoded for it.
pub fn token_instruction(contract_addr: &String, recipient: &String, amount: u128, msg: Vec<u8>)
    -> (t: TransferMsg)
    ensures
        t@ == token_transfer(
            recipient@,
            AssetAmount { key: contract_addr@, amount: amount as nat },
            msg@,
        ),
{
    TransferMsg::Cw20 {
        contract_addr: contract_addr.clone(),
        recipient: recipient.clone(),
        amount,
        msg,
    }
}

/// Builds the instructions that move a balance to an account. Fails where
/// the message for a token contract cannot be encoded.
pub fn send_tokens(to: &String, balance: &GenericBalance) -> (r: Result<
    Vec<TransferMsg>,
    ContractError,
>)
    ensures
        match r {
            Ok(msgs) => transfers(to@, balance@) == Some(transfers_view(msgs@)),
            Err(e) => transfers(to@, balance@) is None && e == ContractError::Std,
        },
{
    let mut msgs: Vec<TransferMsg> = Vec::new();
    if !balance.native.is_empty() {
        msgs.push(TransferMsg::Bank { to_address: to.clone(), amount: balance.native.clone() });
    }
    let ghost head = transfers_view(msgs@);
    let ghost tokens = token_amounts(balance.cw20@);
    let mut k: usize = 0;
    while k < balance.cw20.len()
        invariant
            k <= balance.cw20.len(),
            tokens == token_amounts(balance.cw20@),
            token_transfers(to@, tokens.take(k as int)) is Some,
            transfers_view(msgs@) == head + token_transfers(to@, tokens.take(k as int))->0,
        decreases balance.cw20.len() - k,
    {
        let c = &balance.cw20[k];
        proof {
            assert(tokens.take(k + 1).drop_last() =~= tokens.take(k as int));
        }
        match encode_cw20_transfer(to, c.amount) {
            Ok(bytes) => {
                let ghost front = token_transfers(to@, tokens.take(k as int))->0;
                let ghost before = transfers_view(msgs@);
                let t = token_instruction(&c.address, to, c.amount, bytes);
                msgs.push(t);
                assert(before.push(t@) =~= head + front.push(t@));
            },
            Err(_) => {
                proof {
                    lemma_token_transfers_fail(to@, tokens, k + 1);
                }
                return Err(ContractError::Std);
            },
        }
        k += 1;
    }
    assert(tokens.take(k as int) =~= tokens);
    Ok(msgs)
}

/// Where the instructions for a front part cannot be built, those for the
/// whole cannot either.
pub proof fn lemma_token_transfers_fail(to: Seq<char>, tokens: Seq<AssetAmount>, k: int)
    requires
        0 <= k <= tokens.len(),
        token_transfers(to, tokens.take(k)) is None,
    ensures
        token_transfers(to, tokens) is None,
    decreases tokens.len() - k,
{
    if k == tokens.len() {
        assert(tokens.take(k) =~= tokens);
    } else {
        assert(tokens.take(k + 1).drop_last() =~= tokens.take(k));
        lemma_token_transfers_fail(to, tokens, k + 1);
    }
}

/// What a list of instructions moves of a native asset in all.
pub open spec fn moved_native(msgs: Seq<TransferView>, denom: Seq<char>) -> nat
    decreases msgs.len(),
{
    if msgs.len() == 0 {
        0
    } else {
        moved_native(msgs.drop_last(), denom) + match msgs.last() {
            TransferView::Bank { amount, .. } => total_of(amount, denom),
            TransferView::Cw20 { .. } => 0,
        }
    }
}

/// What a list of instructions moves of a token in all.
pub open spec fn moved_tokens(msgs: Seq<TransferView>, contract: Seq<char>) -> nat
    decreases msgs.len(),
{
    if msgs.len() == 0 {
        0
    } else {
        moved_tokens(msgs.drop_last(), contract) + match msgs.last() {
            TransferView::Bank { .. } => 0,
            TransferView::Cw20 { contract_addr, amount, .. } => if contract_addr == contract {
                amount
            } else {
                0
            },
        }
    }
}

/// The instructions for token amounts move, of each token, what the
/// amounts hold of it, and nothing of any native asset.
pub proof fn lemma_token_transfers_move(
    to: Seq<char>,
    tokens: Seq<AssetAmount>,
    front: Seq<TransferView>,
    key: Seq<char>,
)
    requires
        token_transfers(to, tokens) is Some,
    ensures
        moved_tokens(front + token_transfers(to, tokens)->0, key) == moved_tokens(front, key)
            + total_of(tokens, key),
        moved_native(front + token_transfers(to, tokens)->0, key) == moved_native(front, key),
    decreases tokens.len(),
{
    let all = token_transfers(to, tokens)->0;
    if tokens.len() == 0 {
        assert(front + all =~= front);
    } else {
        let before = token_transfers(to, tokens.drop_last())->0;
        lemma_token_transfers_move(to, tokens.drop_last(), front, key);
        assert((front + all).drop_last() =~= front + before);
    }
}

/// The instructions that move a balance move, of every asset, exactly what
/// the balance holds of it.
pub proof fn lemma_transfers_move_all(to: Seq<char>, balance: BalanceView, key: Seq<char>)
    requires
        transfers(to, balance) is Some,
    ensures
        moved_native(transfers(to, balance)->0, key) == total_of(balance.native, key),
        moved_tokens(transfers(to, balance)->0, key) == total_of(balance.cw20, key),
{
    let tokens = token_transfers(to, balance.cw20)->0;
    if balance.native.len() == 0 {
        lemma_token_transfers_move(to, balance.cw20, Seq::empty(), key);
        assert(Seq::<TransferView>::empty() + tokens =~= tokens);
        assert(transfers(to, balance)->0 == tokens);
    } else {
        let bank = seq![TransferView::Bank { to_address: to, amount: balance.native }];
        assert(bank.drop_last() =~= Seq::<TransferView>::empty());
        assert(moved_native(Seq::<TransferView>::empty(), key) == 0);
        assert(moved_tokens(Seq::<TransferView>::empty(), key) == 0);
        assert(moved_native(bank, key) == total_of(balance.native, key));
        assert(moved_tokens(bank, key) == 0);
        lemma_token_transfers_move(to, balance.cw20, bank, key);
        assert(transfers(to, balance)->0 == bank + tokens);
    }
}

} // verus!
