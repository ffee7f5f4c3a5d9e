//! Splitting money into the two tokens of a market, and merging them again.

use vstd::prelude::*;
use vstd::string::*;

use crate::decimal::Dec;
use crate::executor::bytes;
use crate::executor::bytes::{extend, parse_bytes32, repeat_byte, selector_of, word_of};
use crate::executor::clob;
use crate::executor::clob::{read_token, LimitOrderParams};
use crate::executor::relayer;
use crate::executor::relayer::ProxyCall;
use crate::executor::strategy::OrderSide;
use crate::text;
use crate::text::{push_u64, Text};

verus! {

/// The address of the collateral of all markets.
pub open spec fn usdc_e() -> Seq<u8> {
    seq![
        0x27, 0x91, 0xbc, 0xa1, 0xf2, 0xde, 0x46, 0x61, 0xed, 0x88, 0xa3, 0x0c, 0x99, 0xa7, 0xa9,
        0x44, 0x9a, 0xa8, 0x41, 0x74,
    ]
}

/// The address of the collateral of all markets.
pub fn usdc_e_address() -> (a: Vec<u8>)
    ensures
        a@ == usdc_e(),
{
    let a: Vec<u8> = vec![
        0x27, 0x91, 0xbc, 0xa1, 0xf2, 0xde, 0x46, 0x61, 0xed, 0x88, 0xa3, 0x0c, 0x99, 0xa7, 0xa9,
        0x44, 0x9a, 0xa8, 0x41, 0x74,
    ];
    assert(a@ =~= usdc_e());
    a
}

/// The address of the money that is split.
pub open spec fn pusd() -> Seq<u8> {
    seq![
        0xc0, 0x11, 0xa7, 0xe1, 0x2a, 0x19, 0xf7, 0xb1, 0xf6, 0x70, 0xd4, 0x6f, 0x03, 0xb0, 0x3f,
        0x33, 0x42, 0xe8, 0x2d, 0xfb,
    ]
}

/// The address of the money that is split.
pub fn pusd_address() -> (a: Vec<u8>)
    ensures
        a@ == pusd(),
{
    let a: Vec<u8> = vec![
        0xc0, 0x11, 0xa7, 0xe1, 0x2a, 0x19, 0xf7, 0xb1, 0xf6, 0x70, 0xd4, 0x6f, 0x03, 0xb0, 0x3f,
        0x33, 0x42, 0xe8, 0x2d, 0xfb,
    ];
    assert(a@ =~= pusd());
    a
}

/// The address of the contract that splits and merges.
pub open spec fn ctf_adapter() -> Seq<u8> {
    seq![
        0xad, 0xa1, 0x00, 0xdb, 0x00, 0xca, 0x00, 0x07, 0x38, 0x11, 0x82, 0x06, 0x92, 0x00, 0x54,
        0x00, 0x21, 0x8f, 0xce, 0x1f,
    ]
}

/// The address of the contract that splits and merges.
pub fn ctf_adapter_address() -> (a: Vec<u8>)
    ensures
        a@ == ctf_adapter(),
{
    let a: Vec<u8> = vec![
        0xad, 0xa1, 0x00, 0xdb, 0x00, 0xca, 0x00, 0x07, 0x38, 0x11, 0x82, 0x06, 0x92, 0x00, 0x54,
        0x00, 0x21, 0x8f, 0xce, 0x1f,
    ];
    assert(a@ =~= ctf_adapter());
    a
}

// Arguments

/// An address as a word: twelve zeros, then its bytes.
pub open spec fn padded_address(address: Seq<u8>) -> Seq<u8> {
    Seq::new(12, |i: int| 0u8) + address
}

/// Numbers as words, one behind the other.
pub open spec fn words_of(list: Seq<u64>) -> Seq<u8>
    decreases list.len(),
{
    if list.len() == 0 {
        seq![]
    } else {
        words_of(list.drop_last()) + bytes::word(list.last() as nat)
    }
}

/// A list of numbers behind all other arguments: how many there are, then the numbers.
pub open spec fn list_words(list: Seq<u64>) -> Seq<u8> {
    bytes::word(list.len()) + words_of(list)
}

/// The encoding of an address and a number as arguments: a word for each.
pub open spec fn approve_args(spender: Seq<u8>, amount: Seq<u8>) -> Seq<u8> {
    padded_address(spender) + amount
}

/// Encodes the arguments of `approve` with the `abi_encode_sequence` of `alloy`'s `SolValue`, as
/// an `address` and a `uint256`. Each takes one word.
#[verifier::external_body]
fn encode_approve_args(spender: &Vec<u8>, amount: &Vec<u8>) -> (out: Vec<u8>)
    requires
        spender@.len() == 20,
        amount@.len() == 32,
    ensures
        out@ == approve_args(spender@, amount@),
{
    let args = (
        alloy::primitives::Address::from_slice(spender),
        alloy::primitives::U256::from_be_slice(amount),
    );
    alloy::sol_types::SolValue::abi_encode_sequence(&args)
}

/// The encoding of an address and a truth value as arguments: a word for each, one for true and
/// zero for false.
pub open spec fn approval_args(operator: Seq<u8>, approved: bool) -> Seq<u8> {
    padded_address(operator) + bytes::word(if approved { 1 } else { 0 })
}

/// Encodes the arguments of `setApprovalForAll` with the `abi_encode_sequence` of `alloy`'s
/// `SolValue`, as an `address` and a `bool`. Each takes one word.
#[verifier::external_body]
fn encode_approval_args(operator: &Vec<u8>, approved: bool) -> (out: Vec<u8>)
    requires
        operator@.len() == 20,
    ensures
        out@ == approval_args(operator@, approved),
{
    let args = (alloy::primitives::Address::from_slice(operator), approved);
    alloy::sol_types::SolValue::abi_encode_sequence(&args)
}

/// The encoding of a collateral, a parent, a condition, a partition and an amount as arguments: a
/// word for each, where that of the partition tells that it begins behind these five words.
pub open spec fn position_args(
    collateral: Seq<u8>,
    parent: Seq<u8>,
    condition: Seq<u8>,
    partition: Seq<u64>,
    amount: Seq<u8>,
) -> Seq<u8> {
    padded_address(collateral) + parent + condition + bytes::word(160) + amount + list_words(
        partition,
    )
}

/// Encodes the arguments of `splitPosition` and `mergePositions` with the `abi_encode_sequence`
/// of `alloy`'s `SolValue`, as an `address`, two `bytes32`, a `uint256[]` and a `uint256`. Each
/// takes one word; that of the list holds its distance from the start, and the list, its length
/// first, stands behind them all.
#[verifier::external_body]
fn encode_position_args(
    collateral: &Vec<u8>,
    parent: &Vec<u8>,
    condition: &Vec<u8>,
    partition: &Vec<u64>,
    amount: &Vec<u8>,
) -> (out: Vec<u8>)
    requires
        collateral@.len() == 20,
        parent@.len() == 32,
        condition@.len() == 32,
        amount@.len() == 32,
    ensures
        out@ == position_args(collateral@, parent@, condition@, partition@, amount@),
{
    let parts: Vec<alloy::primitives::U256> =
        partition.iter().map(|n: &u64| alloy::primitives::U256::from(*n)).collect();
    let args = (
        alloy::primitives::Address::from_slice(collateral),
        alloy::primitives::B256::from_slice(parent),
        alloy::primitives::B256::from_slice(condition),
        parts,
        alloy::primitives::U256::from_be_slice(amount),
    );
    alloy::sol_types::SolValue::abi_encode_sequence(&args)
}

/// The encoding of a collateral, a parent, a condition and index sets as arguments: a word for
/// each, where that of the sets tells that they begin behind these four words.
pub open spec fn redeem_args(
    collateral: Seq<u8>,
    parent: Seq<u8>,
    condition: Seq<u8>,
    sets: Seq<u64>,
) -> Seq<u8> {
    padded_address(collateral) + parent + condition + bytes::word(128) + list_words(sets)
}

/// Encodes the arguments of `redeemPositions` with the `abi_encode_sequence` of `alloy`'s
/// `SolValue`, as an `address`, two `bytes32` and a `uint256[]`. Each takes one word; that of the
/// list holds its distance from the start, and the list, its length first, stands behind them all.
#[verifier::external_body]
fn encode_redeem_args(
    collateral: &Vec<u8>,
    parent: &Vec<u8>,
    condition: &Vec<u8>,
    sets: &Vec<u64>,
) -> (out: Vec<u8>)
    requires
        collateral@.len() == 20,
        parent@.len() == 32,
        condition@.len() == 32,
    ensures
        out@ == redeem_args(collateral@, parent@, condition@, sets@),
{
    let list: Vec<alloy::primitives::U256> =
        sets.iter().map(|n: &u64| alloy::primitives::U256::from(*n)).collect();
    let args = (
        alloy::primitives::Address::from_slice(collateral),
        alloy::primitives::B256::from_slice(parent),
        alloy::primitives::B256::from_slice(condition),
        list,
    );
    alloy::sol_types::SolValue::abi_encode_sequence(&args)
}

// Calls

/// The data of a call that lets the adapter spend any amount.
pub open spec fn approve_data() -> Seq<u8> {
    bytes::selector("approve(address,uint256)".spec_bytes()) + approve_args(
        ctf_adapter(),
        bytes::largest_word(),
    )
}

/// The data of a call that lets an operator move all tokens.
pub open spec fn approval_data(operator: Seq<u8>) -> Seq<u8> {
    bytes::selector("setApprovalForAll(address,bool)".spec_bytes()) + approval_args(operator, true)
}

/// The arguments for splitting or merging an amount of whole dollars: in units of which a
/// million make one, into or from the first and the second outcome.
pub open spec fn amount_args(condition: Seq<u8>, amount: nat) -> Seq<u8> {
    position_args(
        usdc_e(),
        bytes::word(0),
        condition,
        seq![1u64, 2],
        bytes::word(amount * 1_000_000),
    )
}

/// The calls that split an amount: permission to spend, then the split itself.
pub open spec fn split_calls_of(condition: Seq<u8>, amount: nat) -> Seq<(u8, Seq<u8>, u64, Seq<u8>)> {
    seq![
        (1u8, pusd(), 0u64, approve_data()),
        (
            1u8,
            ctf_adapter(),
            0u64,
            bytes::selector(
                "splitPosition(address,bytes32,bytes32,uint256[],uint256)".spec_bytes(),
            ) + amount_args(condition, amount),
        ),
    ]
}

/// The calls that merge an amount: permission to move the tokens of a contract, then the merger
/// itself.
pub open spec fn merge_calls_of(ctf: Seq<u8>, condition: Seq<u8>, amount: nat) -> Seq<
    (u8, Seq<u8>, u64, Seq<u8>),
> {
    seq![
        (1u8, ctf, 0u64, approval_data(ctf_adapter())),
        (
            1u8,
            ctf_adapter(),
            0u64,
            bytes::selector(
                "mergePositions(address,bytes32,bytes32,uint256[],uint256)".spec_bytes(),
            ) + amount_args(condition, amount),
        ),
    ]
}

/// The calls that redeem a condition: permission to move the tokens of a contract, then the
/// redemption of both outcomes.
pub open spec fn redeem_calls_of(ctf: Seq<u8>, condition: Seq<u8>) -> Seq<
    (u8, Seq<u8>, u64, Seq<u8>),
> {
    seq![
        (1u8, ctf, 0u64, approval_data(ctf_adapter())),
        (
            1u8,
            ctf_adapter(),
            0u64,
            bytes::selector(
                "redeemPositions(address,bytes32,bytes32,uint256[])".spec_bytes(),
            ) + redeem_args(usdc_e(), bytes::word(0), condition, seq![1u64, 2]),
        ),
    ]
}

/// The calls that let the adapter spend money and move tokens, and two exchanges move tokens.
pub open spec fn approve_calls_of(ctf: Seq<u8>, exchange: Seq<u8>, neg_exchange: Seq<u8>) -> Seq<
    (u8, Seq<u8>, u64, Seq<u8>),
> {
    seq![
        (1u8, pusd(), 0u64, approve_data()),
        (1u8, ctf, 0u64, approval_data(ctf_adapter())),
        (1u8, ctf, 0u64, approval_data(exchange)),
        (1u8, ctf, 0u64, approval_data(neg_exchange)),
    ]
}

fn encode_approval(operator: &Vec<u8>) -> (out: Vec<u8>)
    requires
        operator@.len() == 20,
    ensures
        out@ == approval_data(operator@),
{
    let mut out: Vec<u8> = selector_of("setApprovalForAll(address,bool)");
    extend(&mut out, &encode_approval_args(operator, true));
    out
}

fn encode_approve() -> (out: Vec<u8>)
    ensures
        out@ == approve_data(),
{
    let mut out: Vec<u8> = selector_of("approve(address,uint256)");
    let all: Vec<u8> = repeat_byte(255);
    extend(&mut out, &encode_approve_args(&ctf_adapter_address(), &all));
    out
}

fn no_config(what: &str, chain_id: u64) -> (m: String)
    ensures
        m@ == what@ + text::nat_text(chain_id as nat),
{
    let mut m: String = what.to_owned();
    push_u64(&mut m, chain_id);
    m
}

fn encode_amount(condition: &Vec<u8>, amount: u64) -> (out: Vec<u8>)
    requires
        condition@.len() == 32,
    ensures
        out@ == amount_args(condition@, amount as nat),
{
    let units: u128 = amount as u128 * 1_000_000;
    let partition: Vec<u64> = vec![1, 2];
    assert(partition@ =~= seq![1u64, 2]);
    encode_position_args(
        &usdc_e_address(),
        &word_of(0),
        condition,
        &partition,
        &word_of(units),
    )
}

fn call_to(to: Vec<u8>, data: Vec<u8>) -> (c: ProxyCall)
    ensures
        relayer::call_view(c) == (1u8, to@, 0u64, data@),
{
    ProxyCall { type_code: 1, to, value: 0, data }
}

/// The calls that split an amount under a condition, or the fault of its name.
pub fn split_position(condition_id: &str, amount: u64) -> (r: Result<Vec<ProxyCall>, String>)
    ensures
        match (r, bytes::bytes32_of_text(condition_id@)) {
            (Ok(calls), Some(condition)) => relayer::calls_view(calls@) == split_calls_of(
                condition,
                amount as nat,
            ) && relayer::calls_wf(calls@),
            (Err(m), None) => m@ == "Invalid condition ID hex"@,
            _ => false,
        },
{
    let condition: Vec<u8> = match parse_bytes32(condition_id) {
        Some(b) => b,
        None => {
            return Err("Invalid condition ID hex".to_owned());
        },
    };
    let approve: Vec<u8> = encode_approve();
    let mut split: Vec<u8> = selector_of(
        "splitPosition(address,bytes32,bytes32,uint256[],uint256)",
    );
    extend(&mut split, &encode_amount(&condition, amount));
    let mut calls: Vec<ProxyCall> = Vec::new();
    calls.push(call_to(pusd_address(), approve));
    calls.push(call_to(ctf_adapter_address(), split));
    assert(relayer::calls_view(calls@) =~= split_calls_of(condition@, amount as nat));
    Ok(calls)
}

/// The calls that merge an amount under a condition, or the first fault: no contract known for
/// the chain, or a wrong name of the condition.
pub fn merge_positions(ctf: Option<Vec<u8>>, chain_id: u64, condition_id: &str, amount: u64) -> (r:
    Result<Vec<ProxyCall>, String>)
    requires
        ctf matches Some(a) ==> a@.len() == 20,
    ensures
        match (r, ctf, bytes::bytes32_of_text(condition_id@)) {
            (Err(m), None, _) => m@ == "No contract config for chain "@ + text::nat_text(
                chain_id as nat,
            ),
            (Ok(calls), Some(ctf), Some(condition)) => relayer::calls_view(calls@)
                == merge_calls_of(ctf@, condition, amount as nat) && relayer::calls_wf(calls@),
            (Err(m), Some(_), None) => m@ == "Invalid condition ID hex"@,
            _ => false,
        },
{
    let ctf: Vec<u8> = match ctf {
        Some(a) => a,
        None => {
            return Err(no_config("No contract config for chain ", chain_id));
        },
    };
    let condition: Vec<u8> = match parse_bytes32(condition_id) {
        Some(b) => b,
        None => {
            return Err("Invalid condition ID hex".to_owned());
        },
    };
    let approve: Vec<u8> = encode_approval(&ctf_adapter_address());
    let mut merge: Vec<u8> = selector_of(
        "mergePositions(address,bytes32,bytes32,uint256[],uint256)",
    );
    extend(&mut merge, &encode_amount(&condition, amount));
    let mut calls: Vec<ProxyCall> = Vec::new();
    let ghost contract = ctf@;
    calls.push(call_to(ctf, approve));
    calls.push(call_to(ctf_adapter_address(), merge));
    assert(relayer::calls_view(calls@) =~= merge_calls_of(contract, condition@, amount as nat));
    Ok(calls)
}

/// The calls that redeem a condition, or the first fault: no contract known for the chain, or a
/// wrong name of the condition.
pub fn redeem_positions(ctf: Option<Vec<u8>>, chain_id: u64, condition_id: &str) -> (r: Result<
    Vec<ProxyCall>,
    String,
>)
    requires
        ctf matches Some(a) ==> a@.len() == 20,
    ensures
        match (r, ctf, bytes::bytes32_of_text(condition_id@)) {
            (Err(m), None, _) => m@ == "No contract config for chain "@ + text::nat_text(
                chain_id as nat,
            ),
            (Ok(calls), Some(ctf), Some(condition)) => relayer::calls_view(calls@)
                == redeem_calls_of(ctf@, condition) && relayer::calls_wf(calls@),
            (Err(m), Some(_), None) => m@ == "Invalid condition ID hex"@,
            _ => false,
        },
{
    let ctf: Vec<u8> = match ctf {
        Some(a) => a,
        None => {
            return Err(no_config("No contract config for chain ", chain_id));
        },
    };
    let condition: Vec<u8> = match parse_bytes32(condition_id) {
        Some(b) => b,
        None => {
            return Err("Invalid condition ID hex".to_owned());
        },
    };
    let sets: Vec<u64> = vec![1, 2];
    assert(sets@ =~= seq![1u64, 2]);
    let mut redeem: Vec<u8> = selector_of("redeemPositions(address,bytes32,bytes32,uint256[])");
    extend(
        &mut redeem,
        &encode_redeem_args(&usdc_e_address(), &word_of(0), &condition, &sets),
    );
    let mut calls: Vec<ProxyCall> = Vec::new();
    let ghost contract = ctf@;
    calls.push(call_to(ctf, encode_approval(&ctf_adapter_address())));
    calls.push(call_to(ctf_adapter_address(), redeem));
    assert(relayer::calls_view(calls@) =~= redeem_calls_of(contract, condition@));
    Ok(calls)
}

/// The contracts of a chain: the tokens, and the exchange where there is one.
pub struct ChainContracts {
    pub conditional_tokens: Vec<u8>,
    pub exchange_v2: Option<Vec<u8>>,
}

impl ChainContracts {
    /// The contracts are addresses.
    pub open spec fn wf(self) -> bool {
        self.conditional_tokens@.len() == 20 && (self.exchange_v2 matches Some(a) ==> a@.len() == 20)
    }
}

/// What stands in the way of the approvals: contracts that are not known, in this order.
pub open spec fn approve_fault(
    plain: Option<ChainContracts>,
    neg_risk: Option<ChainContracts>,
    chain_id: nat,
) -> Option<Text> {
    if plain is None {
        Some("No contract config for chain "@ + text::nat_text(chain_id))
    } else if neg_risk is None {
        Some("No neg-risk contract config for chain "@ + text::nat_text(chain_id))
    } else if plain->0.exchange_v2 is None {
        Some("No exchange_v2 address"@)
    } else if neg_risk->0.exchange_v2 is None {
        Some("No neg-risk exchange_v2 address"@)
    } else {
        None
    }
}

/// The calls that approve the adapter and the exchanges, or the first fault.
pub fn approve_exchanges(
    plain: Option<ChainContracts>,
    neg_risk: Option<ChainContracts>,
    chain_id: u64,
) -> (r: Result<Vec<ProxyCall>, String>)
    requires
        plain matches Some(c) ==> c.wf(),
        neg_risk matches Some(c) ==> c.wf(),
    ensures
        match (r, approve_fault(plain, neg_risk, chain_id as nat)) {
            (Err(m), Some(fault)) => m@ == fault,
            (Ok(calls), None) => relayer::calls_view(calls@) == approve_calls_of(
                plain->0.conditional_tokens@,
                plain->0.exchange_v2->0@,
                neg_risk->0.exchange_v2->0@,
            ) && relayer::calls_wf(calls@),
            _ => false,
        },
{
    let plain: ChainContracts = match plain {
        Some(c) => c,
        None => {
            return Err(no_config("No contract config for chain ", chain_id));
        },
    };
    let neg_risk: ChainContracts = match neg_risk {
        Some(c) => c,
        None => {
            return Err(no_config("No neg-risk contract config for chain ", chain_id));
        },
    };
    let exchange: Vec<u8> = match plain.exchange_v2 {
        Some(a) => a,
        None => {
            return Err("No exchange_v2 address".to_owned());
        },
    };
    let neg_exchange: Vec<u8> = match neg_risk.exchange_v2 {
        Some(a) => a,
        None => {
            return Err("No neg-risk exchange_v2 address".to_owned());
        },
    };
    let ctf: Vec<u8> = plain.conditional_tokens;
    let mut second: Vec<u8> = Vec::new();
    extend(&mut second, &ctf);
    let mut third: Vec<u8> = Vec::new();
    extend(&mut third, &ctf);
    let ghost contract = ctf@;
    assert(second@ =~= contract);
    assert(third@ =~= contract);
    let mut calls: Vec<ProxyCall> = Vec::new();
    calls.push(call_to(pusd_address(), encode_approve()));
    calls.push(call_to(ctf, encode_approval(&ctf_adapter_address())));
    calls.push(call_to(second, encode_approval(&exchange)));
    calls.push(call_to(third, encode_approval(&neg_exchange)));
    assert(relayer::calls_view(calls@) =~= approve_calls_of(
        contract,
        exchange@,
        neg_exchange@,
    ));
    Ok(calls)
}

// Registration

/// The number of a token whose balance is announced to the exchange.
pub fn registered_token(token_id: &str) -> (r: Result<Vec<u8>, String>)
    ensures
        match (r, clob::token_number(token_id@)) {
            (Ok(b), Ok(n)) => b@ == n,
            (Err(m), Err(_)) => m@ == "Invalid token ID"@,
            _ => false,
        },
{
    match read_token(token_id) {
        Ok(b) => Ok(b),
        Err(_) => Err("Invalid token ID".to_owned()),
    }
}

/// The order that is placed and cancelled at once so that the exchange learns of a position: a
/// sale of five of the first token at a high price.
pub fn registration_order(clob_token_ids: &Vec<String>) -> (r: Result<LimitOrderParams, String>)
    ensures
        match r {
            Ok(o) => clob_token_ids@.len() > 0 && o.token_id@ == clob_token_ids@[0]@ && o.side
                == OrderSide::Sell && o.price == (Dec { mantissa: 95, scale: 2 }) && o.size == (Dec {
                mantissa: 50,
                scale: 1,
            }),
            Err(m) => clob_token_ids@.len() == 0 && m@ == "no YES token ID"@,
        },
{
    if clob_token_ids.len() == 0 {
        return Err("no YES token ID".to_owned());
    }
    Ok(
        LimitOrderParams {
            token_id: clob_token_ids[0].clone(),
            side: OrderSide::Sell,
            price: Dec { mantissa: 95, scale: 2 },
            size: Dec { mantissa: 50, scale: 1 },
        },
    )
}

// Laws

proof fn lemma_two_outcomes()
    ensures
        list_words(seq![1u64, 2]) == bytes::word(2) + (bytes::word(1) + bytes::word(2)),
{
    let both = seq![1u64, 2];
    assert(both.drop_last() =~= seq![1u64]);
    assert(seq![1u64].drop_last() =~= seq![]);
    reveal_with_fuel(words_of, 3);
    assert(words_of(both) =~= bytes::word(1) + bytes::word(2));
}

/// The arguments of a split or a merger, word by word.
pub open spec fn amount_words(condition: Seq<u8>, units: nat) -> Seq<u8> {
    Seq::new(12, |i: int| 0u8) + usdc_e() + bytes::word(0) + condition + bytes::word(160)
        + bytes::word(units) + (bytes::word(2) + (bytes::word(1) + bytes::word(2)))
}

/// A split lets the adapter spend the money and then has it split the amount, in units of which a
/// million make one, into both outcomes of the condition.
pub proof fn splits_are_of_both_outcomes(condition: Seq<u8>, amount: nat)
    ensures
        ({
            let calls = split_calls_of(condition, amount);
            &&& calls.len() == 2
            &&& calls[0] == (
                1u8,
                pusd(),
                0u64,
                bytes::selector("approve(address,uint256)".spec_bytes()) + (Seq::new(
                    12,
                    |i: int| 0u8,
                ) + ctf_adapter() + Seq::new(32, |i: int| 255u8)),
            )
            &&& calls[1] == (
                1u8,
                ctf_adapter(),
                0u64,
                bytes::selector(
                    "splitPosition(address,bytes32,bytes32,uint256[],uint256)".spec_bytes(),
                ) + amount_words(condition, amount * 1_000_000),
            )
        }),
{
    lemma_two_outcomes();
}

/// A merger lets the adapter move the tokens and then has it merge the amount, in units of which a
/// million make one, from both outcomes of the condition.
pub proof fn mergers_are_of_both_outcomes(ctf: Seq<u8>, condition: Seq<u8>, amount: nat)
    ensures
        ({
            let calls = merge_calls_of(ctf, condition, amount);
            &&& calls.len() == 2
            &&& calls[0] == (
                1u8,
                ctf,
                0u64,
                bytes::selector("setApprovalForAll(address,bool)".spec_bytes()) + (Seq::new(
                    12,
                    |i: int| 0u8,
                ) + ctf_adapter() + bytes::word(1)),
            )
            &&& calls[1] == (
                1u8,
                ctf_adapter(),
                0u64,
                bytes::selector(
                    "mergePositions(address,bytes32,bytes32,uint256[],uint256)".spec_bytes(),
                ) + amount_words(condition, amount * 1_000_000),
            )
        }),
{
    lemma_two_outcomes();
}

/// A redemption lets the adapter move the tokens and then has it redeem both outcomes of the
/// condition.
pub proof fn redemptions_are_of_both_outcomes(ctf: Seq<u8>, condition: Seq<u8>)
    ensures
        ({
            let calls = redeem_calls_of(ctf, condition);
            &&& calls.len() == 2
            &&& calls[0] == merge_calls_of(ctf, condition, 0)[0]
            &&& calls[1] == (
                1u8,
                ctf_adapter(),
                0u64,
                bytes::selector(
                    "redeemPositions(address,bytes32,bytes32,uint256[])".spec_bytes(),
                ) + (Seq::new(12, |i: int| 0u8) + usdc_e() + bytes::word(0) + condition
                    + bytes::word(128) + (bytes::word(2) + (bytes::word(1) + bytes::word(2)))),
            )
        }),
{
    lemma_two_outcomes();
}

/// The adapter may spend the money, and the adapter and both exchanges may move the tokens.
pub proof fn exchanges_are_approved(ctf: Seq<u8>, exchange: Seq<u8>, neg_exchange: Seq<u8>, i: int)
    ensures
        ({
            let calls = approve_calls_of(ctf, exchange, neg_exchange);
            let operator = if i == 1 {
                ctf_adapter()
            } else if i == 2 {
                exchange
            } else {
                neg_exchange
            };
            &&& calls.len() == 4
            &&& calls[0] == split_calls_of(ctf, 0)[0]
            &&& 1 <= i < 4 ==> calls[i] == (
                1u8,
                ctf,
                0u64,
                bytes::selector("setApprovalForAll(address,bool)".spec_bytes()) + (Seq::new(
                    12,
                    |i: int| 0u8,
                ) + operator + bytes::word(1)),
            )
        }),
{
}

/// The first contract that is not known is told: the tokens of the chain, those of its second kind,
/// then the exchanges.
pub proof fn unknown_contracts_are_told(
    plain: Option<ChainContracts>,
    neg_risk: Option<ChainContracts>,
    chain_id: nat,
)
    ensures
        plain is None ==> approve_fault(plain, neg_risk, chain_id) == Some(
            "No contract config for chain "@ + text::nat_text(chain_id),
        ),
        plain is Some && neg_risk is None ==> approve_fault(plain, neg_risk, chain_id) == Some(
            "No neg-risk contract config for chain "@ + text::nat_text(chain_id),
        ),
        plain is Some && neg_risk is Some ==> (approve_fault(plain, neg_risk, chain_id) is None
            <==> plain->0.exchange_v2 is Some && neg_risk->0.exchange_v2 is Some),
{
}

} // verus!
