//! The bodies of the messages to the share token.

use vstd::prelude::*;
use vstd::utf8::encode_utf8;

use cosmwasm_std::{to_json_binary, Binary};
use cw20::EmbeddedLogo::{Png, Svg};
use cw20::Logo::{Embedded, Url};
use cw20::{Cw20Coin, MinterResponse};
use cw20_base::msg::{InstantiateMarketingInfo, InstantiateMsg};

use crate::error::HostResult;
use crate::msg::{Logo, MarketingInfo, TokenInitInfo, TokenView};
use crate::text::digits;

verus! {

/// A hexadecimal digit in upper case.
pub open spec fn hex_digit(value: int) -> char {
    if value < 10 {
        (('0' as int) + value) as char
    } else {
        (('A' as int) + value - 10) as char
    }
}

/// A character as it stands inside a JSON string.
pub open spec fn json_char(c: char) -> Seq<char> {
    if c == '\\' || c == '"' {
        seq!['\\', c]
    } else if c as int == 8 {
        seq!['\\', 'b']
    } else if c as int == 9 {
        seq!['\\', 't']
    } else if c as int == 10 {
        seq!['\\', 'n']
    } else if c as int == 12 {
        seq!['\\', 'f']
    } else if c as int == 13 {
        seq!['\\', 'r']
    } else if (c as int) < 32 {
        seq!['\\', 'u', '0', '0', hex_digit(c as int / 16), hex_digit(c as int % 16)]
    } else {
        seq![c]
    }
}

/// A text as it stands inside a JSON string.
pub open spec fn json_chars(text: Seq<char>) -> Seq<char>
    decreases text.len(),
{
    if text.len() == 0 {
        Seq::empty()
    } else {
        json_chars(text.drop_last()) + json_char(text.last())
    }
}

/// The order to issue `amount` shares to `recipient`.
pub open spec fn mint_json(recipient: Seq<char>, amount: nat) -> Seq<char> {
    "{\"mint\":{\"recipient\":\""@ + json_chars(recipient) + "\",\"amount\":\""@ + digits(amount)
        + "\"}}"@
}

/// The order to destroy `amount` shares of the sender.
pub open spec fn burn_json(amount: nat) -> Seq<char> {
    "{\"burn\":{\"amount\":\""@ + digits(amount) + "\"}}"@
}

/// `to_json_binary` of `cosmwasm-std` on `Cw20ExecuteMsg::Mint` of `cw20`: the
/// message as JSON in UTF-8. Nothing in such a message fails to be written.
#[verifier::external_body]
pub(crate) fn mint_payload(recipient: &str, amount: u128) -> (r: HostResult<Vec<u8>>)
    ensures
        r is Ok,
        r->Ok_0@ == encode_utf8(mint_json(recipient@, amount as nat)),
{
    let recipient = recipient.to_string();
    let msg = cw20::Cw20ExecuteMsg::Mint { recipient, amount: amount.into() };
    to_json_binary(&msg).map(Into::into)
}

/// `to_json_binary` of `cosmwasm-std` on `Cw20ExecuteMsg::Burn` of `cw20`: the
/// message as JSON in UTF-8. Nothing in such a message fails to be written.
#[verifier::external_body]
pub(crate) fn burn_payload(amount: u128) -> (r: HostResult<Vec<u8>>)
    ensures
        r is Ok,
        r->Ok_0@ == encode_utf8(burn_json(amount as nat)),
{
    let msg = cw20::Cw20ExecuteMsg::Burn { amount: amount.into() };
    to_json_binary(&msg).map(Into::into)
}

/// What [`token_payload`] writes for a token that `minter` may issue up to `cap`.
pub uninterp spec fn token_json(token: TokenView, minter: Seq<char>, cap: Option<u128>) -> Seq<u8>;

/// `to_json_binary` of `cosmwasm-std` on the `InstantiateMsg` of `cw20-base`: the
/// setup of a share token as JSON, which depends on what is to be written alone.
/// Nothing in such a message fails to be written.
#[verifier::external_body]
pub(crate) fn token_payload(token: &TokenInitInfo, minter: String, cap: Option<u128>) -> (r:
    HostResult<Vec<u8>>)
    ensures
        r is Ok,
        r->Ok_0@ == token_json(token@, minter@, cap),
{
    let TokenInitInfo { name, symbol, decimals, initial_balances, marketing, .. } = token.clone();
    let convert = |logo| match logo {
        Logo::Url(url) => Url(url),
        Logo::Svg(picture) => Embedded(Svg(Binary(picture))),
        Logo::Png(picture) => Embedded(Png(Binary(picture))),
    };
    let marketing = marketing.map(|MarketingInfo { project, description, marketing, logo }|
        InstantiateMarketingInfo { project, description, marketing, logo: logo.map(convert) });
    let initial_balances = initial_balances.into_iter().map(
        |(address, amount)| Cw20Coin { address, amount: amount.into() }).collect();
    to_json_binary(&InstantiateMsg {
        mint: Some(MinterResponse { minter, cap: cap.map(Into::into) }),
        name, symbol, decimals, initial_balances, marketing }).map(Into::into)
}

} // verus!
