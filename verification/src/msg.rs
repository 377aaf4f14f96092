//! What the hub can be asked, and what it answers.

use vstd::prelude::*;

use crate::decimal::Decimal;

verus! {

/// The picture of a token.
#[derive(Clone, Debug, PartialEq, Eq)]
pub enum Logo {
    Url(String),
    Svg(Vec<u8>),
    Png(Vec<u8>),
}

/// The contents of a [`Logo`].
pub enum LogoView {
    Url(Seq<char>),
    Svg(Seq<u8>),
    Png(Seq<u8>),
}

impl View for Logo {
    type V = LogoView;

    open spec fn view(&self) -> LogoView {
        match self {
            Logo::Url(url) => LogoView::Url(url@),
            Logo::Svg(picture) => LogoView::Svg(picture@),
            Logo::Png(picture) => LogoView::Png(picture@),
        }
    }
}

/// How a token is advertised.
#[derive(Clone, Debug, PartialEq, Eq)]
pub struct MarketingInfo {
    pub project: Option<String>,
    pub description: Option<String>,
    pub marketing: Option<String>,
    pub logo: Option<Logo>,
}

/// The contents of a [`MarketingInfo`].
pub struct MarketingView {
    pub project: Option<Seq<char>>,
    pub description: Option<Seq<char>>,
    pub marketing: Option<Seq<char>>,
    pub logo: Option<LogoView>,
}

/// The contents of a text that may be missing.
pub open spec fn text_view(text: Option<String>) -> Option<Seq<char>> {
    match text {
        Some(text) => Some(text@),
        None => None,
    }
}

impl View for MarketingInfo {
    type V = MarketingView;

    open spec fn view(&self) -> MarketingView {
        MarketingView {
            project: text_view(self.project),
            description: text_view(self.description),
            marketing: text_view(self.marketing),
            logo: match self.logo {
                Some(logo) => Some(logo@),
                None => None,
            },
        }
    }
}

/// How the share token is set up.
#[derive(Clone, Debug, PartialEq, Eq)]
pub struct TokenInitInfo {
    pub label: String,
    pub cw20_code_id: u64,
    pub name: String,
    pub symbol: String,
    pub decimals: u8,
    /// Shares that exist from the start, by holder.
    pub initial_balances: Vec<(String, u128)>,
    pub marketing: Option<MarketingInfo>,
}

/// What the share token is told of its setup.
pub struct TokenView {
    pub name: Seq<char>,
    pub symbol: Seq<char>,
    pub decimals: u8,
    pub initial_balances: Seq<(Seq<char>, u128)>,
    pub marketing: Option<MarketingView>,
}

impl View for TokenInitInfo {
    type V = TokenView;

    open spec fn view(&self) -> TokenView {
        TokenView {
            name: self.name@,
            symbol: self.symbol@,
            decimals: self.decimals,
            initial_balances: self.initial_balances@.map_values(
                |b: (String, u128)| (b.0@, b.1),
            ),
            marketing: match self.marketing {
                Some(marketing) => Some(marketing@),
                None => None,
            },
        }
    }
}

/// How the hub is set up.
#[derive(Clone, Debug, PartialEq, Eq)]
pub struct InstantiateMsg {
    /// Receives the commission.
    pub treasury: String,
    /// The part of all rewards that is paid to the treasury.
    pub commission: Decimal,
    /// The validators with their weights.
    pub validators: Vec<(String, Decimal)>,
    /// May change the settings.
    pub owner: String,
    /// The time between two reinvestments, in seconds.
    pub epoch_period: u64,
    /// How long the chain takes to release stake, in seconds.
    pub unbond_period: u64,
    /// How many releases may be under way at a time.
    pub max_concurrent_unbondings: u64,
    pub cw20_init: TokenInitInfo,
    /// By how much shares are worth less than the tokens they stand for.
    pub liquidity_discount: Decimal,
}

/// Shares that a holder has sent to the hub through the share token.
#[derive(Clone, Debug, PartialEq, Eq)]
pub struct ReceivedShares {
    /// The holder.
    pub sender: String,
    pub amount: u128,
    /// What the holder asks for, as JSON.
    pub msg: Vec<u8>,
}

/// What the hub can be asked to do.
#[derive(Clone, Debug, PartialEq, Eq)]
pub enum ExecuteMsg {
    Receive(ReceivedShares),
    Claim,
    Bond,
    Reinvest,
    SetValidators { new_validators: Vec<(String, Decimal)> },
    UpdateLiquidityDiscount { new_discount: Decimal },
    EmergencyUnbondAll,
}

/// What share holders can ask for by sending shares to the hub.
#[derive(Clone, Copy, Debug, PartialEq, Eq, Structural)]
pub enum ReceiveMsg {
    /// Turns the shares into a claim.
    Unbond,
}

/// What the hub can be asked to tell.
#[derive(Clone, Debug, PartialEq, Eq)]
pub enum QueryMsg {
    Config,
    Claims { address: String },
    ValidatorSet,
    LastReinvest,
    Supply,
    ExchangeRate,
    TargetValue,
}

/// What comes with a new version.
#[derive(Clone, Debug, PartialEq, Eq)]
pub struct MigrateMsg {
    pub new_owner: Option<String>,
}

#[derive(Clone, Debug, PartialEq, Eq)]
pub struct ConfigResponse {
    pub owner: String,
    pub token_contract: String,
    pub treasury: String,
    pub commission: Decimal,
    pub epoch_period: u64,
    pub unbond_period: u64,
}

#[derive(Clone, Debug, PartialEq, Eq)]
pub struct ValidatorSetResponse {
    pub validator_set: Vec<(String, Decimal)>,
}

#[derive(Clone, Copy, Debug, PartialEq, Eq, Structural)]
pub struct ExchangeRateResponse {
    pub exchange_rate: Decimal,
}

#[derive(Clone, Copy, Debug, PartialEq, Eq, Structural)]
pub struct TargetValueResponse {
    pub target_value: Decimal,
}

/// The books of the pool, as they are told.
#[derive(Clone, Debug, PartialEq, Eq)]
pub struct SupplyInfo {
    pub bond_denom: String,
    pub issued: u128,
    pub total_bonded: u128,
    pub claims: u128,
    pub total_unbonding: u128,
}

#[derive(Clone, Debug, PartialEq, Eq)]
pub struct SupplyResponse {
    pub supply: SupplyInfo,
}

} // verus!
