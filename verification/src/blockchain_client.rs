//! The two kinds of contract the report reads, the calls it makes on them and
//! the replies it accepts. Nothing here touches the network: a call is a value
//! that says what to read, and a reply is the value that came back.

use crate::error::ReadError;
use vstd::prelude::*;

verus! {

/// A 20-byte on-chain identifier.
#[derive(Clone, Copy, Debug, PartialEq, Eq)]
pub struct Address {
    pub bytes: [u8; 20],
}

/// An unsigned 256-bit integer as the chain stores it: four 64-bit words, the
/// least significant first.
#[derive(Clone, Copy, Debug, PartialEq, Eq)]
pub struct RawAmount {
    pub words: [u64; 4],
}

/// Two to the power 64.
pub const WORD: u128 = 0x1_0000_0000_0000_0000;

impl RawAmount {
    /// The number that the four words denote.
    pub open spec fn value(self) -> nat {
        (self.words[0] as nat) + (self.words[1] as nat) * 0x1_0000_0000_0000_0000
            + (self.words[2] as nat) * 0x1_0000_0000_0000_0000_0000_0000_0000_0000
            + (self.words[3] as nat)
            * 0x1_0000_0000_0000_0000_0000_0000_0000_0000_0000_0000_0000_0000
    }

    /// The amount in 128 bits. `None` where it is two to the power 128 or more.
    pub fn as_u128(&self) -> (r: Option<u128>)
        ensures
            r is Some <==> self.value() <= u128::MAX,
            r matches Some(v) ==> v == self.value(),
    {
        if self.words[2] != 0 || self.words[3] != 0 {
            None
        } else {
            let high: u128 = self.words[1] as u128;
            let low: u128 = self.words[0] as u128;
            Some(high * WORD + low)
        }
    }
}

/// The endpoint of the data provider for the holder of `infura_api_key`.
pub open spec fn provider_url(infura_api_key: Seq<char>) -> Seq<char> {
    "https://mainnet.infura.io/v3/"@ + infura_api_key
}

/// What the network client of a run is made from: the endpoint that every
/// call of the run goes to. It is read by all the reads of a run and changed
/// by none.
#[derive(Clone, Debug, PartialEq, Eq)]
pub struct Client {
    pub endpoint: String,
}

/// The client of a run that reads the chain through the data provider, in the
/// name of the holder of `infura_api_key`.
pub fn create_client(infura_api_key: &str) -> (client: Client)
    ensures
        client.endpoint@ == provider_url(infura_api_key@),
{
    let mut endpoint = String::from_str("https://mainnet.infura.io/v3/");
    endpoint.append(infura_api_key);
    Client { endpoint }
}

/// One read-only call on a contract.
#[derive(Clone, Copy, Debug, PartialEq, Eq)]
pub enum ChainCall {
    /// The token that denominates the strategy's accounting.
    StrategyWant { strategy: Address },
    /// The strategy's valuation of its liquidity-pool tokens, in raw units of
    /// its underlying asset.
    StrategyValueOfLpTokens { strategy: Address },
    /// The liquidity pool that the strategy deposits into.
    StrategyLiquidityPool { strategy: Address },
    /// The token's symbol.
    TokenSymbol { token: Address },
    /// The token's number of decimal places.
    TokenDecimals { token: Address },
    /// What `owner` holds of the token, in raw units.
    TokenBalanceOf { token: Address, owner: Address },
    /// All of the token that exists, in raw units.
    TokenTotalSupply { token: Address },
}

/// What came back from one call, with text held as `Text`.
#[derive(Clone, Debug, PartialEq, Eq)]
pub enum Reply<Text> {
    Address(Address),
    Symbol(Text),
    Decimals(u8),
    Amount(RawAmount),
    /// The call failed: the provider was not reached or refused, or the
    /// contract does not answer this call.
    Failed,
}

/// A reply as the program holds it.
pub type ChainReply = Reply<String>;

/// A reply as contracts speak of it.
pub type ReplyView = Reply<Seq<char>>;

impl View for Reply<String> {
    type V = Reply<Seq<char>>;

    open spec fn view(&self) -> Reply<Seq<char>> {
        match *self {
            Reply::Address(address) => Reply::Address(address),
            Reply::Symbol(symbol) => Reply::Symbol(symbol@),
            Reply::Decimals(decimals) => Reply::Decimals(decimals),
            Reply::Amount(amount) => Reply::Amount(amount),
            Reply::Failed => Reply::Failed,
        }
    }
}

impl Reply<Seq<char>> {
    /// The reply read as an address.
    pub open spec fn address(self) -> Result<Address, ReadError> {
        match self {
            Reply::Address(address) => Ok(address),
            _ => Err(ReadError::ChainCallError),
        }
    }

    /// The reply read as a token symbol.
    pub open spec fn symbol(self) -> Result<Seq<char>, ReadError> {
        match self {
            Reply::Symbol(symbol) => Ok(symbol),
            _ => Err(ReadError::ChainCallError),
        }
    }

    /// The reply read as a number of decimal places.
    pub open spec fn decimals(self) -> Result<u32, ReadError> {
        match self {
            Reply::Decimals(decimals) => Ok(decimals as u32),
            _ => Err(ReadError::ChainCallError),
        }
    }

    /// The reply read as a raw amount of at most 128 bits.
    pub open spec fn amount(self) -> Result<u128, ReadError> {
        match self {
            Reply::Amount(raw) => if raw.value() <= u128::MAX {
                Ok(raw.value() as u128)
            } else {
                Err(ReadError::OverflowError)
            },
            _ => Err(ReadError::ChainCallError),
        }
    }
}

impl Reply<String> {
    /// The address that was read. Any other reply is a failed call.
    pub fn into_address(self) -> (r: Result<Address, ReadError>)
        ensures
            r == self@.address(),
    {
        match self {
            Reply::Address(address) => Ok(address),
            _ => Err(ReadError::ChainCallError),
        }
    }

    /// The token symbol that was read. Any other reply is a failed call.
    pub fn into_symbol(self) -> (r: Result<String, ReadError>)
        ensures
            r is Ok <==> self@.symbol() is Ok,
            r matches Ok(symbol) ==> self@.symbol() == Ok::<Seq<char>, ReadError>(symbol@),
            r matches Err(error) ==> self@.symbol() == Err::<Seq<char>, ReadError>(error),
    {
        match self {
            Reply::Symbol(symbol) => Ok(symbol),
            _ => Err(ReadError::ChainCallError),
        }
    }

    /// The number of decimal places that was read, from 0 to 255. Any other
    /// reply is a failed call.
    pub fn into_decimals(self) -> (r: Result<u32, ReadError>)
        ensures
            r == self@.decimals(),
    {
        match self {
            Reply::Decimals(decimals) => Ok(decimals as u32),
            _ => Err(ReadError::ChainCallError),
        }
    }

    /// The raw amount that was read. One of two to the power 128 or more is an
    /// overflow, never cut short; any other reply is a failed call.
    pub fn into_amount(self) -> (r: Result<u128, ReadError>)
        ensures
            r == self@.amount(),
            self@ matches Reply::Amount(raw) ==> (r is Ok <==> raw.value() <= u128::MAX),
    {
        match self {
            Reply::Amount(raw) => match raw.as_u128() {
                Some(amount) => Ok(amount),
                None => Err(ReadError::OverflowError),
            },
            _ => Err(ReadError::ChainCallError),
        }
    }
}

/// A fungible token.
#[derive(Clone, Copy, Debug, PartialEq, Eq)]
pub struct IERC20 {
    pub address: Address,
}

impl IERC20 {
    /// The token at `token_address`.
    pub fn new(token_address: Address) -> (token: IERC20)
        ensures
            token.address == token_address,
    {
        IERC20 { address: token_address }
    }

    /// The call that reads the token's number of decimal places.
    pub fn decimals(&self) -> (call: ChainCall)
        ensures
            call == (ChainCall::TokenDecimals { token: self.address }),
    {
        ChainCall::TokenDecimals { token: self.address }
    }

    /// The call that reads the token's symbol.
    pub fn symbol(&self) -> (call: ChainCall)
        ensures
            call == (ChainCall::TokenSymbol { token: self.address }),
    {
        ChainCall::TokenSymbol { token: self.address }
    }

    /// The call that reads what `address` holds of the token.
    pub fn balance_of(&self, address: Address) -> (call: ChainCall)
        ensures
            call == (ChainCall::TokenBalanceOf { token: self.address, owner: address }),
    {
        ChainCall::TokenBalanceOf { token: self.address, owner: address }
    }

    /// The call that reads how much of the token exists.
    pub fn total_supply(&self) -> (call: ChainCall)
        ensures
            call == (ChainCall::TokenTotalSupply { token: self.address }),
    {
        ChainCall::TokenTotalSupply { token: self.address }
    }
}

/// A strategy that holds a position in a liquidity pool.
#[derive(Clone, Copy, Debug, PartialEq, Eq)]
pub struct StargateStrategy {
    pub address: Address,
}

impl StargateStrategy {
    /// The strategy at `strategy_address`.
    pub fn new(strategy_address: Address) -> (strategy: StargateStrategy)
        ensures
            strategy.address == strategy_address,
    {
        StargateStrategy { address: strategy_address }
    }

    /// The call that reads the strategy's underlying asset.
    pub fn get_want(&self) -> (call: ChainCall)
        ensures
            call == (ChainCall::StrategyWant { strategy: self.address }),
    {
        ChainCall::StrategyWant { strategy: self.address }
    }

    /// The call that reads the value of the strategy's position.
    pub fn get_total_position(&self) -> (call: ChainCall)
        ensures
            call == (ChainCall::StrategyValueOfLpTokens { strategy: self.address }),
    {
        ChainCall::StrategyValueOfLpTokens { strategy: self.address }
    }

    /// The call that reads the address of the strategy's liquidity pool.
    pub fn get_underlying_liquidity_pool(&self) -> (call: ChainCall)
        ensures
            call == (ChainCall::StrategyLiquidityPool { strategy: self.address }),
    {
        ChainCall::StrategyLiquidityPool { strategy: self.address }
    }
}

} // verus!
