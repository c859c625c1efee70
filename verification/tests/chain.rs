use oryx::blockchain_client::{
    create_client, Address, ChainCall, ChainReply, RawAmount, Reply, StargateStrategy, IERC20,
};
use oryx::error::ReadError;

fn address(byte: u8) -> Address {
    Address { bytes: [byte; 20] }
}

#[test]
fn raw_amount_within_128_bits() {
    assert_eq!(RawAmount { words: [0, 0, 0, 0] }.as_u128(), Some(0));
    assert_eq!(RawAmount { words: [5, 0, 0, 0] }.as_u128(), Some(5));
    assert_eq!(RawAmount { words: [5, 1, 0, 0] }.as_u128(), Some((1u128 << 64) + 5));
    assert_eq!(RawAmount { words: [u64::MAX, u64::MAX, 0, 0] }.as_u128(), Some(u128::MAX));
}

#[test]
fn raw_amount_at_or_above_two_to_the_128_overflows() {
    assert_eq!(RawAmount { words: [0, 0, 1, 0] }.as_u128(), None);
    assert_eq!(RawAmount { words: [0, 0, 0, 1] }.as_u128(), None);
    assert_eq!(RawAmount { words: [7, 7, 0, 1] }.as_u128(), None);
    assert_eq!(RawAmount { words: [u64::MAX; 4] }.as_u128(), None);
}

#[test]
fn reply_read_as_amount() {
    let within: ChainReply = Reply::Amount(RawAmount { words: [9, 0, 0, 0] });
    assert_eq!(within.into_amount(), Ok(9));
    let above: ChainReply = Reply::Amount(RawAmount { words: [0, 0, 1, 0] });
    assert_eq!(above.into_amount(), Err(ReadError::OverflowError));
    let failed: ChainReply = Reply::Failed;
    assert_eq!(failed.into_amount(), Err(ReadError::ChainCallError));
    let other: ChainReply = Reply::Decimals(6);
    assert_eq!(other.into_amount(), Err(ReadError::ChainCallError));
}

#[test]
fn reply_read_as_address() {
    let good: ChainReply = Reply::Address(address(3));
    assert_eq!(good.into_address(), Ok(address(3)));
    let failed: ChainReply = Reply::Failed;
    assert_eq!(failed.into_address(), Err(ReadError::ChainCallError));
    let other: ChainReply = Reply::Symbol(String::from("USDC"));
    assert_eq!(other.into_address(), Err(ReadError::ChainCallError));
}

#[test]
fn reply_read_as_symbol() {
    let good: ChainReply = Reply::Symbol(String::from("USDC"));
    assert_eq!(good.into_symbol(), Ok(String::from("USDC")));
    let failed: ChainReply = Reply::Failed;
    assert_eq!(failed.into_symbol(), Err(ReadError::ChainCallError));
    let other: ChainReply = Reply::Address(address(1));
    assert_eq!(other.into_symbol(), Err(ReadError::ChainCallError));
}

#[test]
fn reply_read_as_decimals() {
    let good: ChainReply = Reply::Decimals(18);
    assert_eq!(good.into_decimals(), Ok(18));
    let most: ChainReply = Reply::Decimals(255);
    assert_eq!(most.into_decimals(), Ok(255));
    let failed: ChainReply = Reply::Failed;
    assert_eq!(failed.into_decimals(), Err(ReadError::ChainCallError));
    let other: ChainReply = Reply::Amount(RawAmount { words: [6, 0, 0, 0] });
    assert_eq!(other.into_decimals(), Err(ReadError::ChainCallError));
}

#[test]
fn token_names_its_calls() {
    let token = IERC20::new(address(1));
    assert_eq!(token.symbol(), ChainCall::TokenSymbol { token: address(1) });
    assert_eq!(token.decimals(), ChainCall::TokenDecimals { token: address(1) });
    assert_eq!(token.total_supply(), ChainCall::TokenTotalSupply { token: address(1) });
    assert_eq!(
        token.balance_of(address(2)),
        ChainCall::TokenBalanceOf { token: address(1), owner: address(2) }
    );
}

#[test]
fn strategy_names_its_calls() {
    let strategy = StargateStrategy::new(address(7));
    assert_eq!(strategy.get_want(), ChainCall::StrategyWant { strategy: address(7) });
    assert_eq!(
        strategy.get_total_position(),
        ChainCall::StrategyValueOfLpTokens { strategy: address(7) }
    );
    assert_eq!(
        strategy.get_underlying_liquidity_pool(),
        ChainCall::StrategyLiquidityPool { strategy: address(7) }
    );
}

#[test]
fn client_goes_to_the_provider() {
    assert_eq!(create_client("abc123").endpoint, "https://mainnet.infura.io/v3/abc123");
    assert_eq!(create_client("").endpoint, "https://mainnet.infura.io/v3/");
}
