use oryx::blockchain_client::{Address, ChainCall, ChainReply, RawAmount, Reply};
use oryx::configuration::Configuration;
use oryx::error::{Credential, ReportError, Step};
use oryx::pipeline::{Action, Pipeline};
use oryx::report_creator::create_report;
use oryx::report_publisher::format_lines;

const ONE: Address = Address { bytes: [0x01; 20] };
const TWO: Address = Address { bytes: [0x02; 20] };
const WETH: Address = Address { bytes: [0x0a; 20] };
const USDC: Address = Address { bytes: [0x0b; 20] };
const POOL_ONE: Address = Address { bytes: [0x0c; 20] };
const POOL_TWO: Address = Address { bytes: [0x0d; 20] };

fn amount(units: u128) -> ChainReply {
    Reply::Amount(RawAmount { words: [units as u64, (units >> 64) as u64, 0, 0] })
}

fn two_strategies(call: &ChainCall) -> ChainReply {
    match *call {
        ChainCall::StrategyWant { strategy } if strategy == ONE => Reply::Address(WETH),
        ChainCall::StrategyWant { strategy } if strategy == TWO => Reply::Address(USDC),
        ChainCall::TokenSymbol { token } if token == WETH => Reply::Symbol(String::from("WETH")),
        ChainCall::TokenSymbol { token } if token == USDC => Reply::Symbol(String::from("USDC")),
        ChainCall::TokenDecimals { token } if token == WETH => Reply::Decimals(18),
        ChainCall::TokenDecimals { token } if token == USDC => Reply::Decimals(6),
        ChainCall::StrategyValueOfLpTokens { strategy } if strategy == ONE => {
            amount(1_500 * 10u128.pow(18))
        },
        ChainCall::StrategyValueOfLpTokens { strategy } if strategy == TWO => {
            amount(2_000_000 * 10u128.pow(6))
        },
        ChainCall::StrategyLiquidityPool { strategy } if strategy == ONE => {
            Reply::Address(POOL_ONE)
        },
        ChainCall::StrategyLiquidityPool { strategy } if strategy == TWO => {
            Reply::Address(POOL_TWO)
        },
        ChainCall::TokenBalanceOf { token, owner } if token == WETH && owner == POOL_ONE => {
            amount(30_000 * 10u128.pow(18))
        },
        ChainCall::TokenBalanceOf { token, owner } if token == USDC && owner == POOL_TWO => {
            amount(45_000_000 * 10u128.pow(6))
        },
        ChainCall::TokenTotalSupply { token } if token == WETH => amount(40_000 * 10u128.pow(18)),
        ChainCall::TokenTotalSupply { token } if token == USDC => {
            amount(60_000_000 * 10u128.pow(6))
        },
        _ => Reply::Failed,
    }
}

struct Trace {
    reads: usize,
    messages: Vec<String>,
    sent: Vec<String>,
    result: Result<(), ReportError>,
}

fn run(addresses: Vec<Address>, chain: &dyn Fn(&ChainCall) -> ChainReply, deliver: bool) -> Trace {
    let mut pipeline = Pipeline::start(String::from("42:secret"), addresses);
    let mut trace = Trace { reads: 0, messages: Vec::new(), sent: Vec::new(), result: Ok(()) };
    loop {
        match pipeline.next_action() {
            Action::Read(call) => {
                trace.reads += 1;
                pipeline = pipeline.on_reply(chain(&call));
            },
            Action::Send { message, url } => {
                trace.messages.push(message);
                trace.sent.push(url);
                pipeline = pipeline.on_delivery(deliver);
            },
            Action::Stop(result) => {
                trace.result = result;
                return trace;
            },
        }
    }
}

#[test]
fn two_strategies_from_the_chain_to_the_message() {
    let mut creation = create_report(vec![ONE, TWO]);
    while let Some(call) = creation.next_call() {
        creation = creation.on_reply(two_strategies(&call));
    }
    let report = creation.into_result().unwrap().unwrap();
    let entries = report.individual_strategy_reports();
    assert_eq!(entries.len(), 2);
    assert_eq!(entries[0].asset_name(), "WETH");
    assert_eq!(entries[1].asset_name(), "USDC");
    let lines = format_lines(&report);
    assert_eq!(
        lines,
        vec![
            "Daily Stargate Report",
            "--------------",
            "Asset – WETH",
            "Yearn Strategy TVL: $1,500",
            "Pool Current Ratio: 0.75",
            "Total Pool Liabilities: $40,000",
            "Total Pool Liquidity: $30,000",
            "--------------",
            "Asset – USDC",
            "Yearn Strategy TVL: $2,000,000",
            "Pool Current Ratio: 0.75",
            "Total Pool Liabilities: $60,000,000",
            "Total Pool Liquidity: $45,000,000",
        ]
    );

    let trace = run(vec![ONE, TWO], &two_strategies, true);
    assert_eq!(trace.result, Ok(()));
    assert_eq!(trace.reads, 14);
    assert_eq!(trace.sent.len(), 1);
    assert_eq!(trace.messages, vec![lines.join("\n")]);
    let text = trace.sent[0]
        .strip_prefix("https://api.telegram.org/bot42:secret/sendMessage?chat_id=-753837580&text=")
        .unwrap();
    let message = urlencoding::decode(text).unwrap().into_owned();
    let sent: Vec<&str> = message.split('\n').collect();
    assert_eq!(sent, lines);
    assert_eq!(sent.iter().filter(|line| **line == "Daily Stargate Report").count(), 1);
    assert_eq!(sent.iter().filter(|line| **line == "--------------").count(), 2);
}

#[test]
fn a_message_that_is_not_delivered_fails_the_run() {
    let trace = run(vec![ONE, TWO], &two_strategies, false);
    assert_eq!(trace.result, Err(ReportError::PublishError));
    assert_eq!(trace.sent.len(), 1);
}

#[test]
fn nothing_is_sent_when_a_strategy_fails() {
    let chain = |call: &ChainCall| match *call {
        ChainCall::StrategyLiquidityPool { strategy } if strategy == TWO => Reply::Failed,
        _ => two_strategies(call),
    };
    let trace = run(vec![ONE, TWO], &chain, true);
    assert_eq!(
        trace.result,
        Err(ReportError::ChainCallError { strategy: TWO, step: Step::LiquidityPool })
    );
    assert!(trace.sent.is_empty());
    assert_eq!(trace.reads, 12);
}

#[test]
fn nothing_is_sent_when_liabilities_are_zero() {
    let chain = |call: &ChainCall| match *call {
        ChainCall::TokenTotalSupply { token } if token == WETH => amount(0),
        _ => two_strategies(call),
    };
    let trace = run(vec![ONE, TWO], &chain, true);
    assert_eq!(trace.result, Err(ReportError::DivisionByZeroError { strategy: ONE }));
    assert!(trace.sent.is_empty());
    assert_eq!(trace.reads, 7);
}

#[test]
fn a_run_on_no_strategy_sends_the_header() {
    let trace = run(Vec::new(), &two_strategies, true);
    assert_eq!(trace.result, Ok(()));
    assert_eq!(trace.reads, 0);
    assert_eq!(
        trace.sent,
        vec![
            "https://api.telegram.org/bot42:secret/sendMessage?chat_id=-753837580&text=\
             Daily%20Stargate%20Report"
        ]
    );
}

#[test]
fn events_out_of_turn_change_nothing() {
    let pipeline = Pipeline::start(String::from("t"), vec![ONE]);
    let pipeline = pipeline.on_delivery(true);
    assert_eq!(
        pipeline.next_action(),
        Action::Read(ChainCall::StrategyWant { strategy: ONE })
    );
    let pipeline = Pipeline::start(String::from("t"), Vec::new());
    let before = pipeline.next_action();
    let pipeline = pipeline.on_reply(Reply::Failed);
    assert_eq!(pipeline.next_action(), before);
    let pipeline = pipeline.on_delivery(false).on_delivery(true).on_reply(Reply::Failed);
    assert_eq!(pipeline.next_action(), Action::Stop(Err(ReportError::PublishError)));
}

#[test]
fn the_same_chain_gives_the_same_message() {
    let one = run(vec![ONE, TWO], &two_strategies, true);
    let other = run(vec![ONE, TWO], &two_strategies, true);
    assert_eq!(one.sent, other.sent);
}

#[test]
fn both_credentials_are_needed() {
    let token = || Some(String::from("token"));
    let key = || Some(String::from("key"));
    assert_eq!(
        Configuration::new(token(), key()),
        Ok(Configuration {
            telegram_token: String::from("token"),
            infura_api_key: String::from("key"),
        })
    );
    assert_eq!(
        Configuration::new(None, key()),
        Err(ReportError::ConfigurationError { missing: Credential::MessagingToken })
    );
    assert_eq!(
        Configuration::new(token(), None),
        Err(ReportError::ConfigurationError { missing: Credential::DataProviderKey })
    );
    assert_eq!(
        Configuration::new(None, None),
        Err(ReportError::ConfigurationError { missing: Credential::MessagingToken })
    );
}
