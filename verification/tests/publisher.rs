use oryx::amount::ScaledAmount;
use oryx::report::{IndividualStrategyReport, StargateReport};
use oryx::report_publisher::{format_lines, format_report, join_lines, publish_report};
use oryx::telegram_client::{
    message_request, send_message_to_committee, STARGATE_COMMITTEE_TELEGRAM_CHAT_ID,
};

fn entry(
    name: &str,
    tvl: u128,
    liquidity: u128,
    liabilities: u128,
    ratio: &[u8],
) -> IndividualStrategyReport {
    IndividualStrategyReport::new(
        String::from(name),
        ScaledAmount::from_raw(tvl),
        ScaledAmount::from_raw(liquidity),
        ScaledAmount::from_raw(liabilities),
        ScaledAmount::new(ratio.to_vec(), 2).unwrap(),
    )
}

fn usdc() -> IndividualStrategyReport {
    entry("USDC", 1_234_567, 500_000, 250_000, &[2, 0, 0])
}

#[test]
fn a_block_holds_the_labelled_lines() {
    let report = StargateReport::new(vec![usdc()]);
    assert!(report.is_printable());
    let lines = format_lines(&report);
    assert_eq!(
        lines,
        vec![
            "Daily Stargate Report",
            "--------------",
            "Asset – USDC",
            "Yearn Strategy TVL: $1,234,567",
            "Pool Current Ratio: 2.00",
            "Total Pool Liabilities: $250,000",
            "Total Pool Liquidity: $500,000",
        ]
    );
}

#[test]
fn the_message_is_the_lines_joined() {
    let report = StargateReport::new(vec![usdc()]);
    assert_eq!(
        format_report(&report),
        "Daily Stargate Report\n--------------\nAsset – USDC\nYearn Strategy TVL: $1,234,567\n\
         Pool Current Ratio: 2.00\nTotal Pool Liabilities: $250,000\nTotal Pool Liquidity: $500,000"
    );
}

#[test]
fn an_empty_report_is_the_header_alone() {
    let report = StargateReport::new(Vec::new());
    assert!(report.is_printable());
    assert_eq!(format_report(&report), "Daily Stargate Report");
}

#[test]
fn blocks_follow_the_entries() {
    let report = StargateReport::new(vec![
        entry("USDT", 1, 2, 3, &[6, 6]),
        usdc(),
        entry("DAI", 1_000, 0, 1, &[0]),
    ]);
    let lines = format_lines(&report);
    assert_eq!(lines.len(), 1 + 6 * 3);
    assert_eq!(lines[0], "Daily Stargate Report");
    for block in 0..3 {
        assert_eq!(lines[1 + 6 * block], "--------------");
    }
    assert_eq!(lines[2], "Asset – USDT");
    assert_eq!(lines[4], "Pool Current Ratio: 0.66");
    assert_eq!(lines[8], "Asset – USDC");
    assert_eq!(lines[14], "Asset – DAI");
    assert_eq!(lines[15], "Yearn Strategy TVL: $1,000");
    assert_eq!(lines[16], "Pool Current Ratio: 0.00");
    assert_eq!(lines.iter().filter(|line| *line == "Daily Stargate Report").count(), 1);
}

#[test]
fn the_same_report_gives_the_same_text() {
    let one = StargateReport::new(vec![usdc(), entry("DAI", 5, 6, 7, &[8, 5])]);
    let other = StargateReport::new(vec![usdc(), entry("DAI", 5, 6, 7, &[8, 5])]);
    assert_eq!(format_report(&one), format_report(&one));
    assert_eq!(format_report(&one).into_bytes(), format_report(&other).into_bytes());
}

#[test]
fn a_ratio_of_many_digits_is_cut_to_two() {
    let ratio = ScaledAmount::new(vec![1, 9, 9, 9, 9, 9], 5).unwrap();
    let report = StargateReport::new(vec![IndividualStrategyReport::new(
        String::from("DAI"),
        ScaledAmount::from_raw(1),
        ScaledAmount::from_raw(1),
        ScaledAmount::from_raw(1),
        ratio,
    )]);
    assert_eq!(format_lines(&report)[4], "Pool Current Ratio: 1.99");
}

#[test]
fn an_amount_beyond_128_bits_cannot_be_printed() {
    let huge = ScaledAmount::new(vec![1], -39).unwrap();
    let report = StargateReport::new(vec![IndividualStrategyReport::new(
        String::from("DAI"),
        ScaledAmount::from_raw(1),
        huge,
        ScaledAmount::from_raw(1),
        ScaledAmount::from_raw(1),
    )]);
    assert!(!report.is_printable());
    assert!(!report.individual_strategy_reports()[0].is_printable());
}

#[test]
fn lines_are_joined_by_line_feeds() {
    assert_eq!(join_lines(&Vec::new()), "");
    assert_eq!(join_lines(&vec![String::from("one")]), "one");
    assert_eq!(join_lines(&vec![String::from("one"), String::from("two")]), "one\ntwo");
    assert_eq!(join_lines(&vec![String::new(), String::new(), String::from("x")]), "\n\nx");
}

#[test]
fn getters_give_what_the_entry_was_made_of() {
    let report = usdc();
    assert_eq!(report.asset_name(), "USDC");
    assert_eq!(report.strategy_tvl().to_u128(), Some(1_234_567));
    assert_eq!(report.pool_liquidity().to_u128(), Some(500_000));
    assert_eq!(report.pool_liabilities().to_u128(), Some(250_000));
    assert_eq!(report.current_ratio().digits(), &vec![2u8, 0, 0]);
    assert_eq!(report.current_ratio().scale(), 2);
}

#[test]
fn the_request_carries_the_encoded_message() {
    assert_eq!(
        send_message_to_committee("Daily Stargate Report\nAsset – USDC: $1,000", "123:abc"),
        "https://api.telegram.org/bot123:abc/sendMessage?chat_id=-753837580&text=\
         Daily%20Stargate%20Report%0AAsset%20%E2%80%93%20USDC%3A%20%241%2C000"
    );
}

#[test]
fn unreserved_characters_stand_for_themselves() {
    assert_eq!(
        message_request("AZaz09-._~", "t", 42),
        "https://api.telegram.org/bott/sendMessage?chat_id=42&text=AZaz09-._~"
    );
    assert_eq!(
        message_request("", "t", 0),
        "https://api.telegram.org/bott/sendMessage?chat_id=0&text="
    );
}

#[test]
fn the_chat_is_written_with_its_sign() {
    assert_eq!(STARGATE_COMMITTEE_TELEGRAM_CHAT_ID, -753837580);
    assert_eq!(
        message_request("x", "t", i64::MIN),
        "https://api.telegram.org/bott/sendMessage?chat_id=-9223372036854775808&text=x"
    );
    assert_eq!(
        message_request("x", "t", i64::MAX),
        "https://api.telegram.org/bott/sendMessage?chat_id=9223372036854775807&text=x"
    );
}

#[test]
fn the_message_is_encoded_as_urlencoding_does() {
    let message = "a b/c?d=e&f\u{e9}\u{1f600}%\r\n\t+";
    let url = message_request(message, "t", 1);
    let expected = format!(
        "https://api.telegram.org/bott/sendMessage?chat_id=1&text={}",
        urlencoding::encode(message)
    );
    assert_eq!(url, expected);
    assert!(url.ends_with("a%20b%2Fc%3Fd%3De%26f%C3%A9%F0%9F%98%80%25%0D%0A%09%2B"));
}

#[test]
fn publishing_asks_to_send_the_report() {
    let report = StargateReport::new(vec![usdc()]);
    let url = publish_report(&report, "token");
    assert_eq!(url, send_message_to_committee(&format_report(&report), "token"));
    assert!(url.starts_with(
        "https://api.telegram.org/bottoken/sendMessage?chat_id=-753837580&text=\
         Daily%20Stargate%20Report%0A--------------%0AAsset%20%E2%80%93%20USDC%0A"
    ));
}
