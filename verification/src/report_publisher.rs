//! The report as a message: one header line and, for each strategy, a
//! separator line and five labelled lines.

use crate::report::{all_printable, StargateReport, StrategyReportView};
use crate::telegram_client::{committee_chat_id, message_url, send_message_to_committee};
use crate::text::{grouped_text, prettify, two_places, two_places_text};
use vstd::prelude::*;

verus! {

/// The first line of every message.
pub open spec fn header_line() -> Seq<char> {
    "Daily Stargate Report"@
}

/// The line that opens the block of one strategy.
pub open spec fn separator_line() -> Seq<char> {
    "--------------"@
}

/// The six lines of one strategy: the separator, the asset, the strategy's
/// value with its thousands grouped, the current ratio cut to two decimal
/// places, and the pool's liabilities and liquidity with their thousands
/// grouped.
pub open spec fn entry_lines(entry: StrategyReportView) -> Seq<Seq<char>> {
    seq![
        separator_line(),
        "Asset – "@ + entry.asset_name,
        "Yearn Strategy TVL: $"@ + grouped_text(entry.strategy_tvl.whole_part()),
        "Pool Current Ratio: "@ + two_places_text(entry.current_ratio.hundredths()),
        "Total Pool Liabilities: $"@ + grouped_text(entry.pool_liabilities.whole_part()),
        "Total Pool Liquidity: $"@ + grouped_text(entry.pool_liquidity.whole_part()),
    ]
}

/// The lines of a report: the header, then the lines of each entry in the
/// order of the entries.
pub open spec fn report_lines(entries: Seq<StrategyReportView>) -> Seq<Seq<char>>
    decreases entries.len(),
{
    if entries.len() == 0 {
        seq![header_line()]
    } else {
        report_lines(entries.drop_last()) + entry_lines(entries.last())
    }
}

/// Lines put together with a line feed between each two.
pub open spec fn joined(lines: Seq<Seq<char>>) -> Seq<char>
    decreases lines.len(),
{
    if lines.len() == 0 {
        Seq::empty()
    } else if lines.len() == 1 {
        lines[0]
    } else {
        joined(lines.drop_last()) + seq!['\n'] + lines.last()
    }
}

/// The message that reports `entries`.
pub open spec fn report_text(entries: Seq<StrategyReportView>) -> Seq<char> {
    joined(report_lines(entries))
}

/// What contracts say of a list of lines.
pub open spec fn lines_view(lines: Seq<String>) -> Seq<Seq<char>> {
    lines.map_values(|line: String| line@)
}

/// A report has one header line and six lines for each entry; the block of
/// the entry at place `i` starts after the header and the blocks before it.
pub proof fn law_report_layout(entries: Seq<StrategyReportView>)
    ensures
        report_lines(entries).len() == 1 + 6 * entries.len(),
        report_lines(entries)[0] == header_line(),
        forall|i: int|
            0 <= i < entries.len() ==> #[trigger] report_lines(entries).subrange(
                1 + 6 * i,
                7 + 6 * i,
            ) == entry_lines(entries[i]),
    decreases entries.len(),
{
    if entries.len() > 0 {
        let front = entries.drop_last();
        law_report_layout(front);
        assert forall|i: int| 0 <= i < entries.len() implies #[trigger] report_lines(
            entries,
        ).subrange(1 + 6 * i, 7 + 6 * i) == entry_lines(entries[i]) by {
            if i < front.len() {
                assert(report_lines(front).subrange(1 + 6 * i, 7 + 6 * i) == entry_lines(
                    front[i],
                ));
                assert(report_lines(entries).subrange(1 + 6 * i, 7 + 6 * i) =~= report_lines(
                    front,
                ).subrange(1 + 6 * i, 7 + 6 * i));
            } else {
                assert(report_lines(entries).subrange(1 + 6 * i, 7 + 6 * i) =~= entry_lines(
                    entries[i],
                ));
            }
        }
    }
}

/// Reports with the same entries give the same message, character for
/// character.
pub proof fn law_same_report_same_text(one: StargateReport, other: StargateReport)
    requires
        one@ == other@,
    ensures
        report_text(one@) == report_text(other@),
{
}

/// A label followed by a value.
fn labelled(label: &str, value: &str) -> (line: String)
    ensures
        line@ == label@ + value@,
{
    let mut line = String::from_str(label);
    line.append(value);
    line
}

/// The lines of the message that reports `report`.
pub fn format_lines(report: &StargateReport) -> (lines: Vec<String>)
    requires
        all_printable(report@),
    ensures
        lines_view(lines@) == report_lines(report@),
{
    let entries = report.individual_strategy_reports();
    let mut lines: Vec<String> = Vec::new();
    lines.push(String::from_str("Daily Stargate Report"));
    assert(lines_view(lines@) =~= report_lines(report@.take(0)));
    let mut i: usize = 0;
    while i < entries.len()
        invariant
            i <= entries.len(),
            report@.len() == entries.len(),
            forall|k: int| 0 <= k < entries.len() ==> (#[trigger] entries@[k])@ == report@[k],
            all_printable(report@),
            lines_view(lines@) == report_lines(report@.take(i as int)),
        decreases entries.len() - i,
    {
        let entry = &entries[i];
        let ghost before = lines@;
        assert(report@[i as int].printable());
        lines.push(String::from_str("--------------"));
        lines.push(labelled("Asset – ", entry.asset_name().as_str()));
        lines.push(labelled("Yearn Strategy TVL: $", prettify(entry.strategy_tvl()).as_str()));
        lines.push(labelled("Pool Current Ratio: ", two_places(entry.current_ratio()).as_str()));
        lines.push(
            labelled("Total Pool Liabilities: $", prettify(entry.pool_liabilities()).as_str()),
        );
        lines.push(
            labelled("Total Pool Liquidity: $", prettify(entry.pool_liquidity()).as_str()),
        );
        proof {
            let now = report@.take(i + 1);
            assert(now.drop_last() =~= report@.take(i as int));
            assert(now.last() == entry@);
            assert(lines_view(lines@) =~= lines_view(before) + entry_lines(entry@));
        }
        i = i + 1;
    }
    assert(report@.take(i as int) =~= report@);
    lines
}

/// Puts lines together with a line feed between each two.
pub fn join_lines(lines: &Vec<String>) -> (text: String)
    ensures
        text@ == joined(lines_view(lines@)),
{
    let mut text = String::new();
    let mut i: usize = 0;
    assert(lines_view(lines@).take(0) =~= Seq::empty());
    while i < lines.len()
        invariant
            i <= lines.len(),
            text@ == joined(lines_view(lines@).take(i as int)),
        decreases lines.len() - i,
    {
        if i > 0 {
            text.append("\n");
        }
        text.append(lines[i].as_str());
        proof {
            reveal_strlit("\n");
            let now = lines_view(lines@).take(i + 1);
            assert(now.drop_last() =~= lines_view(lines@).take(i as int));
            assert(now.last() == lines@[i as int]@);
            if i == 0 {
                assert(joined(now.drop_last()) =~= Seq::<char>::empty());
                assert(text@ =~= now[0]);
            } else {
                assert(text@ =~= joined(now.drop_last()) + seq!['\n'] + now.last());
            }
        }
        i = i + 1;
    }
    assert(lines_view(lines@).take(i as int) =~= lines_view(lines@));
    text
}

/// The message that reports `report`: the same entries always give the same
/// text.
pub fn format_report(report: &StargateReport) -> (text: String)
    requires
        all_printable(report@),
    ensures
        text@ == report_text(report@),
{
    let lines = format_lines(report);
    join_lines(&lines)
}

/// The request that sends `report` to the committee: the address to fetch,
/// which carries the report as its message. Nothing is sent here; whoever
/// fetches the address once has published the report.
pub fn publish_report(report: &StargateReport, telegram_token: &str) -> (url: String)
    requires
        all_printable(report@),
    ensures
        url@ == message_url(telegram_token@, committee_chat_id(), report_text(report@)),
{
    let message = format_report(report);
    send_message_to_committee(message.as_str(), telegram_token)
}

} // verus!
