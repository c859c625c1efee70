//! The report: one entry per strategy, in the order the strategies were given.

use crate::amount::{Decimal, ScaledAmount};
use vstd::prelude::*;

verus! {

/// What contracts say of one strategy's entry.
pub struct StrategyReportView {
    pub asset_name: Seq<char>,
    pub strategy_tvl: Decimal,
    pub pool_liquidity: Decimal,
    pub pool_liabilities: Decimal,
    pub current_ratio: Decimal,
}

impl StrategyReportView {
    /// Whether the three amounts that are printed as whole numbers fit 128
    /// bits once their fractional digits are dropped.
    pub open spec fn printable(self) -> bool {
        &&& self.strategy_tvl.whole_part() <= u128::MAX
        &&& self.pool_liquidity.whole_part() <= u128::MAX
        &&& self.pool_liabilities.whole_part() <= u128::MAX
    }
}

/// The metrics of one strategy. Made once, when every read has succeeded, and
/// never changed.
#[derive(Clone, Debug, PartialEq, Eq)]
pub struct IndividualStrategyReport {
    asset_name: String,
    strategy_tvl: ScaledAmount,
    pool_liquidity: ScaledAmount,
    pool_liabilities: ScaledAmount,
    current_ratio: ScaledAmount,
}

impl View for IndividualStrategyReport {
    type V = StrategyReportView;

    closed spec fn view(&self) -> StrategyReportView {
        StrategyReportView {
            asset_name: self.asset_name@,
            strategy_tvl: self.strategy_tvl@,
            pool_liquidity: self.pool_liquidity@,
            pool_liabilities: self.pool_liabilities@,
            current_ratio: self.current_ratio@,
        }
    }
}

impl IndividualStrategyReport {
    pub fn new(
        asset_name: String,
        strategy_tvl: ScaledAmount,
        pool_liquidity: ScaledAmount,
        pool_liabilities: ScaledAmount,
        current_ratio: ScaledAmount,
    ) -> (report: IndividualStrategyReport)
        ensures
            report@ == (StrategyReportView {
                asset_name: asset_name@,
                strategy_tvl: strategy_tvl@,
                pool_liquidity: pool_liquidity@,
                pool_liabilities: pool_liabilities@,
                current_ratio: current_ratio@,
            }),
    {
        IndividualStrategyReport {
            asset_name,
            strategy_tvl,
            pool_liquidity,
            pool_liabilities,
            current_ratio,
        }
    }

    /// The symbol of the strategy's underlying asset.
    pub fn asset_name(&self) -> (asset_name: &String)
        ensures
            asset_name@ == self@.asset_name,
    {
        &self.asset_name
    }

    /// The value of the strategy's position.
    pub fn strategy_tvl(&self) -> (strategy_tvl: &ScaledAmount)
        ensures
            strategy_tvl@ == self@.strategy_tvl,
    {
        &self.strategy_tvl
    }

    /// What the liquidity pool holds of the underlying asset.
    pub fn pool_liquidity(&self) -> (pool_liquidity: &ScaledAmount)
        ensures
            pool_liquidity@ == self@.pool_liquidity,
    {
        &self.pool_liquidity
    }

    /// The claims against the liquidity pool.
    pub fn pool_liabilities(&self) -> (pool_liabilities: &ScaledAmount)
        ensures
            pool_liabilities@ == self@.pool_liabilities,
    {
        &self.pool_liabilities
    }

    /// The pool's liquidity divided by its liabilities.
    pub fn current_ratio(&self) -> (current_ratio: &ScaledAmount)
        ensures
            current_ratio@ == self@.current_ratio,
    {
        &self.current_ratio
    }

    /// Whether the entry can be printed: see `StrategyReportView::printable`.
    pub fn is_printable(&self) -> (printable: bool)
        ensures
            printable == self@.printable(),
    {
        self.strategy_tvl.to_u128().is_some() && self.pool_liquidity.to_u128().is_some()
            && self.pool_liabilities.to_u128().is_some()
    }
}

/// What contracts say of a sequence of entries.
pub open spec fn entries_view(entries: Seq<IndividualStrategyReport>) -> Seq<StrategyReportView> {
    entries.map_values(|entry: IndividualStrategyReport| entry@)
}

/// Whether every entry can be printed.
pub open spec fn all_printable(entries: Seq<StrategyReportView>) -> bool {
    forall|i: int| 0 <= i < entries.len() ==> (#[trigger] entries[i]).printable()
}

/// The report of one run: the entries of all the strategies, in the order the
/// strategies were given.
#[derive(Clone, Debug, PartialEq, Eq)]
pub struct StargateReport {
    individual_strategy_reports: Vec<IndividualStrategyReport>,
}

impl View for StargateReport {
    type V = Seq<StrategyReportView>;

    closed spec fn view(&self) -> Seq<StrategyReportView> {
        entries_view(self.individual_strategy_reports@)
    }
}

impl StargateReport {
    pub fn new(individual_strategy_reports: Vec<IndividualStrategyReport>) -> (report:
        StargateReport)
        ensures
            report@ == entries_view(individual_strategy_reports@),
    {
        StargateReport { individual_strategy_reports }
    }

    /// The entries, in the order the strategies were given.
    pub fn individual_strategy_reports(&self) -> (entries: &Vec<IndividualStrategyReport>)
        ensures
            entries_view(entries@) == self@,
    {
        &self.individual_strategy_reports
    }

    /// Whether every entry can be printed.
    pub fn is_printable(&self) -> (printable: bool)
        ensures
            printable == all_printable(self@),
    {
        let entries = &self.individual_strategy_reports;
        let mut i: usize = 0;
        while i < entries.len()
            invariant
                i <= entries.len(),
                entries@ == self.individual_strategy_reports@,
                forall|k: int| 0 <= k < i ==> (#[trigger] self@[k]).printable(),
            decreases entries.len() - i,
        {
            if !entries[i].is_printable() {
                assert(!self@[i as int].printable());
                return false;
            }
            i = i + 1;
        }
        true
    }
}

} // verus!
