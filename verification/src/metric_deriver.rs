//! The metrics of one strategy, derived by seven reads of the chain in a fixed
//! order. Each read needs what an earlier one returned, so the deriver says
//! which call comes next and takes its reply before it names another.

use crate::amount::{current_ratio, quotient_of, scaled_units, Decimal, ScaledAmount};
use crate::blockchain_client::{
    Address, ChainCall, ChainReply, ReplyView, StargateStrategy, IERC20,
};
use crate::digits::{lemma_pow10_positive, pow10};
use crate::error::{ReadError, ReportError, Step};
use crate::report::{IndividualStrategyReport, StrategyReportView};
use vstd::prelude::*;

verus! {

/// The state of the chain as far as a run can see it: the reply to each call.
pub type Chain = spec_fn(ChainCall) -> ReplyView;

/// What `chain` replies to `call`.
pub open spec fn reply_to(chain: Chain, call: ChainCall) -> ReplyView {
    chain(call)
}

/// Whether two states of the chain reply alike to every call.
pub open spec fn same_replies(one: Chain, other: Chain) -> bool {
    forall|call: ChainCall| #[trigger] reply_to(one, call) == reply_to(other, call)
}

/// What the seven reads for one strategy return.
pub struct Readings {
    pub asset: Result<Address, ReadError>,
    pub symbol: Result<Seq<char>, ReadError>,
    pub decimals: Result<u32, ReadError>,
    pub position: Result<u128, ReadError>,
    pub pool: Result<Address, ReadError>,
    pub liquidity: Result<u128, ReadError>,
    pub liabilities: Result<u128, ReadError>,
}

/// The seven reads for `strategy` on `chain`. The symbol, the decimals, the
/// pool's balance and the total supply are read from the strategy's underlying
/// asset; the balance is that of the strategy's liquidity pool. A read that
/// needs an address which an earlier read failed to give is never made, and
/// what stands here for it is never looked at.
pub open spec fn readings(chain: Chain, strategy: Address) -> Readings {
    let asset = chain(ChainCall::StrategyWant { strategy }).address();
    let pool = chain(ChainCall::StrategyLiquidityPool { strategy }).address();
    let token = asset->Ok_0;
    Readings {
        asset,
        symbol: chain(ChainCall::TokenSymbol { token }).symbol(),
        decimals: chain(ChainCall::TokenDecimals { token }).decimals(),
        position: chain(ChainCall::StrategyValueOfLpTokens { strategy }).amount(),
        pool,
        liquidity: chain(ChainCall::TokenBalanceOf { token, owner: pool->Ok_0 }).amount(),
        liabilities: chain(ChainCall::TokenTotalSupply { token }).amount(),
    }
}

/// The entry that the readings give, or the error of the first step that
/// failed. The three amounts are cut to whole units before the ratio is taken,
/// so the ratio is that of the whole units.
pub open spec fn outcome_of(strategy: Address, read: Readings) -> Result<
    StrategyReportView,
    ReportError,
> {
    if read.asset is Err {
        Err(ReportError::of_read(strategy, Step::UnderlyingAsset, read.asset->Err_0))
    } else if read.symbol is Err {
        Err(ReportError::of_read(strategy, Step::Symbol, read.symbol->Err_0))
    } else if read.decimals is Err {
        Err(ReportError::of_read(strategy, Step::Decimals, read.decimals->Err_0))
    } else if read.position is Err {
        Err(ReportError::of_read(strategy, Step::PositionValue, read.position->Err_0))
    } else if read.pool is Err {
        Err(ReportError::of_read(strategy, Step::LiquidityPool, read.pool->Err_0))
    } else if read.liquidity is Err {
        Err(ReportError::of_read(strategy, Step::PoolLiquidity, read.liquidity->Err_0))
    } else if read.liabilities is Err {
        Err(ReportError::of_read(strategy, Step::PoolLiabilities, read.liabilities->Err_0))
    } else {
        let unit = pow10(read.decimals->Ok_0 as nat);
        let liquidity = read.liquidity->Ok_0 as nat / unit;
        let liabilities = read.liabilities->Ok_0 as nat / unit;
        if liabilities == 0 {
            Err(ReportError::DivisionByZeroError { strategy })
        } else {
            Ok(
                StrategyReportView {
                    asset_name: read.symbol->Ok_0,
                    strategy_tvl: Decimal::whole(read.position->Ok_0 as nat / unit),
                    pool_liquidity: Decimal::whole(liquidity),
                    pool_liabilities: Decimal::whole(liabilities),
                    current_ratio: quotient_of(liquidity, liabilities),
                },
            )
        }
    }
}

/// What deriving the metrics of `strategy` on `chain` ends in.
pub open spec fn derive_outcome(chain: Chain, strategy: Address) -> Result<
    StrategyReportView,
    ReportError,
> {
    outcome_of(strategy, readings(chain, strategy))
}

/// How far the derivation has come: the read it waits for and what the reads
/// before it gave, or its end.
#[derive(Debug, PartialEq, Eq)]
pub enum Stage<Text, Report> {
    Asset,
    Symbol { want: IERC20 },
    Decimals { want: IERC20, symbol: Text },
    Position { want: IERC20, symbol: Text, decimals: u32 },
    Pool { want: IERC20, symbol: Text, decimals: u32, strategy_tvl: u128 },
    Liquidity { want: IERC20, symbol: Text, decimals: u32, strategy_tvl: u128, pool: Address },
    Liabilities {
        want: IERC20,
        symbol: Text,
        decimals: u32,
        strategy_tvl: u128,
        pool_liquidity: u128,
    },
    Done(Result<Report, ReportError>),
}

impl View for Stage<String, IndividualStrategyReport> {
    type V = Stage<Seq<char>, StrategyReportView>;

    open spec fn view(&self) -> Stage<Seq<char>, StrategyReportView> {
        match *self {
            Stage::Asset => Stage::Asset,
            Stage::Symbol { want } => Stage::Symbol { want },
            Stage::Decimals { want, symbol } => Stage::Decimals { want, symbol: symbol@ },
            Stage::Position { want, symbol, decimals } => Stage::Position {
                want,
                symbol: symbol@,
                decimals,
            },
            Stage::Pool { want, symbol, decimals, strategy_tvl } => Stage::Pool {
                want,
                symbol: symbol@,
                decimals,
                strategy_tvl,
            },
            Stage::Liquidity { want, symbol, decimals, strategy_tvl, pool } => Stage::Liquidity {
                want,
                symbol: symbol@,
                decimals,
                strategy_tvl,
                pool,
            },
            Stage::Liabilities {
                want,
                symbol,
                decimals,
                strategy_tvl,
                pool_liquidity,
            } => Stage::Liabilities {
                want,
                symbol: symbol@,
                decimals,
                strategy_tvl,
                pool_liquidity,
            },
            Stage::Done(Ok(report)) => Stage::Done(Ok(report@)),
            Stage::Done(Err(error)) => Stage::Done(Err(error)),
        }
    }
}

/// What contracts say of a deriver.
pub struct DeriverView {
    pub strategy: Address,
    pub stage: Stage<Seq<char>, StrategyReportView>,
}

impl DeriverView {
    /// The deriver before its first read.
    pub open spec fn start(strategy: Address) -> DeriverView {
        DeriverView { strategy, stage: Stage::Asset }
    }

    /// The call whose reply the deriver waits for; none once it is done.
    pub open spec fn next_call(self) -> Option<ChainCall> {
        let strategy = self.strategy;
        match self.stage {
            Stage::Asset => Some(ChainCall::StrategyWant { strategy }),
            Stage::Symbol { want } => Some(ChainCall::TokenSymbol { token: want.address }),
            Stage::Decimals { want, .. } => Some(ChainCall::TokenDecimals { token: want.address }),
            Stage::Position { .. } => Some(ChainCall::StrategyValueOfLpTokens { strategy }),
            Stage::Pool { .. } => Some(ChainCall::StrategyLiquidityPool { strategy }),
            Stage::Liquidity { want, pool, .. } => Some(
                ChainCall::TokenBalanceOf { token: want.address, owner: pool },
            ),
            Stage::Liabilities { want, .. } => Some(
                ChainCall::TokenTotalSupply { token: want.address },
            ),
            Stage::Done(_) => None,
        }
    }

    /// An entry that a deriver holds can be printed.
    pub open spec fn well_formed(self) -> bool {
        self.stage matches Stage::Done(Ok(entry)) ==> entry.printable()
    }

    /// The end of the derivation, once it is reached.
    pub open spec fn result(self) -> Option<Result<StrategyReportView, ReportError>> {
        match self.stage {
            Stage::Done(result) => Some(result),
            _ => None,
        }
    }

    /// The deriver that has failed at `step` with `cause`.
    pub open spec fn failed(self, step: Step, cause: ReadError) -> DeriverView {
        DeriverView {
            strategy: self.strategy,
            stage: Stage::Done(Err(ReportError::of_read(self.strategy, step, cause))),
        }
    }

    /// The deriver that has gone on to `stage`.
    pub open spec fn at(self, stage: Stage<Seq<char>, StrategyReportView>) -> DeriverView {
        DeriverView { strategy: self.strategy, stage }
    }

    /// The deriver after `reply` has come back for the call it waited for. A
    /// failed read ends the derivation with its error, and so does a pool
    /// without liabilities; a deriver that is done stays as it is.
    pub open spec fn on_reply(self, reply: ReplyView) -> DeriverView {
        match self.stage {
            Stage::Asset => match reply.address() {
                Ok(asset) => self.at(Stage::Symbol { want: IERC20 { address: asset } }),
                Err(cause) => self.failed(Step::UnderlyingAsset, cause),
            },
            Stage::Symbol { want } => match reply.symbol() {
                Ok(symbol) => self.at(Stage::Decimals { want, symbol }),
                Err(cause) => self.failed(Step::Symbol, cause),
            },
            Stage::Decimals { want, symbol } => match reply.decimals() {
                Ok(decimals) => self.at(Stage::Position { want, symbol, decimals }),
                Err(cause) => self.failed(Step::Decimals, cause),
            },
            Stage::Position { want, symbol, decimals } => match reply.amount() {
                Ok(raw) => self.at(
                    Stage::Pool {
                        want,
                        symbol,
                        decimals,
                        strategy_tvl: (raw as nat / pow10(decimals as nat)) as u128,
                    },
                ),
                Err(cause) => self.failed(Step::PositionValue, cause),
            },
            Stage::Pool { want, symbol, decimals, strategy_tvl } => match reply.address() {
                Ok(pool) => self.at(
                    Stage::Liquidity { want, symbol, decimals, strategy_tvl, pool },
                ),
                Err(cause) => self.failed(Step::LiquidityPool, cause),
            },
            Stage::Liquidity {
                want,
                symbol,
                decimals,
                strategy_tvl,
                pool,
            } => match reply.amount() {
                Ok(raw) => self.at(
                    Stage::Liabilities {
                        want,
                        symbol,
                        decimals,
                        strategy_tvl,
                        pool_liquidity: (raw as nat / pow10(decimals as nat)) as u128,
                    },
                ),
                Err(cause) => self.failed(Step::PoolLiquidity, cause),
            },
            Stage::Liabilities {
                want,
                symbol,
                decimals,
                strategy_tvl,
                pool_liquidity,
            } => match reply.amount() {
                Ok(raw) => {
                    let pool_liabilities = raw as nat / pow10(decimals as nat);
                    if pool_liabilities == 0 {
                        self.at(
                            Stage::Done(
                                Err(ReportError::DivisionByZeroError { strategy: self.strategy }),
                            ),
                        )
                    } else {
                        self.at(
                            Stage::Done(
                                Ok(
                                    StrategyReportView {
                                        asset_name: symbol,
                                        strategy_tvl: Decimal::whole(strategy_tvl as nat),
                                        pool_liquidity: Decimal::whole(pool_liquidity as nat),
                                        pool_liabilities: Decimal::whole(pool_liabilities),
                                        current_ratio: quotient_of(
                                            pool_liquidity as nat,
                                            pool_liabilities,
                                        ),
                                    },
                                ),
                            ),
                        )
                    }
                },
                Err(cause) => self.failed(Step::PoolLiabilities, cause),
            },
            Stage::Done(_) => self,
        }
    }

    /// The deriver after at most `steps` calls, each answered by `chain`.
    pub open spec fn run(self, chain: Chain, steps: nat) -> DeriverView
        decreases steps,
    {
        if steps == 0 {
            self
        } else {
            match self.next_call() {
                Some(call) => self.on_reply(chain(call)).run(chain, (steps - 1) as nat),
                None => self,
            }
        }
    }
}

/// A deriver that takes its replies from the chain is done after seven reads
/// at most, and ends in what the readings give: the entry, or the error of the
/// first step that failed.
pub proof fn law_deriver_ends_in_outcome(chain: Chain, strategy: Address)
    ensures
        DeriverView::start(strategy).run(chain, 7).result() == Some(
            derive_outcome(chain, strategy),
        ),
{
    reveal_with_fuel(DeriverView::run, 8);
    let read = readings(chain, strategy);
    if read.decimals is Ok {
        let unit = pow10(read.decimals->Ok_0 as nat);
        lemma_pow10_positive(read.decimals->Ok_0 as nat);
        if read.position is Ok {
            lemma_quotient_at_most(read.position->Ok_0 as nat, unit);
        }
        if read.liquidity is Ok {
            lemma_quotient_at_most(read.liquidity->Ok_0 as nat, unit);
        }
        if read.liabilities is Ok {
            lemma_quotient_at_most(read.liabilities->Ok_0 as nat, unit);
        }
    }
}

/// The call that the read at place `step` makes, counted from zero.
pub open spec fn call_at(chain: Chain, strategy: Address, step: int) -> ChainCall {
    let read = readings(chain, strategy);
    let token = read.asset->Ok_0;
    if step == 0 {
        ChainCall::StrategyWant { strategy }
    } else if step == 1 {
        ChainCall::TokenSymbol { token }
    } else if step == 2 {
        ChainCall::TokenDecimals { token }
    } else if step == 3 {
        ChainCall::StrategyValueOfLpTokens { strategy }
    } else if step == 4 {
        ChainCall::StrategyLiquidityPool { strategy }
    } else if step == 5 {
        ChainCall::TokenBalanceOf { token, owner: read.pool->Ok_0 }
    } else {
        ChainCall::TokenTotalSupply { token }
    }
}

/// Whether the first `count` reads give a value.
pub open spec fn reads_succeed(read: Readings, count: int) -> bool {
    &&& count > 0 ==> read.asset is Ok
    &&& count > 1 ==> read.symbol is Ok
    &&& count > 2 ==> read.decimals is Ok
    &&& count > 3 ==> read.position is Ok
    &&& count > 4 ==> read.pool is Ok
    &&& count > 5 ==> read.liquidity is Ok
    &&& count > 6 ==> read.liabilities is Ok
}

/// The reads are made in one fixed order, each with what the reads before it
/// gave, and the first read that fails is the last one made.
pub proof fn law_reads_in_order(chain: Chain, strategy: Address, step: int)
    requires
        0 <= step < 7,
        reads_succeed(readings(chain, strategy), step),
    ensures
        DeriverView::start(strategy).run(chain, step as nat).next_call() == Some(
            call_at(chain, strategy, step),
        ),
        !reads_succeed(readings(chain, strategy), step + 1) ==> DeriverView::start(strategy).run(
            chain,
            (step + 1) as nat,
        ).next_call() is None,
{
    reveal_with_fuel(DeriverView::run, 8);
}

/// Whether the pool of `strategy` is read to have liabilities of zero whole
/// units: every one of the seven reads succeeds, and the total supply read
/// comes to less than one unit.
pub open spec fn zero_liabilities(chain: Chain, strategy: Address) -> bool {
    let read = readings(chain, strategy);
    &&& read.asset is Ok
    &&& read.symbol is Ok
    &&& read.decimals is Ok
    &&& read.position is Ok
    &&& read.pool is Ok
    &&& read.liquidity is Ok
    &&& read.liabilities is Ok
    &&& read.liabilities->Ok_0 as nat / pow10(read.decimals->Ok_0 as nat) == 0
}

/// A pool with liabilities of zero whole units gives no entry: the derivation
/// fails with a division by zero.
pub proof fn law_zero_liabilities_fail(chain: Chain, strategy: Address)
    requires
        zero_liabilities(chain, strategy),
    ensures
        derive_outcome(chain, strategy) == Err::<StrategyReportView, ReportError>(
            ReportError::DivisionByZeroError { strategy },
        ),
{
}

/// An entry that was derived holds whole amounts that fit 128 bits, so it can
/// be printed, and its ratio is that of its whole liquidity and liabilities.
pub proof fn law_derived_entry(chain: Chain, strategy: Address)
    requires
        derive_outcome(chain, strategy) is Ok,
    ensures
        ({
            let entry = derive_outcome(chain, strategy)->Ok_0;
            &&& entry.printable()
            &&& entry.strategy_tvl.scale == 0
            &&& entry.pool_liquidity.scale == 0
            &&& entry.pool_liabilities.scale == 0
            &&& entry.pool_liabilities.unscaled > 0
            &&& entry.current_ratio == quotient_of(
                entry.pool_liquidity.unscaled,
                entry.pool_liabilities.unscaled,
            )
        }),
{
    let read = readings(chain, strategy);
    let unit = pow10(read.decimals->Ok_0 as nat);
    lemma_pow10_positive(read.decimals->Ok_0 as nat);
    lemma_quotient_at_most(read.position->Ok_0 as nat, unit);
    lemma_quotient_at_most(read.liquidity->Ok_0 as nat, unit);
    lemma_quotient_at_most(read.liabilities->Ok_0 as nat, unit);
    assert(pow10(0) == 1);
}

/// The same state of the chain gives the same entry or the same error.
pub proof fn law_same_chain_same_entry(one: Chain, other: Chain, strategy: Address)
    requires
        same_replies(one, other),
    ensures
        derive_outcome(one, strategy) == derive_outcome(other, strategy),
{
    let asset = reply_to(one, ChainCall::StrategyWant { strategy }).address();
    let pool = reply_to(one, ChainCall::StrategyLiquidityPool { strategy }).address();
    let token = asset->Ok_0;
    assert(reply_to(one, ChainCall::StrategyWant { strategy }) == reply_to(
        other,
        ChainCall::StrategyWant { strategy },
    ));
    assert(reply_to(one, ChainCall::StrategyLiquidityPool { strategy }) == reply_to(
        other,
        ChainCall::StrategyLiquidityPool { strategy },
    ));
    assert(reply_to(one, ChainCall::StrategyValueOfLpTokens { strategy }) == reply_to(
        other,
        ChainCall::StrategyValueOfLpTokens { strategy },
    ));
    assert(reply_to(one, ChainCall::TokenSymbol { token }) == reply_to(
        other,
        ChainCall::TokenSymbol { token },
    ));
    assert(reply_to(one, ChainCall::TokenDecimals { token }) == reply_to(
        other,
        ChainCall::TokenDecimals { token },
    ));
    assert(reply_to(one, ChainCall::TokenTotalSupply { token }) == reply_to(
        other,
        ChainCall::TokenTotalSupply { token },
    ));
    assert(reply_to(one, ChainCall::TokenBalanceOf { token, owner: pool->Ok_0 }) == reply_to(
        other,
        ChainCall::TokenBalanceOf { token, owner: pool->Ok_0 },
    ));
    assert(readings(one, strategy) == readings(other, strategy));
}

/// Every step keeps a deriver well formed.
pub proof fn law_deriver_stays_well_formed(deriver: DeriverView, reply: ReplyView)
    requires
        deriver.well_formed(),
    ensures
        deriver.on_reply(reply).well_formed(),
{
    lemma_whole_is_printable();
    if let Stage::Liabilities { decimals, .. } = deriver.stage {
        if let Ok(raw) = reply.amount() {
            lemma_pow10_positive(decimals as nat);
            lemma_quotient_at_most(raw as nat, pow10(decimals as nat));
        }
    }
}

/// A whole number that fits 128 bits is its own whole part.
proof fn lemma_whole_is_printable()
    ensures
        forall|n: nat| n <= u128::MAX ==> (#[trigger] Decimal::whole(n)).whole_part() == n,
{
    assert(pow10(0) == 1);
    assert forall|n: nat| n <= u128::MAX implies (#[trigger] Decimal::whole(n)).whole_part()
        == n by {
        assert(n / 1 == n);
    }
}

/// Dividing by a positive number does not make a number larger.
proof fn lemma_quotient_at_most(n: nat, d: nat)
    by (nonlinear_arith)
    requires
        d >= 1,
    ensures
        n / d <= n,
        (n / d) / 1 == n / d,
{
}

/// Derives the metrics of one strategy.
#[derive(Debug, PartialEq, Eq)]
pub struct MetricDeriver {
    strategy: StargateStrategy,
    stage: Stage<String, IndividualStrategyReport>,
}

impl View for MetricDeriver {
    type V = DeriverView;

    closed spec fn view(&self) -> DeriverView {
        DeriverView { strategy: self.strategy.address, stage: self.stage@ }
    }
}

impl MetricDeriver {
    #[verifier::type_invariant]
    spec fn inv(self) -> bool {
        self@.well_formed()
    }

    /// A deriver for the strategy at `strategy`, before its first read.
    pub fn start(strategy: Address) -> (deriver: MetricDeriver)
        ensures
            deriver@ == DeriverView::start(strategy),
    {
        MetricDeriver { strategy: StargateStrategy::new(strategy), stage: Stage::Asset }
    }

    /// The call to make next and to answer with `on_reply`; none once the
    /// derivation is done.
    pub fn next_call(&self) -> (call: Option<ChainCall>)
        ensures
            call == self@.next_call(),
    {
        match &self.stage {
            Stage::Asset => Some(self.strategy.get_want()),
            Stage::Symbol { want } => Some(want.symbol()),
            Stage::Decimals { want, .. } => Some(want.decimals()),
            Stage::Position { .. } => Some(self.strategy.get_total_position()),
            Stage::Pool { .. } => Some(self.strategy.get_underlying_liquidity_pool()),
            Stage::Liquidity { want, pool, .. } => Some(want.balance_of(*pool)),
            Stage::Liabilities { want, .. } => Some(want.total_supply()),
            Stage::Done(_) => None,
        }
    }

    /// Takes the reply to the call that `next_call` named.
    pub fn on_reply(self, reply: ChainReply) -> (next: MetricDeriver)
        ensures
            next@ == self@.on_reply(reply@),
    {
        proof {
            use_type_invariant(&self);
            law_deriver_stays_well_formed(self@, reply@);
        }
        let strategy = self.strategy;
        let address = strategy.address;
        let stage = match self.stage {
            Stage::Asset => match reply.into_address() {
                Ok(asset) => Stage::Symbol { want: IERC20::new(asset) },
                Err(cause) => Stage::Done(
                    Err(ReportError::of_read(address, Step::UnderlyingAsset, cause)),
                ),
            },
            Stage::Symbol { want } => match reply.into_symbol() {
                Ok(symbol) => Stage::Decimals { want, symbol },
                Err(cause) => Stage::Done(Err(ReportError::of_read(address, Step::Symbol, cause))),
            },
            Stage::Decimals { want, symbol } => match reply.into_decimals() {
                Ok(decimals) => Stage::Position { want, symbol, decimals },
                Err(cause) => Stage::Done(
                    Err(ReportError::of_read(address, Step::Decimals, cause)),
                ),
            },
            Stage::Position { want, symbol, decimals } => match reply.into_amount() {
                Ok(raw) => Stage::Pool {
                    want,
                    symbol,
                    decimals,
                    strategy_tvl: scaled_units(raw, decimals),
                },
                Err(cause) => Stage::Done(
                    Err(ReportError::of_read(address, Step::PositionValue, cause)),
                ),
            },
            Stage::Pool { want, symbol, decimals, strategy_tvl } => match reply.into_address() {
                Ok(pool) => Stage::Liquidity { want, symbol, decimals, strategy_tvl, pool },
                Err(cause) => Stage::Done(
                    Err(ReportError::of_read(address, Step::LiquidityPool, cause)),
                ),
            },
            Stage::Liquidity {
                want,
                symbol,
                decimals,
                strategy_tvl,
                pool,
            } => match reply.into_amount() {
                Ok(raw) => Stage::Liabilities {
                    want,
                    symbol,
                    decimals,
                    strategy_tvl,
                    pool_liquidity: scaled_units(raw, decimals),
                },
                Err(cause) => Stage::Done(
                    Err(ReportError::of_read(address, Step::PoolLiquidity, cause)),
                ),
            },
            Stage::Liabilities {
                want,
                symbol,
                decimals,
                strategy_tvl,
                pool_liquidity,
            } => match reply.into_amount() {
                Ok(raw) => {
                    let pool_liabilities = scaled_units(raw, decimals);
                    match current_ratio(pool_liquidity, pool_liabilities) {
                        Some(ratio) => Stage::Done(
                            Ok(
                                IndividualStrategyReport::new(
                                    symbol,
                                    ScaledAmount::from_raw(strategy_tvl),
                                    ScaledAmount::from_raw(pool_liquidity),
                                    ScaledAmount::from_raw(pool_liabilities),
                                    ratio,
                                ),
                            ),
                        ),
                        None => Stage::Done(
                            Err(ReportError::DivisionByZeroError { strategy: address }),
                        ),
                    }
                },
                Err(cause) => Stage::Done(
                    Err(ReportError::of_read(address, Step::PoolLiabilities, cause)),
                ),
            },
            Stage::Done(result) => Stage::Done(result),
        };
        MetricDeriver { strategy, stage }
    }

    /// Whether the derivation has ended.
    pub fn is_done(&self) -> (done: bool)
        ensures
            done == self@.result() is Some,
    {
        match &self.stage {
            Stage::Done(_) => true,
            _ => false,
        }
    }

    /// The end of the derivation: the strategy's entry or the error that
    /// stopped it. While reads are outstanding the deriver comes back as it
    /// is, as the error.
    pub fn into_result(self) -> (result: Result<
        Result<IndividualStrategyReport, ReportError>,
        MetricDeriver,
    >)
        ensures
            result is Ok <==> self@.result() is Some,
            result matches Ok(Ok(report)) ==> self@.result() == Some(
                Ok::<StrategyReportView, ReportError>(report@),
            ),
            result matches Ok(Err(error)) ==> self@.result() == Some(
                Err::<StrategyReportView, ReportError>(error),
            ),
            result matches Ok(Ok(report)) ==> report@.printable(),
            result matches Err(deriver) ==> deriver@ == self@,
    {
        proof {
            use_type_invariant(&self);
        }
        match self.stage {
            Stage::Done(result) => Ok(result),
            stage => Err(MetricDeriver { strategy: self.strategy, stage }),
        }
    }
}

} // verus!
