//! The report of a run: the metrics of every strategy, derived one strategy
//! after the other in the order the strategies were given. The first error
//! ends the run, and what was derived before it is dropped.

use crate::blockchain_client::{Address, ChainCall, ChainReply, ReplyView};
use crate::error::ReportError;
use crate::metric_deriver::{
    derive_outcome, law_deriver_ends_in_outcome, law_deriver_stays_well_formed,
    law_zero_liabilities_fail, zero_liabilities, Chain, DeriverView, MetricDeriver,
};
use crate::report::{
    all_printable, entries_view, IndividualStrategyReport, StargateReport, StrategyReportView,
};
use vstd::prelude::*;

verus! {

/// What creating the report for `addresses` on `chain` ends in: the entries of
/// all the strategies in the order of their addresses, or the error of the
/// first strategy whose derivation fails.
pub open spec fn report_outcome(chain: Chain, addresses: Seq<Address>) -> Result<
    Seq<StrategyReportView>,
    ReportError,
>
    decreases addresses.len(),
{
    if addresses.len() == 0 {
        Ok(Seq::empty())
    } else {
        match report_outcome(chain, addresses.drop_last()) {
            Ok(entries) => match derive_outcome(chain, addresses.last()) {
                Ok(entry) => Ok(entries.push(entry)),
                Err(error) => Err(error),
            },
            Err(error) => Err(error),
        }
    }
}

/// Where the creation of a report stands.
#[derive(Debug, PartialEq, Eq)]
pub enum Progress<Deriver> {
    /// The metrics of one strategy are being derived.
    Deriving(Deriver),
    /// A derivation has failed, and the run with it.
    Failed(ReportError),
    /// Every strategy has its entry.
    Complete,
}

/// What contracts say of the creation of a report.
pub struct CreationView {
    pub addresses: Seq<Address>,
    pub entries: Seq<StrategyReportView>,
    pub progress: Progress<DeriverView>,
}

impl CreationView {
    /// The creation before its first read.
    pub open spec fn start(addresses: Seq<Address>) -> CreationView {
        CreationView {
            addresses,
            entries: Seq::empty(),
            progress: if addresses.len() == 0 {
                Progress::Complete
            } else {
                Progress::Deriving(DeriverView::start(addresses[0]))
            },
        }
    }

    /// While a strategy is being derived, it is the one that comes after the
    /// entries made so far, and its derivation has reads outstanding; once the
    /// creation is complete, there is one entry for each address. A creation
    /// that has failed holds no entry, and every entry held can be printed.
    pub open spec fn well_formed(self) -> bool {
        &&& all_printable(self.entries)
        &&& match self.progress {
            Progress::Deriving(deriver) => {
                &&& self.entries.len() < self.addresses.len()
                &&& deriver.strategy == self.addresses[self.entries.len() as int]
                &&& deriver.result() is None
            },
            Progress::Failed(_) => self.entries.len() == 0,
            Progress::Complete => self.entries.len() == self.addresses.len(),
        }
    }

    /// The call whose reply the creation waits for; none once it has ended.
    pub open spec fn next_call(self) -> Option<ChainCall> {
        match self.progress {
            Progress::Deriving(deriver) => deriver.next_call(),
            _ => None,
        }
    }

    /// The end of the creation, once it is reached.
    pub open spec fn result(self) -> Option<Result<Seq<StrategyReportView>, ReportError>> {
        match self.progress {
            Progress::Deriving(_) => None,
            Progress::Failed(error) => Some(Err(error)),
            Progress::Complete => Some(Ok(self.entries)),
        }
    }

    /// The creation after the strategy in hand has ended in `result`: an
    /// error ends the creation and drops the entries made so far; an entry is
    /// added after them, and the next strategy, if there is one, is taken up.
    pub open spec fn conclude(
        self,
        result: Result<StrategyReportView, ReportError>,
    ) -> CreationView {
        match result {
            Ok(entry) => {
                let entries = self.entries.push(entry);
                CreationView {
                    addresses: self.addresses,
                    entries,
                    progress: if entries.len() < self.addresses.len() {
                        Progress::Deriving(
                            DeriverView::start(self.addresses[entries.len() as int]),
                        )
                    } else {
                        Progress::Complete
                    },
                }
            },
            Err(error) => CreationView {
                addresses: self.addresses,
                entries: Seq::empty(),
                progress: Progress::Failed(error),
            },
        }
    }

    /// The creation after `reply` has come back for the call it waited for. A
    /// creation that has ended stays as it is.
    pub open spec fn on_reply(self, reply: ReplyView) -> CreationView {
        match self.progress {
            Progress::Deriving(deriver) => {
                let deriver = deriver.on_reply(reply);
                match deriver.result() {
                    Some(result) => self.conclude(result),
                    None => CreationView {
                        addresses: self.addresses,
                        entries: self.entries,
                        progress: Progress::Deriving(deriver),
                    },
                }
            },
            _ => self,
        }
    }

    /// The creation after at most `steps` calls, each answered by `chain`.
    pub open spec fn run(self, chain: Chain, steps: nat) -> CreationView
        decreases steps,
    {
        if steps == 0 {
            self
        } else {
            match self.next_call() {
                Some(call) => self.on_reply(chain(call)).run(chain, (steps - 1) as nat),
                None => self,
            }
        }
    }
}

/// The entries of a report stand in the order of the addresses: there are as
/// many entries as addresses, and each is what the derivation for the address
/// at its place gives.
pub proof fn law_entries_follow_addresses(chain: Chain, addresses: Seq<Address>)
    requires
        report_outcome(chain, addresses) is Ok,
    ensures
        report_outcome(chain, addresses)->Ok_0.len() == addresses.len(),
        forall|i: int|
            0 <= i < addresses.len() ==> derive_outcome(chain, #[trigger] addresses[i]) == Ok::<
                StrategyReportView,
                ReportError,
            >(report_outcome(chain, addresses)->Ok_0[i]),
    decreases addresses.len(),
{
    if addresses.len() > 0 {
        let front = addresses.drop_last();
        law_entries_follow_addresses(chain, front);
        assert forall|i: int| 0 <= i < addresses.len() implies derive_outcome(
            chain,
            #[trigger] addresses[i],
        ) == Ok::<StrategyReportView, ReportError>(
            report_outcome(chain, addresses)->Ok_0[i],
        ) by {
            if i < front.len() {
                assert(addresses[i] == front[i]);
            }
        }
    }
}

/// All or nothing: where the derivation fails for any one strategy, no report
/// is created, whatever the strategies before and after it give. The error is
/// that of the first strategy that fails.
pub proof fn law_all_or_nothing(chain: Chain, addresses: Seq<Address>, failing: int)
    requires
        0 <= failing < addresses.len(),
        derive_outcome(chain, addresses[failing]) is Err,
    ensures
        report_outcome(chain, addresses) is Err,
        (forall|i: int| 0 <= i < failing ==> derive_outcome(chain, #[trigger] addresses[i]) is Ok)
            ==> report_outcome(chain, addresses) == Err::<Seq<StrategyReportView>, ReportError>(
            derive_outcome(chain, addresses[failing])->Err_0,
        ),
    decreases addresses.len(),
{
    let front = addresses.drop_last();
    if failing < front.len() {
        assert(front[failing] == addresses[failing]);
        law_all_or_nothing(chain, front, failing);
        if forall|i: int|
            0 <= i < failing ==> derive_outcome(chain, #[trigger] addresses[i]) is Ok {
            assert forall|i: int| 0 <= i < failing implies derive_outcome(
                chain,
                #[trigger] front[i],
            ) is Ok by {
                assert(front[i] == addresses[i]);
            }
        }
    } else {
        if forall|i: int|
            0 <= i < failing ==> derive_outcome(chain, #[trigger] addresses[i]) is Ok {
            lemma_outcome_is_ok(chain, front);
        }
    }
}

/// A pool with liabilities of zero whole units leaves no report, for any
/// strategy. Where no strategy before it fails, the error is the division by
/// zero; else it is the error of the first strategy that fails.
pub proof fn law_zero_liabilities_leave_no_report(
    chain: Chain,
    addresses: Seq<Address>,
    at: int,
)
    requires
        0 <= at < addresses.len(),
        zero_liabilities(chain, addresses[at]),
    ensures
        report_outcome(chain, addresses) is Err,
        (forall|i: int| 0 <= i < at ==> derive_outcome(chain, #[trigger] addresses[i]) is Ok)
            ==> report_outcome(chain, addresses) == Err::<Seq<StrategyReportView>, ReportError>(
            ReportError::DivisionByZeroError { strategy: addresses[at] },
        ),
{
    law_zero_liabilities_fail(chain, addresses[at]);
    law_all_or_nothing(chain, addresses, at);
}

/// Where every derivation succeeds, the report is created.
proof fn lemma_outcome_is_ok(chain: Chain, addresses: Seq<Address>)
    requires
        forall|i: int|
            0 <= i < addresses.len() ==> derive_outcome(chain, #[trigger] addresses[i]) is Ok,
    ensures
        report_outcome(chain, addresses) is Ok,
    decreases addresses.len(),
{
    if addresses.len() > 0 {
        let front = addresses.drop_last();
        assert forall|i: int| 0 <= i < front.len() implies derive_outcome(
            chain,
            #[trigger] front[i],
        ) is Ok by {
            assert(front[i] == addresses[i]);
        }
        lemma_outcome_is_ok(chain, front);
        assert(derive_outcome(chain, addresses[addresses.len() - 1]) is Ok);
    }
}

/// A report is created exactly where the derivation succeeds for every
/// strategy.
pub proof fn law_report_needs_every_strategy(chain: Chain, addresses: Seq<Address>)
    ensures
        report_outcome(chain, addresses) is Ok <==> forall|i: int|
            0 <= i < addresses.len() ==> derive_outcome(chain, #[trigger] addresses[i]) is Ok,
{
    if report_outcome(chain, addresses) is Ok {
        law_entries_follow_addresses(chain, addresses);
    }
    if forall|i: int|
        0 <= i < addresses.len() ==> derive_outcome(chain, #[trigger] addresses[i]) is Ok {
        lemma_outcome_is_ok(chain, addresses);
    }
}

/// A creation that waits for no reply stays as it is.
proof fn lemma_ended_stays(creation: CreationView, chain: Chain, steps: nat)
    requires
        creation.next_call() is None,
    ensures
        creation.run(chain, steps) == creation,
{
    reveal_with_fuel(CreationView::run, 2);
}

/// Running on is running the rest.
proof fn lemma_run_split(creation: CreationView, chain: Chain, first: nat, then: nat)
    ensures
        creation.run(chain, first + then) == creation.run(chain, first).run(chain, then),
    decreases first,
{
    reveal_with_fuel(CreationView::run, 2);
    if first > 0 {
        match creation.next_call() {
            Some(call) => {
                lemma_run_split(creation.on_reply(chain(call)), chain, (first - 1) as nat, then);
            },
            None => {
                lemma_ended_stays(creation, chain, then);
            },
        }
    }
}

/// Seven reads after a strategy is taken up, its derivation has ended and the
/// creation has drawn the consequence.
proof fn lemma_one_strategy(creation: CreationView, chain: Chain, strategy: Address)
    requires
        creation.progress == Progress::Deriving(DeriverView::start(strategy)),
    ensures
        creation.run(chain, 7) == creation.conclude(derive_outcome(chain, strategy)),
{
    law_deriver_ends_in_outcome(chain, strategy);
    reveal_with_fuel(CreationView::run, 8);
    reveal_with_fuel(DeriverView::run, 8);
}

/// The state of a creation after the first `done` strategies.
spec fn after_strategies(
    chain: Chain,
    addresses: Seq<Address>,
    done: int,
) -> CreationView {
    match report_outcome(chain, addresses.take(done)) {
        Ok(entries) => CreationView {
            addresses,
            entries,
            progress: if done < addresses.len() {
                Progress::Deriving(DeriverView::start(addresses[done]))
            } else {
                Progress::Complete
            },
        },
        Err(error) => CreationView {
            addresses,
            entries: Seq::empty(),
            progress: Progress::Failed(error),
        },
    }
}

/// Seven reads for each of the first `done` strategies bring the creation to
/// the state after them.
proof fn lemma_run_strategies(chain: Chain, addresses: Seq<Address>, done: int)
    requires
        0 <= done <= addresses.len(),
    ensures
        CreationView::start(addresses).run(chain, (7 * done) as nat) == after_strategies(
            chain,
            addresses,
            done,
        ),
    decreases done,
{
    let start = CreationView::start(addresses);
    if done == 0 {
        assert(addresses.take(0) =~= Seq::empty());
        reveal_with_fuel(CreationView::run, 1);
    } else {
        lemma_run_strategies(chain, addresses, done - 1);
        let before = after_strategies(chain, addresses, done - 1);
        lemma_run_split(start, chain, (7 * (done - 1)) as nat, 7);
        assert(addresses.take(done).drop_last() =~= addresses.take(done - 1));
        assert(addresses.take(done).last() == addresses[done - 1]);
        match report_outcome(chain, addresses.take(done - 1)) {
            Ok(entries) => {
                law_entries_follow_addresses(chain, addresses.take(done - 1));
                lemma_one_strategy(before, chain, addresses[done - 1]);
            },
            Err(error) => {
                lemma_ended_stays(before, chain, 7);
            },
        }
    }
}

/// A creation that takes its replies from the chain has ended after seven
/// reads for each strategy at most, and ends in the outcome of the report:
/// every entry in the order of the addresses, or the first error and nothing
/// else.
pub proof fn law_creation_ends_in_outcome(chain: Chain, addresses: Seq<Address>)
    ensures
        CreationView::start(addresses).run(chain, 7 * addresses.len()).result() == Some(
            report_outcome(chain, addresses),
        ),
{
    lemma_run_strategies(chain, addresses, addresses.len() as int);
    assert(addresses.take(addresses.len() as int) =~= addresses);
}

/// Every step keeps a creation well formed; one that has failed holds no
/// entry.
pub proof fn law_creation_stays_well_formed(creation: CreationView, reply: ReplyView)
    requires
        creation.well_formed(),
    ensures
        creation.on_reply(reply).well_formed(),
        creation.on_reply(reply).result() matches Some(Err(_)) ==> creation.on_reply(
            reply,
        ).entries.len() == 0,
{
    if let Progress::Deriving(deriver) = creation.progress {
        law_deriver_stays_well_formed(deriver, reply);
    }
}

/// The creation of one report.
#[derive(Debug, PartialEq, Eq)]
pub struct ReportCreation {
    addresses: Vec<Address>,
    entries: Vec<IndividualStrategyReport>,
    progress: Progress<MetricDeriver>,
}

impl View for ReportCreation {
    type V = CreationView;

    closed spec fn view(&self) -> CreationView {
        CreationView {
            addresses: self.addresses@,
            entries: entries_view(self.entries@),
            progress: match self.progress {
                Progress::Deriving(deriver) => Progress::Deriving(deriver@),
                Progress::Failed(error) => Progress::Failed(error),
                Progress::Complete => Progress::Complete,
            },
        }
    }
}

/// Starts the creation of the report on the strategies at
/// `strategy_addresses`. Nothing has been read yet: `next_call` names each
/// read in turn, `on_reply` takes what came back.
pub fn create_report(strategy_addresses: Vec<Address>) -> (creation: ReportCreation)
    ensures
        creation@ == CreationView::start(strategy_addresses@),
        creation@.well_formed(),
{
    let progress = if strategy_addresses.len() == 0 {
        Progress::Complete
    } else {
        Progress::Deriving(MetricDeriver::start(strategy_addresses[0]))
    };
    let entries: Vec<IndividualStrategyReport> = Vec::new();
    assert(entries_view(entries@) =~= Seq::empty());
    ReportCreation { addresses: strategy_addresses, entries, progress }
}

impl ReportCreation {
    #[verifier::type_invariant]
    spec fn inv(self) -> bool {
        self@.well_formed()
    }

    /// The call to make next and to answer with `on_reply`; none once the
    /// creation has ended.
    pub fn next_call(&self) -> (call: Option<ChainCall>)
        ensures
            call == self@.next_call(),
            self@.well_formed(),
            call is None <==> self@.result() is Some,
    {
        proof {
            use_type_invariant(self);
        }
        match &self.progress {
            Progress::Deriving(deriver) => deriver.next_call(),
            _ => None,
        }
    }

    /// Takes the reply to the call that `next_call` named.
    pub fn on_reply(self, reply: ChainReply) -> (next: ReportCreation)
        ensures
            next@ == self@.on_reply(reply@),
            next@.well_formed(),
    {
        proof {
            use_type_invariant(&self);
        }
        let addresses = self.addresses;
        let mut entries = self.entries;
        match self.progress {
            Progress::Deriving(deriver) => match deriver.on_reply(reply).into_result() {
                Ok(Ok(entry)) => {
                    let ghost before = entries@;
                    entries.push(entry);
                    assert(entries_view(entries@) =~= entries_view(before).push(entry@));
                    let progress = if entries.len() < addresses.len() {
                        Progress::Deriving(MetricDeriver::start(addresses[entries.len()]))
                    } else {
                        Progress::Complete
                    };
                    ReportCreation { addresses, entries, progress }
                },
                Ok(Err(error)) => {
                    let entries: Vec<IndividualStrategyReport> = Vec::new();
                    assert(entries_view(entries@) =~= Seq::empty());
                    ReportCreation { addresses, entries, progress: Progress::Failed(error) }
                },
                Err(deriver) => ReportCreation {
                    addresses,
                    entries,
                    progress: Progress::Deriving(deriver),
                },
            },
            progress => ReportCreation { addresses, entries, progress },
        }
    }

    /// Whether the creation has ended.
    pub fn is_done(&self) -> (done: bool)
        ensures
            done == self@.result() is Some,
    {
        match &self.progress {
            Progress::Deriving(_) => false,
            _ => true,
        }
    }

    /// The end of the creation: the report, with one entry for each address in
    /// the order of the addresses, or the error that ended the run. While
    /// reads are outstanding the creation comes back as it is, as the error.
    pub fn into_result(self) -> (result: Result<
        Result<StargateReport, ReportError>,
        ReportCreation,
    >)
        ensures
            result is Ok <==> self@.result() is Some,
            result matches Ok(Ok(report)) ==> self@.result() == Some(
                Ok::<Seq<StrategyReportView>, ReportError>(report@),
            ) && report@.len() == self@.addresses.len() && all_printable(report@),
            result matches Ok(Err(error)) ==> self@.result() == Some(
                Err::<Seq<StrategyReportView>, ReportError>(error),
            ),
            result matches Err(creation) ==> creation@ == self@,
    {
        proof {
            use_type_invariant(&self);
        }
        match self.progress {
            Progress::Complete => Ok(Ok(StargateReport::new(self.entries))),
            Progress::Failed(error) => Ok(Err(error)),
            progress => Err(
                ReportCreation { addresses: self.addresses, entries: self.entries, progress },
            ),
        }
    }
}

} // verus!
