//! A whole run: the report is created read by read, and sent once it is
//! complete. Whatever fails ends the run, and nothing is sent unless every
//! strategy has its entry.

use crate::blockchain_client::{Address, ChainCall, ChainReply, ReplyView};
use crate::error::ReportError;
use crate::metric_deriver::{law_same_chain_same_entry, same_replies, Chain};
use crate::report::{all_printable, StargateReport, StrategyReportView};
use crate::report_creator::{
    create_report, law_creation_ends_in_outcome, report_outcome, CreationView, ReportCreation,
};
use crate::report_publisher::{format_report, report_text};
use crate::telegram_client::{committee_chat_id, message_url, send_message_to_committee};
use vstd::prelude::*;

verus! {

/// What whoever drives a run is to do next.
#[derive(Debug, PartialEq, Eq)]
pub enum Action<Text> {
    /// Make this call on chain, and hand its reply to `on_reply`.
    Read(ChainCall),
    /// Send `message` by fetching `url` once, and tell `on_delivery` whether
    /// that succeeded.
    Send { message: Text, url: Text },
    /// Nothing: the run has ended so.
    Stop(Result<(), ReportError>),
}

impl View for Action<String> {
    type V = Action<Seq<char>>;

    open spec fn view(&self) -> Action<Seq<char>> {
        match *self {
            Action::Read(call) => Action::Read(call),
            Action::Send { message, url } => Action::Send { message: message@, url: url@ },
            Action::Stop(result) => Action::Stop(result),
        }
    }
}

/// Where a run stands.
#[derive(Debug, PartialEq, Eq)]
pub enum Stage<Creation, Report> {
    /// The report is being created.
    Creating(Creation),
    /// The report is complete and is to be sent.
    Publishing(Report),
    /// The run has ended.
    Done(Result<(), ReportError>),
}

/// What contracts say of a run.
pub struct PipelineView {
    pub telegram_token: Seq<char>,
    pub stage: Stage<CreationView, Seq<StrategyReportView>>,
}

impl PipelineView {
    /// The run whose creation of the report stands at `creation`: it goes on
    /// creating while reads are outstanding, has the report to send once the
    /// creation is complete, and has ended once the creation has failed.
    pub open spec fn creating(telegram_token: Seq<char>, creation: CreationView) -> PipelineView {
        PipelineView {
            telegram_token,
            stage: match creation.result() {
                None => Stage::Creating(creation),
                Some(Ok(entries)) => Stage::Publishing(entries),
                Some(Err(error)) => Stage::Done(Err(error)),
            },
        }
    }

    /// The run before its first read.
    pub open spec fn start(telegram_token: Seq<char>, addresses: Seq<Address>) -> PipelineView {
        Self::creating(telegram_token, CreationView::start(addresses))
    }

    /// A run that is creating its report has reads outstanding, and a report
    /// that is to be sent can be printed.
    pub open spec fn well_formed(self) -> bool {
        match self.stage {
            Stage::Creating(creation) => creation.well_formed() && creation.next_call() is Some,
            Stage::Publishing(entries) => all_printable(entries),
            Stage::Done(_) => true,
        }
    }

    /// What is to be done next.
    pub open spec fn next_action(self) -> Action<Seq<char>> {
        match self.stage {
            Stage::Creating(creation) => Action::Read(creation.next_call()->Some_0),
            Stage::Publishing(entries) => Action::Send {
                message: report_text(entries),
                url: message_url(self.telegram_token, committee_chat_id(), report_text(entries)),
            },
            Stage::Done(result) => Action::Stop(result),
        }
    }

    /// The end of the run, once it is reached.
    pub open spec fn result(self) -> Option<Result<(), ReportError>> {
        match self.stage {
            Stage::Done(result) => Some(result),
            _ => None,
        }
    }

    /// The run after `reply` has come back for the call it waited for. A run
    /// that waits for no call stays as it is.
    pub open spec fn on_reply(self, reply: ReplyView) -> PipelineView {
        match self.stage {
            Stage::Creating(creation) => Self::creating(
                self.telegram_token,
                creation.on_reply(reply),
            ),
            _ => self,
        }
    }

    /// The run after the message was fetched, with or without success: it has
    /// ended, in an error where the message was not delivered. A run that has
    /// nothing to send stays as it is.
    pub open spec fn on_delivery(self, delivered: bool) -> PipelineView {
        match self.stage {
            Stage::Publishing(_) => PipelineView {
                telegram_token: self.telegram_token,
                stage: Stage::Done(
                    if delivered {
                        Ok(())
                    } else {
                        Err(ReportError::PublishError)
                    },
                ),
            },
            _ => self,
        }
    }

    /// The run after at most `steps` calls, each answered by `chain`.
    pub open spec fn read(self, chain: Chain, steps: nat) -> PipelineView
        decreases steps,
    {
        if steps == 0 {
            self
        } else {
            match self.stage {
                Stage::Creating(creation) => self.on_reply(
                    chain(creation.next_call()->Some_0),
                ).read(chain, (steps - 1) as nat),
                _ => self,
            }
        }
    }
}

/// A run reads as the creation of its report reads.
proof fn lemma_read_follows_creation(
    telegram_token: Seq<char>,
    creation: CreationView,
    chain: Chain,
    steps: nat,
)
    requires
        creation.result() is None ==> creation.next_call() is Some,
    ensures
        PipelineView::creating(telegram_token, creation).read(chain, steps)
            == PipelineView::creating(telegram_token, creation.run(chain, steps)),
    decreases steps,
{
    reveal_with_fuel(PipelineView::read, 2);
    reveal_with_fuel(CreationView::run, 2);
    if steps > 0 && creation.result() is None {
        let next = creation.on_reply(chain(creation.next_call()->Some_0));
        lemma_read_follows_creation(telegram_token, next, chain, (steps - 1) as nat);
    }
}

/// All or nothing, to the end: a run that takes its replies from the chain
/// has read all it reads after seven reads for each strategy. Where every
/// strategy has its entry, the run then sends one message, the text of the
/// report, and ends well if the message is delivered and in an error if it is
/// not. Where a strategy fails, the run has ended in the first error, and
/// nothing is sent.
pub proof fn law_run_outcome(
    telegram_token: Seq<char>,
    chain: Chain,
    addresses: Seq<Address>,
    delivered: bool,
)
    ensures
        ({
            let run = PipelineView::start(telegram_token, addresses).read(
                chain,
                7 * addresses.len(),
            );
            match report_outcome(chain, addresses) {
                Ok(entries) => {
                    &&& run.next_action() == (Action::<Seq<char>>::Send {
                        message: report_text(entries),
                        url: message_url(
                            telegram_token,
                            committee_chat_id(),
                            report_text(entries),
                        ),
                    })
                    &&& run.on_delivery(delivered).next_action() == Action::<Seq<char>>::Stop(
                        if delivered {
                            Ok(())
                        } else {
                            Err(ReportError::PublishError)
                        },
                    )
                },
                Err(error) => run.next_action() == Action::<Seq<char>>::Stop(Err(error)),
            }
        }),
{
    let creation = CreationView::start(addresses);
    lemma_read_follows_creation(telegram_token, creation, chain, 7 * addresses.len());
    law_creation_ends_in_outcome(chain, addresses);
}

/// The same state of the chain gives the same report and the same message,
/// character for character.
pub proof fn law_same_chain_same_text(one: Chain, other: Chain, addresses: Seq<Address>)
    requires
        same_replies(one, other),
    ensures
        report_outcome(one, addresses) == report_outcome(other, addresses),
        report_outcome(one, addresses) matches Ok(entries) ==> report_text(entries) == report_text(
            report_outcome(other, addresses)->Ok_0,
        ),
    decreases addresses.len(),
{
    if addresses.len() > 0 {
        law_same_chain_same_text(one, other, addresses.drop_last());
        law_same_chain_same_entry(one, other, addresses.last());
    }
}

/// One run.
#[derive(Debug, PartialEq, Eq)]
pub struct Pipeline {
    telegram_token: String,
    stage: Stage<ReportCreation, StargateReport>,
}

impl View for Pipeline {
    type V = PipelineView;

    closed spec fn view(&self) -> PipelineView {
        PipelineView {
            telegram_token: self.telegram_token@,
            stage: match self.stage {
                Stage::Creating(creation) => Stage::Creating(creation@),
                Stage::Publishing(report) => Stage::Publishing(report@),
                Stage::Done(result) => Stage::Done(result),
            },
        }
    }
}

impl Pipeline {
    #[verifier::type_invariant]
    spec fn inv(self) -> bool {
        self@.well_formed()
    }

    /// The run whose creation of the report stands at `creation`.
    fn creating(telegram_token: String, creation: ReportCreation) -> (run: Pipeline)
        requires
            creation@.well_formed(),
        ensures
            run@ == PipelineView::creating(telegram_token@, creation@),
    {
        match creation.into_result() {
            Ok(Ok(report)) => Pipeline { telegram_token, stage: Stage::Publishing(report) },
            Ok(Err(error)) => Pipeline { telegram_token, stage: Stage::Done(Err(error)) },
            Err(creation) => Pipeline { telegram_token, stage: Stage::Creating(creation) },
        }
    }

    /// A run that reports on the strategies at `strategy_addresses` and sends
    /// its message in the name of the bot that holds `telegram_token`.
    pub fn start(telegram_token: String, strategy_addresses: Vec<Address>) -> (run: Pipeline)
        ensures
            run@ == PipelineView::start(telegram_token@, strategy_addresses@),
    {
        Pipeline::creating(telegram_token, create_report(strategy_addresses))
    }

    /// What to do next.
    pub fn next_action(&self) -> (action: Action<String>)
        ensures
            action@ == self@.next_action(),
    {
        proof {
            use_type_invariant(self);
        }
        match &self.stage {
            Stage::Creating(creation) => Action::Read(creation.next_call().unwrap()),
            Stage::Publishing(report) => {
                let message = format_report(report);
                let url = send_message_to_committee(message.as_str(), self.telegram_token.as_str());
                Action::Send { message, url }
            },
            Stage::Done(result) => Action::Stop(*result),
        }
    }

    /// Takes the reply to the call that `next_action` named.
    pub fn on_reply(self, reply: ChainReply) -> (next: Pipeline)
        ensures
            next@ == self@.on_reply(reply@),
    {
        proof {
            use_type_invariant(&self);
        }
        match self.stage {
            Stage::Creating(creation) => Pipeline::creating(
                self.telegram_token,
                creation.on_reply(reply),
            ),
            stage => Pipeline { telegram_token: self.telegram_token, stage },
        }
    }

    /// Takes what became of the message that `next_action` asked to send.
    /// Nothing is sent a second time.
    pub fn on_delivery(self, delivered: bool) -> (next: Pipeline)
        ensures
            next@ == self@.on_delivery(delivered),
    {
        proof {
            use_type_invariant(&self);
        }
        match self.stage {
            Stage::Publishing(_) => Pipeline {
                telegram_token: self.telegram_token,
                stage: Stage::Done(
                    if delivered {
                        Ok(())
                    } else {
                        Err(ReportError::PublishError)
                    },
                ),
            },
            stage => Pipeline { telegram_token: self.telegram_token, stage },
        }
    }
}

} // verus!
