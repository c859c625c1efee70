//! What can go wrong in a run. Every error ends the run: nothing is retried and
//! no partial report is kept.

use crate::blockchain_client::Address;
use vstd::prelude::*;

verus! {

/// Why one read of the chain gave no value.
#[derive(Clone, Copy, Debug, PartialEq, Eq)]
pub enum ReadError {
    /// The call failed, or its reply is not of the kind that was asked for.
    ChainCallError,
    /// The amount read does not fit 128 bits.
    OverflowError,
}

/// The steps that derive one strategy's metrics, in the order they are taken.
#[derive(Clone, Copy, Debug, PartialEq, Eq)]
pub enum Step {
    UnderlyingAsset,
    Symbol,
    Decimals,
    PositionValue,
    LiquidityPool,
    PoolLiquidity,
    PoolLiabilities,
}

/// The two secrets a run needs.
#[derive(Clone, Copy, Debug, PartialEq, Eq)]
pub enum Credential {
    DataProviderKey,
    MessagingToken,
}

/// Why a run produced no report, or did not deliver it.
#[derive(Clone, Copy, Debug, PartialEq, Eq)]
pub enum ReportError {
    /// A read of the chain failed at `step` of `strategy`.
    ChainCallError { strategy: Address, step: Step },
    /// The amount read at `step` of `strategy` does not fit 128 bits.
    OverflowError { strategy: Address, step: Step },
    /// The pool of `strategy` has no liabilities to divide its liquidity by.
    DivisionByZeroError { strategy: Address },
    /// A required credential is missing.
    ConfigurationError { missing: Credential },
    /// The message could not be sent.
    PublishError,
}

impl ReportError {
    /// The error of a run in which the read at `step` of `strategy` failed
    /// with `cause`.
    pub open spec fn spec_of_read(strategy: Address, step: Step, cause: ReadError) -> ReportError {
        match cause {
            ReadError::ChainCallError => ReportError::ChainCallError { strategy, step },
            ReadError::OverflowError => ReportError::OverflowError { strategy, step },
        }
    }

    /// The error of a run in which the read at `step` of `strategy` failed
    /// with `cause`.
    #[verifier::when_used_as_spec(spec_of_read)]
    pub fn of_read(strategy: Address, step: Step, cause: ReadError) -> (error: ReportError)
        ensures
            error == Self::spec_of_read(strategy, step, cause),
    {
        match cause {
            ReadError::ChainCallError => ReportError::ChainCallError { strategy, step },
            ReadError::OverflowError => ReportError::OverflowError { strategy, step },
        }
    }
}

} // verus!
