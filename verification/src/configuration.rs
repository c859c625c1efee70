//! What a run is given: the strategies to report on and the two credentials.

use crate::blockchain_client::Address;
use crate::error::{Credential, ReportError};
use vstd::prelude::*;

verus! {

/// The bytes of the addresses of the Stargate strategies that the daily
/// report covers, in the order of the report.
pub open spec fn daily_strategies() -> Seq<Seq<u8>> {
    seq![
        seq![
            0x7cu8, 0x85, 0xc0, 0xa8, 0xe2, 0xa4, 0x5e, 0xef, 0xf9, 0x8a, 0x10, 0xb6, 0x03, 0x7f,
            0x70, 0xda, 0xf7, 0x14, 0xb7, 0xcf,
        ],
        seq![
            0xeau8, 0xd6, 0x50, 0xe6, 0x73, 0xf4, 0x97, 0xcd, 0xbe, 0x36, 0x5f, 0x7a, 0x85, 0x52,
            0x73, 0xbb, 0xb4, 0x68, 0xe4, 0x54,
        ],
    ]
}

/// The Stargate strategies that the daily report covers, in the order of the
/// report.
pub fn stargate_strategy_addresses() -> (addresses: Vec<Address>)
    ensures
        addresses@.len() == daily_strategies().len(),
        forall|i: int|
            0 <= i < addresses@.len() ==> (#[trigger] addresses@[i]).bytes@
                == daily_strategies()[i],
{
    let mut addresses: Vec<Address> = Vec::new();
    addresses.push(
        Address {
            bytes: [
                0x7c, 0x85, 0xc0, 0xa8, 0xe2, 0xa4, 0x5e, 0xef, 0xf9, 0x8a, 0x10, 0xb6, 0x03, 0x7f,
                0x70, 0xda, 0xf7, 0x14, 0xb7, 0xcf,
            ],
        },
    );
    addresses.push(
        Address {
            bytes: [
                0xea, 0xd6, 0x50, 0xe6, 0x73, 0xf4, 0x97, 0xcd, 0xbe, 0x36, 0x5f, 0x7a, 0x85, 0x52,
                0x73, 0xbb, 0xb4, 0x68, 0xe4, 0x54,
            ],
        },
    );
    assert(addresses@[0].bytes@ =~= daily_strategies()[0]);
    assert(addresses@[1].bytes@ =~= daily_strategies()[1]);
    addresses
}

/// The two credentials of a run.
#[derive(Clone, Debug, PartialEq, Eq)]
pub struct Configuration {
    pub telegram_token: String,
    pub infura_api_key: String,
}

impl Configuration {
    /// The configuration of a run for which both credentials were found. A
    /// credential that is missing is an error, the messaging token before the
    /// data provider's key.
    pub fn new(telegram_token: Option<String>, infura_api_key: Option<String>) -> (r: Result<
        Configuration,
        ReportError,
    >)
        ensures
            r is Ok <==> telegram_token is Some && infura_api_key is Some,
            r matches Ok(configuration) ==> configuration.telegram_token == telegram_token->Some_0
                && configuration.infura_api_key == infura_api_key->Some_0,
            r matches Err(error) ==> error == (ReportError::ConfigurationError {
                missing: if telegram_token is None {
                    Credential::MessagingToken
                } else {
                    Credential::DataProviderKey
                },
            }),
    {
        match telegram_token {
            None => Err(ReportError::ConfigurationError { missing: Credential::MessagingToken }),
            Some(telegram_token) => match infura_api_key {
                None => Err(
                    ReportError::ConfigurationError { missing: Credential::DataProviderKey },
                ),
                Some(infura_api_key) => Ok(Configuration { telegram_token, infura_api_key }),
            },
        }
    }
}

} // verus!
