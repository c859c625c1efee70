//! Daily health report on Stargate lending strategies.
//!
//! The library holds everything the report needs apart from the network. It
//! names the calls to make on chain and says what their replies mean
//! (`blockchain_client`), turns raw token amounts into whole units and takes
//! the ratio of two of them (`amount`), derives the metrics of one strategy
//! (`metric_deriver`), assembles the report of all strategies
//! (`report_creator`), renders it as a message (`report_publisher`) and builds
//! the request that delivers it (`telegram_client`). `pipeline` puts a whole
//! run together: whoever drives it makes the calls it names and hands back what
//! came of them.

pub mod amount;
pub mod blockchain_client;
pub mod configuration;
pub mod digits;
pub mod error;
pub mod metric_deriver;
pub mod pipeline;
pub mod report;
pub mod report_creator;
pub mod report_publisher;
pub mod telegram_client;
pub mod text;

pub use crate::report::{IndividualStrategyReport, StargateReport};
