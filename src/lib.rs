//! Throughput metering for a pool of workers that report task outcomes to a
//! single aggregator, which emits a snapshot each time a new whole second of
//! elapsed time has been crossed.

pub mod outcome;
pub mod tally;
pub mod report;
pub mod simulator;
