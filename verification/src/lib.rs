//! Bandwidth tracking: decides, from the tail of a measurement log, whether the
//! recent average throughput fell below what the operator expects.

pub mod alert;
pub mod args;
pub mod average;
pub mod date;
pub mod decimal;
pub mod log;
pub mod mail;
pub mod mean;
pub mod outcome;
pub mod run;
pub mod table;
pub mod text;
pub mod threshold;
