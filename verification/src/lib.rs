//! Risk-capped order execution for a swing-trading scanner: the hard caps, the order
//! pipeline, the daily state, the paper-trade simulator, the scheduler's decisions and the
//! request handling of the two servers.
//!
//! Every quantity that is not a count is a decimal with six places, held as an integer of
//! millionths: 1 dollar, 1 percent and 1 basis point are each 1_000_000.

pub mod agent;
pub mod api;
pub mod book;
pub mod book_laws;
pub mod broker;
pub mod catalog;
pub mod clock;
pub mod executor;
pub mod executor_laws;
pub mod fixed;
pub mod health;
pub mod ids;
pub mod json;
pub mod order;
pub mod prompts;
pub mod query;
pub mod risk;
pub mod rpc;
pub mod run_laws;
pub mod scheduler;
pub mod sim;
pub mod sim_laws;
pub mod state;
pub mod text;
pub mod text_laws;
