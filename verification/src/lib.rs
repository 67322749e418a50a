//! A freelance marketplace core: clients post jobs, freelancers bid on them,
//! one bid is accepted per job, and the two parties then talk over a chat
//! that belongs to the job until it is completed or disputed.
//!
//! Every operation is a method of [`Marketplace`](market::Marketplace) whose
//! contract is stated over the mathematical model in [`model`] and the
//! rules in [`rules`]. What holds of every store that operations can lead
//! to is proved in [`laws`], over the histories of [`history`].
//!
//! Beside the marketplace stand the bounded security event log
//! ([`events`]), the names and log entries of cross-chain transfers
//! ([`transfer`]) and the query statistics ([`queries`]).

pub mod decimal;
pub mod error;
pub mod events;
pub mod history;
pub mod laws;
pub mod limits;
pub mod market;
pub mod model;
pub mod queries;
pub mod records;
pub mod rules;
pub mod status;
pub mod text;
pub mod transfer;
