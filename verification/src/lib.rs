//! The rules of a payment platform: money and accounts, the intake of
//! transactions, their processing, the outbox, and reports.
//!
//! Databases, queues and the network are not here. Where work on them and
//! decisions alternate, the library decides step by step: it names the next
//! action, and is told what came of it.
pub mod api;
pub mod audit;
pub mod carrying_out;
pub mod config;
pub mod consumer;
pub mod counter;
pub mod decimal;
pub mod domain;
pub mod error;
pub mod events;
pub mod fault;
pub mod fraud;
pub mod hexadecimal;
pub mod idempotency;
pub mod ident;
pub mod intake_trace;
pub mod ledger;
pub mod moment;
pub mod movement;
pub mod numbering;
pub mod processor;
pub mod relay;
pub mod reports;
pub mod submission;
pub mod text;
pub mod trace;
