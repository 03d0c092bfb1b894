//! Core of a message-driven worker runtime for a job-orchestration platform.
//!
//! Workers are long-lived services that receive job orders, execute
//! user-supplied processing logic, report progression, and acknowledge
//! results. This crate owns the job model, the worker configuration, the
//! message-exchange abstraction and the order-driven processor state machine;
//! transport and environment concerns live with the embedding binary.

pub mod clock;
pub mod codec;
pub mod error;
pub mod job;
pub mod message_exchange;
pub mod processor;
pub mod worker;
