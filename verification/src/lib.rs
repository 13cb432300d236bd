//! A request-routing gateway core for fronting several independent
//! conversational backends ("chatbots") through one uniform interface.
//!
//! The crate provides three pieces:
//! - the adapter contract ([`adapter::ChatbotAdapter`]): one operation that
//!   turns input text into a response or an error, under a deadline;
//! - a registry of named adapters ([`registry::Registry`]) with
//!   add / remove / replace / lookup / list operations;
//! - a dispatcher ([`dispatch::IntegratorCore`]) that resolves a request's
//!   target against the registry, invokes the chosen adapter(s), and
//!   aggregates the outcomes deterministically.
//!
//! Network transport and task scheduling live outside this crate; the core
//! deals only in request and result values.

pub mod adapter;
pub mod dispatch;
pub mod errors;
pub mod registry;
