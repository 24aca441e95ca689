//! The decision logic of a notification service: a worker that takes
//! notification requests off a queue and sends them out, and the rules of the
//! user API that stands beside it.
//!
//! Nothing here reads or writes anything. The worker is a state machine
//! ([`consumer`]) that hands commands to whoever drives it: archive the raw
//! payload ([`store`]), decode it ([`message`]), issue a one-time code where
//! one is asked for ([`otp`]), send the content to each destination
//! ([`router`], [`command`]), acknowledge. What holds of every delivery from
//! its arrival to its acknowledgement is proved in [`lifecycle`].
//!
//! The user API gets the SQL of its queries ([`user_queries`]), the wording
//! of validation errors ([`validation`]) and its answers to failed requests
//! ([`replies`]); [`models`] holds its plain data, and [`decimal`] and
//! [`text`] the handling of numbers and characters that both sides share.

pub mod command;
pub mod consumer;
pub mod decimal;
pub mod lifecycle;
pub mod message;
pub mod models;
pub mod otp;
pub mod replies;
pub mod router;
pub mod store;
pub mod text;
pub mod user_queries;
pub mod validation;
