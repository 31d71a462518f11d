//! Watches event-listing sites, detects newly published events, and announces
//! each exactly once to a notification channel, with no durable store of its
//! own: the "already announced" state is rebuilt on every resync by replaying
//! the channel's own message transcript.
pub mod adc;
pub mod common;
pub mod driving_sports;
pub mod scheduler;
pub mod text;
