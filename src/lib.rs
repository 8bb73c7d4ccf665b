//! Subscription management core: validation of subscriber input, the
//! subscription pipeline, token confirmation and newsletter fan-out.
pub mod domain;
pub mod email;
pub mod token;
pub mod store;
pub mod subscriptions;
pub mod confirmation;
pub mod newsletter;
pub mod authentication;
pub mod configuration;
