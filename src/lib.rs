//! Account confirmation core: purpose-bound confirmation tokens, a
//! single-use invalidation store, the confirmation protocol and the
//! registration flow that drives them.
pub mod claims;

pub mod token;
pub mod store;
pub mod confirmation;
pub mod registration;
