//! Who a request comes from, and whether their account may sync.

pub mod entitlement;
pub mod guard;
pub mod rejection;
pub mod request;
