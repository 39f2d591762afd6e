pub mod transform;
pub mod validation;
pub mod logging;
pub mod metrics;
pub mod notification;
