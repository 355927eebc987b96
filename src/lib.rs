//! Connectivity logic for a sensor node: form decoding for the provisioning
//! page, the credential hand-off, the connectivity supervisor and the
//! telemetry payload.
pub mod form;
pub mod provisioning;
pub mod supervisor;
pub mod telemetry;

pub use form::url_decode;
