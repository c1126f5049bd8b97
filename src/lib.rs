//! MFA enrollment for a podcast web client: TOTP secrets, provisioning URIs and their QR
//! codes, one-time-code checks, the setup dialog's state machine, and the client-side state
//! stores with the HTML cleaning that episode lists use.
pub mod enrollment;
pub mod html;
pub mod provisioning;
pub mod secret;
pub mod store;
pub mod totp;
