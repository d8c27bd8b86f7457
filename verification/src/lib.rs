//! An APT transport for license-gated package archives: the logic of the
//! method binary, and of the sign-in it runs when no license is at hand.

pub mod text;
pub mod headers;
pub mod protocol;
pub mod text_laws;
pub mod protocol_laws;
pub mod wire_laws;
pub mod codec;
pub mod codec_laws;
pub mod device_flow;
pub mod device_flow_laws;
pub mod sign_in_laws;
pub mod license_store;
pub mod license_store_laws;
pub mod method;
pub mod method_laws;
pub mod request_laws;
