//! Broker-interoperability layer: endpoint normalisation, the message
//! identifier codec, message materialisation and the bounded read window.

pub mod bindings;
pub mod consume;
pub mod decimal;
pub mod diagnostics;
pub mod endpoint;
pub mod message_id;
pub mod record;
pub mod text;
