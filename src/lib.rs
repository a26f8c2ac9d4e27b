//! Pub/sub actor framework for brewery control loops: the message-bus client
//! contract, actors that drive hardware outputs, hysteresis controllers and the
//! supervisor that starts, swaps and stops them.
pub mod logger;
pub mod pub_sub;
pub mod sensor;
pub mod actor;
pub mod control;
pub mod brewery;
pub mod api;
pub mod hardware;
pub mod supervisor;
pub mod codec;
