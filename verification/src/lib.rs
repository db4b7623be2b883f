pub mod text;
pub mod protocol;
pub mod frame;
pub mod relay;
pub mod tables;
pub mod relay_laws;
pub mod events;
pub mod lan;
pub use events::{GameInfo, ProxyEvent};
pub mod client;
pub mod debug_http;
pub mod client_laws;
