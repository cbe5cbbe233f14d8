pub mod client;
pub mod server;

pub use self::client::ClientEvent;
pub use self::server::ServerEvent;
