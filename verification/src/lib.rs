pub mod device;
pub mod discover;
pub mod handshake;
pub mod input;
pub mod json;
pub mod message;
pub mod output;
pub mod pattern;
pub mod ring;
pub mod session;
pub mod status;
pub mod stream;
pub mod text;
pub mod tray;
pub mod wire;
