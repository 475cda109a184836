//! Game server core: bit-packed value codecs, message framing, and the
//! lobby/room/session state machine that the network layer drives.

pub mod bytes;
pub mod character;
pub mod item;
pub mod appearance;
pub mod fields;
pub mod packet;
pub mod frame;
pub mod lobby;
pub mod user;
pub mod login;
pub mod server;
pub mod game;
pub mod report;
pub mod record;
pub mod shop;
pub mod connection;
pub mod text;
