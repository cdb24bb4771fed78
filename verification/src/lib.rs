//! Rules of a multiplayer rhythm-game service: the wire protocol, the rooms,
//! the sessions, the bans and the replay files, each with a proved contract.

pub mod admin;
pub mod auth;
pub mod ban;
pub mod bin;
pub mod buffer;
pub mod client;
pub mod command;
pub mod frame;
pub mod hub;
pub mod keys;
pub mod laws;
pub mod moderation;
pub mod order;
pub mod playback;
pub mod players;
pub mod presence;
pub mod replay;
pub mod resolver;
pub mod room;
pub mod seats;
pub mod server;
pub mod session;
pub mod stats;
pub mod stream;
pub mod table;
pub mod text;
pub mod tidy;
pub mod upkeep;
pub mod world;
