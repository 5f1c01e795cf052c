//! The logic of the portal's game-server agent: what it asks the game server
//! over RCON, what it tells the portal, and how the two are connected.
pub mod command;
pub mod connect;
pub mod enroll;
pub mod execution;
pub mod heartbeat;
pub mod protocol;
pub mod rcon;
pub mod refusal;
pub mod run;
pub mod text;
pub mod tls;
