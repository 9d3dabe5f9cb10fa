//! A verified client-side library for driving a headless Slay the Spire 2 simulator:
//! the command/state protocol, a scripted mock simulator, the reader of the game's
//! PCK archives, and the pure parts of the game logger and the HTTP bridge.
pub mod protocol;
pub mod pck;
pub mod driver;
pub mod logger;
pub mod bridge;
pub mod json_text;
