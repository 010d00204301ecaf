//! Listening together: the session logic of a Jam client.
pub mod backends;
pub mod binary64;
pub mod binarypack;
pub mod cli;
pub mod clock;
pub mod codec;
pub mod document;
pub mod jam;
pub mod json;
pub mod layout;
pub mod lookup;
pub mod messages;
pub mod peerjs;
pub mod player;
pub mod position;
pub mod speaking;
pub mod text;
pub mod trace;
pub mod track;
pub mod ui;
