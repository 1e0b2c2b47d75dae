//! Networking and game logic of a small online guessing game: the length
//! prefixed, checksummed framing of packets, the FlatBuffers encoding of the
//! messages, and the decisions that the server and the client take.

pub mod structures;
pub mod framing;
pub mod flatbuf;
pub mod serialization;
pub mod text;
pub mod chance;
pub mod server;
pub mod client;
pub mod client_networking;
pub mod send_game_score_table;
pub mod unpack;
