//! Chat aggregation for live streams: each chat platform's messages are
//! read, turned into one common chat message, and published to a topic
//! exchange of a message broker, from which a chat window takes them.
//!
//! - `chat_objects`: the common chat message and its emotes.
//! - `message_client`: the broker client's state, its opening protocol,
//!   and the broker callbacks' effect on the registered clients.
//! - `config`, `string_map`: the settings store of an ingest program.
//! - `vstream`, `cbor`: VStream chat events, read from CBOR items.
//! - `twitch`, `trovo`, `youtube`: the other platforms' chat lines.
//! - `text`: character-level text operations.

pub mod cbor;
pub mod chat_objects;
pub mod config;
pub mod message_client;
pub mod string_map;
pub mod text;
pub mod trovo;
pub mod twitch;
pub mod vstream;
pub mod youtube;
