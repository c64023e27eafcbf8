//! The logic of a chat-driven media download pipeline, verified.
//!
//! The library decides and computes; it performs no input or output. Its
//! core is the restructure engine, which plans and carries out the filing of
//! downloaded media: `restructure`. Around it stand the decisions taken for
//! the indexer (`jackett`), the download client (`transmission`) and the chat
//! (`telegram`), and the text, path and ordering functions they all rest on.

pub mod text;
pub mod paths;
pub mod words;
pub mod order;
pub mod sizes;
pub mod encoding;
pub mod jackett;
pub mod transmission;
pub mod telegram;
pub mod restructure;
