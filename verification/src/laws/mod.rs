//! Laws: what the parts of the library are held to, stated on what goes in and comes out.
pub mod tokens;
pub mod pieces;
pub mod drawing;
pub mod generation;
pub mod answers;
pub mod conversation;
pub mod asking;
pub mod chatting;
pub mod sessions;
pub mod texts;
pub mod wire;
pub mod streaming;
pub mod calling;
pub mod files;
pub mod models;
pub mod tensors;
pub mod commands;
pub mod prompting;
pub mod numbers;
pub mod products;
pub mod saving;
pub mod reports;
pub mod devices;
pub mod forms;
