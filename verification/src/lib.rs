pub mod bytes;
pub mod cache;
pub mod chat;
pub mod config;
pub mod draw;
pub mod dsml;
pub mod eight;
pub mod encoding;
pub mod engine;
pub mod generate;
pub mod gguf;
pub mod http;
pub mod json;
pub mod kernels;
pub mod laws;
pub mod memory;
pub mod metal;
pub mod number;
pub mod options;
pub mod payload;
pub mod printer;
pub mod prompt;
pub mod readback;
pub mod repl;
pub mod report;
pub mod request;
pub mod respond;
pub mod sampling;
pub mod serve;
pub mod session;
pub mod single;
pub mod stream;
pub mod streamed;
pub mod text;
pub mod tokenizer;
pub mod types;
pub mod weights;
