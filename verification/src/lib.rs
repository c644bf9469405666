//! Ingestion core for a message-embedding pipeline: incoming messages are
//! classified as content or noise, content bodies are split into token-bounded
//! chunks, each chunk is embedded through an external service, and the
//! resulting records are written to an idempotent vector store.

pub mod chunk;
pub mod embed;
pub mod ingest;
pub mod message;
pub mod prompt_template;
pub mod store;
pub mod tokens;
pub mod words;
