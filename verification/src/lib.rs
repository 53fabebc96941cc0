//! The pure core of a coding agent's model client: what is sent to a model, what its replies
//! mean, when a request is repeated, and how a connection goes through a proxy.
pub mod anthropic;
pub mod error;
pub mod exchange;
pub mod gemini;
pub mod json;
pub mod jwt;
pub mod laws;
pub mod message;
pub mod openai;
pub mod proxy;
pub mod sequence;
pub mod settings;
pub mod text;
