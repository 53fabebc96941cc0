//! Laws that relate several functions: what is sent to what is read, and parts to the whole.
pub mod anthropic;
pub mod exchange;
pub mod gemini;
pub mod json;
pub mod jwt;
pub mod openai;
pub mod proxy;
pub mod settings;
pub mod text;
pub mod views;
