//! Talking to language models: requests, streamed responses, and the wire
//! format of the OpenAI responses API.
pub mod openai;
pub mod types;
