//! The decisions of a caching search proxy: what a request means, under which key its answer is
//! kept, what is sent upstream, and what a client is told.

pub mod answer_laws;
pub mod cache;
pub mod config;
pub mod config_laws;
pub mod handlers;
pub mod hash;
pub mod json;
pub mod json_code;
pub mod json_laws;
pub mod key;
pub mod key_laws;
pub mod model;
pub mod number;
pub mod order;
pub mod parallel;
pub mod payload;
pub mod payload_laws;
pub mod query;
pub mod query_laws;
pub mod reply;
pub mod request_laws;
pub mod response;
pub mod text;
pub mod text_laws;
pub mod view_laws;
