pub mod auth;
pub mod error;
pub mod headers;
pub mod keys;
pub mod proxy;
pub mod text;
pub mod token_cache;
pub mod upstream;
