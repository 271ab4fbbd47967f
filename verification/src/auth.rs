//! Credentials, the providers that give them, and what is shown of them.
pub mod callback;
pub mod commands;
pub mod credential;
pub mod dispatcher;
pub mod encoding;
pub mod pkce;
pub mod scopes;
pub mod storage;
