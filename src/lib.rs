//! Authentication and ownership core of a personal-finance record keeper: salted password
//! credentials, signed session tokens, the request authenticator and the ownership gate.
pub mod hex;
pub mod hasher;
pub mod credential;
pub mod decimal;
pub mod user;
pub mod token;
pub mod ownership;
pub mod store;
pub mod authenticator;
pub mod session;
