//! Device-side WiFi provisioning: credential records with secure erasure,
//! the persisted key layout and its write/read procedures, the provisioning
//! portal's form handling and session, and the decisions of the network join.
pub mod text;
pub mod form;
pub mod credentials;
pub mod storage;
pub mod join;
pub mod portal;
