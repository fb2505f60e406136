//! Credential and session management core: authenticated encryption of
//! credentials, a document repository with a unique index on the stored
//! ciphertext, registration and login with domain error mapping, short-lived
//! signed bearer tokens, and a session store with sliding expiry.

pub mod api;
pub mod auth_session;
pub mod forms;
pub mod jwt;
pub mod mongo_crud;
pub mod mongo_models;
pub mod users;
pub mod utils;
