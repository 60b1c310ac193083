//! The logic of an auth-gated web service that is reached over a Tor onion address: who may see
//! what, what each request is answered, and how forms, cookies, passwords and sessions are read
//! and written.
//!
//! The service holds no socket and reads no file. [`server::handle`] decides about a request and
//! [`server::receive_login`] about a login form; both work on [`state::AppState`] and give back
//! plain [`response::Response`] values. What holds of the service as a whole is proved in
//! [`laws`], and what its forms, pages and texts hold in [`form_laws`], [`page_laws`] and
//! [`text_laws`].

pub mod args;
pub mod cookie;
pub mod credentials;
pub mod escape;
pub mod form;
pub mod form_laws;
pub mod laws;
pub mod page_laws;
pub mod pages;
pub mod response;
pub mod server;
pub mod state;
pub mod text;
pub mod text_laws;
