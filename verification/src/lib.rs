//! An open CORS proxy library: the request-translation and forwarding rules
//! of a reverse proxy that reads the destination URL out of the request path,
//! rewrites the request to match it, and annotates every response with a
//! maximally permissive CORS policy.

pub mod bind;
pub mod cors;
pub mod laws;
pub mod proxy;
pub mod request;
pub mod translate;
