//! Access layer for the local game client's HTTPS API: credential discovery
//! from the client's lockfile, an authenticated session client, and the fixed
//! set of endpoint operations built on it.
pub mod text;
pub mod lockfile;
pub mod request;
pub mod endpoints;
pub mod presence;
