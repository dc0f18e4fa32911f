//! QuicFS: a directory served over HTTP/3, and mounted as a file system elsewhere.
//!
//! The library holds what the server and the client decide and compute. On the server: which
//! request is about which file ([`http`], [`routes`], [`fs`]), which bytes of it ([`range`]), how
//! bodies are cut into pieces and written ([`body`]), and what is answered ([`error`]). On the
//! client: the requests and what is made of the answers ([`request`]), and the inodes of the
//! mounted file system ([`client`]). What holds of the server stands in
//! [`server_laws`], of the client in [`client_laws`], and of both together in [`laws`].
//!
//! Files, sockets and the kernel are left to the program around the library. What the library has
//! from other crates stands in [`outside`].

pub mod body;
pub mod calendar;
pub mod client;
pub mod client_laws;
pub mod encoding;
pub mod error;
pub mod fs;
pub mod http;
pub mod json;
pub mod laws;
pub mod outside;
pub mod range;
pub mod request;
pub mod routes;
pub mod server_laws;
pub mod text;
pub mod types;
