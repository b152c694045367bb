//! An in-process wiki: an article store with full revision history, the
//! text-protocol router that exposes it, and the lightweight markup renderer
//! that turns stored text into hypertext.
//!
//! Every operation is specified against a mathematical model: the store as a
//! sequence of keys with their version histories, texts as character
//! sequences, and each handler's response as a function of the request and
//! the store's value. The transport loop around it lives outside the
//! library and only ever calls [`router::process_request`].
pub mod codec;
pub mod http;
pub mod laws;
pub mod render;
pub mod router;
pub mod store;
pub mod text;
