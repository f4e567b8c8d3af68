//! Framework for a chat-platform interaction endpoint: request authentication,
//! a compact state token carried in component identifiers, packing of rendered
//! content into size-limited blocks, and routing of interactions to handlers.
pub mod auth;
pub mod bookmark;
pub mod buttons;
pub mod color;
pub mod dispatch;
pub mod help;
pub mod links;
pub mod packer;
pub mod token;
