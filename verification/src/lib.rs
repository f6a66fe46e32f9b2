//! A minimal in-memory file-sharing backend.
//!
//! Callers register a profile under their caller identity, reserve a file
//! identifier together with a shareable alias via a file request, attach
//! binary content to the identifier, and resolve the alias or identifier
//! back to metadata or content.

pub mod alias;
pub mod counter;
pub mod identity;
pub mod service;
pub mod store;

pub use service::Service;

pub use alias::get_file_alias;
pub use alias::AliasIndex;

pub use counter::FileCounter;
pub use identity::greeting;
pub use identity::IdentityRegistry;
pub use identity::User;
pub use identity::WhoamiResponse;
pub use store::FileData;
pub use store::FileMetadata;
pub use store::FileStore;
