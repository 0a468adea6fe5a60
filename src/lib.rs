//! Retrieval and local caching of standards documents: published RFCs,
//! identified by number, and Internet-Drafts, identified by name.
pub mod cache;
pub mod error;
pub mod fetcher;
pub mod model;

pub use cache::CacheManager;
pub use error::{Failure, RfcError};
pub use fetcher::{DocumentFetcher, FetchAction, FetchState, MetadataReply};
pub use model::{DocumentId, DocumentType, Format};
