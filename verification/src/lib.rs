//! A compact, cache-friendly string value with an embedded content prefix.
//!
//! `GermanString` stands in for a borrowed `(pointer, length)` string
//! reference inside large in-memory collections. Short content lives inline;
//! longer content lives in a single owned heap buffer, and the value keeps a
//! small copy of the leading bytes so that prefix queries can be answered
//! without touching the heap buffer at all.

mod bytes;
mod german;

pub use bytes::slice_starts_with;
pub use bytes::spec_starts_with;
pub use german::ConstructError;
pub use german::GermanString;
pub use german::lemma_prefix_decides;
pub use german::lemma_prefix_filter;
pub use german::spec_prefix;
pub use german::spec_prefix_len;
pub use german::PREFIX_LEN;
pub use german::SHORT_LEN;
