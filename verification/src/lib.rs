//! Language-sharded corpus writing.
//!
//! Text classified by language is gathered per shard and appended to one
//! writer per language. A writer cuts its output into parts of bounded size and
//! keeps, beside the text of each part, a stream of metadata records framed as
//! an array.

pub mod content_detector;
pub mod lang;
pub mod langfiles;
pub mod layout;
pub mod model;
pub mod naming;
pub mod pipeline;
pub mod record;
pub mod shard;
pub mod tag;
pub mod text;
pub mod writer;
