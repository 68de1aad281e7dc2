//! Conversion of a wallabag reading-list export into the karakeep bookmark
//! import format: per-record field extraction and validation, tag-set merging,
//! timestamp normalization, and fault-isolated batch serialization.

pub mod batch;
pub mod codec;
pub mod json;
pub mod record;

pub use batch::Diagnostic;
pub use batch::FatalError;
pub use batch::convert;
pub use batch::convert_batch;
pub use json::JsonValue;
pub use json::get_field;
pub use record::Bookmark;
pub use record::ConvertError;
pub use record::convert_item;
pub use record::union_tags;
