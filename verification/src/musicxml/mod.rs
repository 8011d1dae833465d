pub mod attributes;
pub mod barline;
pub mod directions;
pub mod document;
pub mod elements;
pub mod error;
pub mod fields;
pub mod header;
pub mod leaves;
pub mod notations;
pub mod part;
pub mod note;

pub use document::{parse_musicxml, score_from_root};
pub use error::MusicXmlError;
