//! A verified workbook writer: an in-memory spreadsheet model whose
//! serialization into a package of interrelated XML parts is proved
//! consistent - shared-string ids, style ids, relationship ids,
//! content-type declarations and part filenames all follow one
//! specification.  Markup emission and archive compression are
//! delegated to outside crates behind trusted, narrowly-specified
//! wrappers; everything else is verified.

pub mod cell;
pub mod column;
pub mod content_type;
pub mod error;
pub mod num_text;
pub mod numeric;
pub mod pack;
pub mod relation_ship;
pub mod row;
pub mod shared_string;
pub mod style;
pub mod tables;
pub mod work_book;
pub mod work_sheet;
pub mod xml;
