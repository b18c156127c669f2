//! A crawler for comic (manga) reading sites: link discovery, page
//! classification and the extraction of comic and chapter data.
pub mod text;
pub mod types;
pub mod db;
pub mod dom;
pub mod pattern;
pub mod modules;
pub mod util;
