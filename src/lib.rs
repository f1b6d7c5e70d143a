//! Maintenance of a sitemap document: a list of URL entries that is read
//! from and written back to sitemaps.org `urlset` XML.

pub mod text;
pub mod path;
pub mod entry;
pub mod reader;
pub mod sitemap;
pub mod session;
pub mod laws;
