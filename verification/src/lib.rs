//! Resource links of a web page.
//!
//! The library takes the text of an HTML page and the address the page was
//! fetched from, resolves every `href` and `src` it finds against that
//! address, and keeps the links whose path ends in one of a caller-chosen set
//! of file extensions. It also derives the local path under which such a
//! resource is stored.
//!
//! HTML parsing and URL resolution are done by the `scraper` and `url` crates;
//! everything decided on top of their results is verified.

pub mod destination;
pub mod error;
pub mod extension;
pub mod extract;
pub mod markup;
pub mod resolve;
pub mod text;

pub use destination::{construct_file_path, download_destination, extract_filename_from_url};
pub use error::{DestinationError, ExtractError};
pub use extract::{extract_file_urls, extract_urls_from_html, filter_urls_by_extension};
pub use resolve::ResolvedUrl;
