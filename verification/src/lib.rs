//! Verified core of a flat-share (WG) search and application tool.
//!
//! The browser session, the files and the clock stay outside; this crate
//! holds what is decided and computed from what they deliver:
//! - `text`: trimming, prefix stripping, decimal numbers;
//! - `html`: queries on listing HTML (by `scraper`);
//! - `utils`, `search`, `apply`: listing prices and links, the page count,
//!   and the scripts that fill in the search and contact forms;
//! - `wg`, `scrape`: offers and the decisions taken while going through
//!   result pages;
//! - `csv_io`, `checkpoint`: the CSV record of offers applied for, and the
//!   links read back from it;
//! - `wg_zimmer`: the single-page overview and its CSV file.
pub mod apply;
pub mod checkpoint;
pub mod csv_io;
pub mod html;
pub mod scrape;
pub mod search;
pub mod text;
pub mod utils;
pub mod wg;
pub mod wg_zimmer;
