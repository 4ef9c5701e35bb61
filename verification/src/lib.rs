//! Crawl-and-resolve engine for discovering video files hosted by a
//! WordPress-style site through its paginated REST listing API.
//!
//! The library builds filtered listing queries, follows pagination links,
//! derives candidate media addresses from listing items through four
//! extraction strategies of decreasing reliability, and decides which
//! candidates a metadata probe has confirmed.  All network traffic is left
//! to the caller: the crawl itself is a step machine that names the next
//! request to make and consumes the response handed back.

pub mod args;
pub mod cascade;
pub mod config;
pub mod crawler;
pub mod dates;
pub mod error;
pub mod extract;
pub mod mime;
pub mod num;
pub mod page;
pub mod pattern;
pub mod query;
pub mod text;

pub use args::Cli;
pub use args::Mode;
pub use args::Opt;
pub use config::Config;
pub use config::FinderConfig;
pub use config::FinderTarget;
pub use config::Target;
pub use crawler::Action;
pub use crawler::Crawler;
pub use crawler::Event;
pub use error::FinderError;
pub use extract::ListingItem;
pub use mime::MimeEntry;
pub use mime::does_link_exist;
pub use mime::MimeRegistry;
pub use query::build;
pub use query::build_url_from_config;
