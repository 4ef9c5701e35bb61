//! Command-line facing types.
//!
//! These are the bare shapes of the command line: the front end fills them
//! in and `to_finder_config` turns them into a crawl configuration, with
//! the posts target carrying the category and tag exclusions.

use vstd::prelude::*;

use crate::config::FinderConfig;
use crate::config::FinderTarget;
use crate::config::TargetView;
use crate::config::opt_view;
use crate::query::copy_ids;
use crate::query::copy_opt;

verus! {

/// The command line of the finder front end.
#[derive(Debug)]
pub struct Opt {
    /// The site's base address.
    pub url: String,
    /// Keep only results published before this date.
    pub before: Option<String>,
    /// Keep only results modified before this date.
    pub modified_before: Option<String>,
    /// Keep only results published after this date.
    pub after: Option<String>,
    /// Keep only results modified after this date.
    pub modified_after: Option<String>,
    /// Identifiers to leave out of the result set.
    pub exclude: Vec<u16>,
    /// Category identifiers to leave out.
    pub categories_exclude: Vec<u16>,
    /// Tag identifiers to leave out.
    pub tags_exclude: Vec<u16>,
}

impl Opt {
    /// The finder configuration these options select: a posts target
    /// carrying the category and tag exclusions, with every filter copied
    /// over.
    pub fn to_finder_config(&self) -> (r: FinderConfig)
        ensures
            r@.url == self.url@,
            r@.target == (TargetView::Posts {
                categories_exclude: self.categories_exclude@,
                tags_exclude: self.tags_exclude@,
            }),
            r@.before == opt_view(self.before),
            r@.modified_before == opt_view(self.modified_before),
            r@.after == opt_view(self.after),
            r@.modified_after == opt_view(self.modified_after),
            r@.exclude == self.exclude@,
    {
        FinderConfig {
            url: self.url.clone(),
            target: FinderTarget::Posts {
                categories_exclude: copy_ids(&self.categories_exclude),
                tags_exclude: copy_ids(&self.tags_exclude),
            },
            before: copy_opt(&self.before),
            modified_before: copy_opt(&self.modified_before),
            after: copy_opt(&self.after),
            modified_after: copy_opt(&self.modified_after),
            exclude: copy_ids(&self.exclude),
        }
    }
}

/// The searching mode of the crawl front end.
#[derive(Copy, Clone, PartialEq, Eq, PartialOrd, Ord, Debug)]
pub enum Mode {
    /// Fetch from posts only.
    Fast,
    /// Fetch from both posts and media.
    Slow,
}

/// The command line of the crawl front end.
#[derive(Debug)]
pub struct Cli {
    /// The site's base address.
    pub url: String,
    /// The searching mode.
    pub mode: Mode,
    /// Keep only results published before this date.
    pub before: Option<String>,
    /// Keep only results modified before this date.
    pub modified_before: Option<String>,
    /// Keep only results published after this date.
    pub after: Option<String>,
    /// Keep only results modified after this date.
    pub modified_after: Option<String>,
    /// Identifiers to leave out of the result set.
    pub exclude: Vec<u16>,
    /// Category identifiers to leave out.
    pub categories_exclude: Vec<u16>,
    /// Tag identifiers to leave out.
    pub tags_exclude: Vec<u16>,
}

} // verus!
