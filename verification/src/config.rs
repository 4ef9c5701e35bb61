//! Crawl configurations.
//!
//! A configuration names the site's base address, the listing resource to
//! walk (posts, with optional category and tag exclusions, or media), four
//! optional date filters and a list of identifiers to exclude.  `Config` is
//! the plain form used by the crawl entry point; `FinderConfig` is the same
//! data with a `Default`, as the command-line front end builds it.  Both
//! share one mathematical view, `ConfigView`, which the query contracts are
//! written over.

use vstd::prelude::*;

verus! {

/// The mathematical view of a listing target.
pub ghost enum TargetView {
    Posts { categories_exclude: Seq<u16>, tags_exclude: Seq<u16> },
    Media,
}

/// The mathematical view of a configuration.
pub ghost struct ConfigView {
    pub url: Seq<char>,
    pub target: TargetView,
    pub before: Option<Seq<char>>,
    pub modified_before: Option<Seq<char>>,
    pub after: Option<Seq<char>>,
    pub modified_after: Option<Seq<char>>,
    pub exclude: Seq<u16>,
}

/// The resource path segment a target selects.
pub open spec fn target_segment(t: TargetView) -> Seq<char> {
    match t {
        TargetView::Posts { .. } => "posts"@,
        TargetView::Media => "media"@,
    }
}

/// The view of an optional date filter.
pub open spec fn opt_view(o: Option<String>) -> Option<Seq<char>> {
    match o {
        Some(s) => Some(s@),
        None => None,
    }
}

/// Which listing resource a crawl walks.
#[derive(Debug)]
pub enum Target {
    /// Posts, leaving out the given category and tag identifiers.
    Posts { categories_exclude: Vec<u16>, tags_exclude: Vec<u16> },
    /// Media items.
    Media,
}

impl View for Target {
    type V = TargetView;

    open spec fn view(&self) -> TargetView {
        match self {
            Target::Posts { categories_exclude, tags_exclude } => TargetView::Posts {
                categories_exclude: categories_exclude@,
                tags_exclude: tags_exclude@,
            },
            Target::Media => TargetView::Media,
        }
    }
}

impl Target {
    /// The resource path segment this target selects.
    pub fn value(&self) -> (r: &'static str)
        ensures
            r@ == target_segment(self@),
    {
        match self {
            Target::Posts { .. } => "posts",
            Target::Media => "media",
        }
    }
}

/// A crawl configuration in its plain form.
#[derive(Debug)]
pub struct Config {
    /// The site's base address; must be non-empty before a query can be
    /// built.
    pub url: String,
    /// The listing resource to walk.
    pub target: Target,
    /// Keep only results published before this date.
    pub before: Option<String>,
    /// Keep only results modified before this date.
    pub modified_before: Option<String>,
    /// Keep only results published after this date.
    pub after: Option<String>,
    /// Keep only results modified after this date.
    pub modified_after: Option<String>,
    /// Identifiers to leave out of the result set.
    pub exclude: Vec<u16>,
}

impl View for Config {
    type V = ConfigView;

    open spec fn view(&self) -> ConfigView {
        ConfigView {
            url: self.url@,
            target: self.target@,
            before: opt_view(self.before),
            modified_before: opt_view(self.modified_before),
            after: opt_view(self.after),
            modified_after: opt_view(self.modified_after),
            exclude: self.exclude@,
        }
    }
}

/// Which listing resource the finder walks.
#[derive(Debug, PartialEq)]
pub enum FinderTarget {
    /// Media items.
    Media,
    /// Posts, leaving out the given category and tag identifiers.
    Posts { categories_exclude: Vec<u16>, tags_exclude: Vec<u16> },
}

impl View for FinderTarget {
    type V = TargetView;

    open spec fn view(&self) -> TargetView {
        match self {
            FinderTarget::Posts { categories_exclude, tags_exclude } => TargetView::Posts {
                categories_exclude: categories_exclude@,
                tags_exclude: tags_exclude@,
            },
            FinderTarget::Media => TargetView::Media,
        }
    }
}

/// A finder configuration, as the command-line front end hands it over.
#[derive(Debug)]
pub struct FinderConfig {
    /// The site's base address; must be non-empty before a query can be
    /// built.
    pub url: String,
    /// The listing resource to walk.
    pub target: FinderTarget,
    /// Keep only results published before this date.
    pub before: Option<String>,
    /// Keep only results modified before this date.
    pub modified_before: Option<String>,
    /// Keep only results published after this date.
    pub after: Option<String>,
    /// Keep only results modified after this date.
    pub modified_after: Option<String>,
    /// Identifiers to leave out of the result set.
    pub exclude: Vec<u16>,
}

impl View for FinderConfig {
    type V = ConfigView;

    open spec fn view(&self) -> ConfigView {
        ConfigView {
            url: self.url@,
            target: self.target@,
            before: opt_view(self.before),
            modified_before: opt_view(self.modified_before),
            after: opt_view(self.after),
            modified_after: opt_view(self.modified_after),
            exclude: self.exclude@,
        }
    }
}

impl Default for FinderTarget {
    /// The stock target: media items.
    fn default() -> (r: Self)
        ensures
            r@ == TargetView::Media,
    {
        FinderTarget::Media
    }
}

impl Default for FinderConfig {
    /// The empty configuration: no base address, media target, no filters.
    fn default() -> (r: Self)
        ensures
            r@.url.len() == 0,
            r@.target == TargetView::Media,
            r@.before is None,
            r@.modified_before is None,
            r@.after is None,
            r@.modified_after is None,
            r@.exclude.len() == 0,
    {
        FinderConfig {
            url: String::new(),
            target: FinderTarget::Media,
            before: None,
            modified_before: None,
            after: None,
            modified_after: None,
            exclude: Vec::new(),
        }
    }
}

} // verus!
