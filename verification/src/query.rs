//! The query builder.
//!
//! A configuration turns into one listing URL: base address, the fixed API
//! prefix, the resource segment, a fixed page size, and then — only where
//! present or non-empty — the four date filters, the exclusion list, and for
//! posts an embed directive with the category and tag exclusion lists.  The
//! parameter order is a compatibility contract and `query_url` states it
//! exactly; both builders return precisely that string.

use vstd::prelude::*;
use vstd::string::StringExecFns;

use crate::config::Config;
use crate::config::ConfigView;
use crate::config::FinderConfig;
use crate::config::FinderTarget;
use crate::config::Target;
use crate::config::TargetView;
use crate::config::opt_view;
use crate::config::target_segment;
use crate::error::FinderError;
use crate::num::dec_list;
use crate::num::dec_list_string;

verus! {

/// An optional query parameter: `&name=value` when present, nothing when
/// absent.
pub open spec fn opt_param(name: Seq<char>, v: Option<Seq<char>>) -> Seq<char> {
    match v {
        Some(s) => "&"@ + name + "="@ + s,
        None => Seq::empty(),
    }
}

/// A list-valued query parameter: `&name=i1,i2,...` when the list is
/// non-empty, nothing when it is empty.
pub open spec fn ids_param(name: Seq<char>, ids: Seq<u16>) -> Seq<char> {
    if ids.len() == 0 {
        Seq::empty()
    } else {
        "&"@ + name + "="@ + dec_list(ids)
    }
}

/// The trailing parameters a posts target adds: the embed directive and the
/// category and tag exclusion lists.
pub open spec fn target_params(t: TargetView) -> Seq<char> {
    match t {
        TargetView::Posts { categories_exclude, tags_exclude } => "&_embed=wp:featuredmedia"@
            + ids_param("categories_exclude"@, categories_exclude)
            + ids_param("tags_exclude"@, tags_exclude),
        TargetView::Media => Seq::empty(),
    }
}

/// The complete listing URL a configuration selects.  The parameter order —
/// page size, `before`, `modified_before`, `after`, `modified_after`,
/// `exclude`, then the posts-only parameters — is fixed.
pub open spec fn query_url(c: ConfigView) -> Seq<char> {
    c.url + "/wp-json/wp/v2/"@ + target_segment(c.target) + "?per_page=100"@ + opt_param(
        "before"@,
        c.before,
    ) + opt_param("modified_before"@, c.modified_before) + opt_param("after"@, c.after)
        + opt_param("modified_after"@, c.modified_after) + ids_param("exclude"@, c.exclude)
        + target_params(c.target)
}

fn append_opt(s: &mut String, name: &str, v: &Option<String>)
    ensures
        final(s)@ == old(s)@ + opt_param(name@, opt_view(*v)),
{
    match v {
        Some(value) => {
            s.append("&");
            s.append(name);
            s.append("=");
            s.append(value.as_str());
            assert(s@ =~= old(s)@ + opt_param(name@, opt_view(*v)));
        },
        None => {
            assert(s@ =~= old(s)@ + opt_param(name@, opt_view(*v)));
        },
    }
}

fn append_ids(s: &mut String, name: &str, ids: &Vec<u16>)
    ensures
        final(s)@ == old(s)@ + ids_param(name@, ids@),
{
    if ids.len() > 0 {
        s.append("&");
        s.append(name);
        s.append("=");
        let list = dec_list_string(ids);
        s.append(list.as_str());
    }
    assert(s@ =~= old(s)@ + ids_param(name@, ids@));
}

/// Builds the listing URL for a plain configuration.  An empty base address
/// is not rejected here; `build_url_from_config` is the guarded form.
pub fn build(config: &Config) -> (r: String)
    ensures
        r@ == query_url(config@),
{
    let mut s = config.url.clone();
    s.append("/wp-json/wp/v2/");
    s.append(config.target.value());
    s.append("?per_page=100");
    append_opt(&mut s, "before", &config.before);
    append_opt(&mut s, "modified_before", &config.modified_before);
    append_opt(&mut s, "after", &config.after);
    append_opt(&mut s, "modified_after", &config.modified_after);
    append_ids(&mut s, "exclude", &config.exclude);
    match &config.target {
        Target::Posts { categories_exclude, tags_exclude } => {
            s.append("&_embed=wp:featuredmedia");
            append_ids(&mut s, "categories_exclude", categories_exclude);
            append_ids(&mut s, "tags_exclude", tags_exclude);
        },
        Target::Media => {},
    }
    assert(s@ =~= query_url(config@));
    s
}

pub(crate) fn copy_ids(ids: &Vec<u16>) -> (r: Vec<u16>)
    ensures
        r@ == ids@,
{
    let mut r: Vec<u16> = Vec::new();
    let mut i: usize = 0;
    while i < ids.len()
        invariant
            i <= ids.len(),
            r@ == ids@.take(i as int),
        decreases ids.len() - i,
    {
        r.push(ids[i]);
        i += 1;
        assert(r@ =~= ids@.take(i as int));
    }
    assert(ids@.take(ids.len() as int) =~= ids@);
    r
}

pub(crate) fn copy_opt(v: &Option<String>) -> (r: Option<String>)
    ensures
        opt_view(r) == opt_view(*v),
{
    match v {
        Some(s) => Some(s.clone()),
        None => None,
    }
}

impl FinderConfig {
    /// The same configuration in its plain form.
    pub fn to_config(&self) -> (r: Config)
        ensures
            r@ == self@,
    {
        let target = match &self.target {
            FinderTarget::Posts { categories_exclude, tags_exclude } => Target::Posts {
                categories_exclude: copy_ids(categories_exclude),
                tags_exclude: copy_ids(tags_exclude),
            },
            FinderTarget::Media => Target::Media,
        };
        Config {
            url: self.url.clone(),
            target,
            before: copy_opt(&self.before),
            modified_before: copy_opt(&self.modified_before),
            after: copy_opt(&self.after),
            modified_after: copy_opt(&self.modified_after),
            exclude: copy_ids(&self.exclude),
        }
    }
}

/// Builds the listing URL for a finder configuration, or fails when the
/// base address is empty.  Failure is decided by the base address alone, so
/// a rejected configuration causes no request.
pub fn build_url_from_config(config: &FinderConfig) -> (r: Result<String, FinderError>)
    ensures
        r is Err <==> config@.url.len() == 0,
        r matches Ok(u) ==> u@ == query_url(config@),
        r matches Err(e) ==> e == FinderError::Configuration,
{
    if config.url.as_str().is_empty() {
        Err(FinderError::Configuration)
    } else {
        Ok(build(&config.to_config()))
    }
}

} // verus!
