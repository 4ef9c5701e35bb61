//! Listing pages: the JSON body and the pagination header.
//!
//! A listing response carries a JSON array of items in its body and, while
//! more pages remain, a `link` header naming the next page.  Parsing JSON
//! is a function of the text alone, so the body's document and each parsed
//! value's tree carry names — `json_doc` and `json_view` — which the
//! trusted wrappers' contracts apply; on top of them, `page_items_of`
//! states exactly which items a body reduces to, and `parse_page` returns
//! exactly those.  The next-page address is parsed out of the header text
//! by `get_next_link_from_headers`, whose behaviour `next_link_spec`
//! states exactly.

use vstd::prelude::*;
use vstd::string::StrSliceExecFns;

use crate::config::opt_view;
use crate::error::FinderError;
use crate::extract::ItemView;
use crate::extract::ListingItem;
use crate::extract::item_views;
use crate::text::chars_of;
use crate::text::find_ch;
use crate::text::find_seq;
use crate::text::first_ch;
use crate::text::first_occurrence;
use crate::text::is_space;
use crate::text::last_ch_before;
use crate::text::rfind_ch_before;
use crate::text::space_check;

verus! {

/// The ghost shape of a JSON value, as far as the crawl reads one: a
/// scalar (null, boolean or number — never read further), a string, an
/// array, or an object mapping keys to members.
pub ghost enum JsonView {
    Scalar,
    Text(Seq<char>),
    Array(Seq<JsonView>),
    Object(Map<Seq<char>, JsonView>),
}

/// The document a text parses to, or nothing when it is not well-formed
/// JSON.  Parsing is a function of the text alone, so the result has a
/// name; the parse wrapper's contract applies it.
pub uninterp spec fn json_doc(s: Seq<char>) -> Option<JsonView>;

/// The tree a parsed JSON value holds.  The field wrappers' contracts
/// speak of their argument and result through this one name.
pub uninterp spec fn json_view(v: serde_json::Value) -> JsonView;

/// The member under a key, when the value is an object that has it.
pub open spec fn member(j: JsonView, key: Seq<char>) -> Option<JsonView> {
    match j {
        JsonView::Object(m) => if m.contains_key(key) {
            Some(m[key])
        } else {
            None
        },
        _ => None,
    }
}

/// The text under a key, when the value is an object whose member there
/// is a string.
pub open spec fn str_field(j: JsonView, key: Seq<char>) -> Option<Seq<char>> {
    match member(j, key) {
        Some(JsonView::Text(s)) => Some(s),
        _ => None,
    }
}

/// The text two keys deep, when both members are there and the inner one
/// is a string.
pub open spec fn nested_str_field(j: JsonView, key: Seq<char>, inner: Seq<char>) -> Option<
    Seq<char>,
> {
    match member(j, key) {
        Some(x) => str_field(x, inner),
        None => None,
    }
}

/// The source URLs of a featured-media array, in order, skipping entries
/// that carry none.
pub open spec fn media_urls_of(elems: Seq<JsonView>) -> Seq<Seq<char>>
    decreases elems.len(),
{
    if elems.len() == 0 {
        Seq::empty()
    } else {
        let rest = media_urls_of(elems.drop_last());
        match str_field(elems.last(), "source_url"@) {
            Some(u) => rest.push(u),
            None => rest,
        }
    }
}

/// The embedded featured-media source URLs of one listing record.
pub open spec fn featured_media_of(j: JsonView) -> Seq<Seq<char>> {
    match member(j, "_embedded"@) {
        Some(e) => match member(e, "wp:featuredmedia"@) {
            Some(JsonView::Array(elems)) => media_urls_of(elems),
            _ => Seq::empty(),
        },
        None => Seq::empty(),
    }
}

/// The item a listing record reduces to: the six fields the strategies
/// read, each absent when the record lacks it or holds it with another
/// type.
pub open spec fn item_view_of(j: JsonView) -> ItemView {
    ItemView {
        source_url: str_field(j, "source_url"@),
        featured_media: featured_media_of(j),
        content: nested_str_field(j, "content"@, "rendered"@),
        excerpt: nested_str_field(j, "excerpt"@, "rendered"@),
        link: str_field(j, "link"@),
        date: str_field(j, "date"@),
    }
}

/// The items a page body holds: the reduced elements of its JSON array,
/// or nothing when the body is not well-formed JSON or not an array.
pub open spec fn page_items_of(s: Seq<char>) -> Option<Seq<ItemView>> {
    match json_doc(s) {
        Some(JsonView::Array(elems)) => Some(elems.map_values(|e: JsonView| item_view_of(e))),
        _ => None,
    }
}

#[verifier::external_type_specification]
#[verifier::external_body]
pub struct ExValue(serde_json::Value);

/// Relies on serde_json::from_str: parses text as one JSON document, or
/// fails; the outcome is a function of the text alone.
#[verifier::external_body]
fn json_parse(s: &str) -> (r: Option<serde_json::Value>)
    ensures
        r is Some <==> json_doc(s@) is Some,
        r matches Some(v) ==> json_doc(s@) == Some(json_view(v)),
{
    serde_json::from_str(s).ok()
}

/// Relies on serde_json::Value::get: the member under a key, exactly when
/// this is an object that has it.
#[verifier::external_body]
fn json_get<'a>(v: &'a serde_json::Value, key: &str) -> (r: Option<&'a serde_json::Value>)
    ensures
        r is Some <==> member(json_view(*v), key@) is Some,
        r matches Some(x) ==> member(json_view(*v), key@) == Some(json_view(*x)),
{
    v.get(key)
}

/// Relies on serde_json::Value::as_str: the text, exactly when this is a
/// JSON string.
#[verifier::external_body]
fn json_as_str(v: &serde_json::Value) -> (r: Option<String>)
    ensures
        r is Some <==> json_view(*v) is Text,
        r matches Some(s) ==> json_view(*v) == JsonView::Text(s@),
{
    v.as_str().map(str::to_string)
}

/// Relies on serde_json::Value::as_array: the elements, exactly when this
/// is an array.
#[verifier::external_body]
fn json_as_array<'a>(v: &'a serde_json::Value) -> (r: Option<&'a Vec<serde_json::Value>>)
    ensures
        r is Some <==> json_view(*v) is Array,
        r matches Some(a) ==> (json_view(*v) matches JsonView::Array(elems) && elems.len()
            == a@.len() && (forall|i: int| 0 <= i < a@.len() ==> elems[i] == json_view(a@[i]))),
{
    v.as_array()
}

fn field_str(v: &serde_json::Value, key: &str) -> (r: Option<String>)
    ensures
        opt_view(r) == str_field(json_view(*v), key@),
{
    match json_get(v, key) {
        Some(x) => json_as_str(x),
        None => None,
    }
}

fn nested_str(v: &serde_json::Value, key: &str, inner: &str) -> (r: Option<String>)
    ensures
        opt_view(r) == nested_str_field(json_view(*v), key@, inner@),
{
    match json_get(v, key) {
        Some(x) => match json_get(x, inner) {
            Some(y) => json_as_str(y),
            None => None,
        },
        None => None,
    }
}

/// Reduces one listing record to the fields the strategies read, exactly
/// as `item_view_of` states.
#[verifier::loop_isolation(false)]
pub fn item_from_json(v: &serde_json::Value) -> (r: ListingItem)
    ensures
        r@ == item_view_of(json_view(*v)),
{
    let ghost j = json_view(*v);
    let mut featured_media: Vec<String> = Vec::new();
    match json_get(v, "_embedded") {
        Some(e) => match json_get(e, "wp:featuredmedia") {
            Some(fm) => match json_as_array(fm) {
                Some(arr) => {
                    let ghost elems = choose|elems: Seq<JsonView>|
                        json_view(*fm) == JsonView::Array(elems);
                    let mut i: usize = 0;
                    while i < arr.len()
                        invariant
                            i <= arr@.len(),
                            elems.len() == arr@.len(),
                            forall|k: int| 0 <= k < arr@.len() ==> elems[k] == json_view(arr@[k]),
                            crate::extract::string_views(featured_media@) == media_urls_of(
                                elems.take(i as int),
                            ),
                        decreases arr@.len() - i,
                    {
                        let got = field_str(&arr[i], "source_url");
                        proof {
                            assert(elems.take(i + 1).drop_last() =~= elems.take(i as int));
                            assert(elems.take(i + 1).last() == elems[i as int]);
                        }
                        match got {
                            Some(u) => {
                                featured_media.push(u);
                            },
                            None => {},
                        }
                        i += 1;
                        assert(crate::extract::string_views(featured_media@) =~= media_urls_of(
                            elems.take(i as int),
                        ));
                    }
                    proof {
                        assert(elems.take(arr@.len() as int) =~= elems);
                        assert(featured_media_of(j) == media_urls_of(elems));
                    }
                },
                None => {
                    assert(featured_media_of(j) =~= Seq::<Seq<char>>::empty());
                },
            },
            None => {
                assert(featured_media_of(j) =~= Seq::<Seq<char>>::empty());
            },
        },
        None => {
            assert(featured_media_of(j) =~= Seq::<Seq<char>>::empty());
        },
    }
    let r = ListingItem {
        source_url: field_str(v, "source_url"),
        featured_media,
        content: nested_str(v, "content", "rendered"),
        excerpt: nested_str(v, "excerpt", "rendered"),
        link: field_str(v, "link"),
        date: field_str(v, "date"),
    };
    proof {
        assert(r@.featured_media == item_view_of(j).featured_media);
    }
    r
}

/// Parses a page body as a JSON array of listing items: succeeds exactly
/// when the body parses as an array, and then returns exactly the reduced
/// items, in order.  Anything else is a protocol fault that aborts the
/// crawl.
#[verifier::loop_isolation(false)]
pub fn parse_page(body: &str) -> (r: Result<Vec<ListingItem>, FinderError>)
    ensures
        r is Ok <==> page_items_of(body@) is Some,
        r matches Ok(items) ==> page_items_of(body@) == Some(item_views(items@)),
        r matches Err(e) ==> e matches FinderError::Protocol(..),
{
    let v = match json_parse(body) {
        Some(v) => v,
        None => {
            return Err(FinderError::Protocol("Failed to parse response body as JSON".to_owned()));
        },
    };
    let arr = match json_as_array(&v) {
        Some(a) => a,
        None => {
            return Err(FinderError::Protocol("Response body is not a JSON array".to_owned()));
        },
    };
    let ghost elems = choose|elems: Seq<JsonView>| json_view(v) == JsonView::Array(elems);
    let ghost page = elems.map_values(|e: JsonView| item_view_of(e));
    assert(page_items_of(body@) == Some(page));
    let mut items: Vec<ListingItem> = Vec::new();
    let mut i: usize = 0;
    while i < arr.len()
        invariant
            i <= arr@.len(),
            elems.len() == arr@.len(),
            forall|k: int| 0 <= k < arr@.len() ==> elems[k] == json_view(arr@[k]),
            items@.len() == i,
            forall|k: int| 0 <= k < i ==> (#[trigger] items@[k])@ == item_view_of(elems[k]),
        decreases arr@.len() - i,
    {
        let item = item_from_json(&arr[i]);
        items.push(item);
        i += 1;
    }
    proof {
        assert(item_views(items@) =~= page);
    }
    Ok(items)
}

/// The token that marks the next-page entry of a `link` header.
pub open spec fn rel_next_lit() -> Seq<char> {
    "rel=\"next\""@
}

/// The first index at or after `i`, below `j`, that is not whitespace.
pub open spec fn skip_space_fwd(s: Seq<char>, i: int, j: int) -> int
    decreases j - i,
{
    if i < j && 0 <= i && j <= s.len() && is_space(s[i]) {
        skip_space_fwd(s, i + 1, j)
    } else {
        i
    }
}

/// The end, at or below `j` and above `i`, of the text once trailing
/// whitespace is dropped.
pub open spec fn skip_space_back(s: Seq<char>, i: int, j: int) -> int
    decreases j - i,
{
    if i < j && 0 <= i && j <= s.len() && is_space(s[j - 1]) {
        skip_space_back(s, i, j - 1)
    } else {
        j
    }
}

/// The first index at or after `i`, below `j`, that is not the character
/// `c`.
pub open spec fn skip_ch_fwd(s: Seq<char>, i: int, j: int, c: char) -> int
    decreases j - i,
{
    if i < j && 0 <= i && j <= s.len() && s[i] == c {
        skip_ch_fwd(s, i + 1, j, c)
    } else {
        i
    }
}

/// The end, at or below `j` and above `i`, of the text once trailing `c`
/// characters are dropped.
pub open spec fn skip_ch_back(s: Seq<char>, i: int, j: int, c: char) -> int
    decreases j - i,
{
    if i < j && 0 <= i && j <= s.len() && s[j - 1] == c {
        skip_ch_back(s, i, j - 1, c)
    } else {
        j
    }
}

/// The next-page address a `link` header names: within the first
/// comma-separated token that holds `rel="next"`, the part before the
/// first semicolon, trimmed of whitespace, with leading `<` and trailing
/// `>` characters dropped.  A header without such a token names none.
pub open spec fn next_link_spec(h: Seq<char>) -> Option<Seq<char>> {
    match first_occurrence(h, rel_next_lit(), 0) {
        Some(k) => {
            let t0 = match last_ch_before(h, ',', k) {
                Some(c) => c + 1,
                None => 0,
            };
            let t1 = match first_ch(h, ',', k) {
                Some(c) => c,
                None => h.len() as int,
            };
            let seg_end = match first_ch(h, ';', t0) {
                Some(x) => if x < t1 {
                    x
                } else {
                    t1
                },
                None => t1,
            };
            let a0 = skip_space_fwd(h, t0, seg_end);
            let b0 = skip_space_back(h, a0, seg_end);
            let a1 = skip_ch_fwd(h, a0, b0, '<');
            let b1 = skip_ch_back(h, a1, b0, '>');
            Some(h.subrange(a1, b1))
        },
        None => None,
    }
}

/// Law: a header in which the next-page token does not occur ends the
/// pagination — it names no next page, so the page being processed is the
/// last one fetched.
pub proof fn lemma_no_next_token_ends_pagination(h: Seq<char>)
    requires
        forall|i: int| !crate::text::matches_at(h, rel_next_lit(), i),
    ensures
        next_link_spec(h) is None,
{
    crate::text::lemma_first_occurrence(h, rel_next_lit(), 0);
    match first_occurrence(h, rel_next_lit(), 0) {
        Some(k) => {
            assert(crate::text::matches_at(h, rel_next_lit(), k));
        },
        None => {},
    }
}

/// The next-page address an optional `link` header names.
pub open spec fn link_next(link: Option<String>) -> Option<Seq<char>> {
    match link {
        Some(h) => next_link_spec(h@),
        None => None,
    }
}

/// An executable optional string agrees with a ghost optional text.
pub open spec fn same_opt_string(r: Option<String>, o: Option<Seq<char>>) -> bool {
    match (r, o) {
        (Some(a), Some(b)) => a@ == b,
        (None, None) => true,
        _ => false,
    }
}

fn skip_space_fwd_exec(v: &Vec<char>, i: usize, j: usize) -> (r: usize)
    requires
        i <= j <= v.len(),
    ensures
        r as int == skip_space_fwd(v@, i as int, j as int),
        i <= r <= j,
{
    let mut x: usize = i;
    while x < j
        invariant
            i <= x <= j <= v@.len(),
            skip_space_fwd(v@, i as int, j as int) == skip_space_fwd(v@, x as int, j as int),
        decreases j - x,
    {
        if !space_check(v[x]) {
            return x;
        }
        x += 1;
    }
    x
}

fn skip_space_back_exec(v: &Vec<char>, i: usize, j: usize) -> (r: usize)
    requires
        i <= j <= v.len(),
    ensures
        r as int == skip_space_back(v@, i as int, j as int),
        i <= r <= j,
{
    let mut x: usize = j;
    while x > i
        invariant
            i <= x <= j <= v@.len(),
            skip_space_back(v@, i as int, j as int) == skip_space_back(v@, i as int, x as int),
        decreases x,
    {
        if !space_check(v[x - 1]) {
            return x;
        }
        x -= 1;
    }
    x
}

fn skip_ch_fwd_exec(v: &Vec<char>, i: usize, j: usize, c: char) -> (r: usize)
    requires
        i <= j <= v.len(),
    ensures
        r as int == skip_ch_fwd(v@, i as int, j as int, c),
        i <= r <= j,
{
    let mut x: usize = i;
    while x < j
        invariant
            i <= x <= j <= v@.len(),
            skip_ch_fwd(v@, i as int, j as int, c) == skip_ch_fwd(v@, x as int, j as int, c),
        decreases j - x,
    {
        if v[x] != c {
            return x;
        }
        x += 1;
    }
    x
}

fn skip_ch_back_exec(v: &Vec<char>, i: usize, j: usize, c: char) -> (r: usize)
    requires
        i <= j <= v.len(),
    ensures
        r as int == skip_ch_back(v@, i as int, j as int, c),
        i <= r <= j,
{
    let mut x: usize = j;
    while x > i
        invariant
            i <= x <= j <= v@.len(),
            skip_ch_back(v@, i as int, j as int, c) == skip_ch_back(v@, i as int, x as int, c),
        decreases x,
    {
        if v[x - 1] != c {
            return x;
        }
        x -= 1;
    }
    x
}

/// Extracts the next-page address from a `link` header value, exactly as
/// `next_link_spec` states; an absent header names none.
#[verifier::loop_isolation(false)]
pub fn get_next_link_from_headers(link: &Option<String>) -> (r: Option<String>)
    ensures
        same_opt_string(r, link_next(*link)),
{
    let h = match link {
        Some(h) => h,
        None => {
            return None;
        },
    };
    let v = chars_of(h.as_str());
    let rel = chars_of("rel=\"next\"");
    proof {
        reveal_strlit("rel=\"next\"");
    }
    let k = match find_seq(&v, &rel, 0) {
        Some(k) => k,
        None => {
            return None;
        },
    };
    proof {
        crate::text::lemma_first_occurrence(v@, rel@, 0);
        crate::text::lemma_last_ch_before(v@, ',', k as int);
    }
    let t0 = match rfind_ch_before(&v, ',', k) {
        Some(c) => c + 1,
        None => 0,
    };
    let t1 = match find_ch(&v, ',', k) {
        Some(c) => c,
        None => v.len(),
    };
    proof {
        crate::text::lemma_first_ch(v@, ',', k as int);
        crate::text::lemma_first_ch(v@, ';', t0 as int);
    }
    let seg_end = match find_ch(&v, ';', t0) {
        Some(x) => if x < t1 {
            x
        } else {
            t1
        },
        None => t1,
    };
    assert(t0 <= seg_end && seg_end <= v.len());
    let a0 = skip_space_fwd_exec(&v, t0, seg_end);
    let b0 = skip_space_back_exec(&v, a0, seg_end);
    let a1 = skip_ch_fwd_exec(&v, a0, b0, '<');
    let b1 = skip_ch_back_exec(&v, a1, b0, '>');
    let out = h.as_str().substring_char(a1, b1).to_owned();
    Some(out)
}

} // verus!
