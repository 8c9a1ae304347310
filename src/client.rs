//! The forum's items as the fetch service hands them over, and what the
//! library makes of them: pages of story ids, stories and comments.

use crate::app::{HNCLIItem};
use crate::tree::{Comment, CommentState};
use crate::clock::now;
use crate::text::{
    age_label, decode_html, elapsed, entities_decoded, paragraph_breaks, push_signed,
    signed_decimal, strip_tags, time_ago_at, trimmed,
};
use vstd::prelude::*;

verus! {

/// Link base of the forum's discussion pages.
pub const YC_URL: &'static str = "https://news.ycombinator.com/";

/// Base of the forum's item API.
pub const HN_API_URL: &'static str = "https://hacker-news.firebaseio.com/";

/// Largest time, in seconds since the epoch, that is sure to have a
/// calendar rendering.
pub const MAX_DATED_SECS: u64 = 8_000_000_000_000;

/// An item (story or comment) of the forum.
#[derive(Debug, Clone)]
pub struct HackerNewsItem {
    pub by: String,
    pub score: i32,
    /// Seconds since the epoch
    pub time: u64,
    pub title: String,
    pub url: Option<String>,
    pub descendants: Option<i32>,
    pub id: i32,
    pub kids: Option<Vec<i32>>,
    /// "story", "comment", ...
    pub item_type: String,
    pub text: Option<String>,
    pub deleted: bool,
    pub dead: bool,
}

/// Settings of the fetch service.
#[derive(Debug, Clone)]
pub struct HackerNewsClientConfig {
    /// API base URL
    pub api_url: String,
    /// Base URL of discussion pages
    pub yc_url: String,
    /// Request timeout in seconds
    pub timeout: u64,
    /// User agent
    pub user_agent: String,
}

impl Default for HackerNewsClientConfig {
    fn default() -> (r: Self)
        ensures
            r.api_url@ == HN_API_URL@,
            r.yc_url@ == YC_URL@,
            r.timeout == 10,
            r.user_agent@ == "hn-cli"@,
    {
        Self {
            api_url: HN_API_URL.to_owned(),
            yc_url: YC_URL.to_owned(),
            timeout: 10,
            user_agent: "hn-cli".to_owned(),
        }
    }
}

/// What chrono renders, as `%Y-%m-%d %H:%M:%S` in UTC, for a time in
/// seconds since the epoch.
pub uninterp spec fn utc_datetime_text(secs: u64) -> Seq<char>;

/// Relies on chrono's DateTime::from_timestamp (None outside the range of
/// dates it represents, which holds every time up to MAX_DATED_SECS) and
/// on its formatting with `%Y-%m-%d %H:%M:%S`.
#[verifier::external_body]
fn format_utc(secs: u64) -> (r: Option<String>)
    ensures
        secs <= MAX_DATED_SECS ==> r is Some,
        r matches Some(t) ==> t@ == utc_datetime_text(secs),
{
    match chrono::DateTime::from_timestamp(secs as i64, 0) {
        Some(dt) => Some(dt.format("%Y-%m-%d %H:%M:%S").to_string()),
        None => None,
    }
}

/// The UTC date and time of `unix_epoch` (seconds since the epoch); empty
/// for a time that has no calendar rendering.
pub fn unix_epoch_to_datetime(unix_epoch: u64) -> (r: String)
    ensures
        r@ == utc_datetime_text(unix_epoch) || (unix_epoch > MAX_DATED_SECS && r@.len() == 0),
{
    match format_utc(unix_epoch) {
        Some(t) => t,
        None => String::new(),
    }
}

/// The link of an item: its own URL, else its discussion page under `yc_url`.
pub open spec fn item_url(item: HackerNewsItem, yc_url: Seq<char>) -> Seq<char> {
    match item.url {
        Some(u) => u@,
        None => yc_url + "item?id="@ + signed_decimal(item.id as int),
    }
}

/// The link of an item: its own URL, else its discussion page.
pub fn get_item_url(item: &HackerNewsItem, yc_url: &str) -> (r: String)
    ensures
        r@ == item_url(*item, yc_url@),
{
    match &item.url {
        Some(u) => u.clone(),
        None => {
            let mut s = yc_url.to_owned();
            s.append("item?id=");
            push_signed(&mut s, item.id);
            assert(s@ =~= item_url(*item, yc_url@));
            s
        },
    }
}

/// Whether `s` is the story made of `item` at time `now`.
pub open spec fn is_story_of(s: HNCLIItem, item: HackerNewsItem, yc_url: Seq<char>, now: u64) -> bool {
    &&& s.id == item.id
    &&& s.title@ == item.title@
    &&& s.url@ == item_url(item, yc_url)
    &&& s.author@ == item.by@
    &&& (s.time@ == utc_datetime_text(item.time) || (item.time > MAX_DATED_SECS && s.time@.len()
        == 0))
    &&& s.time_ago@ == age_label(elapsed(now, item.time))
    &&& s.score == item.score
    &&& s.comments == item.descendants
}

/// The story made of `item`, its age measured at `now`.
pub fn story_from_item(item: HackerNewsItem, yc_url: &str, now: u64) -> (r: HNCLIItem)
    ensures
        is_story_of(r, item, yc_url@, now),
{
    let url = get_item_url(&item, yc_url);
    let time = unix_epoch_to_datetime(item.time);
    let time_ago = time_ago_at(now, item.time);
    HNCLIItem {
        id: item.id,
        title: item.title,
        url,
        author: item.by,
        time,
        time_ago,
        score: item.score,
        comments: item.descendants,
    }
}

/// The story made of `item`, its age measured now.
pub fn api_item_to_hn_cli_item(item: HackerNewsItem, yc_url: &str) -> (r: HNCLIItem)
    ensures
        exists|t: u64| is_story_of(r, item, yc_url@, t),
{
    story_from_item(item, yc_url, now())
}

/// The plain text of an optional comment body; empty without one.
pub open spec fn body_text(text: Option<String>) -> Seq<char> {
    match text {
        Some(t) => trimmed(strip_tags(paragraph_breaks(entities_decoded(t@)), false)),
        None => Seq::empty(),
    }
}

/// Whether `c` is the collapsed comment made of `item` at `depth`, at time `now`.
pub open spec fn is_comment_of(c: Comment, item: HackerNewsItem, depth: usize, now: u64) -> bool {
    &&& c.id == item.id
    &&& c.author@ == item.by@
    &&& c.text@ == body_text(item.text)
    &&& c.time_ago@ == age_label(elapsed(now, item.time))
    &&& c.state is Collapsed
    &&& c.depth == depth
    &&& c.deleted == (item.deleted || item.dead)
    &&& c.child_ids@ == match item.kids {
        Some(k) => k@,
        None => Seq::<i32>::empty(),
    }
}

/// The collapsed comment made of `item` at `depth`, its age measured at `now`.
pub fn comment_from_item(item: HackerNewsItem, depth: usize, now: u64) -> (r: Comment)
    ensures
        is_comment_of(r, item, depth, now),
{
    let text = match &item.text {
        Some(t) => decode_html(t.as_str()),
        None => String::new(),
    };
    let child_ids = match item.kids {
        Some(k) => k,
        None => Vec::new(),
    };
    Comment {
        id: item.id,
        author: item.by,
        text,
        time_ago: time_ago_at(now, item.time),
        state: CommentState::Collapsed,
        depth,
        deleted: item.deleted || item.dead,
        child_ids,
    }
}

/// The collapsed comment made of `item` at `depth`, its age measured now.
pub fn api_item_to_comment(item: HackerNewsItem, depth: usize) -> (r: Comment)
    ensures
        exists|t: u64| is_comment_of(r, item, depth, t),
{
    comment_from_item(item, depth, now())
}

/// The ids on page `page` (1-based) of `page_size` ids each; empty past
/// the end.
pub open spec fn page_slice(ids: Seq<i32>, page_size: nat, page: nat) -> Seq<i32> {
    let start = (page - 1) * page_size;
    if start >= ids.len() {
        Seq::empty()
    } else {
        let end = if start + page_size <= ids.len() { start + page_size } else { ids.len() as int };
        ids.subrange(start, end)
    }
}

/// The ids on page `page` (1-based) of `page_size` ids each.
pub fn page_ids(ids: &Vec<i32>, page_size: u8, page: u32) -> (r: Vec<i32>)
    requires
        page >= 1,
    ensures
        r@ == page_slice(ids@, page_size as nat, page as nat),
{
    let p: u64 = page as u64 - 1;
    let k: u64 = page_size as u64;
    assert(p * k <= 0xffff_ffff * 0xff) by (nonlinear_arith)
        requires
            p <= 0xffff_ffff,
            k <= 0xff,
    ;
    let start64: u64 = p * k;
    if start64 >= ids.len() as u64 {
        return Vec::new();
    }
    let start: usize = start64 as usize;
    let end: usize = if ids.len() - start >= page_size as usize {
        start + page_size as usize
    } else {
        ids.len()
    };
    let mut r: Vec<i32> = Vec::new();
    let mut i: usize = start;
    while i < end
        invariant
            start <= i <= end <= ids@.len(),
            r@ == ids@.subrange(start as int, i as int),
        decreases end - i,
    {
        r.push(ids[i]);
        i += 1;
        assert(r@ =~= ids@.subrange(start as int, i as int));
    }
    r
}

/// The items that were fetched, in order, without the failed ones.
pub open spec fn fetched(items: Seq<Option<HackerNewsItem>>) -> Seq<HackerNewsItem>
    decreases items.len(),
{
    if items.len() == 0 {
        Seq::empty()
    } else {
        match items.last() {
            Some(it) => fetched(items.drop_last()).push(it),
            None => fetched(items.drop_last()),
        }
    }
}

/// The stories made of the fetched items, in order; failed fetches are
/// left out.
pub fn collect_stories(items: Vec<Option<HackerNewsItem>>, yc_url: &str, now: u64) -> (r: Vec<HNCLIItem>)
    ensures
        r@.len() == fetched(items@).len(),
        forall|i: int| 0 <= i < r@.len() ==> is_story_of(r@[i], fetched(items@)[i], yc_url@, now),
{
    let ghost all = items@;
    let mut out: Vec<HNCLIItem> = Vec::new();
    let mut i: usize = 0;
    let n = items.len();
    assert(all.skip(0) =~= all);
    let mut rest = items;
    while i < n
        invariant
            n == all.len(),
            i <= n,
            rest@ == all.skip(i as int),
            out@.len() == fetched(all.take(i as int)).len(),
            forall|k: int| 0 <= k < out@.len() ==> is_story_of(out@[k], fetched(all.take(i as int))[k], yc_url@, now),
        decreases n - i,
    {
        let next = rest.remove(0);
        assert(rest@ =~= all.skip(i + 1));
        assert(all.take(i + 1).drop_last() =~= all.take(i as int));
        match next {
            Some(it) => {
                out.push(story_from_item(it, yc_url, now));
            },
            None => {},
        }
        i += 1;
    }
    assert(all.take(n as int) =~= all);
    out
}

/// The collapsed comments at `depth` made of the fetched items, in order;
/// failed fetches are left out.
pub fn collect_comments(items: Vec<Option<HackerNewsItem>>, depth: usize, now: u64) -> (r: Vec<Comment>)
    ensures
        r@.len() == fetched(items@).len(),
        forall|i: int| 0 <= i < r@.len() ==> is_comment_of(r@[i], fetched(items@)[i], depth, now),
{
    let ghost all = items@;
    let mut out: Vec<Comment> = Vec::new();
    let mut i: usize = 0;
    let n = items.len();
    assert(all.skip(0) =~= all);
    let mut rest = items;
    while i < n
        invariant
            n == all.len(),
            i <= n,
            rest@ == all.skip(i as int),
            out@.len() == fetched(all.take(i as int)).len(),
            forall|k: int| 0 <= k < out@.len() ==> is_comment_of(out@[k], fetched(all.take(i as int))[k], depth, now),
        decreases n - i,
    {
        let next = rest.remove(0);
        assert(rest@ =~= all.skip(i + 1));
        assert(all.take(i + 1).drop_last() =~= all.take(i as int));
        match next {
            Some(it) => {
                out.push(comment_from_item(it, depth, now));
            },
            None => {},
        }
        i += 1;
    }
    assert(all.take(n as int) =~= all);
    out
}

} // verus!
