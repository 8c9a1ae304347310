//! Application state: the story list and its cache, the comment view and
//! the navigation over both.

use crate::clock::{instant_now, millis_since};
use crate::tree::{
    Entry, NodeState, comment_below, copy_comments, copy_ids, copy_path, entries_of,
    flatten_comments, is_open_at, is_parent_path, is_sibling_path, lemma_nodes_of_index,
    lemma_nodes_of_len, lemma_nodes_of_update, next_sibling_index, node_at, nodes_of, parent_index,
    paths_of, prev_sibling_index, projection, set_state_below, state_node, with_state_at,
};
use std::collections::HashMap;
use std::time::Instant;
use vstd::prelude::*;
use vstd::view::View as _;

pub use crate::tree::{Comment, CommentState};

verus! {

/// A story as shown in the list.
#[derive(Debug, Clone)]
pub struct HNCLIItem {
    /// Story id
    pub id: i32,
    /// Story title
    pub title: String,
    /// Link of the story
    pub url: String,
    /// Author's user name
    pub author: String,
    /// Formatted absolute time of posting
    pub time: String,
    /// Relative age label ("2 hours ago")
    pub time_ago: String,
    /// Score (upvotes)
    pub score: i32,
    /// Number of comments, if known
    pub comments: Option<i32>,
}

/// Milliseconds a load must last before its indicator is shown.
pub const LOADING_INDICATOR_DELAY_MS: u64 = 150;

/// Current view of the application.
#[derive(Debug, Clone)]
pub enum View {
    /// Browsing the story list
    Stories,
    /// Reading the comments of a story
    Comments { story_id: i32, story_title: String, story_url: String },
}

/// Kind of story list.
#[derive(Debug, Clone, Copy, PartialEq, Eq, Hash, Structural)]
pub enum StoryType {
    Best,
    New,
    Top,
}

/// The name of a story kind as the fetch service spells it.
pub open spec fn story_type_str(t: StoryType) -> Seq<char> {
    match t {
        StoryType::Best => "best"@,
        StoryType::New => "new"@,
        StoryType::Top => "top"@,
    }
}

/// The name of a story kind as shown to the user.
pub open spec fn story_type_display(t: StoryType) -> Seq<char> {
    match t {
        StoryType::Best => "Best"@,
        StoryType::New => "New"@,
        StoryType::Top => "Top"@,
    }
}

/// Position of a story kind in the cache key.
pub open spec fn story_type_index(t: StoryType) -> u64 {
    match t {
        StoryType::Best => 0,
        StoryType::New => 1,
        StoryType::Top => 2,
    }
}

/// The story cache's key for a kind and a page: one integer per pair.
pub open spec fn cache_key(t: StoryType, page: u32) -> u64 {
    (story_type_index(t) * 0x1_0000_0000 + page) as u64
}

impl StoryType {
    pub fn as_str(&self) -> (r: &'static str)
        ensures
            r@ == story_type_str(*self),
    {
        match self {
            StoryType::Best => "best",
            StoryType::New => "new",
            StoryType::Top => "top",
        }
    }

    pub fn display_name(&self) -> (r: &'static str)
        ensures
            r@ == story_type_display(*self),
    {
        match self {
            StoryType::Best => "Best",
            StoryType::New => "New",
            StoryType::Top => "Top",
        }
    }
}

/// The cache key of a kind and a page.
pub fn story_cache_key(t: StoryType, page: u32) -> (r: u64)
    ensures
        r == cache_key(t, page),
{
    let k: u64 = match t {
        StoryType::Best => 0,
        StoryType::New => 1,
        StoryType::Top => 2,
    };
    k * 0x1_0000_0000 + page as u64
}

impl HNCLIItem {
    /// A copy of the item with the same fields.
    pub fn duplicate(&self) -> (r: HNCLIItem)
        ensures
            r == *self,
    {
        HNCLIItem {
            id: self.id,
            title: self.title.clone(),
            url: self.url.clone(),
            author: self.author.clone(),
            time: self.time.clone(),
            time_ago: self.time_ago.clone(),
            score: self.score,
            comments: self.comments,
        }
    }
}

/// A copy of a list of stories.
pub fn copy_stories(v: &Vec<HNCLIItem>) -> (r: Vec<HNCLIItem>)
    ensures
        r@ == v@,
{
    let mut r: Vec<HNCLIItem> = Vec::new();
    let mut i: usize = 0;
    while i < v.len()
        invariant
            i <= v.len(),
            r@ == v@.take(i as int),
        decreases v.len() - i,
    {
        r.push(v[i].duplicate());
        i += 1;
        assert(r@ =~= v@.take(i as int));
    }
    assert(r@ =~= v@);
    r
}

/// Main application state.
pub struct App {
    /// Current view
    pub view: View,
    /// Selected story kind
    pub story_type: StoryType,
    /// Stories on display
    pub stories: Vec<HNCLIItem>,
    /// Cursor in the story list
    pub selected_index: usize,
    /// First story row on screen
    pub story_scroll: usize,
    /// Selected page (1-based)
    pub current_page: u32,
    /// Whether a load is in flight
    pub loading: bool,
    /// Error message, if any
    pub error: Option<String>,
    /// Top-level comments of the story being read
    pub comments: Vec<Comment>,
    /// Visible projection of the comment forest: (path, copy of the comment)
    pub visible_comments: Vec<(Vec<usize>, Comment)>,
    /// Cursor in the visible projection
    pub comment_cursor: usize,
    /// First comment line on screen
    pub comment_scroll: usize,
    /// Whether the application should stop
    pub should_quit: bool,
    /// Whether the help overlay is shown
    pub show_help: bool,
    /// Stories per page
    pub page_size: u8,
    /// Fetched pages, keyed by `cache_key(kind, page)`
    pub story_cache: HashMap<u64, Vec<HNCLIItem>>,
    /// Kind and page that the displayed stories belong to
    pub stories_for: Option<(StoryType, u32)>,
    /// When the current load started
    pub loading_since: Option<Instant>,
}

/// Story rows on screen in a viewport of `vh` rows, one of them taken by
/// a header; at least one.
pub open spec fn story_rows(vh: int) -> int {
    if vh - 1 >= 1 {
        vh - 1
    } else {
        1
    }
}

/// Largest story offset: the one that shows the last screenful of `len`
/// stories, and 0 when they all fit.
pub open spec fn story_scroll_bound(len: int, vh: int) -> int {
    if len - story_rows(vh) >= 0 {
        len - story_rows(vh)
    } else {
        0
    }
}

/// Whether offset `s` keeps row `sel` on screen without scrolling past the
/// end of `len` stories.
pub open spec fn story_scroll_fits(s: int, sel: int, len: int, vh: int) -> bool {
    0 <= s <= story_scroll_bound(len, vh) && s <= sel < s + story_rows(vh)
}

/// Distance between two offsets.
pub open spec fn distance(a: int, b: int) -> int {
    if a >= b {
        a - b
    } else {
        b - a
    }
}

/// Story offset after scrolling from `scroll` so that row `sel` shows:
/// the least move that brings it on screen, then capped at the end bound.
pub open spec fn story_scroll_after(sel: int, scroll: int, vh: int, len: int) -> int {
    let visible = story_rows(vh);
    let moved = if sel < scroll {
        sel
    } else if sel >= scroll + visible {
        if sel - (visible - 1) >= 0 {
            sel - (visible - 1)
        } else {
            0
        }
    } else {
        scroll
    };
    if moved > story_scroll_bound(len, vh) {
        story_scroll_bound(len, vh)
    } else {
        moved
    }
}

/// Comment scroll offset (in lines) that keeps the line range of entry
/// `cursor` fully on screen with the least movement from `scroll`, and
/// never past the last screenful of content.
pub open spec fn comment_scroll_after(
    ranges: Seq<(usize, usize)>,
    cursor: int,
    scroll: int,
    vh: int,
) -> int {
    if ranges.len() == 0 || cursor >= ranges.len() {
        0
    } else {
        let h = if vh >= 1 { vh } else { 1 };
        let start = ranges[cursor].0 as int;
        let end = ranges[cursor].1 as int;
        let moved = if start < scroll {
            start
        } else if end > scroll + h {
            if end - h >= 0 { end - h } else { 0 }
        } else {
            scroll
        };
        let total = ranges.last().1 as int;
        let max_scroll = if total - h >= 0 { total - h } else { 0 };
        if moved > max_scroll { max_scroll } else { moved }
    }
}

/// The cached pages as sequences of stories.
pub open spec fn pages_of(m: Map<u64, Vec<HNCLIItem>>) -> Map<u64, Seq<HNCLIItem>> {
    m.map_values(|v: Vec<HNCLIItem>| v@)
}

/// `new` is `old` after a fetched page of `story_type` at `page` arrived:
/// the page is cached, and displayed only when it is the selected one.
pub open spec fn page_applied(old: App, new: App, story_type: StoryType, page: u32, stories: Vec<HNCLIItem>) -> bool {
    &&& pages_of(new.story_cache@) == pages_of(old.story_cache@).insert(cache_key(story_type, page), stories@)
    &&& if old.story_type == story_type && old.current_page == page {
        new == (App {
            story_cache: new.story_cache,
            stories_for: Some((story_type, page)),
            stories: stories,
            loading: false,
            loading_since: None,
            error: None,
            selected_index: if old.selected_index >= stories@.len() && stories@.len() > 0 {
                (stories@.len() - 1) as usize
            } else {
                old.selected_index
            },
            ..old
        })
    } else {
        new == (App { story_cache: new.story_cache, ..old })
    }
}

/// Whether the displayed stories belong to another kind or page than the
/// selected ones.
pub open spec fn is_stale(app: App) -> bool {
    match app.stories_for {
        Some((t, p)) => t != app.story_type || p != app.current_page,
        None => false,
    }
}

/// Whether the debounced loading indicator shows, `elapsed_ms` after the
/// load started.
pub open spec fn shows_loading(app: App, elapsed_ms: u128) -> bool {
    app.loading && (app.loading_since is None || elapsed_ms >= LOADING_INDICATOR_DELAY_MS)
}

/// The state the application starts in: best stories, page 1, nothing
/// shown yet and a load in flight.
pub open spec fn is_fresh(r: App) -> bool {
    &&& r.view is Stories
    &&& r.story_type == StoryType::Best
    &&& r.stories@.len() == 0
    &&& r.selected_index == 0
    &&& r.story_scroll == 0
    &&& r.current_page == 1
    &&& r.loading
    &&& r.error is None
    &&& r.comments@.len() == 0
    &&& r.visible_comments@.len() == 0
    &&& r.comment_cursor == 0
    &&& r.comment_scroll == 0
    &&& !r.should_quit
    &&& !r.show_help
    &&& r.page_size == 20
    &&& r.story_cache@ == Map::<u64, Vec<HNCLIItem>>::empty()
    &&& r.stories_for is None
    &&& r.loading_since is Some
}

impl Default for App {
    fn default() -> (r: Self)
        ensures
            is_fresh(r),
    {
        Self::new()
    }
}

impl App {
    /// A fresh state: best stories, page 1, a load in flight.
    pub fn new() -> (r: App)
        ensures
            is_fresh(r),
    {
        let mut app = App {
            view: View::Stories,
            story_type: StoryType::Best,
            stories: Vec::new(),
            selected_index: 0,
            story_scroll: 0,
            current_page: 1,
            loading: false,
            error: None,
            comments: Vec::new(),
            visible_comments: Vec::new(),
            comment_cursor: 0,
            comment_scroll: 0,
            should_quit: false,
            show_help: false,
            page_size: 20,
            story_cache: HashMap::new(),
            stories_for: None,
            loading_since: None,
        };
        app.set_loading(true);
        app
    }

    /// Moves the story cursor down, stopping at the last story.
    pub fn next_story(&mut self)
        ensures
            *final(self) == (App {
                selected_index: if old(self).selected_index + 1 < old(self).stories@.len() {
                    (old(self).selected_index + 1) as usize
                } else {
                    old(self).selected_index
                },
                ..*old(self)
            }),
    {
        if !self.stories.is_empty() && self.selected_index < self.stories.len() - 1 {
            self.selected_index += 1;
        }
    }

    /// Moves the story cursor up, stopping at the first story.
    pub fn prev_story(&mut self)
        ensures
            *final(self) == (App {
                selected_index: if old(self).selected_index > 0 {
                    (old(self).selected_index - 1) as usize
                } else {
                    0
                },
                ..*old(self)
            }),
    {
        if self.selected_index > 0 {
            self.selected_index -= 1;
        }
    }

    /// Scrolls the story list so that the selected story is on screen,
    /// moving as little as possible and never past the last screenful.
    pub fn update_story_scroll(&mut self, viewport_height: usize)
        ensures
            *final(self) == (App {
                story_scroll: story_scroll_after(
                    old(self).selected_index as int,
                    old(self).story_scroll as int,
                    viewport_height as int,
                    old(self).stories@.len() as int,
                ) as usize,
                ..*old(self)
            }),
            final(self).story_scroll <= story_scroll_bound(
                old(self).stories@.len() as int,
                viewport_height as int,
            ),
            old(self).selected_index < old(self).stories@.len() ==> {
                let sel = old(self).selected_index as int;
                let len = old(self).stories@.len() as int;
                let vh = viewport_height as int;
                let n = final(self).story_scroll as int;
                &&& story_scroll_fits(n, sel, len, vh)
                &&& forall|s: int|
                    story_scroll_fits(s, sel, len, vh) ==> distance(s, old(self).story_scroll as int)
                        >= distance(n, old(self).story_scroll as int)
            },
    {
        let visible_items: usize = if viewport_height >= 2 { viewport_height - 1 } else { 1 };
        let mut scroll = self.story_scroll;
        if self.selected_index < scroll {
            scroll = self.selected_index;
        } else if self.selected_index - scroll >= visible_items {
            scroll = self.selected_index.saturating_sub(visible_items - 1);
        }
        let max_scroll = self.stories.len().saturating_sub(visible_items);
        if scroll > max_scroll {
            scroll = max_scroll;
        }
        self.story_scroll = scroll;
    }

    /// Selects the next page and resets the cursor; the last page number
    /// that a `u32` holds stays selected.
    pub fn next_page(&mut self)
        ensures
            old(self).current_page < u32::MAX ==> *final(self) == (App {
                current_page: (old(self).current_page + 1) as u32,
                selected_index: 0,
                story_scroll: 0,
                ..*old(self)
            }),
            old(self).current_page == u32::MAX ==> *final(self) == *old(self),
    {
        if self.current_page < u32::MAX {
            self.current_page += 1;
            self.selected_index = 0;
            self.story_scroll = 0;
        }
    }

    /// Selects the previous page, if any, and resets the cursor.
    pub fn prev_page(&mut self)
        ensures
            old(self).current_page > 1 ==> *final(self) == (App {
                current_page: (old(self).current_page - 1) as u32,
                selected_index: 0,
                story_scroll: 0,
                ..*old(self)
            }),
            old(self).current_page <= 1 ==> *final(self) == *old(self),
    {
        if self.current_page > 1 {
            self.current_page -= 1;
            self.selected_index = 0;
            self.story_scroll = 0;
        }
    }

    /// Selects a story kind; a new kind starts at page 1 with the cursor reset.
    pub fn set_story_type(&mut self, story_type: StoryType)
        ensures
            old(self).story_type != story_type ==> *final(self) == (App {
                story_type: story_type,
                current_page: 1,
                selected_index: 0,
                story_scroll: 0,
                ..*old(self)
            }),
            old(self).story_type == story_type ==> *final(self) == *old(self),
    {
        if self.story_type != story_type {
            self.story_type = story_type;
            self.current_page = 1;
            self.selected_index = 0;
            self.story_scroll = 0;
        }
    }

    /// The story under the cursor.
    pub fn selected_story(&self) -> (r: Option<&HNCLIItem>)
        ensures
            self.selected_index < self.stories@.len() ==> r == Some(&self.stories@[self.selected_index as int]),
            self.selected_index >= self.stories@.len() ==> r is None,
    {
        if self.selected_index < self.stories.len() {
            Some(&self.stories[self.selected_index])
        } else {
            None
        }
    }

    /// Kind and page of the displayed stories; the selected ones when no
    /// page was displayed yet.
    pub fn displayed_story_context(&self) -> (r: (StoryType, u32))
        ensures
            r == match self.stories_for {
                Some(k) => k,
                None => (self.story_type, self.current_page),
            },
    {
        match self.stories_for {
            Some(k) => k,
            None => (self.story_type, self.current_page),
        }
    }

    /// Whether the displayed stories belong to another kind or page than
    /// the selected ones.
    pub fn showing_stale_stories(&self) -> (r: bool)
        ensures
            r == is_stale(*self),
    {
        match self.stories_for {
            Some((t, p)) => t != self.story_type || p != self.current_page,
            None => false,
        }
    }

    /// Shows or hides the help overlay.
    pub fn toggle_help(&mut self)
        ensures
            *final(self) == (App { show_help: !old(self).show_help, ..*old(self) }),
    {
        self.show_help = !self.show_help;
    }

    /// Displays `stories`, ends the load and clears the error; the cursor
    /// is clamped to the new list.
    pub fn set_stories(&mut self, stories: Vec<HNCLIItem>)
        ensures
            *final(self) == (App {
                stories: stories,
                loading: false,
                loading_since: None,
                error: None,
                selected_index: if old(self).selected_index >= stories@.len() && stories@.len() > 0 {
                    (stories@.len() - 1) as usize
                } else {
                    old(self).selected_index
                },
                ..*old(self)
            }),
    {
        self.stories = stories;
        self.loading = false;
        self.loading_since = None;
        self.error = None;
        if self.selected_index >= self.stories.len() && !self.stories.is_empty() {
            self.selected_index = self.stories.len() - 1;
        }
    }

    /// Displays `stories` as the page `page` of `story_type`.
    pub fn set_stories_for(&mut self, story_type: StoryType, page: u32, stories: Vec<HNCLIItem>)
        ensures
            *final(self) == (App {
                stories_for: Some((story_type, page)),
                stories: stories,
                loading: false,
                loading_since: None,
                error: None,
                selected_index: if old(self).selected_index >= stories@.len() && stories@.len() > 0 {
                    (stories@.len() - 1) as usize
                } else {
                    old(self).selected_index
                },
                ..*old(self)
            }),
    {
        self.stories_for = Some((story_type, page));
        self.set_stories(stories);
    }

    /// Caches a fetched page; displays it only when it is the selected one.
    pub fn apply_stories_page(&mut self, story_type: StoryType, page: u32, stories: Vec<HNCLIItem>)
        ensures
            page_applied(*old(self), *final(self), story_type, page, stories),
    {
        broadcast use vstd::std_specs::hash::group_hash_axioms;

        let copy = copy_stories(&stories);
        self.story_cache.insert(story_cache_key(story_type, page), copy);
        assert(pages_of(self.story_cache@) =~= pages_of(old(self).story_cache@).insert(
            cache_key(story_type, page),
            stories@,
        ));
        if self.story_type == story_type && self.current_page == page {
            self.set_stories_for(story_type, page, stories);
        }
    }

    /// A copy of the cached page for the selected kind and page, if any.
    pub fn cached_stories(&self) -> (r: Option<Vec<HNCLIItem>>)
        ensures
            match r {
                Some(v) => pages_of(self.story_cache@).contains_key(
                    cache_key(self.story_type, self.current_page),
                ) && v@ == pages_of(self.story_cache@)[cache_key(self.story_type, self.current_page)],
                None => !pages_of(self.story_cache@).contains_key(
                    cache_key(self.story_type, self.current_page),
                ),
            },
    {
        broadcast use vstd::std_specs::hash::group_hash_axioms;

        let key = story_cache_key(self.story_type, self.current_page);
        match self.story_cache.get(&key) {
            Some(v) => Some(copy_stories(v)),
            None => None,
        }
    }

    /// Records an error and ends the load.
    pub fn set_error(&mut self, error: String)
        ensures
            *final(self) == (App {
                error: Some(error),
                loading: false,
                loading_since: None,
                ..*old(self)
            }),
    {
        self.error = Some(error);
        self.loading = false;
        self.loading_since = None;
    }

    /// Clears the error.
    pub fn clear_error(&mut self)
        ensures
            *final(self) == (App { error: None, ..*old(self) }),
    {
        self.error = None;
    }

    /// Starts a load that began at `now` (clearing the error and noting
    /// `now` as its start) or ends it (dropping the start time).
    pub fn set_loading_at(&mut self, loading: bool, now: Instant)
        ensures
            loading ==> *final(self) == (App {
                loading: true,
                error: None,
                loading_since: Some(now),
                ..*old(self)
            }),
            !loading ==> *final(self) == (App { loading: false, loading_since: None, ..*old(self) }),
    {
        self.loading = loading;
        if loading {
            self.error = None;
            self.loading_since = Some(now);
        } else {
            self.loading_since = None;
        }
    }

    /// Starts a load (clearing the error and noting the monotonic clock's
    /// reading as its start) or ends it (dropping the start time).
    pub fn set_loading(&mut self, loading: bool)
        ensures
            loading ==> final(self).loading_since is Some && *final(self) == (App {
                loading: true,
                error: None,
                loading_since: final(self).loading_since,
                ..*old(self)
            }),
            !loading ==> *final(self) == (App { loading: false, loading_since: None, ..*old(self) }),
    {
        if loading {
            let now = instant_now();
            self.set_loading_at(true, now);
        } else {
            self.loading = false;
            self.loading_since = None;
        }
    }

    /// The comment under the cursor, found in the comment forest by the
    /// path of its entry.
    pub fn selected_comment(&self) -> (r: Option<&Comment>)
        ensures
            ({
                let ps = paths_of(self.visible_comments@);
                let c = self.comment_cursor as int;
                if c < ps.len() {
                    match r {
                        Some(x) => node_at(nodes_of(self.comments@), ps[c]) == Some(x.node()),
                        None => node_at(nodes_of(self.comments@), ps[c]) is None,
                    }
                } else {
                    r is None
                }
            }),
    {
        let c = self.comment_cursor;
        if c >= self.visible_comments.len() {
            return None;
        }
        let path = &self.visible_comments[c].0;
        assert(path@.take(path@.len() as int) =~= path@);
        self.get_comment_by_path(path, path.len())
    }

    /// Moves the comment cursor down, stopping at the last entry.
    pub fn next_comment(&mut self)
        ensures
            *final(self) == (App {
                comment_cursor: if old(self).comment_cursor + 1 < old(self).visible_comments@.len() {
                    (old(self).comment_cursor + 1) as usize
                } else {
                    old(self).comment_cursor
                },
                ..*old(self)
            }),
    {
        if !self.visible_comments.is_empty() && self.comment_cursor < self.visible_comments.len() - 1 {
            self.comment_cursor += 1;
        }
    }

    /// Moves the comment cursor up, stopping at the first entry.
    pub fn prev_comment(&mut self)
        ensures
            *final(self) == (App {
                comment_cursor: if old(self).comment_cursor > 0 {
                    (old(self).comment_cursor - 1) as usize
                } else {
                    0
                },
                ..*old(self)
            }),
    {
        if self.comment_cursor > 0 {
            self.comment_cursor -= 1;
        }
    }

    /// Jumps to the next entry at the same depth under the same parent,
    /// skipping the current thread; stays when there is none.
    pub fn next_comment_sibling(&mut self)
        ensures
            next_sibling_moved(*old(self), *final(self)),
    {
        if let Some(i) = next_sibling_index(&self.visible_comments, self.comment_cursor) {
            self.comment_cursor = i;
        }
    }

    /// Jumps to the previous entry at the same depth under the same
    /// parent; stays when there is none.
    pub fn prev_comment_sibling(&mut self)
        ensures
            prev_sibling_moved(*old(self), *final(self)),
    {
        if let Some(i) = prev_sibling_index(&self.visible_comments, self.comment_cursor) {
            self.comment_cursor = i;
        }
    }

    /// Jumps to the parent of the entry under the cursor; stays at the top
    /// level or when the parent is not in the projection.
    pub fn parent_comment(&mut self)
        ensures
            parent_moved(*old(self), *final(self)),
    {
        if let Some(i) = parent_index(&self.visible_comments, self.comment_cursor) {
            self.comment_cursor = i;
        }
    }

    /// Jumps to the first entry.
    pub fn first_comment(&mut self)
        ensures
            *final(self) == (App { comment_cursor: 0, ..*old(self) }),
    {
        self.comment_cursor = 0;
    }

    /// Jumps to the last entry, if any.
    pub fn last_comment(&mut self)
        ensures
            *final(self) == (App {
                comment_cursor: if old(self).visible_comments@.len() > 0 {
                    (old(self).visible_comments@.len() - 1) as usize
                } else {
                    old(self).comment_cursor
                },
                ..*old(self)
            }),
    {
        if !self.visible_comments.is_empty() {
            self.comment_cursor = self.visible_comments.len() - 1;
        }
    }

    /// Scrolls the comment list (in lines) so that the selected entry's
    /// lines `line_ranges[cursor]` are on screen.
    pub fn update_comment_scroll(&mut self, line_ranges: &[(usize, usize)], viewport_height: usize)
        ensures
            *final(self) == (App {
                comment_scroll: comment_scroll_after(
                    line_ranges@,
                    old(self).comment_cursor as int,
                    old(self).comment_scroll as int,
                    viewport_height as int,
                ) as usize,
                ..*old(self)
            }),
            old(self).comment_cursor < line_ranges@.len() ==> {
                let h = if viewport_height >= 1 { viewport_height as int } else { 1 };
                let start = line_ranges@[old(self).comment_cursor as int].0 as int;
                let end = line_ranges@[old(self).comment_cursor as int].1 as int;
                let total = line_ranges@.last().1 as int;
                let n = final(self).comment_scroll as int;
                &&& n <= (if total - h >= 0 { total - h } else { 0 })
                &&& (start <= end <= total && end - start <= h) ==> (n <= start && end <= n + h)
            },
    {
        if line_ranges.len() == 0 || self.comment_cursor >= line_ranges.len() {
            self.comment_scroll = 0;
            return;
        }
        let view_height: usize = if viewport_height >= 1 { viewport_height } else { 1 };
        let (start, end) = line_ranges[self.comment_cursor];
        let mut new_scroll = self.comment_scroll;
        if start < new_scroll {
            new_scroll = start;
        } else if end > new_scroll && end - new_scroll > view_height {
            new_scroll = end.saturating_sub(view_height);
        }
        let total_lines = line_ranges[line_ranges.len() - 1].1;
        let max_scroll = total_lines.saturating_sub(view_height);
        if new_scroll > max_scroll {
            new_scroll = max_scroll;
        }
        self.comment_scroll = new_scroll;
    }

    /// The comment at `path[..n]` in the comment forest.
    pub fn get_comment_by_path(&self, path: &Vec<usize>, n: usize) -> (r: Option<&Comment>)
        requires
            n <= path@.len(),
        ensures
            match r {
                Some(x) => node_at(nodes_of(self.comments@), path@.take(n as int)) == Some(x.node()),
                None => node_at(nodes_of(self.comments@), path@.take(n as int)) is None,
            },
    {
        proof {
            lemma_nodes_of_len(self.comments@);
        }
        if n == 0 || path[0] >= self.comments.len() {
            return None;
        }
        proof {
            lemma_nodes_of_index(self.comments@, path@[0] as int);
            assert(path@.take(n as int).drop_first() =~= path@.subrange(1, n as int));
        }
        comment_below(&self.comments[path[0]], path, 1, n)
    }

    /// Replaces the state of the comment at `path[..n]`, if there is one.
    pub fn set_state_by_path(&mut self, path: &Vec<usize>, n: usize, st: CommentState)
        requires
            n <= path@.len(),
        ensures
            nodes_of(final(self).comments@) == with_state_at(
                nodes_of(old(self).comments@),
                path@.take(n as int),
                state_node(st),
            ),
            *final(self) == (App { comments: final(self).comments, ..*old(self) }),
    {
        proof {
            lemma_nodes_of_len(self.comments@);
        }
        if n == 0 || path[0] >= self.comments.len() {
            return;
        }
        let i = path[0];
        let ghost before = self.comments@;
        proof {
            lemma_nodes_of_index(before, i as int);
            assert(path@.take(n as int).drop_first() =~= path@.subrange(1, n as int));
        }
        set_state_below(&mut self.comments[i], path, 1, n, st);
        proof {
            lemma_nodes_of_update(before, i as int, self.comments@[i as int]);
        }
    }

    /// Rebuilds the visible projection from the comment forest and clamps
    /// the cursor into it.
    pub fn rebuild_visible_comments(&mut self)
        ensures
            rebuilt(*old(self), *final(self)),
    {
        self.visible_comments = flatten_comments(&self.comments);
        let len = self.visible_comments.len();
        if len == 0 {
            self.comment_cursor = 0;
        } else if self.comment_cursor >= len {
            self.comment_cursor = len - 1;
        }
    }

    /// Collapses the nearest expanded or loading comment on the way from
    /// the cursor's entry up to its top-level ancestor, rebuilds the
    /// projection and clamps the cursor into it.
    pub fn collapse_current_thread(&mut self)
        ensures
            thread_collapsed(*old(self), *final(self)),
    {
        let ghost ps = paths_of(self.visible_comments@);
        let ghost ns = nodes_of(self.comments@);
        let c = self.comment_cursor;
        if c >= self.visible_comments.len() {
            return;
        }
        let path = copy_path(&self.visible_comments[c].0);
        assert(ps[c as int] == self.visible_comments@[c as int].0@);
        if let Some(n) = self.nearest_open_prefix(&path) {
            self.set_state_by_path(&path, n, CommentState::Collapsed);
            self.rebuild_visible_comments();
            proof {
                let d = n - 1;
                assert(d + 1 == n);
                assert(is_open_at(ns, ps[c as int], d));
                assert(nodes_of(self.comments@) == with_state_at(
                    ns,
                    ps[c as int].take(d + 1),
                    NodeState::Collapsed,
                ));
            }
        }
    }

    /// Length of the longest prefix of `path` that names an expanded or
    /// loading comment.
    fn nearest_open_prefix(&self, path: &Vec<usize>) -> (r: Option<usize>)
        ensures
            match r {
                Some(n) => {
                    &&& 1 <= n <= path@.len()
                    &&& is_open_at(nodes_of(self.comments@), path@, n - 1)
                    &&& forall|e: int|
                        n - 1 < e < path@.len() ==> !is_open_at(nodes_of(self.comments@), path@, e)
                },
                None => forall|d: int| !is_open_at(nodes_of(self.comments@), path@, d),
            },
    {
        let ghost ns = nodes_of(self.comments@);
        let mut n: usize = path.len();
        while n > 0
            invariant
                n <= path@.len(),
                ns == nodes_of(self.comments@),
                forall|e: int| n <= e < path@.len() ==> !is_open_at(ns, path@, e),
            decreases n,
        {
            let open = match self.get_comment_by_path(path, n) {
                Some(x) => match x.state {
                    CommentState::Expanded { .. } => true,
                    CommentState::Loading => true,
                    CommentState::Collapsed => false,
                },
                None => false,
            };
            if open {
                assert(is_open_at(ns, path@, n - 1));
                return Some(n);
            }
            n -= 1;
        }
        None
    }

    /// Applies `update` to the first comment, in projection order, whose id
    /// is `comment_id`; tells whether there was one. The projection itself
    /// is not rebuilt.
    pub fn update_comment_by_id(&mut self, comment_id: i32, update: &CommentUpdate) -> (found: bool)
        ensures
            *final(self) == (App { comments: final(self).comments, ..*old(self) }),
            ({
                let es = projection(old(self).comments@);
                match first_with_id(es, comment_id) {
                    Some(j) => found && nodes_of(final(self).comments@) == with_state_at(
                        nodes_of(old(self).comments@),
                        es[j].0,
                        updated_state(*update, es[j].1.state),
                    ),
                    None => !found && nodes_of(final(self).comments@) == nodes_of(old(self).comments@),
                }
            }),
    {
        let entries = flatten_comments(&self.comments);
        let ghost es = projection(self.comments@);
        let mut j: usize = 0;
        while j < entries.len()
            invariant
                j <= entries@.len(),
                entries_of(entries@) == es,
                es == projection(self.comments@),
                *self == *old(self),
                forall|k: int| 0 <= k < j ==> es[k].1.id != comment_id,
            decreases entries@.len() - j,
        {
            if entries[j].1.id == comment_id {
                let path = &entries[j].0;
                let st = match update {
                    CommentUpdate::Expand(children) => CommentState::Expanded {
                        children: copy_comments(children),
                    },
                    CommentUpdate::RevertLoading => match entries[j].1.state {
                        CommentState::Loading => CommentState::Collapsed,
                        CommentState::Expanded { .. } => {
                            let copy = entries[j].1.deep_copy();
                            copy.state
                        },
                        CommentState::Collapsed => CommentState::Collapsed,
                    },
                };
                proof {
                    let fw = first_with_id(es, comment_id);
                    assert(es[j as int].1.id == comment_id);
                    assert(fw == Some(j as int));
                }
                self.set_state_by_path(path, path.len(), st);
                assert(path@.take(path@.len() as int) =~= path@);
                return true;
            }
            j += 1;
        }
        false
    }

    /// Toggles the expansion of the comment under the cursor: a collapsed
    /// comment with children starts loading and asks for them, an expanded
    /// one collapses; a loading or childless one stays as it is.
    pub fn toggle_selected_comment(&mut self) -> (r: Option<ChildFetch>)
        ensures
            toggled(*old(self), *final(self), r),
    {
        let c = self.comment_cursor;
        if c >= self.visible_comments.len() {
            return None;
        }
        let path = copy_path(&self.visible_comments[c].0);
        let n = path.len();
        assert(path@.take(n as int) =~= path@);
        let (kind, fetch) = match self.get_comment_by_path(&path, n) {
            None => (0u8, None),
            Some(x) => match x.state {
                CommentState::Collapsed => if x.child_ids.len() > 0 {
                    let depth = if x.depth < usize::MAX { x.depth + 1 } else { x.depth };
                    (1u8, Some(ChildFetch { comment_id: x.id, ids: copy_ids(&x.child_ids), depth }))
                } else {
                    (0u8, None)
                },
                CommentState::Expanded { .. } => (2u8, None),
                CommentState::Loading => (0u8, None),
            },
        };
        if kind == 1 {
            self.set_state_by_path(&path, n, CommentState::Loading);
            self.rebuild_visible_comments();
        } else if kind == 2 {
            self.set_state_by_path(&path, n, CommentState::Collapsed);
            self.rebuild_visible_comments();
        }
        fetch
    }

    /// Replaces the comment forest, rebuilds the projection, ends the load
    /// and clears the error.
    pub fn set_comments(&mut self, comments: Vec<Comment>)
        ensures
            rebuilt(
                App {
                    comments: comments,
                    loading: false,
                    loading_since: None,
                    error: None,
                    ..*old(self)
                },
                *final(self),
            ),
    {
        self.comments = comments;
        self.rebuild_visible_comments();
        self.loading = false;
        self.loading_since = None;
        self.error = None;
    }

    /// Opens the comments of a story: an empty forest, the cursor at the
    /// top and a load in flight.
    pub fn view_comments(&mut self, story_id: i32, story_title: String, story_url: String)
        ensures
            final(self).view == (View::Comments { story_id, story_title, story_url }),
            final(self).comments@.len() == 0,
            final(self).visible_comments@.len() == 0,
            final(self).comment_cursor == 0,
            final(self).loading,
            final(self).error is None,
            final(self).loading_since is Some,
            *final(self) == (App {
                view: final(self).view,
                comments: final(self).comments,
                visible_comments: final(self).visible_comments,
                comment_cursor: 0,
                loading: true,
                error: None,
                loading_since: final(self).loading_since,
                ..*old(self)
            }),
    {
        self.view = View::Comments { story_id, story_title, story_url };
        self.comments = Vec::new();
        self.visible_comments = Vec::new();
        self.comment_cursor = 0;
        self.set_loading(true);
    }

    /// Returns to the story list, dropping the comment forest.
    pub fn view_stories(&mut self)
        ensures
            final(self).view is Stories,
            final(self).comments@.len() == 0,
            final(self).visible_comments@.len() == 0,
            *final(self) == (App {
                view: View::Stories,
                comments: final(self).comments,
                visible_comments: final(self).visible_comments,
                comment_cursor: 0,
                ..*old(self)
            }),
    {
        self.view = View::Stories;
        self.comments = Vec::new();
        self.visible_comments = Vec::new();
        self.comment_cursor = 0;
    }

    /// Whether the loading indicator shows when `elapsed_ms` have passed
    /// since the load started.
    pub fn shows_loading_after(&self, elapsed_ms: u128) -> (r: bool)
        ensures
            r == shows_loading(*self, elapsed_ms),
    {
        if !self.loading {
            return false;
        }
        match self.loading_since {
            Some(_) => elapsed_ms >= LOADING_INDICATOR_DELAY_MS as u128,
            None => true,
        }
    }

    /// Whether the loading indicator shows now: only once a load has lasted
    /// the indicator delay.
    pub fn should_show_loading(&self) -> (r: bool)
        ensures
            exists|e: u128| r == shows_loading(*self, e),
            !self.loading ==> !r,
            self.loading && self.loading_since is None ==> r,
    {
        let elapsed: u128 = match &self.loading_since {
            Some(started) => millis_since(started),
            None => 0,
        };
        self.shows_loading_after(elapsed)
    }
}

/// `new` is `old` with the visible projection rebuilt from the comments
/// and the cursor clamped into it.
pub open spec fn rebuilt(old: App, new: App) -> bool {
    &&& entries_of(new.visible_comments@) == projection(old.comments@)
    &&& new == (App {
        visible_comments: new.visible_comments,
        comment_cursor: clamped(old.comment_cursor, new.visible_comments@.len() as int),
        ..old
    })
}

/// The cursor clamped into a projection of `len` entries.
pub open spec fn clamped(cursor: usize, len: int) -> usize {
    if len == 0 {
        0
    } else if cursor >= len {
        (len - 1) as usize
    } else {
        cursor
    }
}

/// A change applied to a comment found by id.
#[derive(Debug)]
pub enum CommentUpdate {
    /// Materialize the fetched children
    Expand(Vec<Comment>),
    /// Return a loading comment to collapsed
    RevertLoading,
}

/// The state that `u` gives to a node whose state is `st`.
pub open spec fn updated_state(u: CommentUpdate, st: NodeState) -> NodeState {
    match u {
        CommentUpdate::Expand(children) => NodeState::Expanded(nodes_of(children@)),
        CommentUpdate::RevertLoading => if st is Loading {
            NodeState::Collapsed
        } else {
            st
        },
    }
}

/// Index of the first entry of `es` whose node has id `id`, if any.
pub open spec fn first_with_id(es: Seq<Entry>, id: i32) -> Option<int> {
    if exists|j: int| 0 <= j < es.len() && es[j].1.id == id {
        Some(
            choose|j: int|
                0 <= j < es.len() && es[j].1.id == id && forall|k: int|
                    0 <= k < j ==> es[k].1.id != id,
        )
    } else {
        None
    }
}

/// Below an entry with id `id` there is a first one.
proof fn lemma_earliest_with_id(es: Seq<Entry>, id: i32, j: int)
    requires
        0 <= j < es.len(),
        es[j].1.id == id,
    ensures
        exists|m: int|
            0 <= m < es.len() && es[m].1.id == id && forall|k: int| 0 <= k < m ==> es[k].1.id != id,
    decreases j,
{
    if exists|k: int| 0 <= k < j && es[k].1.id == id {
        let k = choose|k: int| 0 <= k < j && es[k].1.id == id;
        lemma_earliest_with_id(es, id, k);
    }
}

/// What `first_with_id` finds: the earliest entry with the id, or none
/// when no entry has it.
pub proof fn lemma_first_with_id(es: Seq<Entry>, id: i32)
    ensures
        match first_with_id(es, id) {
            Some(j) => 0 <= j < es.len() && es[j].1.id == id && forall|k: int|
                0 <= k < j ==> es[k].1.id != id,
            None => forall|k: int| 0 <= k < es.len() ==> es[k].1.id != id,
        },
{
    if exists|j: int| 0 <= j < es.len() && es[j].1.id == id {
        let j = choose|j: int| 0 <= j < es.len() && es[j].1.id == id;
        lemma_earliest_with_id(es, id, j);
    }
}

/// `new` is `old` with the cursor on the next sibling of its entry, or
/// unchanged when there is none.
pub open spec fn next_sibling_moved(old: App, new: App) -> bool {
    &&& new == (App { comment_cursor: new.comment_cursor, ..old })
    &&& ({
        let ps = paths_of(old.visible_comments@);
        let c = old.comment_cursor as int;
        let n = new.comment_cursor as int;
        if c < ps.len() && exists|j: int| c < j < ps.len() && is_sibling_path(ps[j], ps[c]) {
            &&& c < n < ps.len()
            &&& is_sibling_path(ps[n], ps[c])
            &&& forall|k: int| c < k < n ==> !is_sibling_path(ps[k], ps[c])
        } else {
            n == c
        }
    })
}

/// `new` is `old` with the cursor on the previous sibling of its entry,
/// or unchanged when there is none.
pub open spec fn prev_sibling_moved(old: App, new: App) -> bool {
    &&& new == (App { comment_cursor: new.comment_cursor, ..old })
    &&& ({
        let ps = paths_of(old.visible_comments@);
        let c = old.comment_cursor as int;
        let n = new.comment_cursor as int;
        if c < ps.len() && exists|j: int| 0 <= j < c && is_sibling_path(ps[j], ps[c]) {
            &&& 0 <= n < c
            &&& is_sibling_path(ps[n], ps[c])
            &&& forall|k: int| n < k < c ==> !is_sibling_path(ps[k], ps[c])
        } else {
            n == c
        }
    })
}

/// `new` is `old` with the cursor on the parent of its entry, or unchanged
/// at the top level or when the parent is not in the projection.
pub open spec fn parent_moved(old: App, new: App) -> bool {
    &&& new == (App { comment_cursor: new.comment_cursor, ..old })
    &&& ({
        let ps = paths_of(old.visible_comments@);
        let c = old.comment_cursor as int;
        let n = new.comment_cursor as int;
        if c < ps.len() && exists|j: int| 0 <= j < ps.len() && is_parent_path(ps[j], ps[c]) {
            &&& 0 <= n < ps.len()
            &&& is_parent_path(ps[n], ps[c])
            &&& forall|k: int| 0 <= k < n ==> !is_parent_path(ps[k], ps[c])
        } else {
            n == c
        }
    })
}

/// `new` is `old` after collapsing the nearest expanded or loading
/// ancestor (the entry itself included) of the cursor's entry, with the
/// projection rebuilt and the cursor clamped; unchanged when there is none.
pub open spec fn thread_collapsed(old: App, new: App) -> bool {
    let c = old.comment_cursor as int;
    let ps = paths_of(old.visible_comments@);
    let ns = nodes_of(old.comments@);
    if c < ps.len() && exists|d: int| is_open_at(ns, ps[c], d) {
        &&& exists|d: int|
            {
                &&& is_open_at(ns, ps[c], d)
                &&& forall|e: int| d < e < ps[c].len() ==> !is_open_at(ns, ps[c], e)
                &&& nodes_of(new.comments@) == with_state_at(ns, ps[c].take(d + 1), NodeState::Collapsed)
            }
        &&& entries_of(new.visible_comments@) == projection(new.comments@)
        &&& new.comment_cursor == clamped(old.comment_cursor, new.visible_comments@.len() as int)
        &&& new == (App {
            comments: new.comments,
            visible_comments: new.visible_comments,
            comment_cursor: new.comment_cursor,
            ..old
        })
    } else {
        new == old
    }
}

/// `new` and `r` are what toggling the comment under the cursor makes of
/// `old`: a collapsed comment with children starts loading and its
/// children are asked for; an expanded one collapses; otherwise nothing
/// changes.
pub open spec fn toggled(old: App, new: App, r: Option<ChildFetch>) -> bool {
    let c = old.comment_cursor as int;
    let ps = paths_of(old.visible_comments@);
    let ns = nodes_of(old.comments@);
    if c < ps.len() && node_at(ns, ps[c]) is Some {
        let n = node_at(ns, ps[c])->0;
        if n.state is Collapsed && n.child_ids.len() > 0 {
            &&& r matches Some(f) && f.comment_id == n.id && f.ids@ == n.child_ids && f.depth == (if n.depth
                < usize::MAX {
                (n.depth + 1) as usize
            } else {
                n.depth
            })
            &&& nodes_of(new.comments@) == with_state_at(ns, ps[c], NodeState::Loading)
            &&& rebuilt(App { comments: new.comments, ..old }, new)
        } else if n.state is Expanded {
            &&& r is None
            &&& nodes_of(new.comments@) == with_state_at(ns, ps[c], NodeState::Collapsed)
            &&& rebuilt(App { comments: new.comments, ..old }, new)
        } else {
            r is None && new == old
        }
    } else {
        r is None && new == old
    }
}

/// A fetch of a comment's children that a toggle asks for.
#[derive(Debug)]
pub struct ChildFetch {
    /// The comment whose children are fetched
    pub comment_id: i32,
    /// The ids to fetch
    pub ids: Vec<i32>,
    /// Nesting depth of the children
    pub depth: usize,
}

} // verus!
