//! The decisions of the event loop: which fetch an action asks for, and
//! how a finished fetch changes the state. Fetching, opening links and
//! drawing are left to the caller.

use crate::app::{
    clamped,
    page_applied, cache_key, first_with_id, next_sibling_moved, pages_of, parent_moved,
    prev_sibling_moved, rebuilt, story_cache_key, thread_collapsed, toggled, updated_state, App,
    ChildFetch, CommentUpdate, HNCLIItem, StoryType, View,
};
use crate::tree::{projection, with_state_at, nodes_of, entries_of, Comment};
use crate::event::{CommentAction, StoryAction};
use vstd::prelude::*;
use vstd::view::View as _;

verus! {

/// The result of a background fetch, handed back to the event loop.
#[derive(Debug)]
pub enum AppMessage {
    /// A page of stories for a kind and a page number
    StoriesLoaded { story_type: StoryType, page: u32, result: Result<Vec<HNCLIItem>, String> },
    /// The top-level comments of a story
    CommentsLoaded { story_id: i32, result: Result<Vec<Comment>, String> },
    /// The children of a comment
    CommentChildrenLoaded { comment_id: i32, result: Result<Vec<Comment>, String> },
}

/// Outside work that a decision asks the event loop to do.
#[derive(Debug)]
pub enum Effect {
    /// Nothing to do
    Nothing,
    /// Fetch a page of stories
    FetchStories { story_type: StoryType, page: u32, page_size: u8 },
    /// Fetch the top-level comments of a story
    FetchComments { story_id: i32 },
    /// Fetch the children of a comment
    FetchChildren(ChildFetch),
    /// Open a link in the browser
    OpenUrl(String),
}

/// `msg` prefixed by `prefix`.
fn prefixed(prefix: &str, msg: &String) -> (r: String)
    ensures
        r@ == prefix@ + msg@,
{
    let mut s = prefix.to_owned();
    s.append(msg.as_str());
    s
}

/// Whether `app` shows the comments of story `story_id`.
pub open spec fn shows_story(app: App, story_id: i32) -> bool {
    app.view matches View::Comments { story_id: shown, .. } && shown == story_id
}

/// `new` is `old` with the error `text` recorded and the load ended.
pub open spec fn failed_with(old: App, new: App, text: Seq<char>) -> bool {
    &&& new.error matches Some(m) && m@ == text
    &&& new == (App { error: new.error, loading: false, loading_since: None, ..old })
}

/// `new` is `old` after the fetched children (or the failure) of
/// `comment_id` were applied by `u`, with the projection rebuilt.
pub open spec fn children_applied(old: App, new: App, comment_id: i32, u: CommentUpdate) -> bool {
    let es = projection(old.comments@);
    &&& match first_with_id(es, comment_id) {
        Some(j) => nodes_of(new.comments@) == with_state_at(
            nodes_of(old.comments@),
            es[j].0,
            updated_state(u, es[j].1.state),
        ),
        None => nodes_of(new.comments@) == nodes_of(old.comments@),
    }
    &&& entries_of(new.visible_comments@) == projection(new.comments@)
    &&& new.comment_cursor == clamped(old.comment_cursor, new.visible_comments@.len() as int)
}

/// Applies the result of a background fetch. A page of stories is always
/// cached and shown only when it is still the selected one; a failed page
/// is reported only when still selected. Fetched comments (or their
/// failure) apply only while their story is shown, and then replace the
/// forest; fetched children expand their parent, found by id, and a
/// failure returns the parent from loading to collapsed.
pub fn handle_app_message(app: &mut App, msg: AppMessage)
    ensures
        match msg {
            AppMessage::StoriesLoaded { story_type, page, result } => match result {
                Ok(stories) => page_applied(*old(app), *final(app), story_type, page, stories),
                Err(e) => if old(app).story_type == story_type && old(app).current_page == page {
                    &&& final(app).stories@.len() == 0
                    &&& failed_with(
                        App { stories: final(app).stories, ..*old(app) },
                        *final(app),
                        "Failed to load stories: "@ + e@,
                    )
                } else {
                    *final(app) == *old(app)
                },
            },
            AppMessage::CommentsLoaded { story_id, result } => if shows_story(*old(app), story_id) {
                match result {
                    Ok(comments) => rebuilt(
                        App {
                            comments: comments,
                            loading: false,
                            loading_since: None,
                            error: None,
                            ..*old(app)
                        },
                        *final(app),
                    ),
                    Err(e) => failed_with(*old(app), *final(app), "Failed to load comments: "@ + e@),
                }
            } else {
                *final(app) == *old(app)
            },
            AppMessage::CommentChildrenLoaded { comment_id, result } => match result {
                Ok(children) => {
                    &&& children_applied(*old(app), *final(app), comment_id, CommentUpdate::Expand(children))
                    &&& *final(app) == (App {
                        comments: final(app).comments,
                        visible_comments: final(app).visible_comments,
                        comment_cursor: final(app).comment_cursor,
                        loading: false,
                        loading_since: None,
                        ..*old(app)
                    })
                },
                Err(e) => {
                    &&& children_applied(*old(app), *final(app), comment_id, CommentUpdate::RevertLoading)
                    &&& failed_with(
                        App {
                            comments: final(app).comments,
                            visible_comments: final(app).visible_comments,
                            comment_cursor: final(app).comment_cursor,
                            ..*old(app)
                        },
                        *final(app),
                        "Failed to load comment children: "@ + e@,
                    )
                },
            },
        },
{
    match msg {
        AppMessage::StoriesLoaded { story_type, page, result } => match result {
            Ok(stories) => {
                app.apply_stories_page(story_type, page, stories);
            },
            Err(e) => {
                if app.story_type == story_type && app.current_page == page {
                    app.set_error(prefixed("Failed to load stories: ", &e));
                    app.stories = Vec::new();
                }
            },
        },
        AppMessage::CommentsLoaded { story_id, result } => {
            let current = match &app.view {
                View::Comments { story_id: shown, .. } => *shown == story_id,
                View::Stories => false,
            };
            if current {
                match result {
                    Ok(comments) => app.set_comments(comments),
                    Err(e) => app.set_error(prefixed("Failed to load comments: ", &e)),
                }
            }
        },
        AppMessage::CommentChildrenLoaded { comment_id, result } => match result {
            Ok(children) => {
                let update = CommentUpdate::Expand(children);
                app.update_comment_by_id(comment_id, &update);
                app.rebuild_visible_comments();
                app.set_loading(false);
            },
            Err(e) => {
                app.set_error(prefixed("Failed to load comment children: ", &e));
                app.update_comment_by_id(comment_id, &CommentUpdate::RevertLoading);
                app.rebuild_visible_comments();
            },
        },
    }
}

/// `new` and `r` are what a request for the selected page makes of `old`:
/// unless forced, a cached page is shown at once and nothing is fetched;
/// otherwise (a forced request first drops the cached page) a load starts
/// and the page is fetched.
pub open spec fn stories_requested(old: App, new: App, force_refresh: bool, r: Effect) -> bool {
    let key = cache_key(old.story_type, old.current_page);
    let cache = if force_refresh {
        pages_of(old.story_cache@).remove(key)
    } else {
        pages_of(old.story_cache@)
    };
    &&& pages_of(new.story_cache@) == cache
    &&& if !force_refresh && cache.contains_key(key) {
        &&& r is Nothing
        &&& new.stories@ == cache[key]
        &&& new.stories_for == Some((old.story_type, old.current_page))
        &&& !new.loading && new.loading_since is None && new.error is None
        &&& new.selected_index == (if old.selected_index >= cache[key].len() && cache[key].len() > 0 {
            (cache[key].len() - 1) as usize
        } else {
            old.selected_index
        })
        &&& new == (App {
            story_cache: new.story_cache,
            stories: new.stories,
            stories_for: new.stories_for,
            loading: false,
            loading_since: None,
            error: None,
            selected_index: new.selected_index,
            ..old
        })
    } else {
        &&& r == (Effect::FetchStories {
            story_type: old.story_type,
            page: old.current_page,
            page_size: old.page_size,
        })
        &&& new.loading && new.error is None && new.loading_since is Some
        &&& new == (App {
            story_cache: new.story_cache,
            loading: true,
            error: None,
            loading_since: new.loading_since,
            ..old
        })
    }
}

/// Shows the selected page from the cache or asks for it to be fetched;
/// `force_refresh` drops the cached page and fetches it again.
pub fn request_stories(app: &mut App, force_refresh: bool) -> (r: Effect)
    ensures
        stories_requested(*old(app), *final(app), force_refresh, r),
{
    broadcast use vstd::std_specs::hash::group_hash_axioms;

    let story_type = app.story_type;
    let page = app.current_page;
    if force_refresh {
        let key = story_cache_key(story_type, page);
        app.story_cache.remove(&key);
        assert(pages_of(app.story_cache@) =~= pages_of(old(app).story_cache@).remove(key));
    }
    if !force_refresh {
        if let Some(cached) = app.cached_stories() {
            app.set_stories_for(story_type, page, cached);
            return Effect::Nothing;
        }
    }
    app.set_loading(true);
    Effect::FetchStories { story_type, page, page_size: app.page_size }
}

/// Carries out an action of the story list and tells what outside work it
/// needs: a page fetch after paging, switching kind or refreshing; the
/// comments of the selected story; a link to open.
pub fn handle_story_action(app: &mut App, action: StoryAction) -> (r: Effect)
    ensures
        match action {
            StoryAction::NextStory => r is Nothing && *final(app) == (App {
                selected_index: if old(app).selected_index + 1 < old(app).stories@.len() {
                    (old(app).selected_index + 1) as usize
                } else {
                    old(app).selected_index
                },
                ..*old(app)
            }),
            StoryAction::PrevStory => r is Nothing && *final(app) == (App {
                selected_index: if old(app).selected_index > 0 {
                    (old(app).selected_index - 1) as usize
                } else {
                    0
                },
                ..*old(app)
            }),
            StoryAction::NextPage => stories_requested(
                if old(app).current_page < u32::MAX {
                    App {
                        current_page: (old(app).current_page + 1) as u32,
                        selected_index: 0,
                        story_scroll: 0,
                        ..*old(app)
                    }
                } else {
                    *old(app)
                },
                *final(app),
                false,
                r,
            ),
            StoryAction::PrevPage => stories_requested(
                if old(app).current_page > 1 {
                    App {
                        current_page: (old(app).current_page - 1) as u32,
                        selected_index: 0,
                        story_scroll: 0,
                        ..*old(app)
                    }
                } else {
                    *old(app)
                },
                *final(app),
                false,
                r,
            ),
            StoryAction::SetType(t) => stories_requested(
                if old(app).story_type != t {
                    App { story_type: t, current_page: 1, selected_index: 0, story_scroll: 0, ..*old(app) }
                } else {
                    *old(app)
                },
                *final(app),
                false,
                r,
            ),
            StoryAction::OpenUrl => *final(app) == *old(app) && if old(app).selected_index
                < old(app).stories@.len() {
                r matches Effect::OpenUrl(u) && u@ == old(app).stories@[old(app).selected_index as int].url@
            } else {
                r is Nothing
            },
            StoryAction::ViewComments => if old(app).selected_index < old(app).stories@.len() {
                let s = old(app).stories@[old(app).selected_index as int];
                &&& r == (Effect::FetchComments { story_id: s.id })
                &&& final(app).view matches View::Comments { story_id, story_title, story_url }
                    && story_id == s.id && story_title@ == s.title@ && story_url@ == s.url@
                &&& final(app).comments@.len() == 0
                &&& final(app).visible_comments@.len() == 0
                &&& final(app).comment_cursor == 0
                &&& final(app).loading && final(app).error is None
                &&& *final(app) == (App {
                    view: final(app).view,
                    comments: final(app).comments,
                    visible_comments: final(app).visible_comments,
                    comment_cursor: 0,
                    loading: true,
                    error: None,
                    loading_since: final(app).loading_since,
                    ..*old(app)
                })
            } else {
                r is Nothing && *final(app) == *old(app)
            },
            StoryAction::Refresh => stories_requested(*old(app), *final(app), true, r),
            StoryAction::ToggleHelp => r is Nothing && *final(app) == (App {
                show_help: !old(app).show_help,
                ..*old(app)
            }),
            StoryAction::Quit => r is Nothing && *final(app) == (App { should_quit: true, ..*old(app) }),
            StoryAction::NoAction => r is Nothing && *final(app) == *old(app),
        },
{
    match action {
        StoryAction::NextStory => {
            app.next_story();
            Effect::Nothing
        },
        StoryAction::PrevStory => {
            app.prev_story();
            Effect::Nothing
        },
        StoryAction::NextPage => {
            app.next_page();
            request_stories(app, false)
        },
        StoryAction::PrevPage => {
            app.prev_page();
            request_stories(app, false)
        },
        StoryAction::SetType(t) => {
            app.set_story_type(t);
            request_stories(app, false)
        },
        StoryAction::OpenUrl => match app.selected_story() {
            Some(story) => Effect::OpenUrl(story.url.clone()),
            None => Effect::Nothing,
        },
        StoryAction::ViewComments => {
            if app.selected_index < app.stories.len() {
                let story = &app.stories[app.selected_index];
                let story_id = story.id;
                let story_title = story.title.clone();
                let story_url = story.url.clone();
                app.view_comments(story_id, story_title, story_url);
                Effect::FetchComments { story_id }
            } else {
                Effect::Nothing
            }
        },
        StoryAction::Refresh => request_stories(app, true),
        StoryAction::ToggleHelp => {
            app.toggle_help();
            Effect::Nothing
        },
        StoryAction::Quit => {
            app.should_quit = true;
            Effect::Nothing
        },
        StoryAction::NoAction => Effect::Nothing,
    }
}

/// Carries out an action of the comment view and tells what outside work
/// it needs: the children of a comment that starts loading, or the
/// story's link to open.
pub fn handle_comment_action(app: &mut App, action: CommentAction) -> (r: Effect)
    ensures
        match action {
            CommentAction::NextComment => r is Nothing && *final(app) == (App {
                comment_cursor: if old(app).comment_cursor + 1 < old(app).visible_comments@.len() {
                    (old(app).comment_cursor + 1) as usize
                } else {
                    old(app).comment_cursor
                },
                ..*old(app)
            }),
            CommentAction::PrevComment => r is Nothing && *final(app) == (App {
                comment_cursor: if old(app).comment_cursor > 0 {
                    (old(app).comment_cursor - 1) as usize
                } else {
                    0
                },
                ..*old(app)
            }),
            CommentAction::NextSibling => r is Nothing && next_sibling_moved(*old(app), *final(app)),
            CommentAction::PrevSibling => r is Nothing && prev_sibling_moved(*old(app), *final(app)),
            CommentAction::Parent => r is Nothing && parent_moved(*old(app), *final(app)),
            CommentAction::FirstComment => r is Nothing && *final(app) == (App {
                comment_cursor: 0,
                ..*old(app)
            }),
            CommentAction::LastComment => r is Nothing && *final(app) == (App {
                comment_cursor: if old(app).visible_comments@.len() > 0 {
                    (old(app).visible_comments@.len() - 1) as usize
                } else {
                    old(app).comment_cursor
                },
                ..*old(app)
            }),
            CommentAction::ToggleExpand => match r {
                Effect::FetchChildren(f) => toggled(*old(app), *final(app), Some(f)),
                Effect::Nothing => toggled(*old(app), *final(app), None),
                _ => false,
            },
            CommentAction::CollapseThread => r is Nothing && thread_collapsed(*old(app), *final(app)),
            CommentAction::OpenUrl => *final(app) == *old(app) && match old(app).view {
                View::Comments { story_url, .. } => r matches Effect::OpenUrl(u) && u@ == story_url@,
                View::Stories => r is Nothing,
            },
            CommentAction::ToggleHelp => r is Nothing && *final(app) == (App {
                show_help: !old(app).show_help,
                ..*old(app)
            }),
            CommentAction::Back => {
                &&& r is Nothing
                &&& final(app).view is Stories
                &&& final(app).comments@.len() == 0
                &&& final(app).visible_comments@.len() == 0
                &&& *final(app) == (App {
                    view: View::Stories,
                    comments: final(app).comments,
                    visible_comments: final(app).visible_comments,
                    comment_cursor: 0,
                    ..*old(app)
                })
            },
            CommentAction::NoAction => r is Nothing && *final(app) == *old(app),
        },
{
    match action {
        CommentAction::NextComment => {
            app.next_comment();
            Effect::Nothing
        },
        CommentAction::PrevComment => {
            app.prev_comment();
            Effect::Nothing
        },
        CommentAction::NextSibling => {
            app.next_comment_sibling();
            Effect::Nothing
        },
        CommentAction::PrevSibling => {
            app.prev_comment_sibling();
            Effect::Nothing
        },
        CommentAction::Parent => {
            app.parent_comment();
            Effect::Nothing
        },
        CommentAction::FirstComment => {
            app.first_comment();
            Effect::Nothing
        },
        CommentAction::LastComment => {
            app.last_comment();
            Effect::Nothing
        },
        CommentAction::ToggleExpand => match app.toggle_selected_comment() {
            Some(f) => Effect::FetchChildren(f),
            None => Effect::Nothing,
        },
        CommentAction::CollapseThread => {
            app.collapse_current_thread();
            Effect::Nothing
        },
        CommentAction::OpenUrl => match &app.view {
            View::Comments { story_url, .. } => Effect::OpenUrl(story_url.clone()),
            View::Stories => Effect::Nothing,
        },
        CommentAction::ToggleHelp => {
            app.toggle_help();
            Effect::Nothing
        },
        CommentAction::Back => {
            app.view_stories();
            Effect::Nothing
        },
        CommentAction::NoAction => Effect::Nothing,
    }
}

} // verus!
