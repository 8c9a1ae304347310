use hn_lib::app::{story_cache_key, App, Comment, CommentState, StoryType, View};
use hn_lib::client::{comment_from_item, page_ids, HackerNewsItem};
use hn_lib::control::{
    handle_app_message, handle_comment_action, handle_story_action, request_stories, AppMessage,
    Effect,
};
use hn_lib::event::{handle_stories_key, CommentAction, Key, StoryAction};
use hn_lib::HNCLIItem;

fn story(id: i32) -> HNCLIItem {
    HNCLIItem {
        id,
        title: format!("Story {}", id),
        url: format!("https://example.com/{}", id),
        author: "someone".to_string(),
        time: "2023-01-01 00:00:00".to_string(),
        time_ago: "1 hours ago".to_string(),
        score: id * 10,
        comments: Some(id),
    }
}

fn node(id: i32, depth: usize, state: CommentState, child_ids: Vec<i32>) -> Comment {
    Comment {
        id,
        author: format!("user{}", id),
        text: format!("comment {}", id),
        time_ago: "now".to_string(),
        state,
        depth,
        deleted: false,
        child_ids,
    }
}

fn ids_of(app: &App) -> Vec<i32> {
    app.visible_comments.iter().map(|(_, c)| c.id).collect()
}

/// top(1) expanded -> reply(2) expanded -> nested(3) in `nested_state`; sibling top(4).
fn three_levels(nested_state: CommentState) -> App {
    let nested = node(3, 2, nested_state, vec![9]);
    let reply = node(2, 1, CommentState::Expanded { children: vec![nested] }, vec![3]);
    let top = node(1, 0, CommentState::Expanded { children: vec![reply] }, vec![2]);
    let other = node(4, 0, CommentState::Collapsed, vec![]);
    let mut app = App::new();
    app.set_comments(vec![top, other]);
    app
}

#[test]
fn pages_of_twenty_five_ids() {
    let ids: Vec<i32> = (0..25).collect();
    assert_eq!(page_ids(&ids, 10, 1), (0..10).collect::<Vec<i32>>());
    assert_eq!(page_ids(&ids, 10, 3), vec![20, 21, 22, 23, 24]);
    assert!(page_ids(&ids, 10, 4).is_empty());
}

#[test]
fn stale_page_is_cached_but_not_shown() {
    let mut app = App::new();
    app.set_story_type(StoryType::Top);
    app.apply_stories_page(StoryType::Top, 1, vec![story(1)]);
    assert_eq!(app.stories_for, Some((StoryType::Top, 1)));
    app.next_page();
    let effect = request_stories(&mut app, false);
    assert!(matches!(effect, Effect::FetchStories { story_type: StoryType::Top, page: 2, page_size: 20 }));
    assert!(app.loading);
    assert!(app.showing_stale_stories());

    app.apply_stories_page(StoryType::Top, 1, vec![story(7), story(8)]);
    let cached = app.story_cache.get(&story_cache_key(StoryType::Top, 1)).unwrap();
    assert_eq!(cached.len(), 2);
    assert_eq!(cached[0].id, 7);
    assert_eq!(app.stories.len(), 1);
    assert_eq!(app.stories[0].id, 1);
    assert!(app.loading);
    assert!(app.showing_stale_stories());
    assert_eq!(app.displayed_story_context(), (StoryType::Top, 1));

    app.apply_stories_page(StoryType::Top, 2, vec![story(3)]);
    assert!(!app.loading);
    assert!(!app.showing_stale_stories());
    assert_eq!(app.stories[0].id, 3);
}

#[test]
fn failed_child_fetch_reverts_to_collapsed() {
    let mut app = App::new();
    app.set_comments(vec![node(1, 0, CommentState::Collapsed, vec![5, 6])]);
    let effect = handle_comment_action(&mut app, CommentAction::ToggleExpand);
    match effect {
        Effect::FetchChildren(f) => {
            assert_eq!(f.comment_id, 1);
            assert_eq!(f.ids, vec![5, 6]);
            assert_eq!(f.depth, 1);
        }
        _ => panic!("a fetch of the children was expected"),
    }
    assert!(app.comments[0].is_loading());
    assert!(app.visible_comments[0].1.is_loading());

    handle_app_message(
        &mut app,
        AppMessage::CommentChildrenLoaded { comment_id: 1, result: Err("timed out".to_string()) },
    );
    assert!(matches!(app.comments[0].state, CommentState::Collapsed));
    assert_eq!(app.error.as_deref(), Some("Failed to load comment children: timed out"));
    assert_eq!(app.comments[0].child_ids, vec![5, 6]);
}

#[test]
fn collapse_thread_from_depth_two() {
    let mut app = three_levels(CommentState::Collapsed);
    assert_eq!(ids_of(&app), vec![1, 2, 3, 4]);
    app.comment_cursor = 2;
    app.collapse_current_thread();
    assert_eq!(ids_of(&app), vec![1, 2, 4]);
    assert!(matches!(app.comments[0].state, CommentState::Expanded { .. }));
    match &app.comments[0].state {
        CommentState::Expanded { children } => assert!(matches!(children[0].state, CommentState::Collapsed)),
        _ => unreachable!(),
    }
    assert_eq!(app.comment_cursor, 2);

    let mut app = three_levels(CommentState::Collapsed);
    app.set_comments(vec![three_levels(CommentState::Collapsed).comments.remove(0)]);
    app.comment_cursor = 2;
    app.collapse_current_thread();
    assert_eq!(ids_of(&app), vec![1, 2]);
    assert_eq!(app.comment_cursor, 1);
}

#[test]
fn collapse_thread_takes_loading_node_itself() {
    let mut app = three_levels(CommentState::Loading);
    app.comment_cursor = 2;
    app.collapse_current_thread();
    assert_eq!(ids_of(&app), vec![1, 2, 3, 4]);
    assert!(!app.visible_comments[2].1.is_loading());
    assert_eq!(app.comment_cursor, 2);
}

#[test]
fn collapse_thread_without_open_ancestor_does_nothing() {
    let mut app = App::new();
    app.set_comments(vec![node(1, 0, CommentState::Collapsed, vec![2])]);
    app.collapse_current_thread();
    assert_eq!(ids_of(&app), vec![1]);
    assert!(matches!(app.comments[0].state, CommentState::Collapsed));
}

#[test]
fn childless_toggle_stays_collapsed() {
    let mut app = App::new();
    app.set_comments(vec![node(1, 0, CommentState::Collapsed, vec![])]);
    assert!(app.toggle_selected_comment().is_none());
    assert!(matches!(app.comments[0].state, CommentState::Collapsed));
    assert!(!app.comments[0].has_children());
    assert_eq!(app.comments[0].child_count(), 0);
}

#[test]
fn loading_toggle_is_ignored() {
    let mut app = App::new();
    app.set_comments(vec![node(1, 0, CommentState::Loading, vec![2])]);
    assert!(app.toggle_selected_comment().is_none());
    assert!(app.comments[0].is_loading());
}

#[test]
fn rebuild_twice_gives_the_same_projection() {
    let mut app = three_levels(CommentState::Collapsed);
    app.rebuild_visible_comments();
    let first: Vec<(Vec<usize>, i32)> =
        app.visible_comments.iter().map(|(p, c)| (p.clone(), c.id)).collect();
    app.rebuild_visible_comments();
    let second: Vec<(Vec<usize>, i32)> =
        app.visible_comments.iter().map(|(p, c)| (p.clone(), c.id)).collect();
    assert_eq!(first, second);
    assert_eq!(
        first,
        vec![(vec![0], 1), (vec![0, 0], 2), (vec![0, 0, 0], 3), (vec![1], 4)]
    );
}

#[test]
fn expand_then_collapse_keeps_child_ids() {
    let mut app = App::new();
    app.set_comments(vec![node(1, 0, CommentState::Collapsed, vec![5, 6])]);
    handle_comment_action(&mut app, CommentAction::ToggleExpand);
    let children = vec![node(5, 1, CommentState::Collapsed, vec![]), node(6, 1, CommentState::Collapsed, vec![])];
    handle_app_message(&mut app, AppMessage::CommentChildrenLoaded { comment_id: 1, result: Ok(children) });
    assert!(app.comments[0].is_expanded());
    assert_eq!(ids_of(&app), vec![1, 5, 6]);
    assert!(!app.loading);
    app.comment_cursor = 0;
    app.toggle_selected_comment();
    assert!(matches!(app.comments[0].state, CommentState::Collapsed));
    assert_eq!(app.comments[0].child_ids, vec![5, 6]);
    assert_eq!(ids_of(&app), vec![1]);
}

#[test]
fn parent_from_reply_and_top_level() {
    let mut app = three_levels(CommentState::Collapsed);
    app.comment_cursor = 1;
    app.parent_comment();
    assert_eq!(app.comment_cursor, 0);
    app.comment_cursor = 3;
    app.parent_comment();
    assert_eq!(app.comment_cursor, 3);
    app.comment_cursor = 2;
    app.parent_comment();
    assert_eq!(app.comment_cursor, 1);
}

#[test]
fn sibling_moves_and_stays() {
    let mut app = three_levels(CommentState::Collapsed);
    app.comment_cursor = 0;
    app.next_comment_sibling();
    assert_eq!(app.comment_cursor, 3);
    app.next_comment_sibling();
    assert_eq!(app.comment_cursor, 3);
    app.prev_comment_sibling();
    assert_eq!(app.comment_cursor, 0);
    app.prev_comment_sibling();
    assert_eq!(app.comment_cursor, 0);
    app.comment_cursor = 2;
    app.next_comment_sibling();
    assert_eq!(app.comment_cursor, 2);
}

#[test]
fn comment_cursor_moves_within_bounds() {
    let mut app = three_levels(CommentState::Collapsed);
    app.last_comment();
    assert_eq!(app.comment_cursor, 3);
    app.next_comment();
    assert_eq!(app.comment_cursor, 3);
    app.first_comment();
    assert_eq!(app.comment_cursor, 0);
    app.prev_comment();
    assert_eq!(app.comment_cursor, 0);
    app.next_comment();
    assert_eq!(app.comment_cursor, 1);
}

#[test]
fn story_scroll_follows_cursor() {
    let mut app = App::new();
    app.stories = (1..=20).map(story).collect();
    app.selected_index = 12;
    app.update_story_scroll(6);
    assert_eq!(app.story_scroll, 8);
    app.selected_index = 3;
    app.update_story_scroll(6);
    assert_eq!(app.story_scroll, 3);
    app.selected_index = 5;
    app.update_story_scroll(0);
    assert_eq!(app.story_scroll, 5);
}

#[test]
fn comment_scroll_keeps_entry_visible() {
    let mut app = App::new();
    let ranges = vec![(0, 4), (4, 10), (10, 12), (12, 30)];
    app.comment_cursor = 1;
    app.update_comment_scroll(&ranges, 5);
    assert_eq!(app.comment_scroll, 5);
    app.comment_cursor = 0;
    app.update_comment_scroll(&ranges, 5);
    assert_eq!(app.comment_scroll, 0);
    app.comment_cursor = 3;
    app.update_comment_scroll(&ranges, 5);
    assert_eq!(app.comment_scroll, 25);
    app.comment_scroll = 40;
    app.comment_cursor = 3;
    app.update_comment_scroll(&ranges, 5);
    assert_eq!(app.comment_scroll, 12);
    app.comment_cursor = 9;
    app.update_comment_scroll(&ranges, 5);
    assert_eq!(app.comment_scroll, 0);
}

#[test]
fn failed_story_page_is_reported_only_when_selected() {
    let mut app = App::new();
    app.stories = vec![story(1)];
    handle_app_message(
        &mut app,
        AppMessage::StoriesLoaded { story_type: StoryType::New, page: 1, result: Err("down".to_string()) },
    );
    assert!(app.error.is_none());
    assert_eq!(app.stories.len(), 1);
    handle_app_message(
        &mut app,
        AppMessage::StoriesLoaded { story_type: StoryType::Best, page: 1, result: Err("down".to_string()) },
    );
    assert_eq!(app.error.as_deref(), Some("Failed to load stories: down"));
    assert!(app.stories.is_empty());
    assert!(!app.loading);
}

#[test]
fn comments_loaded_or_failed() {
    let mut app = App::new();
    app.view_comments(42, "T".to_string(), "https://t".to_string());
    assert!(app.loading);
    handle_app_message(
        &mut app,
        AppMessage::CommentsLoaded { story_id: 41, result: Err("other story".to_string()) },
    );
    assert!(app.error.is_none());
    assert!(app.loading);
    handle_app_message(
        &mut app,
        AppMessage::CommentsLoaded { story_id: 42, result: Err("gone".to_string()) },
    );
    assert_eq!(app.error.as_deref(), Some("Failed to load comments: gone"));
    assert!(app.comments.is_empty());
    handle_app_message(
        &mut app,
        AppMessage::CommentsLoaded { story_id: 42, result: Ok(vec![node(1, 0, CommentState::Collapsed, vec![])]) },
    );
    assert!(app.error.is_none());
    assert_eq!(ids_of(&app), vec![1]);
    assert!(!app.loading);
}

#[test]
fn cached_page_is_shown_without_fetch() {
    let mut app = App::new();
    app.apply_stories_page(StoryType::Best, 2, vec![story(5), story(6)]);
    assert!(app.stories.is_empty());
    let effect = handle_story_action(&mut app, StoryAction::NextPage);
    assert!(matches!(effect, Effect::Nothing));
    assert_eq!(app.current_page, 2);
    assert_eq!(app.stories.len(), 2);
    assert_eq!(app.cached_stories().unwrap()[1].id, 6);
    let effect = handle_story_action(&mut app, StoryAction::Refresh);
    assert!(matches!(effect, Effect::FetchStories { story_type: StoryType::Best, page: 2, page_size: 20 }));
    assert!(app.cached_stories().is_none());
}

#[test]
fn story_actions_switch_views() {
    let mut app = App::new();
    app.set_stories(vec![story(1), story(2)]);
    let effect = handle_story_action(&mut app, handle_stories_key(Key::Char('3')));
    assert!(matches!(effect, Effect::FetchStories { .. }) || matches!(effect, Effect::Nothing));
    app.set_stories(vec![story(1), story(2)]);
    app.next_story();
    match handle_story_action(&mut app, StoryAction::OpenUrl) {
        Effect::OpenUrl(u) => assert_eq!(u, "https://example.com/2"),
        _ => panic!("a link was expected"),
    }
    match handle_story_action(&mut app, StoryAction::ViewComments) {
        Effect::FetchComments { story_id } => assert_eq!(story_id, 2),
        _ => panic!("a comment fetch was expected"),
    }
    assert!(matches!(app.view, View::Comments { story_id: 2, .. }));
    match handle_comment_action(&mut app, CommentAction::OpenUrl) {
        Effect::OpenUrl(u) => assert_eq!(u, "https://example.com/2"),
        _ => panic!("a link was expected"),
    }
    handle_comment_action(&mut app, CommentAction::ToggleHelp);
    assert!(app.show_help);
    handle_comment_action(&mut app, CommentAction::Back);
    assert!(matches!(app.view, View::Stories));
    handle_story_action(&mut app, StoryAction::Quit);
    assert!(app.should_quit);
}

#[test]
fn set_story_type_keeps_page_for_same_kind() {
    let mut app = App::new();
    app.next_page();
    app.selected_index = 4;
    app.set_story_type(StoryType::Best);
    assert_eq!(app.current_page, 2);
    assert_eq!(app.selected_index, 4);
    assert_eq!(StoryType::Top.display_name(), "Top");
}

#[test]
fn set_stories_clamps_cursor() {
    let mut app = App::new();
    app.selected_index = 9;
    app.set_stories(vec![story(1), story(2), story(3)]);
    assert_eq!(app.selected_index, 2);
    assert!(app.selected_story().is_some());
    app.set_error("boom".to_string());
    assert_eq!(app.error.as_deref(), Some("boom"));
    app.clear_error();
    assert!(app.error.is_none());
}

#[test]
fn loading_indicator_is_debounced() {
    let mut app = App::new();
    assert!(app.loading);
    assert!(!app.shows_loading_after(100));
    assert!(app.shows_loading_after(150));
    app.set_loading(false);
    assert!(!app.shows_loading_after(1000));
    assert!(!app.should_show_loading());
    app.loading = true;
    app.loading_since = None;
    assert!(app.should_show_loading());
}

#[test]
fn comment_made_from_item() {
    let item = HackerNewsItem {
        by: "pg".to_string(),
        score: 0,
        time: 1000,
        title: String::new(),
        url: None,
        descendants: None,
        id: 17,
        kids: Some(vec![18, 19]),
        item_type: "comment".to_string(),
        text: Some("Tom &amp; Jerry<p>see <a href=\"x\">this</a> ".to_string()),
        deleted: false,
        dead: true,
    };
    let c = comment_from_item(item, 3, 1000 + 7200);
    assert_eq!(c.id, 17);
    assert_eq!(c.text, "Tom & Jerry\n\nsee this");
    assert_eq!(c.time_ago, "2 hours ago");
    assert_eq!(c.depth, 3);
    assert!(c.deleted);
    assert_eq!(c.child_ids, vec![18, 19]);
    assert!(matches!(c.state, CommentState::Collapsed));
}

#[test]
fn story_scroll_stops_at_last_screenful() {
    let mut app = App::new();
    app.stories = (1..=10).map(story).collect();
    app.selected_index = 8;
    app.story_scroll = 9;
    app.update_story_scroll(6);
    assert_eq!(app.story_scroll, 5);
    app.stories.clear();
    app.selected_index = 0;
    app.update_story_scroll(6);
    assert_eq!(app.story_scroll, 0);
}

#[test]
fn late_comments_for_a_left_story_are_dropped() {
    let mut app = App::new();
    app.view_comments(7, "T".to_string(), "https://t".to_string());
    app.view_stories();
    handle_app_message(
        &mut app,
        AppMessage::CommentsLoaded { story_id: 7, result: Ok(vec![node(1, 0, CommentState::Collapsed, vec![])]) },
    );
    assert!(app.comments.is_empty());
    assert!(app.visible_comments.is_empty());
}

#[test]
fn rebuild_clamps_cursor() {
    let mut app = three_levels(CommentState::Collapsed);
    app.comment_cursor = 5;
    app.set_comments(Vec::new());
    assert_eq!(app.comment_cursor, 0);
    let mut app = three_levels(CommentState::Collapsed);
    app.comment_cursor = 9;
    app.rebuild_visible_comments();
    assert_eq!(app.comment_cursor, 3);
}

#[test]
fn selected_comment_follows_cursor() {
    let mut app = three_levels(CommentState::Collapsed);
    app.comment_cursor = 2;
    assert_eq!(app.selected_comment().unwrap().id, 3);
    app.comment_cursor = 3;
    assert_eq!(app.selected_comment().unwrap().id, 4);
    app.comment_cursor = 10;
    assert!(app.selected_comment().is_none());
}

#[test]
fn loading_start_is_the_given_instant() {
    let mut app = App::new();
    app.set_error("e".to_string());
    let t = std::time::Instant::now();
    app.set_loading_at(true, t);
    assert!(app.loading);
    assert_eq!(app.loading_since, Some(t));
    assert!(app.error.is_none());
    app.set_loading_at(false, t);
    assert!(app.loading_since.is_none());
}
