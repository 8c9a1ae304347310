use hn_lib::app::{App, Comment, CommentState, StoryType};
use hn_lib::HNCLIItem;

fn story(id: i32, title: &str, author: &str, time_ago: &str, score: i32, comments: i32) -> HNCLIItem {
    HNCLIItem {
        id,
        title: title.to_string(),
        url: "http://example.com".to_string(),
        author: author.to_string(),
        time: "2023-01-01".to_string(),
        time_ago: time_ago.to_string(),
        score,
        comments: Some(comments),
    }
}

fn leaf(id: i32, author: &str, text: &str, time_ago: &str, depth: usize) -> Comment {
    Comment {
        id,
        author: author.to_string(),
        text: text.to_string(),
        time_ago: time_ago.to_string(),
        state: CommentState::Collapsed,
        depth,
        deleted: false,
        child_ids: Vec::new(),
    }
}

#[test]
fn test_story_type_conversion() {
    assert_eq!(StoryType::Best.as_str(), "best");
    assert_eq!(StoryType::New.as_str(), "new");
    assert_eq!(StoryType::Top.as_str(), "top");
}

#[test]
fn test_app_navigation() {
    let mut app = App::new();
    app.stories = vec![
        story(1, "Story 1", "user1", "1h ago", 100, 10),
        story(2, "Story 2", "user2", "2h ago", 200, 20),
    ];

    assert_eq!(app.selected_index, 0);
    app.next_story();
    assert_eq!(app.selected_index, 1);
    app.next_story();
    assert_eq!(app.selected_index, 1);
    app.prev_story();
    assert_eq!(app.selected_index, 0);
}

#[test]
fn test_page_navigation() {
    let mut app = App::new();
    assert_eq!(app.current_page, 1);

    app.next_page();
    assert_eq!(app.current_page, 2);

    app.prev_page();
    assert_eq!(app.current_page, 1);

    app.prev_page();
    assert_eq!(app.current_page, 1);
}

#[test]
fn test_story_type_switch() {
    let mut app = App::new();
    app.selected_index = 5;
    app.current_page = 3;

    app.set_story_type(StoryType::New);
    assert_eq!(app.story_type, StoryType::New);
    assert_eq!(app.selected_index, 0);
    assert_eq!(app.current_page, 1);
}

#[test]
fn test_next_comment_sibling_skips_thread() {
    let child_a = leaf(2, "child_a", "First child", "1m ago", 1);
    let child_b = leaf(3, "child_b", "Second child", "2m ago", 1);

    let top_level_a = Comment {
        id: 1,
        author: "parent".to_string(),
        text: "Parent".to_string(),
        time_ago: "now".to_string(),
        state: CommentState::Expanded {
            children: vec![child_a.clone(), child_b.clone()],
        },
        depth: 0,
        deleted: false,
        child_ids: vec![child_a.id, child_b.id],
    };

    let top_level_b = leaf(4, "sibling", "Top-level sibling", "5m ago", 0);

    let mut app = App::new();
    app.set_comments(vec![top_level_a, top_level_b.clone()]);

    app.next_comment_sibling();
    assert_eq!(app.visible_comments[app.comment_cursor].1.id, top_level_b.id);

    app.comment_cursor = 1;
    app.next_comment_sibling();
    assert_eq!(app.visible_comments[app.comment_cursor].1.id, child_b.id);

    app.comment_cursor = app.visible_comments.len() - 1;
    app.next_comment_sibling();
    assert_eq!(app.visible_comments[app.comment_cursor].1.id, top_level_b.id);
}

#[test]
fn test_prev_comment_sibling_moves_up() {
    let child_a = leaf(2, "child_a", "First child", "1m ago", 1);
    let child_b = leaf(3, "child_b", "Second child", "2m ago", 1);

    let top_level = Comment {
        id: 1,
        author: "parent".to_string(),
        text: "Parent".to_string(),
        time_ago: "now".to_string(),
        state: CommentState::Expanded {
            children: vec![child_a.clone(), child_b.clone()],
        },
        depth: 0,
        deleted: false,
        child_ids: vec![child_a.id, child_b.id],
    };

    let mut app = App::new();
    app.set_comments(vec![top_level]);

    app.comment_cursor = 2;
    app.prev_comment_sibling();
    assert_eq!(app.visible_comments[app.comment_cursor].1.id, child_a.id);
}

#[test]
fn test_parent_comment_navigates_up_tree() {
    let child = leaf(2, "child", "Child", "1m ago", 1);

    let parent = Comment {
        id: 1,
        author: "parent".to_string(),
        text: "Parent".to_string(),
        time_ago: "now".to_string(),
        state: CommentState::Expanded {
            children: vec![child.clone()],
        },
        depth: 0,
        deleted: false,
        child_ids: vec![child.id],
    };

    let mut app = App::new();
    app.set_comments(vec![parent]);

    app.comment_cursor = 1;
    app.parent_comment();
    assert_eq!(app.visible_comments[app.comment_cursor].1.id, 1);

    app.parent_comment();
    assert_eq!(app.visible_comments[app.comment_cursor].1.id, 1);
}
