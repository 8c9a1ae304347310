use hn_lib::event::{handle_comments_key, handle_stories_key, CommentAction, Key, StoryAction};

#[test]
fn test_story_key_mapping() {
    assert!(matches!(handle_stories_key(Key::Char('j')), StoryAction::NextStory));
    assert!(matches!(handle_stories_key(Key::Down), StoryAction::NextStory));
    assert!(matches!(handle_stories_key(Key::Char('q')), StoryAction::Quit));
}

#[test]
fn test_comment_key_mapping() {
    assert!(matches!(handle_comments_key(Key::Char('j')), CommentAction::NextComment));
    assert!(matches!(handle_comments_key(Key::Char(']')), CommentAction::NextSibling));
    assert!(matches!(handle_comments_key(Key::Char('[')), CommentAction::PrevSibling));
    assert!(matches!(handle_comments_key(Key::Char('u')), CommentAction::Parent));
    assert!(matches!(handle_comments_key(Key::Enter), CommentAction::ToggleExpand));
    assert!(matches!(handle_comments_key(Key::Esc), CommentAction::Back));
}
