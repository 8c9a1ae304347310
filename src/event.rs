//! Keyboard input: the keys the application reacts to and the actions
//! they stand for in each view.

use crate::app::StoryType;
use std::time::Duration;
use vstd::prelude::*;

verus! {

/// A key press, as far as the application tells keys apart.
#[derive(Debug, Clone, Copy, PartialEq, Eq, Structural)]
pub enum Key {
    Char(char),
    Up,
    Down,
    Left,
    Right,
    Enter,
    Esc,
    /// Any other key
    Other,
}

/// Paces the polling of input.
pub struct EventHandler {
    tick_rate: Duration,
}

impl EventHandler {
    /// A handler that waits at most `tick_rate` for a key.
    pub fn new(tick_rate: Duration) -> (r: Self)
        ensures
            r.tick_rate() == tick_rate,
    {
        Self { tick_rate }
    }

    pub closed spec fn tick_rate(&self) -> Duration {
        self.tick_rate
    }

    /// How long a poll waits for a key.
    pub fn tick(&self) -> (r: Duration)
        ensures
            r == self.tick_rate(),
    {
        self.tick_rate
    }
}

/// Actions of the story list.
#[derive(Debug, Clone, Copy, PartialEq, Eq, Structural)]
pub enum StoryAction {
    NextStory,
    PrevStory,
    NextPage,
    PrevPage,
    SetType(StoryType),
    OpenUrl,
    ViewComments,
    Refresh,
    ToggleHelp,
    Quit,
    NoAction,
}

/// Actions of the comment view.
#[derive(Debug, Clone, Copy, PartialEq, Eq, Structural)]
pub enum CommentAction {
    NextComment,
    PrevComment,
    FirstComment,
    LastComment,
    NextSibling,
    PrevSibling,
    Parent,
    ToggleExpand,
    CollapseThread,
    OpenUrl,
    ToggleHelp,
    Back,
    NoAction,
}

/// The story-list action bound to a key.
pub open spec fn story_action_of(key: Key) -> StoryAction {
    match key {
        Key::Char('j') | Key::Down => StoryAction::NextStory,
        Key::Char('k') | Key::Up => StoryAction::PrevStory,
        Key::Char('n') | Key::Right => StoryAction::NextPage,
        Key::Char('p') | Key::Left => StoryAction::PrevPage,
        Key::Char('1') => StoryAction::SetType(StoryType::Top),
        Key::Char('2') => StoryAction::SetType(StoryType::New),
        Key::Char('3') => StoryAction::SetType(StoryType::Best),
        Key::Enter | Key::Char('o') => StoryAction::OpenUrl,
        Key::Char('c') => StoryAction::ViewComments,
        Key::Char('r') => StoryAction::Refresh,
        Key::Char('?') => StoryAction::ToggleHelp,
        Key::Char('q') | Key::Esc => StoryAction::Quit,
        _ => StoryAction::NoAction,
    }
}

/// The comment-view action bound to a key.
pub open spec fn comment_action_of(key: Key) -> CommentAction {
    match key {
        Key::Char('j') | Key::Down => CommentAction::NextComment,
        Key::Char('k') | Key::Up => CommentAction::PrevComment,
        Key::Char(']') => CommentAction::NextSibling,
        Key::Char('[') => CommentAction::PrevSibling,
        Key::Char('u') => CommentAction::Parent,
        Key::Char('g') => CommentAction::FirstComment,
        Key::Char('G') => CommentAction::LastComment,
        Key::Enter | Key::Char('l') | Key::Right => CommentAction::ToggleExpand,
        Key::Char('c') => CommentAction::CollapseThread,
        Key::Char('o') => CommentAction::OpenUrl,
        Key::Char('?') => CommentAction::ToggleHelp,
        Key::Char('q') | Key::Esc | Key::Char('h') | Key::Left => CommentAction::Back,
        _ => CommentAction::NoAction,
    }
}

/// Maps a key of the story list to its action.
pub fn handle_stories_key(key: Key) -> (r: StoryAction)
    ensures
        r == story_action_of(key),
{
    match key {
        Key::Char('j') | Key::Down => StoryAction::NextStory,
        Key::Char('k') | Key::Up => StoryAction::PrevStory,
        Key::Char('n') | Key::Right => StoryAction::NextPage,
        Key::Char('p') | Key::Left => StoryAction::PrevPage,
        Key::Char('1') => StoryAction::SetType(StoryType::Top),
        Key::Char('2') => StoryAction::SetType(StoryType::New),
        Key::Char('3') => StoryAction::SetType(StoryType::Best),
        Key::Enter | Key::Char('o') => StoryAction::OpenUrl,
        Key::Char('c') => StoryAction::ViewComments,
        Key::Char('r') => StoryAction::Refresh,
        Key::Char('?') => StoryAction::ToggleHelp,
        Key::Char('q') | Key::Esc => StoryAction::Quit,
        _ => StoryAction::NoAction,
    }
}

/// Maps a key of the comment view to its action.
pub fn handle_comments_key(key: Key) -> (r: CommentAction)
    ensures
        r == comment_action_of(key),
{
    match key {
        Key::Char('j') | Key::Down => CommentAction::NextComment,
        Key::Char('k') | Key::Up => CommentAction::PrevComment,
        Key::Char(']') => CommentAction::NextSibling,
        Key::Char('[') => CommentAction::PrevSibling,
        Key::Char('u') => CommentAction::Parent,
        Key::Char('g') => CommentAction::FirstComment,
        Key::Char('G') => CommentAction::LastComment,
        Key::Enter | Key::Char('l') | Key::Right => CommentAction::ToggleExpand,
        Key::Char('c') => CommentAction::CollapseThread,
        Key::Char('o') => CommentAction::OpenUrl,
        Key::Char('?') => CommentAction::ToggleHelp,
        Key::Char('q') | Key::Esc | Key::Char('h') | Key::Left => CommentAction::Back,
        _ => CommentAction::NoAction,
    }
}

} // verus!
