use hn_lib::app::{App, Comment, CommentState};
use hn_lib::client::{get_item_url, HackerNewsClientConfig, HackerNewsItem};
use hn_lib::text::{
    branch_guides, clean_markup, decimal_string, decode_html, guides_to_prefix, spinner_frame,
    time_ago_at, trim_text,
};
use hn_lib::HNCLIItem;

#[test]
fn age_labels_at_each_unit() {
    assert_eq!(time_ago_at(1000, 1000), "0 seconds ago");
    assert_eq!(time_ago_at(1059, 1000), "59 seconds ago");
    assert_eq!(time_ago_at(1000 + 3599, 1000), "59 minutes ago");
    assert_eq!(time_ago_at(1000 + 86399, 1000), "23 hours ago");
    assert_eq!(time_ago_at(1000 + 604799, 1000), "6 days ago");
    assert_eq!(time_ago_at(1000 + 3 * 604800, 1000), "3 weeks ago");
    assert_eq!(time_ago_at(10, 20), "0 seconds ago");
}

#[test]
fn decimal_notation() {
    assert_eq!(decimal_string(0), "0");
    assert_eq!(decimal_string(907), "907");
    assert_eq!(decimal_string(u64::MAX), "18446744073709551615");
}

#[test]
fn markup_is_removed() {
    assert_eq!(clean_markup("a<p>b<i>c</i>"), "a\n\nbc");
    assert_eq!(clean_markup("x > y"), "x  y");
    assert_eq!(decode_html("  &lt;p&gt;hi &quot;there&quot;  "), "hi \"there\"");
    assert_eq!(decode_html("<p>"), "");
}

#[test]
fn story_text_without_comment_count() {
    let item = HNCLIItem {
        id: 1,
        title: "T".to_string(),
        url: "u".to_string(),
        author: "a".to_string(),
        time: String::new(),
        time_ago: "now".to_string(),
        score: -3,
        comments: None,
    };
    assert_eq!(item.to_string(), "T by a\n[-3 points] -  - now\n-> u");
}

#[test]
fn item_url_falls_back_to_discussion_page() {
    let item = HackerNewsItem {
        by: String::new(),
        score: 0,
        time: 0,
        title: String::new(),
        url: None,
        descendants: None,
        id: 8863,
        kids: None,
        item_type: "story".to_string(),
        text: None,
        deleted: false,
        dead: false,
    };
    let config = HackerNewsClientConfig::default();
    assert_eq!(config.timeout, 10);
    assert_eq!(config.user_agent, "hn-cli");
    assert_eq!(
        get_item_url(&item, &config.yc_url),
        "https://news.ycombinator.com/item?id=8863"
    );
}

#[test]
fn spinner_cycles() {
    assert_eq!(spinner_frame(0), "⠋");
    assert_eq!(spinner_frame(11), "⠙");
    assert_eq!(spinner_frame(19), "⠏");
}

#[test]
fn guides_and_prefixes() {
    assert_eq!(guides_to_prefix(&[], true), "");
    assert_eq!(guides_to_prefix(&[false, true], true), "│ └─  ");
    assert_eq!(guides_to_prefix(&[true, false], false), "  │   ");

    let leaf = |id: i32| Comment {
        id,
        author: String::new(),
        text: String::new(),
        time_ago: String::new(),
        state: CommentState::Collapsed,
        depth: 1,
        deleted: false,
        child_ids: Vec::new(),
    };
    let top = Comment {
        id: 1,
        author: String::new(),
        text: String::new(),
        time_ago: String::new(),
        state: CommentState::Expanded { children: vec![leaf(2), leaf(3)] },
        depth: 0,
        deleted: false,
        child_ids: vec![2, 3],
    };
    let mut app = App::new();
    app.set_comments(vec![top, leaf(4)]);
    assert_eq!(branch_guides(&app, &[0, 0]), vec![false, false]);
    assert_eq!(branch_guides(&app, &[0, 1]), vec![false, true]);
    assert_eq!(branch_guides(&app, &[1]), vec![true]);
    assert_eq!(branch_guides(&app, &[1, 0]), vec![true]);
}

#[test]
fn trim_agrees_with_std() {
    let samples = [
        "",
        "   ",
        "  a b  ",
        "\u{3000}x\u{a0}\n",
        "\u{85}\t y \u{2029}",
        "\u{200b}z\u{200b}",
        "\u{180e}w",
        "inner  space",
    ];
    for s in samples {
        assert_eq!(trim_text(s), s.trim(), "{:?}", s);
    }
    assert_eq!(trim_text("\u{3000} a b \u{a0}\n"), "a b");
}
