use hn_lib::client::{
    api_item_to_hn_cli_item, collect_stories, get_item_url, page_ids, unix_epoch_to_datetime,
    HackerNewsItem,
};
use hn_lib::clock::now;
use hn_lib::text::time_ago;
use hn_lib::HNCLIItem;

fn rust_item(time: u64) -> HackerNewsItem {
    HackerNewsItem {
        id: 1,
        by: "me".to_string(),
        time,
        kids: None,
        url: Some("https://rust-lang.org".to_string()),
        score: 9,
        title: "Rust is awesome".to_string(),
        descendants: Some(1),
        item_type: "story".to_string(),
        text: None,
        deleted: false,
        dead: false,
    }
}

#[test]
fn test_unix_epoch_to_datetime() {
    assert_eq!(unix_epoch_to_datetime(1588888888), "2020-05-07 22:01:28");
}

#[test]
fn test_time_ago() {
    let now = now();
    assert_eq!(time_ago(now), "0 seconds ago");
    assert_eq!(time_ago(now - 60), "1 minutes ago");
    assert_eq!(time_ago(now - 3600), "1 hours ago");
    assert_eq!(time_ago(now - 86400), "1 days ago");
    assert_eq!(time_ago(now - 604800), "1 weeks ago");
}

#[test]
fn test_display() {
    let item = HNCLIItem {
        id: 123,
        title: "Rust is awesome".to_string(),
        url: "https://rust-lang.org".to_string(),
        author: "me".to_string(),
        time: "2020-05-07 22:01:28".to_string(),
        time_ago: "0 seconds ago".to_string(),
        score: 9,
        comments: Some(1),
    };
    assert_eq!(
        item.to_string(),
        "Rust is awesome by me\n[9 points] - 1 comments - 0 seconds ago\n-> https://rust-lang.org"
    );
}

#[test]
fn test_get_item_url() {
    let item = rust_item(1588888888);
    let yc_url = "https://news.ycombinator.com/";
    assert_eq!(get_item_url(&item, yc_url), "https://rust-lang.org");

    let item = HackerNewsItem { url: None, ..item };

    assert_eq!(get_item_url(&item, yc_url), "https://news.ycombinator.com/item?id=1");
}

#[test]
fn test_to_hn_cli_item() {
    let now = now();
    let item = rust_item(now);
    let item = api_item_to_hn_cli_item(item, "https://news.ycombinator.com/");

    assert_eq!(item.title, "Rust is awesome");
    assert_eq!(item.url, "https://rust-lang.org");
    assert_eq!(item.author, "me");
    assert_eq!(item.time, unix_epoch_to_datetime(now));
    assert_eq!(item.time_ago, "0 seconds ago");
    assert_eq!(item.score, 9);
    assert_eq!(item.comments, Some(1));
}

#[test]
fn test_fetch_stories_page() {
    let ids = vec![1, 2, 3];
    let page = page_ids(&ids, 2, 1);
    let fetched: Vec<Option<HackerNewsItem>> = page
        .iter()
        .map(|_| {
            Some(HackerNewsItem {
                by: "test_user".to_string(),
                score: 10,
                time: 1234567890,
                title: "Test Story".to_string(),
                url: Some("https://example.com".to_string()),
                descendants: Some(5),
                id: 1,
                kids: None,
                item_type: "story".to_string(),
                text: None,
                deleted: false,
                dead: false,
            })
        })
        .collect();
    let items = collect_stories(fetched, "https://news.ycombinator.com/", now());

    assert_eq!(items.len(), 2);
    assert_eq!(items[0].title, "Test Story");
    assert_eq!(items[0].author, "test_user");
    assert_eq!(items[0].score, 10);
}
