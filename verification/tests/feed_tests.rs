use readme_gen::feed::{get_posts, posts_from_items, FeedItem, RssError};

const SAMPLE: &str = "<?xml version=\"1.0\"?>\
<rss version=\"2.0\"><channel>\
<title>blog</title><link>https://example.org</link><description>a blog</description>\
<item><title>first</title><link>https://example.org/1</link>\
<description>one</description><pubDate>Mon, 01 Jan 2024 00:00:00 GMT</pubDate></item>\
<item><title>second</title><link>https://example.org/2</link>\
<description>two</description><pubDate>Tue, 02 Jan 2024 00:00:00 GMT</pubDate></item>\
<item><title>third</title></item>\
</channel></rss>";

#[test]
fn feed_parses_all_posts_in_order() {
    let posts = get_posts(SAMPLE.as_bytes(), None).unwrap();
    assert_eq!(posts.len(), 3);
    assert_eq!(posts[0].title, "first");
    assert_eq!(posts[0].link, "https://example.org/1");
    assert_eq!(posts[0].description, "one");
    assert_eq!(posts[0].published_at, "Mon, 01 Jan 2024 00:00:00 GMT");
    assert_eq!(posts[1].title, "second");
    assert_eq!(posts[2].title, "third");
}

#[test]
fn feed_defaults_absent_fields_to_empty() {
    let posts = get_posts(SAMPLE.as_bytes(), None).unwrap();
    assert_eq!(posts[2].link, "");
    assert_eq!(posts[2].description, "");
    assert_eq!(posts[2].published_at, "");
}

#[test]
fn feed_truncates_to_count() {
    let posts = get_posts(SAMPLE.as_bytes(), Some(1)).unwrap();
    assert_eq!(posts.len(), 1);
    assert_eq!(posts[0].title, "first");

    let posts = get_posts(SAMPLE.as_bytes(), Some(0)).unwrap();
    assert!(posts.is_empty());

    let posts = get_posts(SAMPLE.as_bytes(), Some(10)).unwrap();
    assert_eq!(posts.len(), 3);
}

#[test]
fn malformed_feed_is_a_parse_error() {
    let err = get_posts(b"this is not a feed", None).unwrap_err();
    assert_eq!(err, RssError::RssError);
    assert_eq!(err.message(), "rss error");
    assert_eq!(RssError::ClientError.message(), "http client error");
}

#[test]
fn posts_from_items_maps_and_truncates() {
    let items = vec![
        FeedItem {
            pub_date: Some("d1".to_string()),
            description: None,
            title: Some("t1".to_string()),
            link: Some("l1".to_string()),
        },
        FeedItem {
            pub_date: None,
            description: Some("two".to_string()),
            title: Some("t2".to_string()),
            link: None,
        },
    ];
    let posts = posts_from_items(items, None);
    assert_eq!(posts.len(), 2);
    assert_eq!(posts[0].published_at, "d1");
    assert_eq!(posts[0].description, "");
    assert_eq!(posts[0].title, "t1");
    assert_eq!(posts[0].link, "l1");
    assert_eq!(posts[1].published_at, "");
    assert_eq!(posts[1].description, "two");

    let items = vec![FeedItem {
        pub_date: None,
        description: None,
        title: Some("only".to_string()),
        link: None,
    }];
    let posts = posts_from_items(items, Some(5));
    assert_eq!(posts.len(), 1);
}
