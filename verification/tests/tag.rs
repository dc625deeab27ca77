use pugo::models::{Post, PostMetadata, Tag, UrlConfig};

fn tagged_post(tags: &[&str]) -> Post {
    Post {
        meta: PostMetadata {
            tags: Some(tags.iter().map(|t| t.to_string()).collect()),
            ..PostMetadata::default()
        },
        ..Default::default()
    }
}

#[test]
fn test_tags() {
    let posts = vec![
        tagged_post(&["tag1", "tag2"]),
        tagged_post(&["tag2", "tag3"]),
        tagged_post(&["tag2", "tag1"]),
    ];
    let url_config = UrlConfig::new();
    let tags = Tag::parse(&posts, &url_config);
    assert_eq!(tags.len(), 3); // tag1, tag2, tag3
    assert_eq!(tags[0].name, "tag2"); // tag2 has the most posts
    assert_eq!(tags[0].posts_index.len(), 3); // index of post1 and post2 and post3

    assert_eq!(tags[1].name, "tag1");
    assert_eq!(tags[1].posts_index.len(), 2); // index of post1, post3
}

#[test]
fn test_tags_addresses_and_positions() {
    let posts = vec![
        tagged_post(&["tag1", "tag2"]),
        tagged_post(&["tag2", "tag3"]),
        tagged_post(&["tag2", "tag1"]),
    ];
    let tags = Tag::parse(&posts, &UrlConfig::new());
    assert_eq!(tags[0].url, "/tag/tag2");
    assert_eq!(tags[0].page_format, "/tag/tag2/page/:page");
    assert_eq!(tags[0].posts_index, vec![0, 1, 2]);
    assert_eq!(tags[1].posts_index, vec![0, 2]);
    assert_eq!(tags[2].name, "tag3");
    assert_eq!(tags[2].posts_index, vec![1]);
}

#[test]
fn test_tags_with_equal_counts_keep_first_seen_order() {
    let posts = vec![
        tagged_post(&["b", "a"]),
        tagged_post(&["c", "a"]),
        tagged_post(&["c", "b", "d"]),
    ];
    let tags = Tag::parse(&posts, &UrlConfig::new());
    let names: Vec<&str> = tags.iter().map(|t| t.name.as_str()).collect();
    assert_eq!(names, vec!["b", "a", "c", "d"]);
    assert_eq!(Tag::parse(&[], &UrlConfig::new()).len(), 0);
}

#[test]
fn test_tag_named_twice_by_one_post() {
    let posts = vec![tagged_post(&["x", "x"]), tagged_post(&["y"])];
    let tags = Tag::parse(&posts, &UrlConfig::new());
    assert_eq!(tags[0].name, "x");
    assert_eq!(tags[0].posts_index, vec![0, 0]);
    assert_eq!(tags[1].posts_index, vec![1]);
}
