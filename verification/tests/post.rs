use pugo::models::datetime::time_text;
use pugo::models::post::split_front_matter;
use pugo::models::{parse_time, DateTime, MetaFormat, Post, PostMetadata, TimeFormatError};

fn create_test_post_content() -> String {
    let post_content = "---
title: Deploy blog in Cloudflare Workers
author: admin
date: 2022-05-25 15:55:25
tags:
- cloudflare
- blog
- workers
slug: blog-cf-worker
---
Workers Sites leverages the power of Workers and Workers KV by allowing developers to upload their sites directly to the edge, and closer to the end users. <!-- more --> Born on the edge, Workers Sites is what we think modern development on the web should look like, natively secure, fast, and massively scalable. Less of your time is spent on configuration, and more of your time is spent on your code, and content itself.";
    post_content.to_string()
}

fn create_test_post_content_toml() -> String {
    let post_content = "```toml
title = \"Deploy blog in Cloudflare Workers 2\"
author = \"admin\"
date = \"2022-06-26 18:30:30\"
tags = [ \"cloudflare\", \"blog\", \"workers\" ]
slug = \"blog-cf-worker\"
```
Workers Sites leverages the power of Workers and Workers KV by allowing developers to upload their sites directly to the edge, and closer to the end users. <!--more--> Born on the edge, Workers Sites is what we think modern development on the web should look like, natively secure, fast, and massively scalable. Less of your time is spent on configuration, and more of your time is spent on your code, and content itself.";
    post_content.to_string()
}

fn text_of(value: &serde_yaml::Value, key: &str) -> Option<String> {
    value.get(key).and_then(|v| v.as_str()).map(|s| s.to_string())
}

fn post_from_str(content: &str) -> Post {
    let parts = split_front_matter(content);
    assert_eq!(parts.format, MetaFormat::Yaml);
    let value: serde_yaml::Value = serde_yaml::from_str(parts.metadata.as_str()).unwrap();
    let meta = PostMetadata {
        title: text_of(&value, "title").unwrap(),
        slug: text_of(&value, "slug").unwrap(),
        date: text_of(&value, "date").unwrap(),
        updated: text_of(&value, "updated"),
        tags: value.get("tags").and_then(|v| v.as_sequence()).map(|tags| {
            tags.iter()
                .map(|t| t.as_str().unwrap().to_string())
                .collect()
        }),
        template: text_of(&value, "template"),
        language: text_of(&value, "language"),
        comments: value.get("comments").and_then(|v| v.as_bool()),
        author: text_of(&value, "author"),
    };
    Post::from_parts(meta, parts.body).unwrap()
}

#[test]
fn test_parse_time_seconds() {
    let time_str = "2020-01-02 03:04:05";
    let datetime = parse_time(time_str).unwrap();
    assert_eq!(datetime.year(), 2020);
    assert_eq!(datetime.month(), 1);
    assert_eq!(datetime.day(), 2);
    assert_eq!(datetime.hour(), 3);
    assert_eq!(datetime.minute(), 4);
    assert_eq!(datetime.second(), 5);
}

#[test]
fn test_parse_time_minutes() {
    let time_str = "2020-01-02 03:04";
    let datetime = parse_time(time_str).unwrap();
    assert_eq!(datetime.year(), 2020);
    assert_eq!(datetime.month(), 1);
    assert_eq!(datetime.day(), 2);
    assert_eq!(datetime.hour(), 3);
    assert_eq!(datetime.minute(), 4);
    assert_eq!(datetime.second(), 0);
}

#[test]
fn test_parse_time_days() {
    let time_str = "2020-01-02";
    let datetime = parse_time(time_str).unwrap();
    assert_eq!(datetime.year(), 2020);
    assert_eq!(datetime.month(), 1);
    assert_eq!(datetime.day(), 2);
    assert_eq!(datetime.hour(), 0);
    assert_eq!(datetime.minute(), 0);
    assert_eq!(datetime.second(), 0);
}

#[test]
fn test_parse_post() {
    let mut post = post_from_str(&create_test_post_content());
    assert_eq!(post.meta.title, "Deploy blog in Cloudflare Workers");
    assert_eq!(post.meta.slug, "blog-cf-worker");
    assert_eq!(post.meta.date, "2022-05-25 15:55:25");
    assert_eq!(post.meta.updated, Some("2022-05-25 15:55:25".to_string())); // updated is same to date if not set
    assert_eq!(
        post.meta.tags.as_ref().unwrap().join(","),
        "cloudflare,blog,workers"
    );
    assert_eq!(post.meta.template, Some("post.hbs".to_string())); // template is post.hbs as default if not set
    assert_eq!(post.meta.language, None);
    assert_eq!(post.meta.comments, Some(true));
    assert_eq!(post.meta.author, Some("admin".to_string()));
    assert_eq!(post.content_markdown.len(), 423);

    // brief should be parsed if seperator is found
    assert_eq!(post.brief_markdown.len(), 155);

    // datetime is parsed
    assert!(post.datetime.unwrap().year() == 2022);
    assert!(post.datetime.unwrap().month() == 5);
    assert!(post.updated_datetime.unwrap().hour() == 15);
    assert!(post.updated_datetime.unwrap().minute() == 55);
    assert!(post.updated_datetime.unwrap().second() == 25);

    // slug format
    post.set_slug_url("aaa/:year/:month/:day/:slug");
    assert_eq!(post.slug_url, "aaa/2022/05/25/blog-cf-worker");
}

#[test]
fn test_split_front_matter_toml() {
    let parts = split_front_matter(&create_test_post_content_toml());
    assert_eq!(parts.format, MetaFormat::Toml);
    assert_eq!(
        parts.metadata,
        "title = \"Deploy blog in Cloudflare Workers 2\"\nauthor = \"admin\"\ndate = \"2022-06-26 18:30:30\"\ntags = [ \"cloudflare\", \"blog\", \"workers\" ]\nslug = \"blog-cf-worker\"\n\n"
    );
    assert_eq!(parts.body.len(), 421);
    let mut post = Post::default();
    post.meta.date = "2022-06-26 18:30:30".to_string();
    post.content_markdown = parts.body;
    post.parse_meta().unwrap();
    assert_eq!(post.brief_markdown.len(), 155);
    assert!(post.updated_datetime.unwrap().hour() == 18);
    assert!(post.updated_datetime.unwrap().minute() == 30);
    assert!(post.updated_datetime.unwrap().second() == 30);
}

#[test]
fn test_split_front_matter_edges() {
    let plain = split_front_matter("just a body\nof two lines\n");
    assert_eq!(plain.format, MetaFormat::Yaml);
    assert_eq!(plain.metadata, "");
    assert_eq!(plain.body, "just a body\nof two lines");

    let rule = split_front_matter("---\r\ntitle: a\r\n---\r\nabove\n---\nbelow\n");
    assert_eq!(rule.metadata, "title: a\n\n");
    assert_eq!(rule.body, "above\n---\nbelow");

    let open = split_front_matter("intro\n```toml\na = 1\n---\nrest");
    assert_eq!(open.format, MetaFormat::Toml);
    assert_eq!(open.metadata, "a = 1\n---\nrest\n");
    assert_eq!(open.body, "intro");

    let empty = split_front_matter("  \n ");
    assert_eq!(empty.metadata, "");
    assert_eq!(empty.body, "");
}

#[test]
fn test_time_text_is_filled_to_seconds() {
    assert_eq!(time_text("2020-01-02"), Some("2020-01-02 00:00:00".to_string()));
    assert_eq!(time_text("2020-01-02 03:04"), Some("2020-01-02 03:04:00".to_string()));
    assert_eq!(time_text(" 2020-01-02 03:04:05 "), Some("2020-01-02 03:04:05".to_string()));
    assert_eq!(time_text("2020-01-02 03"), None);
    assert_eq!(time_text(" 2020-01-02"), None);
    assert_eq!(time_text(""), None);
}

#[test]
fn test_parse_time_errors() {
    assert!(matches!(
        parse_time("2020-1-2"),
        Err(TimeFormatError::WrongLength(t)) if t == "2020-1-2"
    ));
    assert!(matches!(
        parse_time("2020-13-02 03:04:05"),
        Err(TimeFormatError::Invalid(t)) if t == "2020-13-02 03:04:05"
    ));
    assert!(matches!(parse_time("2020-02-30"), Err(TimeFormatError::Invalid(_))));
    let error = parse_time("yesterday").unwrap_err();
    assert_eq!(error.message(), "time string is not valid: yesterday");
}

#[test]
fn test_normalize_fills_defaults() {
    let mut post = Post::default();
    post.meta.slug = "/hello".to_string();
    post.meta.date = "2024-02-29".to_string();
    post.meta.updated = Some("2024-03-01 10:11".to_string());
    post.meta.comments = Some(false);
    post.meta.template = Some("custom.hbs".to_string());
    post.content_markdown = "no separator here".to_string();
    post.parse_meta().unwrap();
    assert_eq!(post.meta.slug, "hello");
    assert_eq!(post.meta.comments, Some(false));
    assert_eq!(post.meta.template, Some("custom.hbs".to_string()));
    assert_eq!(post.meta.tags, Some(vec![]));
    assert_eq!(post.datetime, DateTime::new(2024, 2, 29, 0, 0, 0));
    assert_eq!(post.updated_datetime, DateTime::new(2024, 3, 1, 10, 11, 0));
    assert_eq!(post.brief_markdown, "no separator here");
}

#[test]
fn test_normalize_stops_at_a_bad_date() {
    let mut post = Post::default();
    post.meta.date = "2024-02-29".to_string();
    post.meta.updated = Some("soon".to_string());
    post.content_markdown = "a <!-- more --> b".to_string();
    assert!(post.parse_meta().is_err());
    assert_eq!(post.datetime, DateTime::new(2024, 2, 29, 0, 0, 0));
    assert_eq!(post.updated_datetime, None);
    assert_eq!(post.brief_markdown, "");
    assert_eq!(post.meta.template, Some("post.hbs".to_string()));

    let mut undated = Post::default();
    undated.meta.date = "".to_string();
    assert!(undated.parse_meta().is_err());
    assert_eq!(undated.datetime, None);
}

#[test]
fn test_excerpt_is_the_text_before_the_separator() {
    let date = DateTime::new(2020, 1, 1, 0, 0, 0).unwrap();
    let mut spaced = Post::default();
    spaced.content_markdown = "  head \n<!-- more -->tail<!--more-->".to_string();
    spaced.normalize_with(date, date);
    assert_eq!(spaced.brief_markdown, "head");
    assert!(spaced.brief_markdown.len() < spaced.content_markdown.len());

    let mut tight = Post::default();
    tight.content_markdown = "one<!--more-->two<!-- more -->three".to_string();
    tight.normalize_with(date, date);
    assert_eq!(tight.brief_markdown, "one");

    let mut both = Post::default();
    both.content_markdown = "x<!--more-->y<!-- more -->z".to_string();
    both.normalize_with(date, date);
    assert_eq!(both.brief_markdown, "x");

    let mut spaced_first = Post::default();
    spaced_first.content_markdown = "a <!-- more --> b <!--more--> c".to_string();
    spaced_first.normalize_with(date, date);
    assert_eq!(spaced_first.brief_markdown, "a");

    let mut leading = Post::default();
    leading.content_markdown = "<!--more-->all of it".to_string();
    leading.normalize_with(date, date);
    assert_eq!(leading.brief_markdown, "");

    let mut none = Post::default();
    none.content_markdown = "all of it".to_string();
    none.normalize_with(date, date);
    assert_eq!(none.brief_markdown, none.content_markdown);
}

#[test]
fn test_slug_url_pads_month_and_day() {
    let mut post = Post::default();
    post.meta.slug = "s:year".to_string();
    post.datetime = DateTime::new(987, 1, 9, 0, 0, 0);
    post.set_slug_url("/:year/:month/:day/:slug/:year");
    assert_eq!(post.slug_url, "/987/01/09/s:year/987");
    post.datetime = DateTime::new(-5, 12, 31, 0, 0, 0);
    post.set_slug_url(":day.:month.:year");
    assert_eq!(post.slug_url, "31.12.-5");
}

#[test]
fn test_file_text() {
    let mut post = Post::default();
    post.content_markdown = "body".to_string();
    assert_eq!(post.file_text("title: a\n"), "title: a\n---\n\nbody\n");
}

#[test]
fn test_newest_first_keeps_order_of_equal_dates() {
    let titles = ["a", "b", "c", "d", "e"];
    let days = [3u32, 5, 3, 9, 5];
    let posts: Vec<Post> = titles
        .iter()
        .zip(days.iter())
        .map(|(t, d)| {
            let mut p = Post::default();
            p.meta.title = t.to_string();
            p.datetime = DateTime::new(2020, 1, *d, 0, 0, 0);
            p
        })
        .collect();
    let sorted = Post::newest_first(posts);
    let order: Vec<&str> = sorted.iter().map(|p| p.meta.title.as_str()).collect();
    assert_eq!(order, vec!["d", "b", "e", "a", "c"]);
    assert_eq!(Post::newest_first(vec![]).len(), 0);
}

#[test]
fn test_documents_are_checked_before_they_are_ordered() {
    let mut dated = Post::default();
    dated.meta.date = "2024-02-29".to_string();
    dated.parse_meta().unwrap();
    assert!(dated.is_normalized());
    assert!(dated.datetime.unwrap().is_valid());
    let undated = Post::default();
    assert!(!undated.is_normalized());
    let mut wrong = Post::default();
    wrong.datetime = Some(DateTime {
        year: 2020,
        month: 13,
        day: 1,
        hour: 0,
        minute: 0,
        second: 0,
        nanosecond: 0,
    });
    assert!(!wrong.datetime.unwrap().is_valid());
    assert!(Post::are_dated(&vec![]));
    assert!(Post::are_normalized(&vec![]));
    assert!(!Post::are_dated(&vec![wrong]));
    assert!(!Post::are_dated(&vec![undated]));
    let mut half = Post::default();
    half.datetime = DateTime::new(2020, 1, 1, 0, 0, 0);
    let posts = vec![dated, half];
    assert!(Post::are_dated(&posts));
    assert!(!Post::are_normalized(&posts));
    assert!(Post::are_normalized(&posts[..1].iter().map(|p| {
        let mut q = Post::default();
        q.meta.date = p.meta.date.clone();
        q.parse_meta().unwrap();
        q
    }).collect()));
}

#[test]
fn test_date_new_checks_ranges() {
    assert!(DateTime::new(2020, 0, 1, 0, 0, 0).is_none());
    assert!(DateTime::new(2020, 13, 1, 0, 0, 0).is_none());
    assert!(DateTime::new(2020, 1, 32, 0, 0, 0).is_none());
    assert!(DateTime::new(2020, 1, 1, 24, 0, 0).is_none());
    assert!(DateTime::new(2020, 1, 1, 0, 60, 0).is_none());
    assert!(DateTime::new(2020, 1, 1, 0, 0, 60).is_none());
    let a = DateTime::new(2020, 1, 1, 0, 0, 1).unwrap();
    let b = DateTime::new(2020, 1, 1, 0, 1, 0).unwrap();
    assert!(a.sort_key() < b.sort_key());
}
