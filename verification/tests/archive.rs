use pugo::models::{Archive, DateTime, Post, PostMetadata};

fn dated_post(title: &str, year: i32, month: u32, day: u32) -> Post {
    Post {
        meta: PostMetadata {
            title: title.to_string(),
            comments: Some(true),
            ..PostMetadata::default()
        },
        datetime: Some(DateTime::new(year, month, day, 0, 0, 0).unwrap()),
        ..Default::default()
    }
}

#[test]
fn test_parse() {
    let posts = vec![
        dated_post("test1", 2021, 1, 1),
        dated_post("test2", 2022, 1, 2),
        dated_post("test3", 2023, 1, 3),
    ];
    let archives = Archive::parse(&posts);
    assert_eq!(archives.len(), 3); // 2021, 2022, 2023
    assert_eq!(archives[0].year, "2023"); // year is in descending order
    assert_eq!(archives[0].posts_index.len(), 1); // index of post3
    assert_eq!(archives[0].posts_index[0], 2); // the index of the third post
}

#[test]
fn test_archives_group_posts_of_one_year() {
    let posts = vec![
        dated_post("a", 2022, 5, 1),
        dated_post("b", 2021, 5, 1),
        dated_post("c", 2022, 1, 1),
        dated_post("d", 2023, 1, 3),
        dated_post("e", 2021, 2, 3),
    ];
    let archives = Archive::parse(&posts);
    assert_eq!(archives.len(), 3);
    assert_eq!(archives[0].year, "2023");
    assert_eq!(archives[0].posts_index, vec![3]);
    assert_eq!(archives[1].year, "2022");
    assert_eq!(archives[1].posts_index, vec![0, 2]);
    assert_eq!(archives[2].year, "2021");
    assert_eq!(archives[2].posts_index, vec![1, 4]);
}

#[test]
fn test_archives_order_years_by_number() {
    let posts = vec![dated_post("old", 999, 1, 1), dated_post("new", 2021, 1, 1)];
    let archives = Archive::parse(&posts);
    assert_eq!(archives[0].year, "2021");
    assert_eq!(archives[1].year, "999");
    assert_eq!(Archive::parse(&[]).len(), 0);
}
