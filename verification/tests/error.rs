use pugo::models::{BuildError, MissingField, PostMetadata, RawMetadata, TimeFormatError};

fn raw(title: Option<&str>, slug: Option<&str>, date: Option<&str>) -> RawMetadata {
    RawMetadata {
        title: title.map(|s| s.to_string()),
        slug: slug.map(|s| s.to_string()),
        date: date.map(|s| s.to_string()),
        updated: None,
        tags: Some(vec!["a".to_string()]),
        template: None,
        language: Some("en".to_string()),
        comments: Some(false),
        author: None,
    }
}

#[test]
fn test_metadata_needs_title_slug_and_date() {
    let meta = PostMetadata::from_raw(raw(Some("t"), Some("s"), Some("d"))).unwrap();
    assert_eq!(meta.title, "t");
    assert_eq!(meta.slug, "s");
    assert_eq!(meta.date, "d");
    assert_eq!(meta.tags, Some(vec!["a".to_string()]));
    assert_eq!(meta.language, Some("en".to_string()));
    assert_eq!(meta.comments, Some(false));
    assert_eq!(meta.updated, None);

    assert_eq!(
        PostMetadata::from_raw(raw(None, None, None)).unwrap_err(),
        MissingField::Title
    );
    assert_eq!(
        PostMetadata::from_raw(raw(Some("t"), None, None)).unwrap_err(),
        MissingField::Slug
    );
    assert_eq!(
        PostMetadata::from_raw(raw(Some("t"), Some("s"), None)).unwrap_err(),
        MissingField::Date
    );
    assert_eq!(MissingField::Title.name(), "title");
    assert_eq!(MissingField::Slug.name(), "slug");
    assert_eq!(MissingField::Date.name(), "date");
}

#[test]
fn test_build_error_messages() {
    let parse = BuildError::Parse { path: "a.md".to_string(), reason: "bad".to_string() };
    assert_eq!(parse.message(), "parse a.md: bad");
    let time = BuildError::TimeFormat {
        path: "a.md".to_string(),
        error: TimeFormatError::WrongLength("soon".to_string()),
    };
    assert_eq!(time.message(), "parse a.md: time string is not valid: soon");
    assert_eq!(
        BuildError::TemplateNotFound("x.hbs".to_string()).message(),
        "template not found: x.hbs"
    );
    let render = BuildError::Render { template: "x.hbs".to_string(), reason: "why".to_string() };
    assert_eq!(render.message(), "render x.hbs: why");
    assert_eq!(BuildError::Io("gone".to_string()).message(), "io: gone");
}

#[test]
fn test_render_failure() {
    assert!(matches!(
        BuildError::render_failure(false, "x.hbs", "why"),
        BuildError::TemplateNotFound(t) if t == "x.hbs"
    ));
    assert!(matches!(
        BuildError::render_failure(true, "x.hbs", "why"),
        BuildError::Render { template, reason } if template == "x.hbs" && reason == "why"
    ));
}
