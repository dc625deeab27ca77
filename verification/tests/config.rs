use pugo::models::Config;

#[test]
fn test_config() {
    let mut config = Config::default();
    assert_eq!(config.get_posts_dir(), "source/posts");
    assert_eq!(config.get_pages_dir(), "source/pages");
    assert_eq!(config.build_post_uri("abc"), "source/posts/abc");
    assert_eq!(config.build_page_uri("abc"), "source/pages/abc");
    assert_eq!(
        config.build_dist_html_filepath("abc", true),
        "dist/abc/index.html"
    );
    assert_eq!(config.get_theme_dir(), "themes/default");

    config.url.root = "blog".to_string();
    assert_eq!(config.build_root_url("abc"), "/blog/abc");
    assert_eq!(config.get_slug_link(), "/blog/:year/:month/:day/:slug");
    assert_eq!(
        config.build_full_url("abc"),
        "http://localhost:19292/blog/abc"
    );
    assert_eq!(config.get_output_dir(true), "dist/blog");
    assert_eq!(config.get_output_dir(false), "dist");
    assert_eq!(
        config.build_dist_filepath("abc.xml", true),
        "dist/blog/abc.xml"
    );

    let assets_dirs = config.build_assets_dirs();
    assert_eq!(assets_dirs.len(), 2);
    assert_eq!(
        assets_dirs.get("themes/default/static").unwrap(),
        "dist/blog/static"
    );
    assert_eq!(
        assets_dirs.get("source/assets").unwrap(),
        "dist/blog/assets"
    );

    assert_eq!(config.get_author("abc").name, "abc");
    assert_eq!(config.get_default_author().name, "author");
}

#[test]
fn test_config_defaults() {
    let config = Config::default();
    assert_eq!(config.site.title, "PuGo");
    assert_eq!(config.site.keywords.join(","), "rust,blog,static,website,generator");
    assert_eq!(config.url.per_page_size, 10);
    assert_eq!(config.url.tag_page_format, "/tag/:tag/page/:page");
    assert_eq!(config.directory.assets, vec!["assets".to_string()]);
    assert_eq!(config.theme.index_template, "posts.hbs");
    assert_eq!(config.nav.len(), 2);
    assert_eq!(config.nav[1].url, "/about");
    assert_eq!(config.author.as_ref().unwrap().len(), 1);
}

#[test]
fn test_html_filepath_keeps_html_names() {
    let config = Config::default();
    assert_eq!(config.build_dist_html_filepath("index.html", true), "dist/index.html");
    assert_eq!(config.build_dist_html_filepath("404", false), "dist/404/index.html");
}

#[test]
fn test_root_url_gets_leading_slash() {
    let mut config = Config::default();
    assert_eq!(config.build_root_url(""), "/");
    assert_eq!(config.build_root_url("/tag/a"), "/tag/a");
    config.url.root = "".to_string();
    assert_eq!(config.build_root_url("x"), "/x");
}

#[test]
fn test_assets_dirs_repeated_directory_is_kept_once() {
    let mut config = Config::default();
    config.directory.assets.push("assets".to_string());
    let dirs = config.build_assets_dirs();
    assert_eq!(dirs.len(), 2);
    assert_eq!(dirs.key_at(0), "source/assets");
    assert_eq!(dirs.value_at(1), "dist/static");
}
