use pugo::cmd::create::{first_page, first_post, new_page, new_post};
use pugo::cmd::{BuildArgs, CreateArgs, ServerArgs, WatchMode};
use pugo::models::Config;

#[test]
fn test_build_args_for_serve() {
    let build = BuildArgs::for_serve(&ServerArgs { port: 19292, clean: true });
    assert_eq!(
        build,
        BuildArgs { watch: true, watch_in_spawn: true, clean: true, archive: false }
    );
    assert_eq!(build.watch_mode(), WatchMode::Spawned);
    assert!(!BuildArgs::for_serve(&ServerArgs { port: 1, clean: false }).clean);
}

#[test]
fn test_watch_mode() {
    let mut args = BuildArgs { watch: false, watch_in_spawn: true, clean: false, archive: false };
    assert_eq!(args.watch_mode(), WatchMode::Off);
    args.watch = true;
    args.watch_in_spawn = false;
    assert_eq!(args.watch_mode(), WatchMode::Inline);
}

#[test]
fn test_create_args() {
    let config = Config::default();
    let post = CreateArgs { path: "2022/hello/world.md".to_string(), page: false };
    assert_eq!(post.slug(), "2022-hello-world");
    assert_eq!(post.content_dir(&config), "source/posts");
    let page = CreateArgs { path: "about.md.md".to_string(), page: true };
    assert_eq!(page.slug(), "about");
    assert_eq!(page.content_dir(&config), "source/pages");
    assert_eq!(CreateArgs { path: "a.mdx".to_string(), page: false }.slug(), "a.mdx");
    assert_eq!(CreateArgs { path: ".md".to_string(), page: false }.slug(), "");
}

#[test]
fn test_new_documents() {
    let post = new_post("Title", "slug", "2022-01-02 03:04:05", "text");
    assert_eq!(post.meta.title, "Title");
    assert_eq!(post.meta.slug, "slug");
    assert_eq!(post.meta.date, "2022-01-02 03:04:05");
    assert_eq!(post.meta.tags, Some(vec![]));
    assert_eq!(post.meta.template, None);
    assert_eq!(post.meta.comments, Some(true));
    assert_eq!(post.content_markdown, "text");

    let page = new_page("Title", "slug", "d", "text");
    assert_eq!(page.meta.template, Some("page.hbs".to_string()));
    assert_eq!(page.meta.tags, None);

    let first = first_post("d", "welcome");
    assert_eq!(first.meta.title, "Hello World");
    assert_eq!(first.meta.slug, "/hello-world");
    assert_eq!(first.meta.tags, Some(vec!["hello".to_string(), "world".to_string()]));
    let about = first_page("d", "us");
    assert_eq!(about.meta.title, "About");
    assert_eq!(about.meta.slug, "/about");
    assert_eq!(about.meta.tags, None);
    assert_eq!(about.content_markdown, "us");
}
