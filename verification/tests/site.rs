use pugo::models::output::count_files;
use pugo::models::site::markdown_to_html;
use pugo::models::{
    Author, Config, DateTime, GlobalVars, Output, Post, PostMetadata, Site, TemplateVars,
};
use pugo::utils::StrMap;

fn post(title: &str, slug: &str, date: &str, tags: &[&str], body: &str) -> Post {
    let meta = PostMetadata {
        title: title.to_string(),
        slug: slug.to_string(),
        date: date.to_string(),
        tags: Some(tags.iter().map(|t| t.to_string()).collect()),
        ..PostMetadata::default()
    };
    Post::from_parts(meta, body.to_string()).unwrap()
}

fn numbered_posts(n: usize) -> Vec<Post> {
    (0..n)
        .map(|i| {
            post(
                &format!("post {}", i),
                &format!("p{}", i),
                &format!("2022-01-{:02} 10:00:00", 28 - i),
                &[],
                "text",
            )
        })
        .collect()
}

fn dates(n: usize) -> Vec<String> {
    (0..n).map(|i| format!("date {}", i)).collect()
}

fn small_site() -> Site {
    let posts = vec![
        post("First", "/first", "2022-05-25 15:55:25", &["a", "b"], "hello *world* <!-- more --> rest"),
        post("Second", "second", "2021-03-02", &["b"], "# Title"),
    ];
    let mut about = post("About", "/about", "2020-01-01", &[], "about us");
    about.meta.author = Some("nobody".to_string());
    about.meta.language = Some("de".to_string());
    Site::new(Config::default(), posts, vec![about])
}

#[test]
fn test_markdown_to_html() {
    assert_eq!(markdown_to_html("hello *world*"), "<p>hello <em>world</em></p>\n");
    assert_eq!(markdown_to_html("~~gone~~"), "<p><del>gone</del></p>\n");
    assert_eq!(
        markdown_to_html("- [x] done"),
        "<ul>\n<li><input disabled=\"\" type=\"checkbox\" checked=\"\"/>\ndone</li>\n</ul>\n"
    );
    assert!(markdown_to_html("|a|b|\n|-|-|\n|1|2|\n").starts_with("<table>"));
    assert_eq!(markdown_to_html(""), "");
}

#[test]
fn test_site_resolves_posts_and_pages() {
    let site = small_site();
    let first = &site.posts[0];
    assert_eq!(first.meta.slug, "first");
    assert_eq!(first.slug_url, "/2022/05/25/first");
    assert_eq!(first.meta.author, Some("pugo".to_string()));
    assert_eq!(first.meta.language, Some("en".to_string()));
    assert_eq!(first.author.as_ref().unwrap().name, "author");
    assert_eq!(first.brief_markdown, "hello *world*");
    assert_eq!(first.brief_html, "<p>hello <em>world</em></p>\n");
    assert_eq!(first.content_html, "<p>hello <em>world</em> <!-- more --> rest</p>\n");
    assert_eq!(site.posts[1].slug_url, "/2021/03/02/second");
    assert_eq!(site.posts[1].content_html, "<h1>Title</h1>\n");

    let about = &site.pages[0];
    assert_eq!(about.slug_url, "/about");
    assert_eq!(about.meta.template, Some("page.hbs".to_string()));
    assert_eq!(about.meta.language, Some("de".to_string()));
    assert_eq!(about.author.as_ref().unwrap().name, "nobody");
    assert_eq!(about.brief_html, "");
    assert_eq!(about.content_html, "<p>about us</p>\n");

    assert_eq!(site.tags.len(), 2);
    assert_eq!(site.tags[0].name, "b");
    assert_eq!(site.tags[0].posts_index, vec![0, 1]);
    assert_eq!(site.tags[1].name, "a");
}

#[test]
fn test_page_keeps_a_template_of_its_own() {
    let mut page = post("Custom", "c", "2020-01-01", &[], "x");
    page.meta.template = Some("wide.hbs".to_string());
    let site = Site::new(Config::default(), vec![], vec![page]);
    assert_eq!(site.pages[0].meta.template, Some("wide.hbs".to_string()));
}

#[test]
fn test_template_vars() {
    let site = small_site();
    let global: GlobalVars = site.template_vars.get_global();
    assert_eq!(global.site.title, "PuGo");
    assert_eq!(global.site.keywords, "rust,blog,static,website,generator");
    assert_eq!(global.site.root_url, "/");
    assert_eq!(global.site.full_url, "http://localhost:19292/");
    assert_eq!(global.author.name, "author");
    assert!(global.author.has_social);
    assert_eq!(global.author.avatar, "/assets/avatar.png");
    assert_eq!(global.navs.len(), 2);
    assert_eq!(global.navs[0].name, "Archives");
    assert_eq!(global.navs[0].url, "/archives");
    let tags = global.tags.as_ref().unwrap();
    assert_eq!(tags.len(), 2);
    assert_eq!(tags[0].name, "b");
    assert_eq!(tags[0].url, "/tag/b");
    assert_eq!(tags[0].posts_count, 2);
    assert!(global.post.is_none() && global.posts.is_none() && global.pagination.is_none());

    let b = site.template_vars.get_tag("b").unwrap();
    assert_eq!(b.posts_count, 2);
    assert!(site.template_vars.get_tag("zzz").is_none());

    let vars = site.template_vars.build_postvars(&site.posts[0]);
    assert_eq!(vars.title, "First");
    assert_eq!(vars.permalink, "/2022/05/25/first");
    assert_eq!(vars.date, "2022-05-25 15:55:25");
    assert_eq!(vars.updated, "2022-05-25 15:55:25");
    assert_eq!(vars.language, "en");
    assert!(vars.comments);
    assert_eq!(vars.datetime, DateTime::new(2022, 5, 25, 15, 55, 25).unwrap());
    assert_eq!(vars.tags.len(), 2);
    assert_eq!(vars.tags[0].name, "a");
    assert_eq!(vars.tags[1].name, "b");
    assert_eq!(vars.author.url, "https://pugo.io");
    assert_eq!(vars.brief, "<p>hello <em>world</em></p>\n");

    let empty = TemplateVars::default();
    assert!(empty.get_tag("a").is_none());
}

#[test]
fn test_post_vars_leave_out_unknown_tags() {
    let posts = vec![post("p", "p", "2022-01-01", &["known"], "x")];
    let page = post("page", "page", "2022-01-01", &["other", "known"], "y");
    let site = Site::new(Config::default(), posts, vec![page]);
    let vars = site.template_vars.build_postvars(&site.pages[0]);
    assert_eq!(vars.tags.len(), 1);
    assert_eq!(vars.tags[0].name, "known");
}

#[test]
fn test_author_vars() {
    let mut author = Author::default();
    author.social = Some(StrMap::new());
    let vars = pugo::models::AuthorVars::new(&author);
    assert!(!vars.has_social);
    assert_eq!(vars.social.unwrap().len(), 0);
    author.social = None;
    author.use_gravatar = true;
    let vars = pugo::models::AuthorVars::new(&author);
    assert!(!vars.has_social);
    assert!(vars.social.is_none());
    assert_eq!(
        vars.avatar,
        "https://www.gravatar.com/avatar/5c1e6d6e64e12aca17657581a48005d1"
    );
}

fn files_of(o: &Output) -> Vec<&str> {
    o.output_files.iter().map(|f| f.as_str()).collect()
}

#[test]
fn test_build_plans_every_artifact() {
    let site = small_site();
    let outs = site.build(&dates(2));
    // 2 posts, 1 listing page, 1 page, 2 tag pages, index, archive, 404, feed
    assert_eq!(outs.len(), 10);

    assert_eq!(outs[0].visit_url, "/2022/05/25/first");
    assert_eq!(files_of(&outs[0]), vec!["dist/2022/05/25/first/index.html"]);
    assert_eq!(outs[0].template_file, "post.hbs");
    assert_eq!(outs[0].sitemap_priority, 80);
    assert_eq!(outs[0].lastmod, DateTime::new(2022, 5, 25, 15, 55, 25).unwrap());
    assert_eq!(outs[0].template_vars.post.as_ref().unwrap().title, "First");
    assert!(!outs[0].is_literal());

    let listing = &outs[2];
    assert_eq!(listing.visit_url, "/page/1");
    assert_eq!(files_of(listing), vec!["dist/page/1/index.html"]);
    assert_eq!(listing.template_file, "posts.hbs");
    assert_eq!(listing.sitemap_priority, 70);
    assert_eq!(listing.template_vars.posts.as_ref().unwrap().len(), 2);
    let paging = listing.template_vars.pagination.as_ref().unwrap();
    assert_eq!((paging.current, paging.total, paging.total_pages), (1, 2, 1));
    assert!(!paging.has_next && !paging.has_prev);
    assert_eq!(paging.current_url, "/page/1");

    let page = &outs[3];
    assert_eq!(page.visit_url, "/about");
    assert_eq!(files_of(page), vec!["dist/about/index.html"]);
    assert_eq!(page.template_file, "page.hbs");
    assert_eq!(page.sitemap_priority, 70);
    assert_eq!(page.template_vars.page.as_ref().unwrap().title, "About");
    assert!(page.template_vars.post.is_none());

    let tag_b = &outs[4];
    assert_eq!(tag_b.visit_url, "/tag/b/page/1");
    assert_eq!(
        files_of(tag_b),
        vec!["dist/tag/b/page/1/index.html", "dist/tag/b/index.html"]
    );
    assert_eq!(tag_b.template_vars.current_tag.as_ref().unwrap().name, "b");
    assert_eq!(tag_b.template_vars.posts.as_ref().unwrap().len(), 2);
    assert_eq!(tag_b.lastmod, DateTime::new(2022, 5, 25, 15, 55, 25).unwrap());
    assert_eq!(outs[5].visit_url, "/tag/a/page/1");

    let index = &outs[6];
    assert_eq!(index.visit_url, "/index.html");
    assert_eq!(files_of(index), vec!["dist/index.html"]);
    assert_eq!(index.template_file, "posts.hbs");
    assert_eq!(index.sitemap_priority, 100);

    let archive = &outs[7];
    assert_eq!(archive.visit_url, "/archives");
    assert_eq!(files_of(archive), vec!["dist/archives/index.html"]);
    assert_eq!(archive.template_file, "archives.hbs");
    assert_eq!(archive.sitemap_priority, 60);
    let years = archive.template_vars.archives.as_ref().unwrap();
    assert_eq!(years.len(), 2);
    assert_eq!(years[0].year, "2022");
    assert_eq!(years[0].posts[0].title, "First");
    assert_eq!(years[1].year, "2021");

    let not_found = &outs[8];
    assert_eq!(not_found.visit_url, "/404");
    assert_eq!(files_of(not_found), vec!["dist/404/index.html"]);
    assert_eq!(not_found.template_file, "404.hbs");
    assert_eq!(not_found.sitemap_priority, 0);

    let feed = &outs[9];
    assert_eq!(feed.visit_url, "/atom.xml");
    assert_eq!(files_of(feed), vec!["dist/atom.xml"]);
    assert_eq!(feed.template_file, "");
    assert!(feed.is_literal());
    assert_eq!(feed.sitemap_priority, 80);

    assert_eq!(count_files(&outs), Some(12));
}

#[test]
fn test_feed_is_the_channel_of_the_posts() {
    let site = small_site();
    let outs = site.build_rss(&vec!["Wed, 25 May 2022 15:55:25 +0000".to_string(), "then".to_string()]);
    let xml = outs[0].file_content.as_str();
    assert!(xml.starts_with("<?xml") || xml.starts_with("<rss"));
    assert!(xml.contains("<title>PuGo</title>"));
    assert!(xml.contains("<link>http://localhost:19292/</link>"));
    assert!(xml.contains("<description>Build your content into static websites and blogs</description>"));
    assert!(xml.contains("<title>First</title>"));
    assert!(xml.contains("<link>http://localhost:19292/2022/05/25/first</link>"));
    assert!(xml.contains("<pubDate>Wed, 25 May 2022 15:55:25 +0000</pubDate>"));
    assert!(xml.contains("<pubDate>then</pubDate>"));
    assert_eq!(xml.matches("<item>").count(), 2);

    let items = site.feed_items(&dates(2));
    assert_eq!(items[1].title, "Second");
    assert_eq!(items[1].link, "http://localhost:19292/2021/03/02/second");
    assert_eq!(items[1].content, "<h1>Title</h1>\n");
    assert_eq!(items[1].pub_date, "date 1");
}

#[test]
fn test_plan_of_posts_alone_counts_listing_pages() {
    for (n, size) in [(1usize, 10usize), (10, 10), (11, 10), (25, 10), (7, 3), (5, 1)] {
        let mut config = Config::default();
        config.url.per_page_size = size;
        let site = Site::new(config, numbered_posts(n), vec![]);
        let outs = site.build(&dates(n));
        let pages = (n + size - 1) / size;
        assert_eq!(outs.len(), n + pages + 4);
        for k in 0..pages {
            let listing = &outs[n + k];
            assert_eq!(listing.visit_url, format!("/page/{}", k + 1));
            let shown = listing.template_vars.posts.as_ref().unwrap();
            assert_eq!(shown.len(), std::cmp::min(size, n - k * size));
            assert_eq!(shown[0].title, format!("post {}", k * size));
            let paging = listing.template_vars.pagination.as_ref().unwrap();
            assert_eq!(paging.has_next, k + 1 < pages);
            assert_eq!(paging.has_prev, k > 0);
        }

        let entries = site.sitemap_entries(&outs);
        // everything but the page for what is not found
        assert_eq!(entries.len(), outs.len() - 1);
        let with_priority: Vec<&Output> = outs.iter().filter(|o| o.sitemap_priority > 0).collect();
        for (entry, o) in entries.iter().zip(with_priority.iter()) {
            assert_eq!(entry.loc, format!("http://localhost:19292{}", o.visit_url));
            assert_eq!(entry.priority, o.sitemap_priority);
            assert_eq!(entry.lastmod, o.lastmod);
        }
    }
}

#[test]
fn test_tag_listing_has_a_page_for_each_window() {
    let mut config = Config::default();
    config.url.per_page_size = 2;
    let posts: Vec<Post> = (0..5)
        .map(|i| post(&format!("t{}", i), &format!("s{}", i), "2022-01-01", &["x"], "b"))
        .collect();
    let site = Site::new(config, posts, vec![]);
    let outs = site.build_tags();
    assert_eq!(outs.len(), 3);
    assert_eq!(outs[0].output_files.len(), 2);
    assert_eq!(outs[1].output_files.len(), 1);
    assert_eq!(outs[2].visit_url, "/tag/x/page/3");
    // every page of a tag shows the posts of its window
    let shown: Vec<Vec<&str>> = outs
        .iter()
        .map(|o| {
            o.template_vars
                .posts
                .as_ref()
                .unwrap()
                .iter()
                .map(|p| p.title.as_str())
                .collect()
        })
        .collect();
    assert_eq!(shown, vec![vec!["t0", "t1"], vec!["t2", "t3"], vec!["t4"]]);
    let paging = outs[1].template_vars.pagination.as_ref().unwrap();
    assert_eq!((paging.prev, paging.current, paging.next), (1, 2, 3));
    assert_eq!(paging.next_url, "/tag/x/page/3");
}

#[test]
fn test_tag_pages_show_the_posts_of_the_tag_only() {
    let mut config = Config::default();
    config.url.per_page_size = 2;
    let posts = vec![
        post("p0", "s0", "2022-01-05", &["x"], "b"),
        post("p1", "s1", "2022-01-04", &["y"], "b"),
        post("p2", "s2", "2022-01-03", &["x", "y"], "b"),
        post("p3", "s3", "2022-01-02", &["x"], "b"),
    ];
    let site = Site::new(config, posts, vec![]);
    let outs = site.build_tags();
    // x has posts 0, 2, 3 on two pages; y has posts 1, 2 on one
    assert_eq!(outs.len(), 3);
    let titles = |o: &Output| -> Vec<String> {
        o.template_vars
            .posts
            .as_ref()
            .unwrap()
            .iter()
            .map(|p| p.title.clone())
            .collect()
    };
    assert_eq!(titles(&outs[0]), vec!["p0", "p2"]);
    assert_eq!(titles(&outs[1]), vec!["p3"]);
    assert_eq!(titles(&outs[2]), vec!["p1", "p2"]);
    assert_eq!(outs[1].template_vars.pagination.as_ref().unwrap().current, 2);
    assert_eq!(outs[1].lastmod, DateTime::new(2022, 1, 5, 0, 0, 0).unwrap());
}

#[test]
fn test_site_without_posts_plans_its_pages() {
    let about = post("About", "/about", "2020-01-01", &[], "about us");
    let site = Site::new(Config::default(), vec![], vec![about]);
    assert!(!site.can_build());
    assert_eq!(site.build_posts().len(), 0);
    assert_eq!(site.build_tags().len(), 0);
    let pages = site.build_pages();
    assert_eq!(pages.len(), 1);
    assert_eq!(pages[0].visit_url, "/about");
}

#[test]
fn test_can_build() {
    let site = small_site();
    assert!(site.can_build());
    let mut zero = small_site();
    zero.config.url.per_page_size = 0;
    assert!(!zero.can_build());
    let mut stray = small_site();
    stray.tags[0].posts_index.push(7);
    assert!(!stray.can_build());
    let mut raw = small_site();
    raw.posts[1].author = None;
    assert!(!raw.can_build());
    let mut bare = small_site();
    bare.pages[0].meta.template = None;
    assert!(!bare.can_build());
    let mut fresh = small_site();
    fresh.template_vars = TemplateVars::default();
    assert!(!fresh.can_build());
}

#[test]
fn test_sitemap_output() {
    let site = small_site();
    let o = site.sitemap_output("<urlset/>".to_string());
    assert_eq!(o.visit_url, "/sitemap.xml");
    assert_eq!(files_of(&o), vec!["dist/sitemap.xml"]);
    assert_eq!(o.file_content, "<urlset/>");
    assert_eq!(o.template_file, "");
    assert_eq!(o.sitemap_priority, 0);
    assert!(o.is_literal());
    assert!(!o.in_sitemap());
    assert_eq!(o.lastmod, DateTime::new(2022, 5, 25, 15, 55, 25).unwrap());
    assert_eq!(count_files(&vec![]), Some(0));

    let outs = site.build(&dates(2));
    let n = outs.len();
    let all = site.add_sitemap(outs, "<urlset/>".to_string());
    assert_eq!(all.len(), n + 1);
    assert_eq!(all[n].visit_url, "/sitemap.xml");
    assert_eq!(all[n].file_content, "<urlset/>");
    assert_eq!(count_files(&all), Some(13));
}

#[test]
fn test_site_under_a_root() {
    let mut config = Config::default();
    config.url.root = "/blog".to_string();
    let site = Site::new(config, numbered_posts(1), vec![]);
    assert_eq!(site.posts[0].slug_url, "/blog/2022/01/28/p0");
    let outs = site.build_index();
    assert_eq!(outs[0].visit_url, "/blog/index.html");
    assert_eq!(files_of(&outs[0]), vec!["dist/blog/index.html"]);
    let not_found = site.build_404_page();
    assert_eq!(files_of(&not_found[0]), vec!["dist/blog/404/index.html"]);
    let archives = site.build_archives();
    assert_eq!(archives[0].template_vars.archives.as_ref().unwrap().len(), 1);
    let posts = site.build_posts();
    assert_eq!(files_of(&posts[0]), vec!["dist/blog/blog/2022/01/28/p0/index.html"]);
    let pages = site.build_pages();
    assert_eq!(pages.len(), 0);
}

#[test]
fn test_index_shows_the_first_listing_page() {
    let mut config = Config::default();
    config.url.per_page_size = 2;
    config.theme.index_template = "home.hbs".to_string();
    let site = Site::new(config, numbered_posts(5), vec![]);
    let outs = site.build(&dates(5));
    let listing = &outs[5];
    let index = &outs[8];
    assert_eq!(index.visit_url, "/index.html");
    assert_eq!(index.template_file, "home.hbs");
    assert_eq!(listing.template_file, "posts.hbs");
    let (a, b) = (
        listing.template_vars.pagination.as_ref().unwrap(),
        index.template_vars.pagination.as_ref().unwrap(),
    );
    assert_eq!((a.current, a.next, a.has_next), (b.current, b.next, b.has_next));
    assert_eq!(a.next_url, b.next_url);
    let (shown, first) = (
        listing.template_vars.posts.as_ref().unwrap(),
        index.template_vars.posts.as_ref().unwrap(),
    );
    assert_eq!(shown.len(), first.len());
    assert_eq!(shown[1].title, first[1].title);
    assert_eq!(index.lastmod, listing.lastmod);
}
