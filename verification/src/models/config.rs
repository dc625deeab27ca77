//! The site's configuration, and the paths and addresses that follow from it.

use crate::models::author::{author_named, default_author, Author, AuthorModel};
use crate::utils::strmap::{lookup, put, StrMap};
use crate::utils::text::{copy_strings, ends_with, has_suffix, starts_with};
use crate::utils::url::{merge_url, merged_url};
use vstd::prelude::*;

verus! {

/// Where the site's files lie.
#[derive(Debug)]
pub struct DirectoryConfig {
    pub source: String,
    pub output: String,
    pub themes: String,
    pub assets: Vec<String>,
}

/// The mathematical content of a `DirectoryConfig`.
pub struct DirectoryModel {
    pub source: Seq<char>,
    pub output: Seq<char>,
    pub themes: Seq<char>,
    pub assets: Seq<Seq<char>>,
}

impl DeepView for DirectoryConfig {
    type V = DirectoryModel;

    open spec fn deep_view(&self) -> DirectoryModel {
        DirectoryModel {
            source: self.source@,
            output: self.output@,
            themes: self.themes@,
            assets: self.assets.deep_view(),
        }
    }
}

impl View for DirectoryConfig {
    type V = DirectoryModel;

    open spec fn view(&self) -> DirectoryModel {
        self.deep_view()
    }
}

impl Clone for DirectoryConfig {
    fn clone(&self) -> (r: Self)
        ensures
            r@ == self@,
    {
        DirectoryConfig {
            source: self.source.clone(),
            output: self.output.clone(),
            themes: self.themes.clone(),
            assets: copy_strings(&self.assets),
        }
    }
}

/// The directories of a new site.
pub open spec fn default_directories() -> DirectoryModel {
    DirectoryModel {
        source: "source"@,
        output: "dist"@,
        themes: "themes"@,
        assets: seq!["assets"@],
    }
}

impl DirectoryConfig {
    /// The directories of a new site.
    pub fn new() -> (d: DirectoryConfig)
        ensures
            d@ == default_directories(),
    {
        let mut assets: Vec<String> = Vec::new();
        assets.push(String::from_str("assets"));
        assert(assets.deep_view() =~= seq!["assets"@]);
        DirectoryConfig {
            source: String::from_str("source"),
            output: String::from_str("dist"),
            themes: String::from_str("themes"),
            assets,
        }
    }
}

/// The layouts of the site's addresses.
#[derive(Debug)]
pub struct UrlConfig {
    pub base: String,
    pub root: String,
    pub post_link_format: String,
    pub post_page_format: String,
    pub per_page_size: usize,
    pub tag_link_format: String,
    pub tag_page_format: String,
}

/// The mathematical content of a `UrlConfig`.
pub struct UrlModel {
    pub base: Seq<char>,
    pub root: Seq<char>,
    pub post_link_format: Seq<char>,
    pub post_page_format: Seq<char>,
    pub per_page_size: nat,
    pub tag_link_format: Seq<char>,
    pub tag_page_format: Seq<char>,
}

impl DeepView for UrlConfig {
    type V = UrlModel;

    open spec fn deep_view(&self) -> UrlModel {
        UrlModel {
            base: self.base@,
            root: self.root@,
            post_link_format: self.post_link_format@,
            post_page_format: self.post_page_format@,
            per_page_size: self.per_page_size as nat,
            tag_link_format: self.tag_link_format@,
            tag_page_format: self.tag_page_format@,
        }
    }
}

impl View for UrlConfig {
    type V = UrlModel;

    open spec fn view(&self) -> UrlModel {
        self.deep_view()
    }
}

/// The address layouts of a new site.
pub open spec fn default_urls() -> UrlModel {
    UrlModel {
        base: "http://localhost:19292"@,
        root: "/"@,
        post_link_format: "/:year/:month/:day/:slug"@,
        post_page_format: "/page/:page"@,
        per_page_size: 10,
        tag_link_format: "/tag/:tag"@,
        tag_page_format: "/tag/:tag/page/:page"@,
    }
}

impl UrlConfig {
    /// The address layouts of a new site.
    pub fn new() -> (u: UrlConfig)
        ensures
            u@ == default_urls(),
    {
        UrlConfig {
            base: String::from_str("http://localhost:19292"),
            root: String::from_str("/"),
            post_link_format: String::from_str("/:year/:month/:day/:slug"),
            post_page_format: String::from_str("/page/:page"),
            tag_link_format: String::from_str("/tag/:tag"),
            tag_page_format: String::from_str("/tag/:tag/page/:page"),
            per_page_size: 10,
        }
    }
}

/// The theme that the site is rendered with.
#[derive(Debug)]
pub struct ThemeConfig {
    pub name: String,
    pub index_template: String,
    pub assets_dir: Vec<String>,
}

/// The mathematical content of a `ThemeConfig`.
pub struct ThemeModel {
    pub name: Seq<char>,
    pub index_template: Seq<char>,
    pub assets_dir: Seq<Seq<char>>,
}

impl DeepView for ThemeConfig {
    type V = ThemeModel;

    open spec fn deep_view(&self) -> ThemeModel {
        ThemeModel {
            name: self.name@,
            index_template: self.index_template@,
            assets_dir: self.assets_dir.deep_view(),
        }
    }
}

impl View for ThemeConfig {
    type V = ThemeModel;

    open spec fn view(&self) -> ThemeModel {
        self.deep_view()
    }
}

/// The theme of a new site.
pub open spec fn default_theme() -> ThemeModel {
    ThemeModel { name: "default"@, index_template: "posts.hbs"@, assets_dir: seq!["static"@] }
}

impl ThemeConfig {
    /// The theme of a new site.
    pub fn new() -> (t: ThemeConfig)
        ensures
            t@ == default_theme(),
    {
        let mut assets_dir: Vec<String> = Vec::new();
        assets_dir.push(String::from_str("static"));
        assert(assets_dir.deep_view() =~= seq!["static"@]);
        ThemeConfig {
            name: String::from_str("default"),
            index_template: String::from_str("posts.hbs"),
            assets_dir,
        }
    }
}

/// An entry of the site's navigation. Entries below it are carried along;
/// the pipeline reads the name and the address only.
#[derive(Debug)]
pub struct NavConfig {
    pub name: String,
    pub url: String,
    pub children: Option<Vec<NavConfig>>,
}

/// What the pipeline reads of a `NavConfig`.
pub struct NavModel {
    pub name: Seq<char>,
    pub url: Seq<char>,
}

impl DeepView for NavConfig {
    type V = NavModel;

    open spec fn deep_view(&self) -> NavModel {
        NavModel { name: self.name@, url: self.url@ }
    }
}

impl View for NavConfig {
    type V = NavModel;

    open spec fn view(&self) -> NavModel {
        self.deep_view()
    }
}

/// What the site says of itself.
#[derive(Debug)]
pub struct SiteConfig {
    pub title: String,
    pub subtitle: String,
    pub description: String,
    pub keywords: Vec<String>,
    pub language: String,
    pub author: String,
}

/// The mathematical content of a `SiteConfig`.
pub struct SiteConfigModel {
    pub title: Seq<char>,
    pub subtitle: Seq<char>,
    pub description: Seq<char>,
    pub keywords: Seq<Seq<char>>,
    pub language: Seq<char>,
    pub author: Seq<char>,
}

impl DeepView for SiteConfig {
    type V = SiteConfigModel;

    open spec fn deep_view(&self) -> SiteConfigModel {
        SiteConfigModel {
            title: self.title@,
            subtitle: self.subtitle@,
            description: self.description@,
            keywords: self.keywords.deep_view(),
            language: self.language@,
            author: self.author@,
        }
    }
}

impl View for SiteConfig {
    type V = SiteConfigModel;

    open spec fn view(&self) -> SiteConfigModel {
        self.deep_view()
    }
}

/// What a new site says of itself.
pub open spec fn default_site() -> SiteConfigModel {
    SiteConfigModel {
        title: "PuGo"@,
        subtitle: "a simple static site generator"@,
        description: "Build your content into static websites and blogs"@,
        keywords: seq!["rust"@, "blog"@, "static"@, "website"@, "generator"@],
        language: "en"@,
        author: "pugo"@,
    }
}

impl SiteConfig {
    /// What a new site says of itself.
    pub fn new() -> (s: SiteConfig)
        ensures
            s@ == default_site(),
    {
        let mut keywords: Vec<String> = Vec::new();
        keywords.push(String::from_str("rust"));
        keywords.push(String::from_str("blog"));
        keywords.push(String::from_str("static"));
        keywords.push(String::from_str("website"));
        keywords.push(String::from_str("generator"));
        assert(keywords.deep_view() =~= seq![
            "rust"@,
            "blog"@,
            "static"@,
            "website"@,
            "generator"@,
        ]);
        SiteConfig {
            title: String::from_str("PuGo"),
            subtitle: String::from_str("a simple static site generator"),
            description: String::from_str("Build your content into static websites and blogs"),
            keywords,
            language: String::from_str("en"),
            author: String::from_str("pugo"),
        }
    }
}

/// The configuration of a site.
#[derive(Debug)]
pub struct Config {
    pub site: SiteConfig,
    pub url: UrlConfig,
    pub directory: DirectoryConfig,
    pub theme: ThemeConfig,
    pub nav: Vec<NavConfig>,
    pub author: Option<StrMap<Author>>,
}

/// The mathematical content of a `Config`.
pub struct ConfigModel {
    pub site: SiteConfigModel,
    pub url: UrlModel,
    pub directory: DirectoryModel,
    pub theme: ThemeModel,
    pub nav: Seq<NavModel>,
    pub author: Option<Seq<(Seq<char>, AuthorModel)>>,
}

impl DeepView for Config {
    type V = ConfigModel;

    open spec fn deep_view(&self) -> ConfigModel {
        ConfigModel {
            site: self.site@,
            url: self.url@,
            directory: self.directory@,
            theme: self.theme@,
            nav: self.nav.deep_view(),
            author: match self.author {
                Some(m) => Some(m.entries()),
                None => None,
            },
        }
    }
}

impl View for Config {
    type V = ConfigModel;

    open spec fn view(&self) -> ConfigModel {
        self.deep_view()
    }
}

/// The configuration of a new site.
pub open spec fn default_config() -> ConfigModel {
    ConfigModel {
        site: default_site(),
        url: default_urls(),
        directory: default_directories(),
        theme: default_theme(),
        nav: seq![
            NavModel { name: "Archives"@, url: "/archives"@ },
            NavModel { name: "About"@, url: "/about"@ },
        ],
        author: Some(seq![("pugo"@, default_author())]),
    }
}

/// The directory of the posts' sources.
pub open spec fn posts_dir(c: ConfigModel) -> Seq<char> {
    merged_url(c.directory.source, "posts"@)
}

/// The directory of the pages' sources.
pub open spec fn pages_dir(c: ConfigModel) -> Seq<char> {
    merged_url(c.directory.source, "pages"@)
}

/// The directory of the theme in use.
pub open spec fn theme_dir(c: ConfigModel) -> Seq<char> {
    merged_url(c.directory.themes, c.theme.name)
}

/// `url` under the site's root, beginning with a slash.
pub open spec fn root_url(c: ConfigModel, url: Seq<char>) -> Seq<char> {
    let joined = merged_url(c.url.root, url);
    if has_prefix_slash(joined) {
        joined
    } else {
        seq!['/'] + joined
    }
}

/// `s` begins with a slash.
pub open spec fn has_prefix_slash(s: Seq<char>) -> bool {
    s.len() > 0 && s[0] == '/'
}

/// `url` under the site's base address and root.
pub open spec fn full_url(c: ConfigModel, url: Seq<char>) -> Seq<char> {
    merged_url(merged_url(c.url.base, c.url.root), url)
}

/// The directory that the site is written to, with or without the site's root.
pub open spec fn output_dir(c: ConfigModel, with_root: bool) -> Seq<char> {
    if with_root {
        merged_url(c.directory.output, c.url.root)
    } else {
        c.directory.output
    }
}

/// The path of the output file `name`.
pub open spec fn dist_filepath(c: ConfigModel, name: Seq<char>, with_root: bool) -> Seq<char> {
    merged_url(output_dir(c, with_root), name)
}

/// The path of the HTML file that shows at the address `name`: `name` itself
/// where it names an HTML file, else the index file of the directory `name`.
pub open spec fn dist_html_filepath(c: ConfigModel, name: Seq<char>, with_root: bool) -> Seq<
    char,
> {
    let path = dist_filepath(c, name, with_root);
    if has_suffix(path, ".html"@) {
        path
    } else {
        path + "/index.html"@
    }
}

/// `acc` after each of `dirs` has been mapped from under `from` to under `to`.
pub open spec fn with_dirs(
    acc: Seq<(Seq<char>, Seq<char>)>,
    dirs: Seq<Seq<char>>,
    from: Seq<char>,
    to: Seq<char>,
) -> Seq<(Seq<char>, Seq<char>)>
    decreases dirs.len(),
{
    if dirs.len() == 0 {
        acc
    } else {
        put(
            with_dirs(acc, dirs.drop_last(), from, to),
            merged_url(from, dirs.last()),
            merged_url(to, dirs.last()),
        )
    }
}

/// The directories to copy into the output, each with where it goes: the
/// site's asset directories, then the theme's.
pub open spec fn assets_dirs(c: ConfigModel) -> Seq<(Seq<char>, Seq<char>)> {
    with_dirs(
        with_dirs(Seq::empty(), c.directory.assets, c.directory.source, output_dir(c, true)),
        c.theme.assets_dir,
        theme_dir(c),
        output_dir(c, true),
    )
}

/// The author configured under `name`, or the default author under that name.
pub open spec fn author_of(c: ConfigModel, name: Seq<char>) -> AuthorModel {
    match c.author {
        None => author_named(name),
        Some(entries) => match lookup(entries, name) {
            Some(a) => a,
            None => author_named(name),
        },
    }
}

fn add_dirs(acc: &mut StrMap<String>, dirs: &Vec<String>, from: &str, to: &str)
    ensures
        final(acc).entries() == with_dirs(old(acc).entries(), dirs.deep_view(), from@, to@),
{
    let mut i: usize = 0;
    assert(dirs.deep_view().take(0) =~= Seq::<Seq<char>>::empty());
    while i < dirs.len()
        invariant
            i <= dirs.len(),
            acc.entries() == with_dirs(old(acc).entries(), dirs.deep_view().take(i as int), from@, to@),
        decreases dirs.len() - i,
    {
        let src = merge_url(from, dirs[i].as_str());
        let output = merge_url(to, dirs[i].as_str());
        acc.insert(src, output);
        i += 1;
        proof {
            let now = dirs.deep_view().take(i as int);
            assert(now.drop_last() =~= dirs.deep_view().take(i - 1));
            assert(now.last() == dirs@[i - 1]@);
        }
    }
    assert(dirs.deep_view().take(dirs.len() as int) =~= dirs.deep_view());
}

impl Config {
    /// The configuration of a new site.
    pub fn default() -> (c: Self)
        ensures
            c@ == default_config(),
    {
        let mut nav: Vec<NavConfig> = Vec::new();
        nav.push(
            NavConfig {
                name: String::from_str("Archives"),
                url: String::from_str("/archives"),
                children: None,
            },
        );
        nav.push(
            NavConfig {
                name: String::from_str("About"),
                url: String::from_str("/about"),
                children: None,
            },
        );
        assert(nav.deep_view() =~= seq![
            NavModel { name: "Archives"@, url: "/archives"@ },
            NavModel { name: "About"@, url: "/about"@ },
        ]);
        let mut authors: StrMap<Author> = StrMap::new();
        authors.insert(String::from_str("pugo"), Author::default());
        assert(authors.entries() =~= seq![("pugo"@, default_author())]);
        Config {
            site: SiteConfig::new(),
            url: UrlConfig::new(),
            directory: DirectoryConfig::new(),
            theme: ThemeConfig::new(),
            nav,
            author: Some(authors),
        }
    }

    /// The path of the post source `filename`.
    pub fn build_post_uri(&self, filename: &str) -> (uri: String)
        ensures
            uri@ == merged_url(posts_dir(self@), filename@),
    {
        let uri = merge_url(self.directory.source.as_str(), "posts");
        merge_url(uri.as_str(), filename)
    }

    /// `url` under the site's root, beginning with a slash.
    pub fn build_root_url(&self, url: &str) -> (r: String)
        ensures
            r@ == root_url(self@, url@),
    {
        let root_url = merge_url(self.url.root.as_str(), url);
        proof {
            reveal_strlit("/");
        }
        if !starts_with(root_url.as_str(), "/") {
            assert(has_prefix_slash(root_url@) ==> root_url@.subrange(0, 1) =~= "/"@);
            let mut r = String::from_str("/");
            r.append(root_url.as_str());
            assert(r@ =~= seq!['/'] + root_url@);
            r
        } else {
            assert(root_url@.subrange(0, 1)[0] == '/');
            root_url
        }
    }

    /// `url` under the site's base address and root.
    pub fn build_full_url(&self, url: &str) -> (r: String)
        ensures
            r@ == full_url(self@, url@),
    {
        let base_url = merge_url(self.url.base.as_str(), self.url.root.as_str());
        merge_url(base_url.as_str(), url)
    }

    /// The directory of the posts' sources.
    pub fn get_posts_dir(&self) -> (dir: String)
        ensures
            dir@ == posts_dir(self@),
    {
        merge_url(self.directory.source.as_str(), "posts")
    }

    /// The directory of the pages' sources.
    pub fn get_pages_dir(&self) -> (dir: String)
        ensures
            dir@ == pages_dir(self@),
    {
        merge_url(self.directory.source.as_str(), "pages")
    }

    /// The directory of the theme in use.
    pub fn get_theme_dir(&self) -> (dir: String)
        ensures
            dir@ == theme_dir(self@),
    {
        merge_url(self.directory.themes.as_str(), self.theme.name.as_str())
    }

    /// The layout of a post's address, under the site's root.
    pub fn get_slug_link(&self) -> (link: String)
        ensures
            link@ == root_url(self@, self@.url.post_link_format),
    {
        self.build_root_url(self.url.post_link_format.as_str())
    }

    /// The path of the page source `filename`.
    pub fn build_page_uri(&self, filename: &str) -> (uri: String)
        ensures
            uri@ == merged_url(pages_dir(self@), filename@),
    {
        let uri = merge_url(self.directory.source.as_str(), "pages");
        merge_url(uri.as_str(), filename)
    }

    /// The author configured under `name`, or the default author under that name.
    pub fn get_author(&self, name: &str) -> (a: Author)
        ensures
            a@ == author_of(self@, name@),
    {
        match &self.author {
            None => Author::create_by_name(name),
            Some(authors) => match authors.get(name) {
                None => Author::create_by_name(name),
                Some(a) => a.clone(),
            },
        }
    }

    /// The author that the site names as its own.
    pub fn get_default_author(&self) -> (a: Author)
        ensures
            a@ == author_of(self@, self@.site.author),
    {
        self.get_author(self.site.author.as_str())
    }

    /// The directory that the site is written to, with or without the site's root.
    pub fn get_output_dir(&self, with_root: bool) -> (dir: String)
        ensures
            dir@ == output_dir(self@, with_root),
    {
        if with_root {
            merge_url(self.directory.output.as_str(), self.url.root.as_str())
        } else {
            self.directory.output.clone()
        }
    }

    /// The path of the output file `name`.
    pub fn build_dist_filepath(&self, name: &str, with_root: bool) -> (path: String)
        ensures
            path@ == dist_filepath(self@, name@, with_root),
    {
        let output = self.get_output_dir(with_root);
        merge_url(output.as_str(), name)
    }

    /// The path of the HTML file that shows at the address `name`.
    pub fn build_dist_html_filepath(&self, name: &str, with_root: bool) -> (path: String)
        ensures
            path@ == dist_html_filepath(self@, name@, with_root),
    {
        let mut output = self.build_dist_filepath(name, with_root);
        if !ends_with(output.as_str(), ".html") {
            output.append("/index.html");
        }
        output
    }

    /// The directories to copy into the output, each with where it goes.
    pub fn build_assets_dirs(&self) -> (dirs: StrMap<String>)
        ensures
            dirs.entries() == assets_dirs(self@),
    {
        let mut dirs: StrMap<String> = StrMap::new();
        let output = self.get_output_dir(true);
        add_dirs(&mut dirs, &self.directory.assets, self.directory.source.as_str(), output.as_str());
        let theme = self.get_theme_dir();
        add_dirs(&mut dirs, &self.theme.assets_dir, theme.as_str(), output.as_str());
        dirs
    }
}

} // verus!
