//! The site: its configuration, its documents, what is derived from them,
//! and the plan of the artifacts that a build writes.

use crate::models::archive::{latest_year_first, Archive, ArchiveModel};
use crate::models::config::{
    author_of, dist_filepath, dist_html_filepath, full_url, has_prefix_slash, root_url, Config,
    ConfigModel,
};
use crate::models::datetime::DateTime;
use crate::models::feed::{channel_xml, item_fields, rss_channel_text, FeedItem, FeedItemModel};
use crate::models::output::{
    in_sitemap, Output, OutputModel, SitemapEntry, SitemapEntryModel,
};
use crate::models::pagination::{
    lemma_page_count_is_ceiling, lemma_window_in_bounds, page_count, page_url, window,
    Pagination, PaginationItem,
};
use crate::models::post::{
    all_normalized, is_normalized, slug_address, Post, PostMetaModel, PostModel,
};
use crate::models::tag::{first_seen_tags, most_used_first, Tag, TagModel};
use crate::models::tplvars::{
    is_resolved, is_resolved_document, post_vars, template_vars, ArchiveVars, ArchiveVarsModel, GlobalModel,
    GlobalVars, PaginationVarsModel, PostVars, PostVarsModel, TemplateModel,
    TemplateVars,
};
use crate::utils::strmap::lookup;
use crate::utils::text::{lemma_replace_keeps_first, replace_all, same_text, signed_decimal, two_digits};
use pulldown_cmark::{html, Options, Parser};
use vstd::prelude::*;

verus! {

/// A site: everything that one build works on.
#[derive(Debug)]
pub struct Site {
    pub config: Config,
    pub posts: Vec<Post>,
    pub pages: Vec<Post>,
    pub tags: Vec<Tag>,
    pub template_vars: TemplateVars,
}

/// The mathematical content of a `Site`.
pub struct SiteModel {
    pub config: ConfigModel,
    pub posts: Seq<PostModel>,
    pub pages: Seq<PostModel>,
    pub tags: Seq<TagModel>,
    pub vars: TemplateModel,
}

impl DeepView for Site {
    type V = SiteModel;

    open spec fn deep_view(&self) -> SiteModel {
        SiteModel {
            config: self.config@,
            posts: self.posts.deep_view(),
            pages: self.pages.deep_view(),
            tags: self.tags.deep_view(),
            vars: self.template_vars@,
        }
    }
}

impl View for Site {
    type V = SiteModel;

    open spec fn view(&self) -> SiteModel {
        self.deep_view()
    }
}

/// The HTML that the Markdown text `content` is rendered to, with the given
/// extensions of the syntax switched on or off.
pub uninterp spec fn markdown_html(
    content: Seq<char>,
    footnotes: bool,
    tables: bool,
    strikethrough: bool,
    tasklists: bool,
) -> Seq<char>;

/// `pulldown_cmark::Parser::new_ext` reads `content` with the chosen
/// extensions and `pulldown_cmark::html::push_html` writes what was read as
/// HTML. The result depends on the text and the four choices alone.
#[verifier::external_body]
fn render_markdown(
    content: &str,
    footnotes: bool,
    tables: bool,
    strikethrough: bool,
    tasklists: bool,
) -> (out: String)
    ensures
        out@ == markdown_html(content@, footnotes, tables, strikethrough, tasklists),
{
    let mut options = Options::empty();
    options.set(Options::ENABLE_FOOTNOTES, footnotes);
    options.set(Options::ENABLE_TABLES, tables);
    options.set(Options::ENABLE_STRIKETHROUGH, strikethrough);
    options.set(Options::ENABLE_TASKLISTS, tasklists);
    let mut out = String::new();
    html::push_html(&mut out, Parser::new_ext(content, options));
    out
}

/// The HTML of a document's text: Markdown with footnotes, tables,
/// strikethrough and task lists.
pub open spec fn document_html(content: Seq<char>) -> Seq<char> {
    markdown_html(content, true, true, true, true)
}

/// Renders the Markdown text of a document to HTML.
pub fn markdown_to_html(content: &str) -> (out: String)
    ensures
        out@ == document_html(content@),
{
    render_markdown(content, true, true, true, true)
}

/// The metadata with the site's author and language where it names none.
pub open spec fn with_site_defaults(c: ConfigModel, m: PostMetaModel) -> PostMetaModel {
    PostMetaModel {
        author: match m.author {
            Some(a) => Some(a),
            None => Some(c.site.author),
        },
        language: match m.language {
            Some(l) => Some(l),
            None => Some(c.site.language),
        },
        ..m
    }
}

/// A post resolved against the site: its address follows the layout of
/// posts, its author is looked up, and its excerpt and text are rendered.
pub open spec fn resolved_post(c: ConfigModel, p: PostModel) -> PostModel {
    let meta = with_site_defaults(c, p.meta);
    PostModel {
        meta,
        slug_url: slug_address(root_url(c, c.url.post_link_format), p.datetime->0, p.meta.slug),
        author: Some(author_of(c, meta.author->0)),
        brief_html: document_html(p.brief_markdown),
        content_html: document_html(p.content_markdown),
        ..p
    }
}

/// A page resolved against the site: its address is its slug under the
/// site's root, its author is looked up, its text is rendered, and the
/// template of posts gives way to that of pages.
pub open spec fn resolved_page(c: ConfigModel, p: PostModel) -> PostModel {
    let meta = with_site_defaults(c, p.meta);
    PostModel {
        meta: PostMetaModel {
            template: if meta.template == Some("post.hbs"@) {
                Some("page.hbs"@)
            } else {
                meta.template
            },
            ..meta
        },
        slug_url: root_url(c, p.meta.slug),
        author: Some(author_of(c, meta.author->0)),
        content_html: document_html(p.content_markdown),
        ..p
    }
}

/// Every resolved document has an address, and it begins with a slash.
pub proof fn lemma_resolved_documents_have_addresses(c: ConfigModel, p: PostModel)
    ensures
        has_prefix_slash(resolved_post(c, p).slug_url),
        has_prefix_slash(resolved_page(c, p).slug_url),
{
    reveal_strlit(":year");
    reveal_strlit(":month");
    reveal_strlit(":day");
    reveal_strlit(":slug");
    let date = p.datetime->0;
    let layout = root_url(c, c.url.post_link_format);
    let with_year = replace_all(layout, ":year"@, signed_decimal(date.year as int));
    lemma_replace_keeps_first(layout, ":year"@, signed_decimal(date.year as int));
    let with_month = replace_all(with_year, ":month"@, two_digits(date.month as nat));
    lemma_replace_keeps_first(with_year, ":month"@, two_digits(date.month as nat));
    let with_day = replace_all(with_month, ":day"@, two_digits(date.day as nat));
    lemma_replace_keeps_first(with_month, ":day"@, two_digits(date.day as nat));
    lemma_replace_keeps_first(with_day, ":slug"@, p.meta.slug);
}

/// Every position that a tag lists is the position of a post.
pub open spec fn tags_in_range(tags: Seq<TagModel>, posts: int) -> bool {
    forall|t: int, j: int|
        0 <= t < tags.len() && 0 <= j < tags[t].posts_index.len() ==> #[trigger] tags[t].posts_index[j]
            < posts
}

/// `after` is the site `before` with its documents resolved and its tags
/// and template variables derived.
pub open spec fn is_parsed(before: SiteModel, after: SiteModel) -> bool {
    &&& after.config == before.config
    &&& after.posts == Seq::new(before.posts.len(), |i: int| resolved_post(before.config, before.posts[i]))
    &&& after.pages == Seq::new(before.pages.len(), |i: int| resolved_page(before.config, before.pages[i]))
    &&& most_used_first(first_seen_tags(before.posts, before.config.url), after.tags)
    &&& tags_in_range(after.tags, before.posts.len() as int)
    &&& after.vars == template_vars(after.config, after.tags)
}

/// The documents of the site are resolved and have templates, its tags
/// list posts, and its variables are there.
pub open spec fn documents_are_resolved(s: SiteModel) -> bool {
    &&& forall|i: int|
        0 <= i < s.posts.len() ==> is_resolved(#[trigger] s.posts[i]) && s.posts[i].meta.template
            is Some
    &&& forall|i: int|
        0 <= i < s.pages.len() ==> is_resolved(#[trigger] s.pages[i]) && s.pages[i].meta.template
            is Some
    &&& tags_in_range(s.tags, s.posts.len() as int)
    &&& s.vars.global is Some
}

/// The listings of the site can be paged: its documents are resolved and
/// its page size is positive.
pub open spec fn is_listable(s: SiteModel) -> bool {
    documents_are_resolved(s) && s.config.url.per_page_size > 0
}

/// The site can be built: its listings can be paged and it has a post,
/// whose time the artifacts without a document of their own take.
pub open spec fn is_buildable(s: SiteModel) -> bool {
    is_listable(s) && s.posts.len() > 0
}

fn resolve_common(config: &Config, p: &mut Post)
    ensures
        final(p)@ == (PostModel {
            meta: with_site_defaults(config@, old(p)@.meta),
            author: Some(author_of(config@, with_site_defaults(config@, old(p)@.meta).author->0)),
            content_html: document_html(old(p)@.content_markdown),
            ..old(p)@
        }),
{
    if p.meta.author.is_none() {
        p.meta.author = Some(config.site.author.clone());
    }
    if p.meta.language.is_none() {
        p.meta.language = Some(config.site.language.clone());
    }
    p.author = Some(config.get_author(p.meta.author.as_ref().unwrap().as_str()));
    p.content_html = markdown_to_html(p.content_markdown.as_str());
}

fn resolve_post(config: &Config, slug_format: &str, p: &mut Post)
    requires
        old(p).datetime is Some,
        slug_format@ == root_url(config@, config@.url.post_link_format),
    ensures
        final(p)@ == resolved_post(config@, old(p)@),
{
    p.set_slug_url(slug_format);
    resolve_common(config, p);
    p.brief_html = markdown_to_html(p.brief_markdown.as_str());
}

fn resolve_page(config: &Config, p: &mut Post)
    ensures
        final(p)@ == resolved_page(config@, old(p)@),
{
    p.slug_url = config.build_root_url(p.meta.slug.as_str());
    resolve_common(config, p);
    let of_posts = match &p.meta.template {
        Some(t) => same_text(t.as_str(), "post.hbs"),
        None => false,
    };
    if of_posts {
        p.meta.template = Some(String::from_str("page.hbs"));
    }
}

fn all_resolved(docs: &Vec<Post>) -> (b: bool)
    ensures
        b == forall|i: int|
            0 <= i < docs.deep_view().len() ==> is_resolved(#[trigger] docs.deep_view()[i])
                && docs.deep_view()[i].meta.template is Some,
{
    let mut i: usize = 0;
    while i < docs.len()
        invariant
            i <= docs@.len(),
            forall|j: int|
                0 <= j < i ==> is_resolved((#[trigger] docs@[j])@) && docs@[j]@.meta.template
                    is Some,
        decreases docs@.len() - i,
    {
        if !(is_resolved_document(&docs[i]) && docs[i].meta.template.is_some()) {
            assert(docs.deep_view()[i as int] == docs@[i as int]@);
            return false;
        }
        i += 1;
    }
    assert forall|j: int| 0 <= j < docs.deep_view().len() implies is_resolved(
        #[trigger] docs.deep_view()[j],
    ) && docs.deep_view()[j].meta.template is Some by {
        assert(is_resolved(docs@[j]@));
    }
    true
}

fn all_in_range(tags: &Vec<Tag>, posts: usize) -> (b: bool)
    ensures
        b == tags_in_range(tags.deep_view(), posts as int),
{
    let mut t: usize = 0;
    while t < tags.len()
        invariant
            t <= tags@.len(),
            forall|x: int, j: int|
                0 <= x < t && 0 <= j < tags@[x].posts_index@.len() ==> #[trigger] tags@[x].posts_index@[j]
                    < posts,
        decreases tags@.len() - t,
    {
        let list = &tags[t].posts_index;
        let mut k: usize = 0;
        while k < list.len()
            invariant
                k <= list@.len(),
                t < tags@.len(),
                list == &tags@[t as int].posts_index,
                forall|j: int| 0 <= j < k ==> #[trigger] list@[j] < posts,
            decreases list@.len() - k,
        {
            if list[k] >= posts {
                assert(tags.deep_view()[t as int].posts_index[k as int] >= posts);
                return false;
            }
            k += 1;
        }
        t += 1;
    }
    assert forall|x: int, j: int|
        0 <= x < tags.deep_view().len() && 0 <= j < tags.deep_view()[x].posts_index.len() implies #[trigger] tags.deep_view()[x].posts_index[j]
        < posts by {
        assert(tags@[x].posts_index@[j] < posts);
    }
    true
}

impl Site {
    /// Whether the site can be built.
    pub fn can_build(&self) -> (b: bool)
        ensures
            b == is_buildable(self@),
    {
        self.posts.len() > 0 && self.config.url.per_page_size > 0
            && self.template_vars.has_global() && all_resolved(&self.posts) && all_resolved(
            &self.pages,
        ) && all_in_range(&self.tags, self.posts.len())
    }

    /// The site of the given configuration and normalized documents, with
    /// the documents resolved and the tags and template variables derived.
    pub fn new(config: Config, posts: Vec<Post>, pages: Vec<Post>) -> (site: Site)
        requires
            all_normalized(posts.deep_view()),
            all_normalized(pages.deep_view()),
        ensures
            is_parsed(
                SiteModel {
                    config: config@,
                    posts: posts.deep_view(),
                    pages: pages.deep_view(),
                    tags: Seq::empty(),
                    vars: TemplateModel { tags: Seq::empty(), global: None },
                },
                site@,
            ),
            documents_are_resolved(site@),
            posts@.len() > 0 && config@.url.per_page_size > 0 ==> is_buildable(site@),
    {
        let mut site = Site {
            config,
            posts,
            pages,
            tags: Vec::new(),
            template_vars: TemplateVars::default(),
        };
        assert(site.tags.deep_view() =~= Seq::<TagModel>::empty());
        assert forall|i: int| 0 <= i < site.posts@.len() implies is_normalized(
            (#[trigger] site.posts@[i])@,
        ) by {
            assert(is_normalized(site.posts.deep_view()[i]));
        }
        assert forall|i: int| 0 <= i < site.pages@.len() implies is_normalized(
            (#[trigger] site.pages@[i])@,
        ) by {
            assert(is_normalized(site.pages.deep_view()[i]));
        }
        site.parse_source();
        site
    }

    /// Resolves the documents against the configuration and derives the
    /// tags and the template variables.
    pub fn parse_source(&mut self)
        requires
            forall|i: int|
                0 <= i < old(self).posts@.len() ==> is_normalized(
                    (#[trigger] old(self).posts@[i])@,
                ),
            forall|i: int|
                0 <= i < old(self).pages@.len() ==> is_normalized(
                    (#[trigger] old(self).pages@[i])@,
                ),
        ensures
            is_parsed(old(self)@, final(self)@),
            documents_are_resolved(final(self)@),
            old(self).posts@.len() > 0 && old(self)@.config.url.per_page_size > 0
                ==> is_buildable(final(self)@),
    {
        self.tags = Tag::parse(self.posts.as_slice(), &self.config.url);
        let slug_format = self.config.get_slug_link();
        let mut i: usize = 0;
        while i < self.posts.len()
            invariant
                i <= self.posts@.len(),
                self.posts@.len() == old(self).posts@.len(),
                self.config == old(self).config,
                self.pages == old(self).pages,
                slug_format@ == root_url(self.config@, self.config@.url.post_link_format),
                forall|j: int|
                    0 <= j < old(self).posts@.len() ==> is_normalized(
                        (#[trigger] old(self).posts@[j])@,
                    ),
                forall|j: int|
                    0 <= j < i ==> (#[trigger] self.posts@[j])@ == resolved_post(
                        self.config@,
                        old(self).posts@[j]@,
                    ),
                forall|j: int|
                    i <= j < self.posts@.len() ==> #[trigger] self.posts@[j] == old(self).posts@[j],
                most_used_first(
                    first_seen_tags(old(self).posts.deep_view(), self.config@.url),
                    self.tags.deep_view(),
                ),
                tags_in_range(self.tags.deep_view(), old(self).posts@.len() as int),
            decreases self.posts@.len() - i,
        {
            resolve_post(&self.config, slug_format.as_str(), &mut self.posts[i]);
            i += 1;
        }
        let mut k: usize = 0;
        while k < self.pages.len()
            invariant
                k <= self.pages@.len(),
                self.pages@.len() == old(self).pages@.len(),
                self.config == old(self).config,
                self.posts@.len() == old(self).posts@.len(),
                forall|j: int|
                    0 <= j < self.posts@.len() ==> (#[trigger] self.posts@[j])@ == resolved_post(
                        self.config@,
                        old(self).posts@[j]@,
                    ),
                forall|j: int|
                    0 <= j < k ==> (#[trigger] self.pages@[j])@ == resolved_page(
                        self.config@,
                        old(self).pages@[j]@,
                    ),
                forall|j: int|
                    k <= j < self.pages@.len() ==> #[trigger] self.pages@[j] == old(self).pages@[j],
                most_used_first(
                    first_seen_tags(old(self).posts.deep_view(), self.config@.url),
                    self.tags.deep_view(),
                ),
                tags_in_range(self.tags.deep_view(), old(self).posts@.len() as int),
            decreases self.pages@.len() - k,
        {
            resolve_page(&self.config, &mut self.pages[k]);
            k += 1;
        }
        self.template_vars = TemplateVars::new(self);
        proof {
            let before = old(self)@;
            let after = self@;
            assert(after.posts =~= Seq::new(
                before.posts.len(),
                |i: int| resolved_post(before.config, before.posts[i]),
            ));
            assert(after.pages =~= Seq::new(
                before.pages.len(),
                |i: int| resolved_page(before.config, before.pages[i]),
            ));
            assert forall|i: int| 0 <= i < after.posts.len() implies is_resolved(
                #[trigger] after.posts[i],
            ) && after.posts[i].meta.template is Some by {
                assert(is_normalized(old(self).posts@[i]@));
            }
            assert forall|i: int| 0 <= i < after.pages.len() implies is_resolved(
                #[trigger] after.pages[i],
            ) && after.pages[i].meta.template is Some by {
                assert(is_normalized(old(self).pages@[i]@));
            }
        }
    }
}

/// What a template sees of page `page` of a listing of `total` items at
/// `size` items a page, with `layout` for the addresses of its pages.
pub open spec fn listing_vars(page: nat, total: nat, size: nat, layout: Seq<char>) -> PaginationVarsModel {
    let w = window(page, total, size);
    PaginationVarsModel {
        current: w.current,
        prev: w.previous,
        next: w.next,
        total,
        total_pages: page_count(total, size),
        has_next: w.has_next,
        has_prev: w.has_previous,
        current_url: page_url(layout, w.current),
        prev_url: page_url(layout, w.previous),
        next_url: page_url(layout, w.next),
    }
}

/// The artifact rendered to the HTML file that shows at `address`.
pub open spec fn html_artifact(
    c: ConfigModel,
    address: Seq<char>,
    vars: GlobalModel,
    template: Seq<char>,
    lastmod: DateTime,
    priority: nat,
) -> OutputModel {
    OutputModel {
        visit_url: root_url(c, address),
        output_files: seq![dist_html_filepath(c, address, true)],
        template_vars: vars,
        template_file: template,
        file_content: Seq::empty(),
        lastmod,
        sitemap_priority: priority,
    }
}

/// The variables of the posts at the positions `start..end`.
pub open spec fn window_posts(s: SiteModel, start: int, end: int) -> Seq<PostVarsModel> {
    Seq::new((end - start) as nat, |j: int| post_vars(s.vars.tags, s.posts[start + j]))
}

/// The variables of the posts at the given positions.
pub open spec fn listed_posts(s: SiteModel, positions: Seq<usize>) -> Seq<PostVarsModel> {
    Seq::new(positions.len(), |j: int| post_vars(s.vars.tags, s.posts[positions[j] as int]))
}

/// The artifact of the post at position `i`.
pub open spec fn post_artifact(s: SiteModel, i: int) -> OutputModel {
    let p = s.posts[i];
    html_artifact(
        s.config,
        p.slug_url,
        GlobalModel { post: Some(post_vars(s.vars.tags, p)), ..s.vars.global->0 },
        p.meta.template->0,
        p.datetime->0,
        80,
    )
}

/// The artifacts of the posts.
pub open spec fn post_artifacts(s: SiteModel) -> Seq<OutputModel> {
    Seq::new(s.posts.len(), |i: int| post_artifact(s, i))
}

/// The artifact of page `k + 1` of the listing of all posts. It takes the
/// time of its first post.
pub open spec fn listing_artifact(s: SiteModel, k: int) -> OutputModel {
    let n = s.posts.len();
    let size = s.config.url.per_page_size;
    let layout = s.config.url.post_page_format;
    let w = window((k + 1) as nat, n, size);
    html_artifact(
        s.config,
        page_url(layout, w.current),
        GlobalModel {
            pagination: Some(listing_vars((k + 1) as nat, n, size, layout)),
            posts: Some(window_posts(s, w.start as int, w.end as int)),
            ..s.vars.global->0
        },
        "posts.hbs"@,
        s.posts[w.start as int].datetime->0,
        70,
    )
}

/// The artifacts of the listing of all posts, one for each of its pages.
pub open spec fn listing_artifacts(s: SiteModel) -> Seq<OutputModel> {
    Seq::new(
        page_count(s.posts.len(), s.config.url.per_page_size),
        |k: int| listing_artifact(s, k),
    )
}

/// The artifact of the page at position `i`.
pub open spec fn page_artifact(s: SiteModel, i: int) -> OutputModel {
    let p = s.pages[i];
    html_artifact(
        s.config,
        p.slug_url,
        GlobalModel { page: Some(post_vars(s.vars.tags, p)), ..s.vars.global->0 },
        p.meta.template->0,
        p.datetime->0,
        70,
    )
}

/// The artifacts of the pages.
pub open spec fn page_artifacts(s: SiteModel) -> Seq<OutputModel> {
    Seq::new(s.pages.len(), |i: int| page_artifact(s, i))
}

/// The artifact of page `k + 1` of the listing of the tag at position `t`.
/// It shows the posts of the tag in the window of the page and takes the
/// time of the tag's first post; the first page is also written where the
/// tag itself shows.
pub open spec fn tag_page_artifact(s: SiteModel, t: int, k: int) -> OutputModel {
    let tag = s.tags[t];
    let m = tag.posts_index.len();
    let size = s.config.url.per_page_size;
    let w = window((k + 1) as nat, m, size);
    let base = html_artifact(
        s.config,
        page_url(tag.page_format, w.current),
        GlobalModel {
            pagination: Some(listing_vars((k + 1) as nat, m, size, tag.page_format)),
            current_tag: lookup(s.vars.tags, tag.name),
            posts: Some(
                listed_posts(s, tag.posts_index.subrange(w.start as int, w.end as int)),
            ),
            ..s.vars.global->0
        },
        "posts.hbs"@,
        s.posts[tag.posts_index[0] as int].datetime->0,
        70,
    );
    if k == 0 {
        OutputModel {
            output_files: base.output_files.push(dist_html_filepath(s.config, tag.url, true)),
            ..base
        }
    } else {
        base
    }
}

/// The artifacts of the listing of the tag at position `t`.
pub open spec fn tag_pages(s: SiteModel, t: int) -> Seq<OutputModel> {
    Seq::new(
        page_count(s.tags[t].posts_index.len(), s.config.url.per_page_size),
        |k: int| tag_page_artifact(s, t, k),
    )
}

/// The artifacts of the listings of the first `upto` tags.
pub open spec fn tag_artifacts(s: SiteModel, upto: int) -> Seq<OutputModel>
    decreases upto,
{
    if upto <= 0 {
        Seq::empty()
    } else {
        tag_artifacts(s, upto - 1) + tag_pages(s, upto - 1)
    }
}

/// The artifact of the site's front page: the first page of the listing of
/// all posts, under the theme's template for it.
pub open spec fn index_artifact(s: SiteModel) -> OutputModel {
    let n = s.posts.len();
    let size = s.config.url.per_page_size;
    let layout = s.config.url.post_page_format;
    let w = window(1, n, size);
    html_artifact(
        s.config,
        "index.html"@,
        GlobalModel {
            pagination: Some(listing_vars(1, n, size, layout)),
            posts: Some(window_posts(s, w.start as int, w.end as int)),
            ..s.vars.global->0
        },
        s.config.theme.index_template,
        s.posts[w.start as int].datetime->0,
        100,
    )
}

/// The artifact shown for an address that the site does not have.
pub open spec fn not_found_artifact(s: SiteModel) -> OutputModel {
    html_artifact(s.config, "404"@, s.vars.global->0, "404.hbs"@, s.posts[0].datetime->0, 0)
}

/// What a template sees of the years of the archive.
pub open spec fn archive_vars(s: SiteModel, archives: Seq<ArchiveModel>) -> Seq<ArchiveVarsModel> {
    Seq::new(
        archives.len(),
        |a: int|
            ArchiveVarsModel {
                year: archives[a].year,
                posts: listed_posts(s, archives[a].posts_index),
            },
    )
}

/// The artifact of the archive with the given years.
pub open spec fn archive_artifact(s: SiteModel, archives: Seq<ArchiveModel>) -> OutputModel {
    html_artifact(
        s.config,
        "archives"@,
        GlobalModel { archives: Some(archive_vars(s, archives)), ..s.vars.global->0 },
        "archives.hbs"@,
        s.posts[0].datetime->0,
        60,
    )
}

/// `o` is the artifact of the archive of the site: of the years of its
/// posts, the latest first.
pub open spec fn is_archive_artifact(s: SiteModel, o: OutputModel) -> bool {
    exists|archives: Seq<ArchiveModel>| #[trigger]
        latest_year_first(s.posts, archives) && o == archive_artifact(s, archives)
}

/// The entries of the feed: one for each post, with the given dates.
pub open spec fn feed_entries(s: SiteModel, dates: Seq<Seq<char>>) -> Seq<
    (Seq<char>, Seq<char>, Seq<char>, Seq<char>),
> {
    Seq::new(
        s.posts.len(),
        |i: int|
            (
                s.posts[i].meta.title,
                full_url(s.config, s.posts[i].slug_url),
                s.posts[i].content_html,
                dates[i],
            ),
    )
}

/// The artifact of the feed: its content is the channel's XML.
pub open spec fn feed_artifact(s: SiteModel, dates: Seq<Seq<char>>) -> OutputModel {
    OutputModel {
        visit_url: root_url(s.config, "atom.xml"@),
        output_files: seq![dist_filepath(s.config, "atom.xml"@, true)],
        template_vars: s.vars.global->0,
        template_file: Seq::empty(),
        file_content: rss_channel_text(
            s.config.site.title,
            full_url(s.config, Seq::empty()),
            s.config.site.description,
            feed_entries(s, dates),
        ),
        lastmod: s.posts[0].datetime->0,
        sitemap_priority: 80,
    }
}

/// The artifacts of a build, but for the sitemap: the posts, the pages of
/// their listing, the pages, the listings of the tags, the front page, the
/// archive, the page for what is not found, and the feed.
pub open spec fn planned(s: SiteModel, dates: Seq<Seq<char>>, archive: OutputModel) -> Seq<
    OutputModel,
> {
    post_artifacts(s) + listing_artifacts(s) + page_artifacts(s) + tag_artifacts(
        s,
        s.tags.len() as int,
    ) + seq![index_artifact(s), archive, not_found_artifact(s), feed_artifact(s, dates)]
}

/// `outs` is the plan of the site: the artifacts above, with the archive
/// third from the end.
pub open spec fn is_plan(s: SiteModel, dates: Seq<Seq<char>>, outs: Seq<OutputModel>) -> bool {
    &&& outs.len() >= 4
    &&& is_archive_artifact(s, outs[outs.len() - 3])
    &&& outs == planned(s, dates, outs[outs.len() - 3])
}

/// The entry of the sitemap for the artifact `o`.
pub open spec fn sitemap_entry(c: ConfigModel, o: OutputModel) -> SitemapEntryModel {
    SitemapEntryModel {
        loc: full_url(c, o.visit_url),
        priority: o.sitemap_priority,
        lastmod: o.lastmod,
    }
}

/// The entries of the sitemap: one for each artifact with a priority, in
/// the order of the artifacts.
pub open spec fn sitemap_entries(c: ConfigModel, outs: Seq<OutputModel>) -> Seq<SitemapEntryModel>
    decreases outs.len(),
{
    if outs.len() == 0 {
        Seq::empty()
    } else {
        let before = sitemap_entries(c, outs.drop_last());
        if in_sitemap(outs.last()) {
            before.push(sitemap_entry(c, outs.last()))
        } else {
            before
        }
    }
}

/// The artifact of the sitemap with the given content.
pub open spec fn sitemap_artifact(s: SiteModel, content: Seq<char>) -> OutputModel {
    OutputModel {
        visit_url: root_url(s.config, "sitemap.xml"@),
        output_files: seq![dist_filepath(s.config, "sitemap.xml"@, true)],
        template_vars: s.vars.global->0,
        template_file: Seq::empty(),
        file_content: content,
        lastmod: s.posts[0].datetime->0,
        sitemap_priority: 0,
    }
}

/// The artifacts of a build: the plan, then the sitemap.
pub open spec fn with_sitemap(s: SiteModel, outs: Seq<OutputModel>, content: Seq<char>) -> Seq<
    OutputModel,
> {
    outs.push(sitemap_artifact(s, content))
}

/// The number of artifacts of the listings of the first `upto` tags.
pub open spec fn tag_page_total(s: SiteModel, upto: int) -> nat
    decreases upto,
{
    if upto <= 0 {
        0
    } else {
        tag_page_total(s, upto - 1) + page_count(
            s.tags[upto - 1].posts_index.len(),
            s.config.url.per_page_size,
        )
    }
}

/// The listings of the tags have one artifact for each of their pages.
pub proof fn lemma_tag_artifacts_len(s: SiteModel, upto: int)
    ensures
        tag_artifacts(s, upto).len() == tag_page_total(s, upto),
    decreases upto,
{
    if upto > 0 {
        lemma_tag_artifacts_len(s, upto - 1);
    }
}

/// A plan holds, in this order: one artifact for each post; one for each
/// page of the listing of the posts, as many as the posts take at the
/// site's page size; one for each page; those of the tags' listings; the
/// front page; the archive; the page for what is not found; the feed.
/// Of a site without pages and tags that is the posts, the pages of their
/// listing and four more. The sitemap comes after the plan, as one more
/// artifact.
pub proof fn lemma_plan_shape(s: SiteModel, dates: Seq<Seq<char>>, outs: Seq<OutputModel>)
    requires
        is_plan(s, dates, outs),
    ensures
        outs.len() == s.posts.len() + page_count(s.posts.len(), s.config.url.per_page_size)
            + s.pages.len() + tag_page_total(s, s.tags.len() as int) + 4,
        forall|i: int| 0 <= i < s.posts.len() ==> outs[i] == post_artifact(s, i),
        forall|k: int|
            0 <= k < page_count(s.posts.len(), s.config.url.per_page_size) ==> outs[s.posts.len()
                + k] == listing_artifact(s, k),
        forall|i: int|
            0 <= i < s.pages.len() ==> outs[s.posts.len() + page_count(
                s.posts.len(),
                s.config.url.per_page_size,
            ) + i] == page_artifact(s, i),
        outs[outs.len() - 4] == index_artifact(s),
        is_archive_artifact(s, outs[outs.len() - 3]),
        outs[outs.len() - 2] == not_found_artifact(s),
        outs[outs.len() - 1] == feed_artifact(s, dates),
        s.pages.len() == 0 && s.tags.len() == 0 ==> outs.len() == s.posts.len() + page_count(
            s.posts.len(),
            s.config.url.per_page_size,
        ) + 4,
        forall|content: Seq<char>|
            (#[trigger] with_sitemap(s, outs, content)).len() == outs.len() + 1 && with_sitemap(
                s,
                outs,
                content,
            ).last() == sitemap_artifact(s, content),
{
    lemma_tag_artifacts_len(s, s.tags.len() as int);
    if s.tags.len() == 0 {
        assert(tag_page_total(s, 0) == 0);
    }
}

proof fn lemma_tag_artifacts_have_priority(s: SiteModel, upto: int)
    ensures
        forall|i: int|
            0 <= i < tag_artifacts(s, upto).len() ==> in_sitemap(#[trigger] tag_artifacts(s, upto)[i]),
    decreases upto,
{
    if upto > 0 {
        lemma_tag_artifacts_have_priority(s, upto - 1);
        let before = tag_artifacts(s, upto - 1);
        let pages = tag_pages(s, upto - 1);
        assert forall|i: int| 0 <= i < tag_artifacts(s, upto).len() implies in_sitemap(
            #[trigger] tag_artifacts(s, upto)[i],
        ) by {
            if i < before.len() {
                assert(tag_artifacts(s, upto)[i] == before[i]);
            } else {
                assert(tag_artifacts(s, upto)[i] == pages[i - before.len()]);
            }
        }
    }
}

/// Every artifact of a plan has a priority but the page for what is not
/// found: the sitemap lists all the others.
pub proof fn lemma_plan_priorities(s: SiteModel, dates: Seq<Seq<char>>, outs: Seq<OutputModel>)
    requires
        is_plan(s, dates, outs),
    ensures
        forall|i: int| 0 <= i < outs.len() ==> (in_sitemap(#[trigger] outs[i]) <==> i != outs.len() - 2),
{
    lemma_tag_artifacts_have_priority(s, s.tags.len() as int);
    let a = post_artifacts(s);
    let b = listing_artifacts(s);
    let c = page_artifacts(s);
    let d = tag_artifacts(s, s.tags.len() as int);
    assert forall|i: int| 0 <= i < outs.len() implies (in_sitemap(#[trigger] outs[i]) <==> i
        != outs.len() - 2) by {
        if i < a.len() {
            assert(outs[i] == a[i]);
        } else if i < a.len() + b.len() {
            assert(outs[i] == b[i - a.len()]);
        } else if i < a.len() + b.len() + c.len() {
            assert(outs[i] == c[i - a.len() - b.len()]);
        } else if i < a.len() + b.len() + c.len() + d.len() {
            assert(outs[i] == d[i - a.len() - b.len() - c.len()]);
        }
    }
}

/// `entry` is the entry of one of the artifacts that have a priority.
pub open spec fn is_entry_of(c: ConfigModel, outs: Seq<OutputModel>, entry: SitemapEntryModel) -> bool {
    exists|i: int|
        0 <= i < outs.len() && in_sitemap(#[trigger] outs[i]) && entry == sitemap_entry(c, outs[i])
}

/// The sitemap lists every artifact that has a priority, and nothing else:
/// each such artifact has its entry, and each entry is that of such an
/// artifact.
pub proof fn lemma_sitemap_lists_priorities(c: ConfigModel, outs: Seq<OutputModel>)
    ensures
        sitemap_entries(c, outs).len() <= outs.len(),
        forall|i: int|
            0 <= i < outs.len() && in_sitemap(#[trigger] outs[i]) ==> sitemap_entries(
                c,
                outs,
            ).contains(sitemap_entry(c, outs[i])),
        forall|e: int|
            0 <= e < sitemap_entries(c, outs).len() ==> is_entry_of(
                c,
                outs,
                #[trigger] sitemap_entries(c, outs)[e],
            ),
    decreases outs.len(),
{
    if outs.len() > 0 {
        let init = outs.drop_last();
        let all = sitemap_entries(c, outs);
        let before = sitemap_entries(c, init);
        lemma_sitemap_lists_priorities(c, init);
        assert forall|i: int| 0 <= i < outs.len() && in_sitemap(#[trigger] outs[i]) implies all.contains(
            sitemap_entry(c, outs[i]),
        ) by {
            if i < init.len() {
                assert(init[i] == outs[i]);
                let at = choose|e: int| 0 <= e < before.len() && before[e] == sitemap_entry(c, init[i]);
                assert(all[at] == sitemap_entry(c, outs[i]));
            } else {
                assert(all[all.len() - 1] == sitemap_entry(c, outs[i]));
            }
        }
        assert forall|e: int| 0 <= e < all.len() implies is_entry_of(c, outs, #[trigger] all[e]) by {
            if e < before.len() {
                assert(is_entry_of(c, init, before[e]));
                let i = choose|i: int|
                    0 <= i < init.len() && in_sitemap(#[trigger] init[i]) && before[e]
                        == sitemap_entry(c, init[i]);
                assert(outs[i] == init[i]);
            } else {
                assert(in_sitemap(outs[outs.len() - 1]));
            }
        }
    }
}

impl Site {
    fn html_output(
        &self,
        address: &str,
        vars: GlobalVars,
        template: String,
        lastmod: DateTime,
        priority: u32,
    ) -> (o: Output)
        ensures
            o@ == html_artifact(
                self.config@,
                address@,
                vars@,
                template@,
                lastmod,
                priority as nat,
            ),
    {
        let mut files: Vec<String> = Vec::new();
        files.push(self.config.build_dist_html_filepath(address, true));
        assert(files.deep_view() =~= seq![dist_html_filepath(self.config@, address@, true)]);
        Output {
            visit_url: self.config.build_root_url(address),
            output_files: files,
            template_vars: vars,
            template_file: template,
            file_content: String::new(),
            lastmod,
            sitemap_priority: priority,
        }
    }

    fn date_of(&self, i: usize) -> (d: DateTime)
        requires
            i < self.posts@.len(),
            self.posts@[i as int].datetime is Some,
        ensures
            d == self@.posts[i as int].datetime->0,
    {
        self.posts[i].datetime.unwrap()
    }

    fn template_of(p: &Post) -> (t: String)
        requires
            p.meta.template is Some,
        ensures
            t@ == p@.meta.template->0,
    {
        p.meta.template.as_ref().unwrap().clone()
    }

    fn posts_in_window(&self, start: usize, end: usize) -> (vars: Vec<PostVars>)
        requires
            documents_are_resolved(self@),
            start <= end <= self.posts@.len(),
        ensures
            vars.deep_view() == window_posts(self@, start as int, end as int),
    {
        let mut vars: Vec<PostVars> = Vec::new();
        let mut i: usize = start;
        while i < end
            invariant
                start <= i <= end <= self.posts@.len(),
                documents_are_resolved(self@),
                vars@.len() == i - start,
                forall|j: int|
                    0 <= j < i - start ==> (#[trigger] vars@[j])@ == post_vars(
                        self@.vars.tags,
                        self@.posts[start + j],
                    ),
            decreases end - i,
        {
            assert(is_resolved(self@.posts[i as int]));
            vars.push(self.template_vars.build_postvars(&self.posts[i]));
            i += 1;
        }
        assert(vars.deep_view() =~= window_posts(self@, start as int, end as int));
        vars
    }

    fn posts_at(&self, positions: &Vec<usize>, start: usize, end: usize) -> (vars: Vec<PostVars>)
        requires
            documents_are_resolved(self@),
            start <= end <= positions@.len(),
            forall|j: int| 0 <= j < positions@.len() ==> #[trigger] positions@[j] < self.posts@.len(),
        ensures
            vars.deep_view() == listed_posts(self@, positions@.subrange(start as int, end as int)),
    {
        let mut vars: Vec<PostVars> = Vec::new();
        let mut i: usize = start;
        while i < end
            invariant
                start <= i <= end <= positions@.len(),
                documents_are_resolved(self@),
                forall|j: int|
                    0 <= j < positions@.len() ==> #[trigger] positions@[j] < self.posts@.len(),
                vars@.len() == i - start,
                forall|j: int|
                    0 <= j < i - start ==> (#[trigger] vars@[j])@ == post_vars(
                        self@.vars.tags,
                        self@.posts[positions@[start + j] as int],
                    ),
            decreases end - i,
        {
            let at = positions[i];
            assert(is_resolved(self@.posts[at as int]));
            vars.push(self.template_vars.build_postvars(&self.posts[at]));
            i += 1;
        }
        assert(vars.deep_view() =~= listed_posts(
            self@,
            positions@.subrange(start as int, end as int),
        ));
        vars
    }

    fn listing_page_vars(&self, item: &PaginationItem, page: usize, total: usize) -> (vars:
        GlobalVars)
        requires
            documents_are_resolved(self@),
            item.total == total,
            item.size == self.config.url.per_page_size,
            item.total_pages == page_count(total as nat, item.size as nat),
            item.shown() == window(page as nat, total as nat, item.size as nat),
        ensures
            vars@ == (GlobalModel {
                pagination: Some(
                    listing_vars(
                        page as nat,
                        total as nat,
                        self@.config.url.per_page_size,
                        item.layout(),
                    ),
                ),
                ..self@.vars.global->0
            }),
    {
        let mut vars = self.template_vars.get_global();
        vars.pagination = Some(item.build_template_vars());
        vars
    }

    /// The artifacts of the posts and of the pages of their listing.
    pub fn build_posts(&self) -> (outs: Vec<Output>)
        requires
            is_listable(self@),
        ensures
            outs.deep_view() == post_artifacts(self@) + listing_artifacts(self@),
    {
        let mut outs: Vec<Output> = Vec::new();
        let mut i: usize = 0;
        while i < self.posts.len()
            invariant
                i <= self.posts@.len(),
                is_listable(self@),
                outs@.len() == i,
                forall|j: int| 0 <= j < i ==> (#[trigger] outs@[j])@ == post_artifact(self@, j),
            decreases self.posts@.len() - i,
        {
            let p = &self.posts[i];
            assert(is_resolved(self@.posts[i as int]));
            let mut vars = self.template_vars.get_global();
            vars.post = Some(self.template_vars.build_postvars(p));
            let o = self.html_output(
                p.slug_url.as_str(),
                vars,
                Self::template_of(p),
                self.date_of(i),
                80,
            );
            outs.push(o);
            i += 1;
        }
        let n = self.posts.len();
        let pagination = Pagination::new(n, self.config.url.per_page_size);
        let mut k: usize = 0;
        while k < pagination.total_pages
            invariant
                k <= pagination.total_pages,
                is_listable(self@),
                n == self.posts@.len(),
                pagination.wf(),
                pagination.total == n,
                pagination.per_page == self.config.url.per_page_size,
                outs@.len() == n + k,
                forall|j: int| 0 <= j < n ==> (#[trigger] outs@[j])@ == post_artifact(self@, j),
                forall|j: int|
                    0 <= j < k ==> (#[trigger] outs@[n + j])@ == listing_artifact(self@, j),
            decreases pagination.total_pages - k,
        {
            let item = pagination.build_each_page(k + 1, self.config.url.post_page_format.as_str());
            proof {
                lemma_window_in_bounds((k + 1) as nat, n as nat, pagination.per_page as nat);
                lemma_page_count_is_ceiling(n as nat, pagination.per_page as nat);
            }
            let mut vars = self.listing_page_vars(&item, k + 1, n);
            vars.posts = Some(self.posts_in_window(item.start, item.end));
            let address = item.current_url();
            assert(is_resolved(self@.posts[item.start as int]));
            let o = self.html_output(
                address.as_str(),
                vars,
                String::from_str("posts.hbs"),
                self.date_of(item.start),
                70,
            );
            outs.push(o);
            k += 1;
        }
        proof {
            let want = post_artifacts(self@) + listing_artifacts(self@);
            assert(outs@.len() == want.len());
            assert forall|x: int| 0 <= x < want.len() implies outs.deep_view()[x] == want[x] by {
                if x >= n {
                    let j = x - n;
                    assert(outs@[n + j]@ == listing_artifact(self@, j));
                } else {
                    assert(outs@[x]@ == post_artifact(self@, x));
                }
            }
            assert(outs.deep_view() =~= want);
        }
        outs
    }

    /// The artifacts of the pages.
    pub fn build_pages(&self) -> (outs: Vec<Output>)
        requires
            documents_are_resolved(self@),
        ensures
            outs.deep_view() == page_artifacts(self@),
    {
        let mut outs: Vec<Output> = Vec::new();
        let mut i: usize = 0;
        while i < self.pages.len()
            invariant
                i <= self.pages@.len(),
                documents_are_resolved(self@),
                outs@.len() == i,
                forall|j: int| 0 <= j < i ==> (#[trigger] outs@[j])@ == page_artifact(self@, j),
            decreases self.pages@.len() - i,
        {
            let p = &self.pages[i];
            assert(is_resolved(self@.pages[i as int]));
            let mut vars = self.template_vars.get_global();
            vars.page = Some(self.template_vars.build_postvars(p));
            let o = self.html_output(
                p.slug_url.as_str(),
                vars,
                Self::template_of(p),
                p.datetime.unwrap(),
                70,
            );
            outs.push(o);
            i += 1;
        }
        assert(outs.deep_view() =~= page_artifacts(self@));
        outs
    }

    fn build_tag_pages(&self, t: usize) -> (outs: Vec<Output>)
        requires
            is_listable(self@),
            t < self.tags@.len(),
        ensures
            outs.deep_view() == tag_pages(self@, t as int),
    {
        let tag = &self.tags[t];
        let m = tag.posts_index.len();
        let pagination = Pagination::new(m, self.config.url.per_page_size);
        let mut outs: Vec<Output> = Vec::new();
        let mut k: usize = 0;
        assert(self@.tags[t as int] == tag@);
        while k < pagination.total_pages
            invariant
                k <= pagination.total_pages,
                is_listable(self@),
                t < self.tags@.len(),
                tag == &self.tags@[t as int],
                m == tag.posts_index@.len(),
                pagination.wf(),
                pagination.total == m,
                pagination.per_page == self.config.url.per_page_size,
                outs@.len() == k,
                forall|j: int|
                    0 <= j < k ==> (#[trigger] outs@[j])@ == tag_page_artifact(self@, t as int, j),
            decreases pagination.total_pages - k,
        {
            let item = pagination.build_each_page(k + 1, tag.page_format.as_str());
            proof {
                lemma_window_in_bounds((k + 1) as nat, m as nat, pagination.per_page as nat);
                lemma_page_count_is_ceiling(m as nat, pagination.per_page as nat);
                assert(self@.tags[t as int] == tag@);
                assert forall|j: int| 0 <= j < tag.posts_index@.len() implies #[trigger] tag.posts_index@[j]
                    < self.posts@.len() by {
                    assert(self@.tags[t as int].posts_index[j] < self.posts@.len());
                }
            }
            let mut vars = self.listing_page_vars(&item, k + 1, m);
            vars.current_tag = self.template_vars.get_tag(tag.name.as_str());
            vars.posts = Some(self.posts_at(&tag.posts_index, item.start, item.end));
            let address = item.current_url();
            let first = tag.posts_index[0];
            assert(is_resolved(self@.posts[first as int]));
            let mut o = self.html_output(
                address.as_str(),
                vars,
                String::from_str("posts.hbs"),
                self.date_of(first),
                70,
            );
            if k == 0 {
                let ghost before = o.output_files.deep_view();
                o.output_files.push(self.config.build_dist_html_filepath(tag.url.as_str(), true));
                assert(o.output_files.deep_view() =~= before.push(
                    dist_html_filepath(self.config@, tag.url@, true),
                ));
            }
            outs.push(o);
            k += 1;
        }
        assert(outs.deep_view() =~= tag_pages(self@, t as int));
        outs
    }

    /// The artifacts of the listings of the tags.
    pub fn build_tags(&self) -> (outs: Vec<Output>)
        requires
            is_listable(self@),
        ensures
            outs.deep_view() == tag_artifacts(self@, self@.tags.len() as int),
    {
        let mut outs: Vec<Output> = Vec::new();
        let mut t: usize = 0;
        assert(outs.deep_view() =~= tag_artifacts(self@, 0));
        while t < self.tags.len()
            invariant
                t <= self.tags@.len(),
                is_listable(self@),
                outs.deep_view() == tag_artifacts(self@, t as int),
            decreases self.tags@.len() - t,
        {
            let mut pages = self.build_tag_pages(t);
            let ghost before = outs.deep_view();
            let ghost added = pages.deep_view();
            outs.append(&mut pages);
            assert(outs.deep_view() =~= before + added);
            t += 1;
        }
        outs
    }

    /// The artifact of the site's front page.
    pub fn build_index(&self) -> (outs: Vec<Output>)
        requires
            is_buildable(self@),
        ensures
            outs.deep_view() == seq![index_artifact(self@)],
    {
        let n = self.posts.len();
        let pagination = Pagination::new(n, self.config.url.per_page_size);
        let item = pagination.build_each_page(1, self.config.url.post_page_format.as_str());
        proof {
            lemma_window_in_bounds(1, n as nat, pagination.per_page as nat);
        }
        let mut vars = self.listing_page_vars(&item, 1, n);
        vars.posts = Some(self.posts_in_window(item.start, item.end));
        assert(is_resolved(self@.posts[item.start as int]));
        let o = self.html_output(
            "index.html",
            vars,
            self.config.theme.index_template.clone(),
            self.date_of(item.start),
            100,
        );
        let mut outs: Vec<Output> = Vec::new();
        outs.push(o);
        assert(outs.deep_view() =~= seq![index_artifact(self@)]);
        outs
    }

    /// The artifact shown for an address that the site does not have.
    pub fn build_404_page(&self) -> (outs: Vec<Output>)
        requires
            is_buildable(self@),
        ensures
            outs.deep_view() == seq![not_found_artifact(self@)],
    {
        assert(is_resolved(self@.posts[0]));
        let o = self.html_output(
            "404",
            self.template_vars.get_global(),
            String::from_str("404.hbs"),
            self.date_of(0),
            0,
        );
        let mut outs: Vec<Output> = Vec::new();
        outs.push(o);
        assert(outs.deep_view() =~= seq![not_found_artifact(self@)]);
        outs
    }

    /// The artifact of the archive: the years of the posts, the latest first.
    pub fn build_archives(&self) -> (outs: Vec<Output>)
        requires
            is_buildable(self@),
        ensures
            outs@.len() == 1,
            is_archive_artifact(self@, outs@[0]@),
    {
        assert forall|i: int| 0 <= i < self.posts@.len() implies (#[trigger] self.posts@[i]).datetime
            is Some by {
            assert(is_resolved(self@.posts[i]));
        }
        let archives = Archive::parse(self.posts.as_slice());
        let mut years: Vec<ArchiveVars> = Vec::new();
        let mut a: usize = 0;
        while a < archives.len()
            invariant
                a <= archives@.len(),
                is_buildable(self@),
                forall|x: int, j: int|
                    0 <= x < archives@.len() && 0 <= j < archives@[x].posts_index@.len()
                        ==> #[trigger] archives@[x].posts_index@[j] < self.posts@.len(),
                years@.len() == a,
                forall|x: int|
                    0 <= x < a ==> (#[trigger] years@[x])@ == (ArchiveVarsModel {
                        year: archives@[x].year@,
                        posts: listed_posts(self@, archives@[x].posts_index@),
                    }),
            decreases archives@.len() - a,
        {
            let archive = &archives[a];
            assert forall|j: int| 0 <= j < archive.posts_index@.len() implies #[trigger] archive.posts_index@[j]
                < self.posts@.len() by {
                assert(archives@[a as int].posts_index@[j] < self.posts@.len());
            }
            assert(archive.posts_index@.subrange(0, archive.posts_index@.len() as int)
                =~= archive.posts_index@);
            years.push(
                ArchiveVars {
                    year: archive.year.clone(),
                    posts: self.posts_at(&archive.posts_index, 0, archive.posts_index.len()),
                },
            );
            a += 1;
        }
        assert(years.deep_view() =~= archive_vars(self@, archives.deep_view()));
        let mut vars = self.template_vars.get_global();
        vars.archives = Some(years);
        assert(is_resolved(self@.posts[0]));
        let o = self.html_output(
            "archives",
            vars,
            String::from_str("archives.hbs"),
            self.date_of(0),
            60,
        );
        assert(latest_year_first(self@.posts, archives.deep_view()));
        assert(o@ == archive_artifact(self@, archives.deep_view()));
        let mut outs: Vec<Output> = Vec::new();
        outs.push(o);
        outs
    }

    /// The entries of the feed: one for each post. `pub_dates` holds the
    /// date of each post as the feed is to show it.
    pub fn feed_items(&self, pub_dates: &Vec<String>) -> (items: Vec<FeedItem>)
        requires
            pub_dates@.len() == self.posts@.len(),
        ensures
            item_fields(items.deep_view()) == feed_entries(self@, pub_dates.deep_view()),
    {
        let mut items: Vec<FeedItem> = Vec::new();
        let mut i: usize = 0;
        while i < self.posts.len()
            invariant
                i <= self.posts@.len(),
                pub_dates@.len() == self.posts@.len(),
                items@.len() == i,
                forall|j: int|
                    0 <= j < i ==> (#[trigger] items@[j])@ == (FeedItemModel {
                        title: self.posts@[j].meta.title@,
                        link: full_url(self.config@, self.posts@[j].slug_url@),
                        content: self.posts@[j].content_html@,
                        pub_date: pub_dates@[j]@,
                    }),
            decreases self.posts@.len() - i,
        {
            let post = &self.posts[i];
            items.push(
                FeedItem {
                    title: post.meta.title.clone(),
                    link: self.config.build_full_url(post.slug_url.as_str()),
                    content: post.content_html.clone(),
                    pub_date: pub_dates[i].clone(),
                },
            );
            i += 1;
        }
        assert(item_fields(items.deep_view()) =~= feed_entries(self@, pub_dates.deep_view()));
        items
    }

    /// The artifact of the feed. `pub_dates` holds the date of each post as
    /// the feed is to show it.
    pub fn build_rss(&self, pub_dates: &Vec<String>) -> (outs: Vec<Output>)
        requires
            is_buildable(self@),
            pub_dates@.len() == self.posts@.len(),
        ensures
            outs.deep_view() == seq![feed_artifact(self@, pub_dates.deep_view())],
    {
        proof {
            reveal_strlit("");
            assert(""@ =~= Seq::<char>::empty());
        }
        let items = self.feed_items(pub_dates);
        let link = self.config.build_full_url("");
        let xml = channel_xml(
            self.config.site.title.as_str(),
            link.as_str(),
            self.config.site.description.as_str(),
            &items,
        );
        let mut files: Vec<String> = Vec::new();
        files.push(self.config.build_dist_filepath("atom.xml", true));
        assert(files.deep_view() =~= seq![dist_filepath(self.config@, "atom.xml"@, true)]);
        assert(is_resolved(self@.posts[0]));
        let o = Output {
            visit_url: self.config.build_root_url("atom.xml"),
            output_files: files,
            template_vars: self.template_vars.get_global(),
            template_file: String::new(),
            file_content: xml,
            lastmod: self.date_of(0),
            sitemap_priority: 80,
        };
        let mut outs: Vec<Output> = Vec::new();
        outs.push(o);
        assert(outs.deep_view() =~= seq![feed_artifact(self@, pub_dates.deep_view())]);
        outs
    }

    /// The artifacts of a build, but for the sitemap. `pub_dates` holds the
    /// date of each post as the feed is to show it.
    pub fn build(&self, pub_dates: &Vec<String>) -> (outs: Vec<Output>)
        requires
            is_buildable(self@),
            pub_dates@.len() == self.posts@.len(),
        ensures
            is_plan(self@, pub_dates.deep_view(), outs.deep_view()),
    {
        let mut outs = self.build_posts();
        let ghost a = outs.deep_view();
        let mut pages = self.build_pages();
        let ghost b = pages.deep_view();
        outs.append(&mut pages);
        let mut tags = self.build_tags();
        let ghost c = tags.deep_view();
        outs.append(&mut tags);
        let mut index = self.build_index();
        let ghost d = index.deep_view();
        outs.append(&mut index);
        let mut archives = self.build_archives();
        let ghost e = archives.deep_view();
        outs.append(&mut archives);
        let mut not_found = self.build_404_page();
        let ghost f = not_found.deep_view();
        outs.append(&mut not_found);
        let mut feed = self.build_rss(pub_dates);
        let ghost g = feed.deep_view();
        outs.append(&mut feed);
        proof {
            let all = outs.deep_view();
            assert(all =~= a + b + c + d + e + f + g);
            assert(e.len() == 1);
            assert(all[all.len() - 3] == e[0]);
            assert(all =~= planned(self@, pub_dates.deep_view(), e[0]));
        }
        outs
    }

    /// The entries of the sitemap for the given artifacts: one for each
    /// artifact with a priority.
    pub fn sitemap_entries(&self, outputs: &Vec<Output>) -> (entries: Vec<SitemapEntry>)
        ensures
            entries.deep_view() == sitemap_entries(self.config@, outputs.deep_view()),
    {
        let mut entries: Vec<SitemapEntry> = Vec::new();
        let mut i: usize = 0;
        assert(outputs.deep_view().take(0) =~= Seq::<OutputModel>::empty());
        assert(entries.deep_view() =~= Seq::<SitemapEntryModel>::empty());
        while i < outputs.len()
            invariant
                i <= outputs@.len(),
                entries.deep_view() == sitemap_entries(
                    self.config@,
                    outputs.deep_view().take(i as int),
                ),
            decreases outputs@.len() - i,
        {
            let o = &outputs[i];
            let ghost before = entries.deep_view();
            if o.in_sitemap() {
                entries.push(
                    SitemapEntry {
                        loc: self.config.build_full_url(o.visit_url.as_str()),
                        priority: o.sitemap_priority,
                        lastmod: o.lastmod,
                    },
                );
                assert(entries.deep_view() =~= before.push(sitemap_entry(self.config@, o@)));
            }
            i += 1;
            proof {
                let now = outputs.deep_view().take(i as int);
                assert(now.drop_last() =~= outputs.deep_view().take(i - 1));
                assert(now.last() == outputs@[i - 1]@);
            }
        }
        assert(outputs.deep_view().take(outputs@.len() as int) =~= outputs.deep_view());
        entries
    }

    /// The artifacts of a build: the given ones, then the sitemap with the
    /// given content.
    pub fn add_sitemap(&self, outputs: Vec<Output>, content: String) -> (all: Vec<Output>)
        requires
            is_buildable(self@),
        ensures
            all.deep_view() == with_sitemap(self@, outputs.deep_view(), content@),
    {
        let mut all = outputs;
        let ghost before = all.deep_view();
        all.push(self.sitemap_output(content));
        assert(all.deep_view() =~= before.push(sitemap_artifact(self@, content@)));
        all
    }

    /// The artifact of the sitemap with the given content.
    pub fn sitemap_output(&self, content: String) -> (o: Output)
        requires
            is_buildable(self@),
        ensures
            o@ == sitemap_artifact(self@, content@),
    {
        let mut files: Vec<String> = Vec::new();
        files.push(self.config.build_dist_filepath("sitemap.xml", true));
        assert(files.deep_view() =~= seq![dist_filepath(self.config@, "sitemap.xml"@, true)]);
        assert(is_resolved(self@.posts[0]));
        Output {
            visit_url: self.config.build_root_url("sitemap.xml"),
            output_files: files,
            template_vars: self.template_vars.get_global(),
            template_file: String::new(),
            file_content: content,
            lastmod: self.date_of(0),
            sitemap_priority: 0,
        }
    }
}

} // verus!
