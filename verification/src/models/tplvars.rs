//! The variables handed to templates: plain records projected from the site.

use crate::models::author::{avatar_url, Author, AuthorModel};
use crate::models::config::{author_of, full_url, root_url, Config, ConfigModel};
use crate::models::datetime::DateTime;
use crate::models::post::{Post, PostModel};
use crate::models::site::Site;
use crate::models::tag::{Tag, TagModel};
use crate::utils::strmap::{lookup, put, StrMap};
use crate::utils::text::{join, join_strings};
use vstd::prelude::*;

verus! {

/// What a template sees of an author.
#[derive(Debug)]
pub struct AuthorVars {
    pub name: String,
    pub bio: String,
    pub url: String,
    pub avatar: String,
    pub has_social: bool,
    pub social: Option<StrMap<String>>,
}

/// The mathematical content of an `AuthorVars`.
pub struct AuthorVarsModel {
    pub name: Seq<char>,
    pub bio: Seq<char>,
    pub url: Seq<char>,
    pub avatar: Seq<char>,
    pub has_social: bool,
    pub social: Option<Seq<(Seq<char>, Seq<char>)>>,
}

impl DeepView for AuthorVars {
    type V = AuthorVarsModel;

    open spec fn deep_view(&self) -> AuthorVarsModel {
        AuthorVarsModel {
            name: self.name@,
            bio: self.bio@,
            url: self.url@,
            avatar: self.avatar@,
            has_social: self.has_social,
            social: match self.social {
                Some(m) => Some(m.entries()),
                None => None,
            },
        }
    }
}

impl View for AuthorVars {
    type V = AuthorVarsModel;

    open spec fn view(&self) -> AuthorVarsModel {
        self.deep_view()
    }
}

impl Clone for AuthorVars {
    fn clone(&self) -> (r: Self)
        ensures
            r@ == self@,
    {
        AuthorVars {
            name: self.name.clone(),
            bio: self.bio.clone(),
            url: self.url.clone(),
            avatar: self.avatar.clone(),
            has_social: self.has_social,
            social: match &self.social {
                Some(m) => Some(m.clone()),
                None => None,
            },
        }
    }
}

/// The variables of no author.
pub open spec fn no_author_vars() -> AuthorVarsModel {
    AuthorVarsModel {
        name: Seq::empty(),
        bio: Seq::empty(),
        url: Seq::empty(),
        avatar: Seq::empty(),
        has_social: false,
        social: None,
    }
}

impl Default for AuthorVars {
    fn default() -> (v: Self)
        ensures
            v@ == no_author_vars(),
    {
        AuthorVars {
            name: String::new(),
            bio: String::new(),
            url: String::new(),
            avatar: String::new(),
            has_social: false,
            social: None,
        }
    }
}

/// What a template sees of the author `a`.
pub open spec fn author_vars(a: AuthorModel) -> AuthorVarsModel {
    AuthorVarsModel {
        name: a.name,
        bio: a.bio,
        url: a.website,
        avatar: avatar_url(a),
        has_social: a.social is Some && a.social->0.len() > 0,
        social: a.social,
    }
}

impl AuthorVars {
    /// Projects an author into template variables.
    pub fn new(a: &Author) -> (v: AuthorVars)
        ensures
            v@ == author_vars(a@),
    {
        let has_social = match &a.social {
            Some(social) => !social.is_empty(),
            None => false,
        };
        AuthorVars {
            name: a.name.clone(),
            bio: a.bio.clone(),
            url: a.website.clone(),
            avatar: a.build_avatar_url(),
            has_social,
            social: match &a.social {
                Some(m) => Some(m.clone()),
                None => None,
            },
        }
    }
}

/// What a template sees of the site.
#[derive(Debug)]
pub struct SiteVars {
    pub title: String,
    pub subtitle: String,
    pub description: String,
    pub keywords: String,
    pub language: String,
    pub author: String,
    pub root_url: String,
    pub full_url: String,
}

/// The mathematical content of a `SiteVars`.
pub struct SiteVarsModel {
    pub title: Seq<char>,
    pub subtitle: Seq<char>,
    pub description: Seq<char>,
    pub keywords: Seq<char>,
    pub language: Seq<char>,
    pub author: Seq<char>,
    pub root_url: Seq<char>,
    pub full_url: Seq<char>,
}

impl DeepView for SiteVars {
    type V = SiteVarsModel;

    open spec fn deep_view(&self) -> SiteVarsModel {
        SiteVarsModel {
            title: self.title@,
            subtitle: self.subtitle@,
            description: self.description@,
            keywords: self.keywords@,
            language: self.language@,
            author: self.author@,
            root_url: self.root_url@,
            full_url: self.full_url@,
        }
    }
}

impl View for SiteVars {
    type V = SiteVarsModel;

    open spec fn view(&self) -> SiteVarsModel {
        self.deep_view()
    }
}

impl Clone for SiteVars {
    fn clone(&self) -> (r: Self)
        ensures
            r@ == self@,
    {
        SiteVars {
            title: self.title.clone(),
            subtitle: self.subtitle.clone(),
            description: self.description.clone(),
            keywords: self.keywords.clone(),
            language: self.language.clone(),
            author: self.author.clone(),
            root_url: self.root_url.clone(),
            full_url: self.full_url.clone(),
        }
    }
}

impl Default for SiteVars {
    fn default() -> (v: Self)
        ensures
            v@ == (SiteVarsModel {
                title: Seq::empty(),
                subtitle: Seq::empty(),
                description: Seq::empty(),
                keywords: Seq::empty(),
                language: Seq::empty(),
                author: Seq::empty(),
                root_url: Seq::empty(),
                full_url: Seq::empty(),
            }),
    {
        SiteVars {
            title: String::new(),
            subtitle: String::new(),
            description: String::new(),
            keywords: String::new(),
            language: String::new(),
            author: String::new(),
            root_url: String::new(),
            full_url: String::new(),
        }
    }
}

/// What a template sees of a tag.
#[derive(Debug)]
pub struct TagVars {
    pub name: String,
    pub url: String,
    pub posts_count: usize,
}

/// The mathematical content of a `TagVars`.
pub struct TagVarsModel {
    pub name: Seq<char>,
    pub url: Seq<char>,
    pub posts_count: nat,
}

impl DeepView for TagVars {
    type V = TagVarsModel;

    open spec fn deep_view(&self) -> TagVarsModel {
        TagVarsModel { name: self.name@, url: self.url@, posts_count: self.posts_count as nat }
    }
}

impl View for TagVars {
    type V = TagVarsModel;

    open spec fn view(&self) -> TagVarsModel {
        self.deep_view()
    }
}

impl Clone for TagVars {
    fn clone(&self) -> (r: Self)
        ensures
            r@ == self@,
    {
        TagVars { name: self.name.clone(), url: self.url.clone(), posts_count: self.posts_count }
    }
}

impl Default for TagVars {
    fn default() -> (v: Self)
        ensures
            v@ == (TagVarsModel { name: Seq::empty(), url: Seq::empty(), posts_count: 0 }),
    {
        TagVars { name: String::new(), url: String::new(), posts_count: 0 }
    }
}

/// A copy of a list of tag variables.
pub fn copy_tag_vars(v: &Vec<TagVars>) -> (r: Vec<TagVars>)
    ensures
        r.deep_view() == v.deep_view(),
{
    let mut r: Vec<TagVars> = Vec::new();
    let mut i: usize = 0;
    while i < v.len()
        invariant
            i <= v.len(),
            r@.len() == i,
            forall|j: int| 0 <= j < i ==> (#[trigger] r@[j])@ == v@[j]@,
        decreases v.len() - i,
    {
        r.push(v[i].clone());
        i += 1;
    }
    assert(r.deep_view() =~= v.deep_view());
    r
}

/// What a template sees of a document.
#[derive(Debug)]
pub struct PostVars {
    pub title: String,
    pub permalink: String,
    pub date: String,
    pub updated: String,
    pub brief: String,
    pub content: String,
    pub language: String,
    pub comments: bool,
    pub tags: Vec<TagVars>,
    pub datetime: DateTime,
    pub updated_datetime: DateTime,
    pub author: AuthorVars,
}

/// The mathematical content of a `PostVars`.
pub struct PostVarsModel {
    pub title: Seq<char>,
    pub permalink: Seq<char>,
    pub date: Seq<char>,
    pub updated: Seq<char>,
    pub brief: Seq<char>,
    pub content: Seq<char>,
    pub language: Seq<char>,
    pub comments: bool,
    pub tags: Seq<TagVarsModel>,
    pub datetime: DateTime,
    pub updated_datetime: DateTime,
    pub author: AuthorVarsModel,
}

impl DeepView for PostVars {
    type V = PostVarsModel;

    open spec fn deep_view(&self) -> PostVarsModel {
        PostVarsModel {
            title: self.title@,
            permalink: self.permalink@,
            date: self.date@,
            updated: self.updated@,
            brief: self.brief@,
            content: self.content@,
            language: self.language@,
            comments: self.comments,
            tags: self.tags.deep_view(),
            datetime: self.datetime,
            updated_datetime: self.updated_datetime,
            author: self.author@,
        }
    }
}

impl View for PostVars {
    type V = PostVarsModel;

    open spec fn view(&self) -> PostVarsModel {
        self.deep_view()
    }
}

impl Clone for PostVars {
    fn clone(&self) -> (r: Self)
        ensures
            r@ == self@,
    {
        PostVars {
            title: self.title.clone(),
            permalink: self.permalink.clone(),
            date: self.date.clone(),
            updated: self.updated.clone(),
            brief: self.brief.clone(),
            content: self.content.clone(),
            language: self.language.clone(),
            comments: self.comments,
            tags: copy_tag_vars(&self.tags),
            datetime: self.datetime,
            updated_datetime: self.updated_datetime,
            author: self.author.clone(),
        }
    }
}

/// A copy of a list of document variables.
pub fn copy_post_vars(v: &Vec<PostVars>) -> (r: Vec<PostVars>)
    ensures
        r.deep_view() == v.deep_view(),
{
    let mut r: Vec<PostVars> = Vec::new();
    let mut i: usize = 0;
    while i < v.len()
        invariant
            i <= v.len(),
            r@.len() == i,
            forall|j: int| 0 <= j < i ==> (#[trigger] r@[j])@ == v@[j]@,
        decreases v.len() - i,
    {
        r.push(v[i].clone());
        i += 1;
    }
    assert(r.deep_view() =~= v.deep_view());
    r
}

/// What a template sees of one page of a listing.
#[derive(Debug)]
pub struct PaginationVars {
    pub current: usize,
    pub prev: usize,
    pub next: usize,
    pub total: usize,
    pub total_pages: usize,
    pub has_next: bool,
    pub has_prev: bool,
    pub current_url: String,
    pub prev_url: String,
    pub next_url: String,
}

/// The mathematical content of a `PaginationVars`.
pub struct PaginationVarsModel {
    pub current: nat,
    pub prev: nat,
    pub next: nat,
    pub total: nat,
    pub total_pages: nat,
    pub has_next: bool,
    pub has_prev: bool,
    pub current_url: Seq<char>,
    pub prev_url: Seq<char>,
    pub next_url: Seq<char>,
}

impl DeepView for PaginationVars {
    type V = PaginationVarsModel;

    open spec fn deep_view(&self) -> PaginationVarsModel {
        PaginationVarsModel {
            current: self.current as nat,
            prev: self.prev as nat,
            next: self.next as nat,
            total: self.total as nat,
            total_pages: self.total_pages as nat,
            has_next: self.has_next,
            has_prev: self.has_prev,
            current_url: self.current_url@,
            prev_url: self.prev_url@,
            next_url: self.next_url@,
        }
    }
}

impl View for PaginationVars {
    type V = PaginationVarsModel;

    open spec fn view(&self) -> PaginationVarsModel {
        self.deep_view()
    }
}

impl Clone for PaginationVars {
    fn clone(&self) -> (r: Self)
        ensures
            r@ == self@,
    {
        PaginationVars {
            current: self.current,
            prev: self.prev,
            next: self.next,
            total: self.total,
            total_pages: self.total_pages,
            has_next: self.has_next,
            has_prev: self.has_prev,
            current_url: self.current_url.clone(),
            prev_url: self.prev_url.clone(),
            next_url: self.next_url.clone(),
        }
    }
}

/// What a template sees of an entry of the navigation.
#[derive(Debug)]
pub struct NavVars {
    pub name: String,
    pub url: String,
}

/// The mathematical content of a `NavVars`.
pub struct NavVarsModel {
    pub name: Seq<char>,
    pub url: Seq<char>,
}

impl DeepView for NavVars {
    type V = NavVarsModel;

    open spec fn deep_view(&self) -> NavVarsModel {
        NavVarsModel { name: self.name@, url: self.url@ }
    }
}

impl View for NavVars {
    type V = NavVarsModel;

    open spec fn view(&self) -> NavVarsModel {
        self.deep_view()
    }
}

impl Clone for NavVars {
    fn clone(&self) -> (r: Self)
        ensures
            r@ == self@,
    {
        NavVars { name: self.name.clone(), url: self.url.clone() }
    }
}

/// What a template sees of a year of the archive.
#[derive(Debug)]
pub struct ArchiveVars {
    pub year: String,
    pub posts: Vec<PostVars>,
}

/// The mathematical content of an `ArchiveVars`.
pub struct ArchiveVarsModel {
    pub year: Seq<char>,
    pub posts: Seq<PostVarsModel>,
}

impl DeepView for ArchiveVars {
    type V = ArchiveVarsModel;

    open spec fn deep_view(&self) -> ArchiveVarsModel {
        ArchiveVarsModel { year: self.year@, posts: self.posts.deep_view() }
    }
}

impl View for ArchiveVars {
    type V = ArchiveVarsModel;

    open spec fn view(&self) -> ArchiveVarsModel {
        self.deep_view()
    }
}

impl Clone for ArchiveVars {
    fn clone(&self) -> (r: Self)
        ensures
            r@ == self@,
    {
        ArchiveVars { year: self.year.clone(), posts: copy_post_vars(&self.posts) }
    }
}

/// The variables that every template gets, with those of the artifact at hand.
#[derive(Debug)]
pub struct GlobalVars {
    pub site: SiteVars,
    pub author: AuthorVars,
    pub navs: Vec<NavVars>,
    pub tags: Option<Vec<TagVars>>,
    pub current_tag: Option<TagVars>,
    pub pagination: Option<PaginationVars>,
    pub post: Option<PostVars>,
    pub page: Option<PostVars>,
    pub posts: Option<Vec<PostVars>>,
    pub archives: Option<Vec<ArchiveVars>>,
}

/// The mathematical content of a `GlobalVars`.
pub struct GlobalModel {
    pub site: SiteVarsModel,
    pub author: AuthorVarsModel,
    pub navs: Seq<NavVarsModel>,
    pub tags: Option<Seq<TagVarsModel>>,
    pub current_tag: Option<TagVarsModel>,
    pub pagination: Option<PaginationVarsModel>,
    pub post: Option<PostVarsModel>,
    pub page: Option<PostVarsModel>,
    pub posts: Option<Seq<PostVarsModel>>,
    pub archives: Option<Seq<ArchiveVarsModel>>,
}

impl DeepView for GlobalVars {
    type V = GlobalModel;

    open spec fn deep_view(&self) -> GlobalModel {
        GlobalModel {
            site: self.site@,
            author: self.author@,
            navs: self.navs.deep_view(),
            tags: self.tags.deep_view(),
            current_tag: self.current_tag.deep_view(),
            pagination: self.pagination.deep_view(),
            post: self.post.deep_view(),
            page: self.page.deep_view(),
            posts: self.posts.deep_view(),
            archives: self.archives.deep_view(),
        }
    }
}

impl View for GlobalVars {
    type V = GlobalModel;

    open spec fn view(&self) -> GlobalModel {
        self.deep_view()
    }
}

fn copy_nav_vars(v: &Vec<NavVars>) -> (r: Vec<NavVars>)
    ensures
        r.deep_view() == v.deep_view(),
{
    let mut r: Vec<NavVars> = Vec::new();
    let mut i: usize = 0;
    while i < v.len()
        invariant
            i <= v.len(),
            r@.len() == i,
            forall|j: int| 0 <= j < i ==> (#[trigger] r@[j])@ == v@[j]@,
        decreases v.len() - i,
    {
        r.push(v[i].clone());
        i += 1;
    }
    assert(r.deep_view() =~= v.deep_view());
    r
}

fn copy_archive_vars(v: &Vec<ArchiveVars>) -> (r: Vec<ArchiveVars>)
    ensures
        r.deep_view() == v.deep_view(),
{
    let mut r: Vec<ArchiveVars> = Vec::new();
    let mut i: usize = 0;
    while i < v.len()
        invariant
            i <= v.len(),
            r@.len() == i,
            forall|j: int| 0 <= j < i ==> (#[trigger] r@[j])@ == v@[j]@,
        decreases v.len() - i,
    {
        r.push(v[i].clone());
        i += 1;
    }
    assert(r.deep_view() =~= v.deep_view());
    r
}

impl Clone for GlobalVars {
    fn clone(&self) -> (r: Self)
        ensures
            r@ == self@,
    {
        GlobalVars {
            site: self.site.clone(),
            author: self.author.clone(),
            navs: copy_nav_vars(&self.navs),
            tags: match &self.tags {
                Some(t) => Some(copy_tag_vars(t)),
                None => None,
            },
            current_tag: match &self.current_tag {
                Some(t) => Some(t.clone()),
                None => None,
            },
            pagination: match &self.pagination {
                Some(p) => Some(p.clone()),
                None => None,
            },
            post: match &self.post {
                Some(p) => Some(p.clone()),
                None => None,
            },
            page: match &self.page {
                Some(p) => Some(p.clone()),
                None => None,
            },
            posts: match &self.posts {
                Some(p) => Some(copy_post_vars(p)),
                None => None,
            },
            archives: match &self.archives {
                Some(a) => Some(copy_archive_vars(a)),
                None => None,
            },
        }
    }
}

/// What a template sees of the tag `t`.
pub open spec fn tag_vars(c: ConfigModel, t: TagModel) -> TagVarsModel {
    TagVarsModel { name: t.name, url: root_url(c, t.url), posts_count: t.posts_index.len() }
}

/// The variables that every template of the site gets.
pub open spec fn global_vars(c: ConfigModel, tags: Seq<TagModel>) -> GlobalModel {
    GlobalModel {
        site: SiteVarsModel {
            title: c.site.title,
            subtitle: c.site.subtitle,
            description: c.site.description,
            keywords: join(c.site.keywords, ","@),
            language: c.site.language,
            author: c.site.author,
            root_url: root_url(c, Seq::empty()),
            full_url: full_url(c, Seq::empty()),
        },
        author: author_vars(author_of(c, c.site.author)),
        navs: Seq::new(
            c.nav.len(),
            |i: int| NavVarsModel { name: c.nav[i].name, url: root_url(c, c.nav[i].url) },
        ),
        tags: Some(Seq::new(tags.len(), |i: int| tag_vars(c, tags[i]))),
        current_tag: None,
        pagination: None,
        post: None,
        page: None,
        posts: None,
        archives: None,
    }
}

/// The tag variables by name: of two tags of one name the later one is kept.
pub open spec fn tag_table(c: ConfigModel, tags: Seq<TagModel>) -> Seq<(Seq<char>, TagVarsModel)>
    decreases tags.len(),
{
    if tags.len() == 0 {
        Seq::empty()
    } else {
        put(tag_table(c, tags.drop_last()), tags.last().name, tag_vars(c, tags.last()))
    }
}

/// The variables of those of `names` that the table knows, in their order.
pub open spec fn known_tags(table: Seq<(Seq<char>, TagVarsModel)>, names: Seq<Seq<char>>) -> Seq<
    TagVarsModel,
>
    decreases names.len(),
{
    if names.len() == 0 {
        Seq::empty()
    } else {
        let before = known_tags(table, names.drop_last());
        match lookup(table, names.last()) {
            Some(t) => before.push(t),
            None => before,
        }
    }
}

/// The document has been normalized and resolved against the site: what a
/// projection reads of it is there.
pub open spec fn is_resolved(p: PostModel) -> bool {
    &&& p.author is Some
    &&& p.meta.updated is Some
    &&& p.meta.language is Some
    &&& p.meta.comments is Some
    &&& p.meta.tags is Some
    &&& p.datetime is Some
    &&& p.updated_datetime is Some
}

/// Whether the document has been normalized and resolved against the site.
pub fn is_resolved_document(p: &Post) -> (b: bool)
    ensures
        b == is_resolved(p@),
{
    p.author.is_some() && p.meta.updated.is_some() && p.meta.language.is_some()
        && p.meta.comments.is_some() && p.meta.tags.is_some() && p.datetime.is_some()
        && p.updated_datetime.is_some()
}

/// What a template sees of the document `p`.
pub open spec fn post_vars(table: Seq<(Seq<char>, TagVarsModel)>, p: PostModel) -> PostVarsModel {
    PostVarsModel {
        title: p.meta.title,
        permalink: p.slug_url,
        date: p.meta.date,
        updated: p.meta.updated->0,
        brief: p.brief_html,
        content: p.content_html,
        language: p.meta.language->0,
        comments: p.meta.comments->0,
        tags: known_tags(table, p.meta.tags->0),
        datetime: p.datetime->0,
        updated_datetime: p.updated_datetime->0,
        author: author_vars(p.author->0),
    }
}

fn tag_vars_of(config: &Config, t: &Tag) -> (v: TagVars)
    ensures
        v@ == tag_vars(config@, t@),
{
    TagVars {
        name: t.name.clone(),
        url: config.build_root_url(t.url.as_str()),
        posts_count: t.posts_index.len(),
    }
}

impl GlobalVars {
    /// The variables that every template of the site gets.
    pub fn new(site: &Site) -> (vars: GlobalVars)
        ensures
            vars@ == global_vars(site.config@, site.tags.deep_view()),
    {
        let config = &site.config;
        let mut navs: Vec<NavVars> = Vec::new();
        let mut i: usize = 0;
        while i < config.nav.len()
            invariant
                i <= config.nav@.len(),
                navs@.len() == i,
                forall|j: int|
                    0 <= j < i ==> (#[trigger] navs@[j])@ == (NavVarsModel {
                        name: config.nav@[j].name@,
                        url: root_url(config@, config.nav@[j].url@),
                    }),
            decreases config.nav@.len() - i,
        {
            navs.push(
                NavVars {
                    name: config.nav[i].name.clone(),
                    url: config.build_root_url(config.nav[i].url.as_str()),
                },
            );
            i += 1;
        }
        let mut tags: Vec<TagVars> = Vec::new();
        let mut k: usize = 0;
        while k < site.tags.len()
            invariant
                k <= site.tags@.len(),
                tags@.len() == k,
                forall|j: int|
                    0 <= j < k ==> (#[trigger] tags@[j])@ == tag_vars(config@, site.tags@[j]@),
            decreases site.tags@.len() - k,
        {
            tags.push(tag_vars_of(config, &site.tags[k]));
            k += 1;
        }
        proof {
            reveal_strlit("");
            assert(""@ =~= Seq::<char>::empty());
            let want = global_vars(site.config@, site.tags.deep_view());
            assert(navs.deep_view() =~= want.navs);
            assert(tags.deep_view() =~= want.tags->0);
        }
        GlobalVars {
            site: SiteVars {
                title: config.site.title.clone(),
                subtitle: config.site.subtitle.clone(),
                description: config.site.description.clone(),
                keywords: join_strings(&config.site.keywords, ","),
                language: config.site.language.clone(),
                author: config.site.author.clone(),
                root_url: config.build_root_url(""),
                full_url: config.build_full_url(""),
            },
            author: AuthorVars::new(&config.get_default_author()),
            navs,
            current_tag: None,
            tags: Some(tags),
            pagination: None,
            post: None,
            page: None,
            posts: None,
            archives: None,
        }
    }
}

/// The variables of a site, computed once for all its artifacts.
#[derive(Debug)]
pub struct TemplateVars {
    cache_tags: StrMap<TagVars>,
    cache_global_vars: Option<GlobalVars>,
}

/// The mathematical content of a `TemplateVars`.
pub struct TemplateModel {
    pub tags: Seq<(Seq<char>, TagVarsModel)>,
    pub global: Option<GlobalModel>,
}

impl View for TemplateVars {
    type V = TemplateModel;

    closed spec fn view(&self) -> TemplateModel {
        TemplateModel {
            tags: self.cache_tags.entries(),
            global: self.cache_global_vars.deep_view(),
        }
    }
}

impl Default for TemplateVars {
    fn default() -> (v: Self)
        ensures
            v@ == (TemplateModel { tags: Seq::empty(), global: None }),
    {
        TemplateVars { cache_tags: StrMap::new(), cache_global_vars: None }
    }
}

/// The variables of the site with the given configuration and tags.
pub open spec fn template_vars(c: ConfigModel, tags: Seq<TagModel>) -> TemplateModel {
    TemplateModel { tags: tag_table(c, tags), global: Some(global_vars(c, tags)) }
}

impl TemplateVars {
    /// The variables of `site`.
    pub fn new(site: &Site) -> (vars: TemplateVars)
        ensures
            vars@ == template_vars(site.config@, site.tags.deep_view()),
    {
        let mut cache_tags: StrMap<TagVars> = StrMap::new();
        let ghost tags = site.tags.deep_view();
        let mut k: usize = 0;
        assert(tags.take(0) =~= Seq::<TagModel>::empty());
        while k < site.tags.len()
            invariant
                k <= site.tags@.len(),
                tags == site.tags.deep_view(),
                cache_tags.entries() == tag_table(site.config@, tags.take(k as int)),
            decreases site.tags@.len() - k,
        {
            let t = &site.tags[k];
            cache_tags.insert(t.name.clone(), tag_vars_of(&site.config, t));
            k += 1;
            proof {
                let now = tags.take(k as int);
                assert(now.drop_last() =~= tags.take(k - 1));
                assert(now.last() == site.tags@[k - 1]@);
            }
        }
        assert(tags.take(site.tags@.len() as int) =~= tags);
        TemplateVars { cache_tags, cache_global_vars: Some(GlobalVars::new(site)) }
    }

    /// Whether the variables that every template gets are there.
    pub fn has_global(&self) -> (b: bool)
        ensures
            b == (self@.global is Some),
    {
        self.cache_global_vars.is_some()
    }

    /// A copy of the variables that every template gets, for one artifact
    /// to add its own to.
    pub fn get_global(&self) -> (vars: GlobalVars)
        requires
            self@.global is Some,
        ensures
            vars@ == self@.global->0,
    {
        self.cache_global_vars.as_ref().unwrap().clone()
    }

    /// The variables of the tag `tag`, where the site has it.
    pub fn get_tag(&self, tag: &str) -> (vars: Option<TagVars>)
        ensures
            vars.deep_view() == lookup(self@.tags, tag@),
    {
        match self.cache_tags.get(tag) {
            Some(t) => Some(t.clone()),
            None => None,
        }
    }

    /// Projects a document into template variables. Tags that the site does
    /// not know are left out.
    pub fn build_postvars(&self, p: &Post) -> (vars: PostVars)
        requires
            is_resolved(p@),
        ensures
            vars@ == post_vars(self@.tags, p@),
    {
        let mut tags: Vec<TagVars> = Vec::new();
        let names: &Vec<String> = p.meta.tags.as_ref().unwrap();
        let mut k: usize = 0;
        assert(names.deep_view().take(0) =~= Seq::<Seq<char>>::empty());
        while k < names.len()
            invariant
                k <= names@.len(),
                tags.deep_view() == known_tags(self@.tags, names.deep_view().take(k as int)),
            decreases names@.len() - k,
        {
            let ghost before = tags.deep_view();
            match self.cache_tags.get(names[k].as_str()) {
                Some(t) => {
                    tags.push(t.clone());
                    assert(tags.deep_view() =~= before.push(t@));
                },
                None => {},
            }
            k += 1;
            proof {
                let now = names.deep_view().take(k as int);
                assert(now.drop_last() =~= names.deep_view().take(k - 1));
                assert(now.last() == names@[k - 1]@);
            }
        }
        assert(names.deep_view().take(names@.len() as int) =~= names.deep_view());
        PostVars {
            title: p.meta.title.clone(),
            permalink: p.slug_url.clone(),
            author: AuthorVars::new(p.author.as_ref().unwrap()),
            date: p.meta.date.clone(),
            updated: p.meta.updated.as_ref().unwrap().clone(),
            brief: p.brief_html.clone(),
            content: p.content_html.clone(),
            language: p.meta.language.as_ref().unwrap().clone(),
            comments: p.meta.comments.unwrap(),
            tags,
            datetime: p.datetime.unwrap(),
            updated_datetime: p.updated_datetime.unwrap(),
        }
    }
}

} // verus!
