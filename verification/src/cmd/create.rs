//! The documents that creating and initializing a site start from.

use crate::cmd::args::CreateArgs;
use crate::models::config::{pages_dir, posts_dir, Config};
use crate::models::post::{empty_meta, empty_post, Post, PostMetaModel, PostModel};
use crate::utils::text::{replace, replace_all, strip_suffixes, without_suffixes};
use vstd::prelude::*;

verus! {

/// The slug of the document at `path`: the path without the endings
/// `.md`, with a hyphen for each slash.
pub open spec fn content_slug(path: Seq<char>) -> Seq<char> {
    replace_all(strip_suffixes(path, ".md"@), "/"@, "-"@)
}

/// A new document with the given title, slug, date and text.
pub open spec fn new_document(
    title: Seq<char>,
    slug: Seq<char>,
    date: Seq<char>,
    content: Seq<char>,
) -> PostModel {
    PostModel {
        content_markdown: content,
        ..empty_post(PostMetaModel { title, slug, date, comments: Some(true), ..empty_meta() })
    }
}

fn document(title: &str, slug: &str, date: &str, content: &str) -> (p: Post)
    ensures
        p@ == new_document(title@, slug@, date@, content@),
{
    let mut p = Post::default();
    p.meta.title = String::from_str(title);
    p.meta.slug = String::from_str(slug);
    p.meta.date = String::from_str(date);
    p.content_markdown = String::from_str(content);
    p
}

/// A new post: a document without tags.
pub fn new_post(title: &str, slug: &str, date: &str, content: &str) -> (p: Post)
    ensures
        p@ == ({
            let d = new_document(title@, slug@, date@, content@);
            PostModel { meta: PostMetaModel { tags: Some(Seq::empty()), ..d.meta }, ..d }
        }),
{
    let mut p = document(title, slug, date, content);
    let tags: Vec<String> = Vec::new();
    assert(tags.deep_view() =~= Seq::<Seq<char>>::empty());
    p.meta.tags = Some(tags);
    p
}

/// A new page: a document with the template of pages.
pub fn new_page(title: &str, slug: &str, date: &str, content: &str) -> (p: Post)
    ensures
        p@ == ({
            let d = new_document(title@, slug@, date@, content@);
            PostModel { meta: PostMetaModel { template: Some("page.hbs"@), ..d.meta }, ..d }
        }),
{
    let mut p = document(title, slug, date, content);
    p.meta.template = Some(String::from_str("page.hbs"));
    p
}

/// The post that a new site starts with.
pub fn first_post(date: &str, content: &str) -> (p: Post)
    ensures
        p@ == ({
            let d = new_document("Hello World"@, "/hello-world"@, date@, content@);
            PostModel {
                meta: PostMetaModel { tags: Some(seq!["hello"@, "world"@]), ..d.meta },
                ..d
            }
        }),
{
    let mut p = document("Hello World", "/hello-world", date, content);
    let mut tags: Vec<String> = Vec::new();
    tags.push(String::from_str("hello"));
    tags.push(String::from_str("world"));
    assert(tags.deep_view() =~= seq!["hello"@, "world"@]);
    p.meta.tags = Some(tags);
    p
}

/// The page that a new site starts with.
pub fn first_page(date: &str, content: &str) -> (p: Post)
    ensures
        p@ == new_document("About"@, "/about"@, date@, content@),
{
    document("About", "/about", date, content)
}

impl CreateArgs {
    /// The slug of the document to create.
    pub fn slug(&self) -> (slug: String)
        ensures
            slug@ == content_slug(self.path@),
    {
        let stem = without_suffixes(self.path.as_str(), ".md");
        replace(stem.as_str(), "/", "-")
    }

    /// The directory that the document is created in: that of pages for
    /// a page, else that of posts.
    pub fn content_dir(&self, config: &Config) -> (dir: String)
        ensures
            dir@ == if self.page {
                pages_dir(config@)
            } else {
                posts_dir(config@)
            },
    {
        if self.page {
            config.get_pages_dir()
        } else {
            config.get_posts_dir()
        }
    }
}

} // verus!
