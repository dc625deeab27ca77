pub mod archive;
pub mod author;
pub mod config;
pub mod datetime;
pub mod error;
pub mod feed;
pub mod output;
pub mod pagination;
pub mod post;
pub mod site;
pub mod tag;
pub mod tplvars;

pub use archive::Archive;
pub use author::Author;
pub use config::{Config, DirectoryConfig, NavConfig, SiteConfig, ThemeConfig, UrlConfig};
pub use datetime::{parse_time, DateTime, TimeFormatError};
pub use error::BuildError;
pub use feed::FeedItem;
pub use output::{Output, SitemapEntry};
pub use pagination::{Pagination, PaginationItem};
pub use post::{FrontMatter, MetaFormat, MissingField, Post, PostMetadata, RawMetadata};
pub use site::Site;
pub use tag::Tag;
pub use tplvars::{
    ArchiveVars, AuthorVars, GlobalVars, NavVars, PaginationVars, PostVars, SiteVars, TagVars,
    TemplateVars,
};
