//! The syndication feed of a site.

use vstd::prelude::*;

verus! {

/// An entry of the feed. The date of publication is text, as the feed
/// shows it.
#[derive(Debug)]
pub struct FeedItem {
    pub title: String,
    pub link: String,
    pub content: String,
    pub pub_date: String,
}

/// The mathematical content of a `FeedItem`.
pub struct FeedItemModel {
    pub title: Seq<char>,
    pub link: Seq<char>,
    pub content: Seq<char>,
    pub pub_date: Seq<char>,
}

impl DeepView for FeedItem {
    type V = FeedItemModel;

    open spec fn deep_view(&self) -> FeedItemModel {
        FeedItemModel {
            title: self.title@,
            link: self.link@,
            content: self.content@,
            pub_date: self.pub_date@,
        }
    }
}

impl View for FeedItem {
    type V = FeedItemModel;

    open spec fn view(&self) -> FeedItemModel {
        self.deep_view()
    }
}

/// The fields of the entries: title, link, content and date of each.
pub open spec fn item_fields(items: Seq<FeedItemModel>) -> Seq<
    (Seq<char>, Seq<char>, Seq<char>, Seq<char>),
> {
    Seq::new(
        items.len(),
        |i: int| (items[i].title, items[i].link, items[i].content, items[i].pub_date),
    )
}

/// The XML text of the RSS channel with the given title, link, description
/// and entries; an entry is its title, link, content and date.
pub uninterp spec fn rss_channel_text(
    title: Seq<char>,
    link: Seq<char>,
    description: Seq<char>,
    items: Seq<(Seq<char>, Seq<char>, Seq<char>, Seq<char>)>,
) -> Seq<char>;

/// The builders of the crate `rss` make a channel of the given title, link
/// and description whose items carry title, link, content and date, and
/// `to_string` writes the channel as XML. The text depends on these values
/// alone.
#[verifier::external_body]
pub(crate) fn channel_xml(title: &str, link: &str, description: &str, items: &Vec<FeedItem>) -> (xml:
    String)
    ensures
        xml@ == rss_channel_text(title@, link@, description@, item_fields(items.deep_view())),
{
    let items: Vec<rss::Item> = items.iter().map(
        |i|
            rss::ItemBuilder::default().title(i.title.clone()).link(i.link.clone()).content(
                i.content.clone(),
            ).pub_date(i.pub_date.clone()).build(),
    ).collect();
    rss::ChannelBuilder::default().title(title).link(link).items(items).description(
        description,
    ).build().to_string()
}

} // verus!
