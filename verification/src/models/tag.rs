//! The index of posts by tag.

use crate::models::config::{UrlConfig, UrlModel};
use crate::models::post::{Post, PostModel};
use crate::utils::order::{
    arrange, arranged, copy_positions, descending_order, is_descending_order, key_values,
    lemma_descending_order_is_unique, lemma_order_is_injective, positions,
};
use crate::utils::strmap::{
    index_of_key, keys_are_distinct, lemma_index_of_key, lemma_put, lookup, put, StrMap,
};
use crate::utils::text::{replace, replace_all};
use vstd::prelude::*;

verus! {

/// A tag, with the posts that carry it.
#[derive(Debug)]
pub struct Tag {
    pub name: String,
    pub url: String,
    pub page_format: String,
    pub posts_index: Vec<usize>,
}

/// The mathematical content of a `Tag`.
pub struct TagModel {
    pub name: Seq<char>,
    pub url: Seq<char>,
    pub page_format: Seq<char>,
    pub posts_index: Seq<usize>,
}

impl DeepView for Tag {
    type V = TagModel;

    open spec fn deep_view(&self) -> TagModel {
        TagModel {
            name: self.name@,
            url: self.url@,
            page_format: self.page_format@,
            posts_index: self.posts_index@,
        }
    }
}

impl View for Tag {
    type V = TagModel;

    open spec fn view(&self) -> TagModel {
        self.deep_view()
    }
}

/// The address of a tag under `format`: the layout with `:tag` replaced by
/// the tag's name.
pub open spec fn tag_link(tag: Seq<char>, format: Seq<char>) -> Seq<char> {
    replace_all(format, ":tag"@, tag)
}

/// The groups after position `i` has been added under `name`: a name that
/// has no group yet gets one at the end.
pub open spec fn with_position(
    groups: Seq<(Seq<char>, Seq<usize>)>,
    name: Seq<char>,
    i: usize,
) -> Seq<(Seq<char>, Seq<usize>)> {
    put(
        groups,
        name,
        match lookup(groups, name) {
            Some(list) => list.push(i),
            None => seq![i],
        },
    )
}

/// The groups after post `i` has been added under each of its tags, in the
/// order in which it names them.
pub open spec fn index_tags(
    groups: Seq<(Seq<char>, Seq<usize>)>,
    tags: Seq<Seq<char>>,
    i: usize,
) -> Seq<(Seq<char>, Seq<usize>)>
    decreases tags.len(),
{
    if tags.len() == 0 {
        groups
    } else {
        with_position(index_tags(groups, tags.drop_last(), i), tags.last(), i)
    }
}

/// The groups of the posts with the given tags, in the order in which the
/// tags first occur.
pub open spec fn index_posts(tag_lists: Seq<Seq<Seq<char>>>) -> Seq<(Seq<char>, Seq<usize>)>
    decreases tag_lists.len(),
{
    if tag_lists.len() == 0 {
        Seq::empty()
    } else {
        index_tags(
            index_posts(tag_lists.drop_last()),
            tag_lists.last(),
            (tag_lists.len() - 1) as usize,
        )
    }
}

/// The tags that each post names.
pub open spec fn tag_lists(posts: Seq<PostModel>) -> Seq<Seq<Seq<char>>> {
    Seq::new(posts.len(), |i: int| posts[i].meta.tags->0)
}

/// The tag that a group stands for.
pub open spec fn tag_record(group: (Seq<char>, Seq<usize>), urls: UrlModel) -> TagModel {
    TagModel {
        name: group.0,
        url: tag_link(group.0, urls.tag_link_format),
        page_format: tag_link(group.0, urls.tag_page_format),
        posts_index: group.1,
    }
}

/// The tags of the posts, in the order in which they first occur.
pub open spec fn first_seen_tags(posts: Seq<PostModel>, urls: UrlModel) -> Seq<TagModel> {
    let groups = index_posts(tag_lists(posts));
    Seq::new(groups.len(), |k: int| tag_record(groups[k], urls))
}

/// How many posts each tag has.
pub open spec fn post_counts(tags: Seq<TagModel>) -> Seq<int> {
    Seq::new(tags.len(), |k: int| tags[k].posts_index.len() as int)
}

/// `sorted` holds the tags of `tags`, those with more posts first; tags
/// with equally many posts keep their order.
pub open spec fn most_used_first(tags: Seq<TagModel>, sorted: Seq<TagModel>) -> bool {
    exists|order: Seq<int>| #[trigger]
        is_descending_order(post_counts(tags), order) && sorted == arranged(tags, order)
}

/// Every position in the groups lies below `bound`.
pub open spec fn positions_below(groups: Seq<(Seq<char>, Seq<usize>)>, bound: int) -> bool {
    forall|k: int, j: int|
        0 <= k < groups.len() && 0 <= j < groups[k].1.len() ==> #[trigger] groups[k].1[j] < bound
}

/// Adding a position below the bound keeps the positions below the bound.
pub proof fn lemma_with_position_below(
    groups: Seq<(Seq<char>, Seq<usize>)>,
    name: Seq<char>,
    i: usize,
    bound: int,
)
    requires
        positions_below(groups, bound),
        i < bound,
    ensures
        positions_below(with_position(groups, name, i), bound),
{
    lemma_index_of_key(groups, name);
    let after = with_position(groups, name, i);
    assert forall|k: int, j: int|
        0 <= k < after.len() && 0 <= j < after[k].1.len() implies #[trigger] after[k].1[j]
        < bound by {
        if k < groups.len() && after[k] == groups[k] {
            assert(groups[k].1[j] < bound);
        } else if k < groups.len() {
            if j < groups[k].1.len() {
                assert(groups[k].1[j] < bound);
            }
        }
    }
}

/// The positions that a post adds are its own.
pub proof fn lemma_index_tags_below(
    groups: Seq<(Seq<char>, Seq<usize>)>,
    tags: Seq<Seq<char>>,
    i: usize,
    bound: int,
)
    requires
        positions_below(groups, bound),
        i < bound,
    ensures
        positions_below(index_tags(groups, tags, i), bound),
    decreases tags.len(),
{
    if tags.len() > 0 {
        lemma_index_tags_below(groups, tags.drop_last(), i, bound);
        lemma_with_position_below(index_tags(groups, tags.drop_last(), i), tags.last(), i, bound);
    }
}

/// Every position in the index is the position of a post.
pub proof fn lemma_index_posts_below(tag_lists: Seq<Seq<Seq<char>>>)
    requires
        tag_lists.len() <= usize::MAX,
    ensures
        positions_below(index_posts(tag_lists), tag_lists.len() as int),
    decreases tag_lists.len(),
{
    if tag_lists.len() > 0 {
        lemma_index_posts_below(tag_lists.drop_last());
        lemma_index_tags_below(
            index_posts(tag_lists.drop_last()),
            tag_lists.last(),
            (tag_lists.len() - 1) as usize,
            tag_lists.len() as int,
        );
    }
}

/// How often `name` stands among `tags`.
pub open spec fn times_named(tags: Seq<Seq<char>>, name: Seq<char>) -> nat
    decreases tags.len(),
{
    if tags.len() == 0 {
        0
    } else if tags.last() == name {
        times_named(tags.drop_last(), name) + 1
    } else {
        times_named(tags.drop_last(), name)
    }
}

/// The positions of the posts that name `name`, in their order, each as
/// often as the post names it.
pub open spec fn positions_naming(tag_lists: Seq<Seq<Seq<char>>>, name: Seq<char>) -> Seq<usize>
    decreases tag_lists.len(),
{
    if tag_lists.len() == 0 {
        Seq::empty()
    } else {
        positions_naming(tag_lists.drop_last(), name) + Seq::new(
            times_named(tag_lists.last(), name),
            |k: int| (tag_lists.len() - 1) as usize,
        )
    }
}

/// What is found for a name, as a list: nothing found is the empty list.
pub open spec fn listed(found: Option<Seq<usize>>) -> Seq<usize> {
    match found {
        Some(list) => list,
        None => Seq::empty(),
    }
}

/// No group of the groups is empty.
pub open spec fn groups_are_filled(groups: Seq<(Seq<char>, Seq<usize>)>) -> bool {
    forall|k: int| 0 <= k < groups.len() ==> (#[trigger] groups[k]).1.len() > 0
}

proof fn lemma_with_position(groups: Seq<(Seq<char>, Seq<usize>)>, name: Seq<char>, i: usize)
    requires
        keys_are_distinct(groups),
        groups_are_filled(groups),
    ensures
        keys_are_distinct(with_position(groups, name, i)),
        groups_are_filled(with_position(groups, name, i)),
        listed(lookup(with_position(groups, name, i), name)) == listed(lookup(groups, name)).push(
            i,
        ),
        forall|other: Seq<char>|
            other != name ==> lookup(with_position(groups, name, i), other) == lookup(
                groups,
                other,
            ),
{
    let list = match lookup(groups, name) {
        Some(list) => list.push(i),
        None => seq![i],
    };
    lemma_put(groups, name, list);
    lemma_index_of_key(groups, name);
    let after = with_position(groups, name, i);
    assert(seq![i] =~= Seq::<usize>::empty().push(i));
    assert forall|k: int| 0 <= k < after.len() implies (#[trigger] after[k]).1.len() > 0 by {
        if k < groups.len() && after[k] == groups[k] {
            assert(groups[k].1.len() > 0);
        }
    }
}

proof fn lemma_index_tags(
    groups: Seq<(Seq<char>, Seq<usize>)>,
    tags: Seq<Seq<char>>,
    i: usize,
    name: Seq<char>,
)
    requires
        keys_are_distinct(groups),
        groups_are_filled(groups),
    ensures
        keys_are_distinct(index_tags(groups, tags, i)),
        groups_are_filled(index_tags(groups, tags, i)),
        listed(lookup(index_tags(groups, tags, i), name)) == listed(lookup(groups, name))
            + Seq::new(times_named(tags, name), |k: int| i),
    decreases tags.len(),
{
    if tags.len() == 0 {
        assert(listed(lookup(groups, name)) + Seq::new(0, |k: int| i) =~= listed(
            lookup(groups, name),
        ));
    } else {
        let before = index_tags(groups, tags.drop_last(), i);
        lemma_index_tags(groups, tags.drop_last(), i, name);
        lemma_with_position(before, tags.last(), i);
        let n = times_named(tags.drop_last(), name);
        if tags.last() == name {
            assert((listed(lookup(groups, name)) + Seq::new(n, |k: int| i)).push(i) =~= listed(
                lookup(groups, name),
            ) + Seq::new(n + 1, |k: int| i));
        }
    }
}

/// The index names each tag once and leaves no tag without a post; under
/// each name it lists the positions of the posts that name it, in their
/// order, each as often as the post names it.
pub proof fn lemma_index_posts(tag_lists: Seq<Seq<Seq<char>>>, name: Seq<char>)
    ensures
        keys_are_distinct(index_posts(tag_lists)),
        groups_are_filled(index_posts(tag_lists)),
        listed(lookup(index_posts(tag_lists), name)) == positions_naming(tag_lists, name),
        lookup(index_posts(tag_lists), name) is Some <==> positions_naming(tag_lists, name).len()
            > 0,
    decreases tag_lists.len(),
{
    if tag_lists.len() > 0 {
        lemma_index_posts(tag_lists.drop_last(), name);
        lemma_index_tags(
            index_posts(tag_lists.drop_last()),
            tag_lists.last(),
            (tag_lists.len() - 1) as usize,
            name,
        );
    }
    let groups = index_posts(tag_lists);
    lemma_index_of_key(groups, name);
    match index_of_key(groups, name) {
        Some(k) => {
            assert(groups[k].1.len() > 0);
        },
        None => {},
    }
}

/// The tags have one arrangement with the most used first.
pub proof fn lemma_most_used_first_is_unique(
    tags: Seq<TagModel>,
    first: Seq<TagModel>,
    second: Seq<TagModel>,
)
    requires
        most_used_first(tags, first),
        most_used_first(tags, second),
    ensures
        first == second,
{
    let a = choose|order: Seq<int>| #[trigger]
        is_descending_order(post_counts(tags), order) && first == arranged(tags, order);
    let b = choose|order: Seq<int>| #[trigger]
        is_descending_order(post_counts(tags), order) && second == arranged(tags, order);
    lemma_descending_order_is_unique(post_counts(tags), a, b);
}

fn build_tag_link(tag: &str, format: &str) -> (link: String)
    ensures
        link@ == tag_link(tag@, format@),
{
    replace(format, ":tag", tag)
}

fn add_position(groups: &mut StrMap<Vec<usize>>, name: &str, i: usize)
    ensures
        final(groups).entries() == with_position(old(groups).entries(), name@, i),
{
    let list = match groups.get(name) {
        Some(list) => {
            let mut longer = copy_positions(list);
            longer.push(i);
            assert(longer.deep_view() =~= list.deep_view().push(i));
            longer
        },
        None => {
            let mut first: Vec<usize> = Vec::new();
            first.push(i);
            assert(first.deep_view() =~= seq![i]);
            first
        },
    };
    groups.insert(String::from_str(name), list);
}

fn add_tags(groups: &mut StrMap<Vec<usize>>, tags: &Vec<String>, i: usize)
    ensures
        final(groups).entries() == index_tags(old(groups).entries(), tags.deep_view(), i),
{
    let mut k: usize = 0;
    assert(tags.deep_view().take(0) =~= Seq::<Seq<char>>::empty());
    while k < tags.len()
        invariant
            k <= tags.len(),
            groups.entries() == index_tags(old(groups).entries(), tags.deep_view().take(k as int), i),
        decreases tags.len() - k,
    {
        add_position(groups, tags[k].as_str(), i);
        k += 1;
        proof {
            let now = tags.deep_view().take(k as int);
            assert(now.drop_last() =~= tags.deep_view().take(k - 1));
            assert(now.last() == tags@[k - 1]@);
        }
    }
    assert(tags.deep_view().take(tags.len() as int) =~= tags.deep_view());
}

impl Tag {
    /// The tags of `posts`, those with more posts first; tags with equally
    /// many posts stand in the order in which they first occur. Each tag
    /// lists the positions of its posts, once for each time a post names it.
    pub fn parse(posts: &[Post], url_config: &UrlConfig) -> (tags: Vec<Tag>)
        requires
            forall|i: int| 0 <= i < posts@.len() ==> (#[trigger] posts@[i]).meta.tags is Some,
        ensures
            most_used_first(first_seen_tags(posts.deep_view(), url_config@), tags.deep_view()),
            forall|a: int, b: int|
                0 <= a < b < tags@.len() ==> (#[trigger] tags@[a]).posts_index@.len() >= (
                #[trigger] tags@[b]).posts_index@.len(),
            forall|a: int, j: int|
                0 <= a < tags@.len() && 0 <= j < tags@[a].posts_index@.len()
                    ==> #[trigger] tags@[a].posts_index@[j] < posts@.len(),
    {
        let ghost lists = tag_lists(posts.deep_view());
        let mut groups: StrMap<Vec<usize>> = StrMap::new();
        let mut i: usize = 0;
        assert(lists.take(0) =~= Seq::<Seq<Seq<char>>>::empty());
        while i < posts.len()
            invariant
                i <= posts@.len(),
                lists == tag_lists(posts.deep_view()),
                forall|i: int| 0 <= i < posts@.len() ==> (#[trigger] posts@[i]).meta.tags is Some,
                groups.entries() == index_posts(lists.take(i as int)),
            decreases posts@.len() - i,
        {
            match &posts[i].meta.tags {
                Some(tags) => {
                    add_tags(&mut groups, tags, i);
                    assert(lists[i as int] == tags.deep_view());
                },
                None => {},
            }
            i += 1;
            proof {
                let now = lists.take(i as int);
                assert(now.drop_last() =~= lists.take(i - 1));
                assert(now.last() == lists[i - 1]);
            }
        }
        assert(lists.take(posts@.len() as int) =~= lists);
        let ghost found = groups.entries();
        let ghost records = first_seen_tags(posts.deep_view(), url_config@);
        let mut unsorted: Vec<Tag> = Vec::new();
        let mut keys: Vec<u128> = Vec::new();
        let mut k: usize = 0;
        while k < groups.len()
            invariant
                k <= found.len(),
                found == groups.entries(),
                found == index_posts(lists),
                lists == tag_lists(posts.deep_view()),
                records == first_seen_tags(posts.deep_view(), url_config@),
                unsorted@.len() == k,
                keys@.len() == k,
                forall|j: int| 0 <= j < k ==> (#[trigger] unsorted@[j])@ == records[j],
                forall|j: int| 0 <= j < k ==> #[trigger] keys@[j] == records[j].posts_index.len(),
            decreases found.len() - k,
        {
            let name = groups.key_at(k);
            let list = groups.value_at(k);
            assert(list.deep_view() =~= list@);
            unsorted.push(
                Tag {
                    name: name.clone(),
                    url: build_tag_link(name.as_str(), url_config.tag_link_format.as_str()),
                    page_format: build_tag_link(
                        name.as_str(),
                        url_config.tag_page_format.as_str(),
                    ),
                    posts_index: copy_positions(list),
                },
            );
            keys.push(list.len() as u128);
            k += 1;
        }
        let order = descending_order(&keys);
        let ghost places = positions(order@);
        let ghost before = unsorted@;
        proof {
            assert(unsorted.deep_view() =~= records);
            assert(key_values(keys@) =~= post_counts(records));
            lemma_order_is_injective(post_counts(records), places);
            assert forall|a: int| 0 <= a < order@.len() implies 0 <= #[trigger] order@[a]
                < unsorted@.len() by {
                assert(places[a] == order@[a]);
            }
            assert forall|a: int, b: int|
                0 <= a < order@.len() && 0 <= b < order@.len() && a != b implies #[trigger] order@[a]
                != #[trigger] order@[b] by {
                assert(places[a] == order@[a] && places[b] == order@[b]);
            }
        }
        let tags = arrange(unsorted, &order);
        proof {
            assert(tags.deep_view() =~= arranged(records, places));
            assert forall|a: int, b: int| 0 <= a < b < tags@.len() implies (#[trigger] tags@[a]).posts_index@.len()
                >= (#[trigger] tags@[b]).posts_index@.len() by {
                assert(post_counts(records)[places[a]] >= post_counts(records)[places[b]]);
                assert(before[places[a]]@ == records[places[a]]);
                assert(before[places[b]]@ == records[places[b]]);
            }
            lemma_index_posts_below(lists);
            assert forall|a: int, j: int|
                0 <= a < tags@.len() && 0 <= j < tags@[a].posts_index@.len() implies #[trigger] tags@[a].posts_index@[j]
                < posts@.len() by {
                assert(before[places[a]]@ == records[places[a]]);
                assert(found[places[a]].1[j] < lists.len());
            }
        }
        tags
    }
}

} // verus!
