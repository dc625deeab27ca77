//! The index of posts by year.

use crate::models::post::{Post, PostModel};
use crate::utils::order::{
    arrange, arranged, copy_positions, descending_order, is_descending_order, key_values,
    lemma_descending_order_is_unique, lemma_order_is_injective, positions,
};
use crate::utils::strmap::{
    index_of_key, keys_are_distinct, lemma_index_of_key, lemma_put, lookup, put, StrMap,
};
use crate::utils::text::{
    lemma_signed_decimal_is_injective, signed_decimal, signed_decimal_string,
};
use vstd::prelude::*;

verus! {

/// A year, with the posts of that year.
#[derive(Debug)]
pub struct Archive {
    pub year: String,
    pub posts_index: Vec<usize>,
}

/// The mathematical content of an `Archive`.
pub struct ArchiveModel {
    pub year: Seq<char>,
    pub posts_index: Seq<usize>,
}

impl DeepView for Archive {
    type V = ArchiveModel;

    open spec fn deep_view(&self) -> ArchiveModel {
        ArchiveModel { year: self.year@, posts_index: self.posts_index@ }
    }
}

impl View for Archive {
    type V = ArchiveModel;

    open spec fn view(&self) -> ArchiveModel {
        self.deep_view()
    }
}

impl Clone for Archive {
    fn clone(&self) -> (r: Self)
        ensures
            r@ == self@,
    {
        Archive { year: self.year.clone(), posts_index: copy_positions(&self.posts_index) }
    }
}

impl Default for Archive {
    fn default() -> (a: Self)
        ensures
            a@ == (ArchiveModel { year: Seq::empty(), posts_index: Seq::empty() }),
    {
        Archive { year: String::new(), posts_index: Vec::new() }
    }
}

/// The groups after position `i` has been added under the year `year`.
/// A group is named by the numeral of its year and keeps the year of the
/// post that opened it.
pub open spec fn with_year(
    groups: Seq<(Seq<char>, (i32, Seq<usize>))>,
    year: i32,
    i: usize,
) -> Seq<(Seq<char>, (i32, Seq<usize>))> {
    let name = signed_decimal(year as int);
    put(
        groups,
        name,
        match lookup(groups, name) {
            Some(group) => (group.0, group.1.push(i)),
            None => (year, seq![i]),
        },
    )
}

/// The groups of the posts of the given years, in the order in which the
/// years first occur.
pub open spec fn index_years(years: Seq<i32>) -> Seq<(Seq<char>, (i32, Seq<usize>))>
    decreases years.len(),
{
    if years.len() == 0 {
        Seq::empty()
    } else {
        with_year(index_years(years.drop_last()), years.last(), (years.len() - 1) as usize)
    }
}

/// The year of each post.
pub open spec fn years_of(posts: Seq<PostModel>) -> Seq<i32> {
    Seq::new(posts.len(), |i: int| posts[i].datetime->0.year)
}

/// The years of the posts with their posts, in the order in which the
/// years first occur.
pub open spec fn first_seen_years(posts: Seq<PostModel>) -> Seq<ArchiveModel> {
    let groups = index_years(years_of(posts));
    Seq::new(groups.len(), |k: int| ArchiveModel { year: groups[k].0, posts_index: groups[k].1.1 })
}

/// The year of each group, as a number.
pub open spec fn group_years(posts: Seq<PostModel>) -> Seq<int> {
    let groups = index_years(years_of(posts));
    Seq::new(groups.len(), |k: int| groups[k].1.0 as int)
}

/// `sorted` holds the years of `posts` with their posts, the latest year first.
pub open spec fn latest_year_first(posts: Seq<PostModel>, sorted: Seq<ArchiveModel>) -> bool {
    exists|order: Seq<int>| #[trigger]
        is_descending_order(group_years(posts), order) && sorted == arranged(
            first_seen_years(posts),
            order,
        )
}

/// Every position in the groups lies below `bound`.
pub open spec fn years_below(groups: Seq<(Seq<char>, (i32, Seq<usize>))>, bound: int) -> bool {
    forall|k: int, j: int|
        0 <= k < groups.len() && 0 <= j < groups[k].1.1.len() ==> #[trigger] groups[k].1.1[j]
            < bound
}

/// Adding a position below the bound keeps the positions below the bound.
pub proof fn lemma_with_year_below(
    groups: Seq<(Seq<char>, (i32, Seq<usize>))>,
    year: i32,
    i: usize,
    bound: int,
)
    requires
        years_below(groups, bound),
        i < bound,
    ensures
        years_below(with_year(groups, year, i), bound),
{
    lemma_index_of_key(groups, signed_decimal(year as int));
    let after = with_year(groups, year, i);
    assert forall|k: int, j: int|
        0 <= k < after.len() && 0 <= j < after[k].1.1.len() implies #[trigger] after[k].1.1[j]
        < bound by {
        if k < groups.len() && after[k] == groups[k] {
            assert(groups[k].1.1[j] < bound);
        } else if k < groups.len() {
            if j < groups[k].1.1.len() {
                assert(groups[k].1.1[j] < bound);
            }
        }
    }
}

/// Every position in the index is the position of a post.
pub proof fn lemma_index_years_below(years: Seq<i32>)
    requires
        years.len() <= usize::MAX,
    ensures
        years_below(index_years(years), years.len() as int),
    decreases years.len(),
{
    if years.len() > 0 {
        lemma_index_years_below(years.drop_last());
        lemma_with_year_below(
            index_years(years.drop_last()),
            years.last(),
            (years.len() - 1) as usize,
            years.len() as int,
        );
    }
}

/// The positions of the posts of the year `year`, in their order.
pub open spec fn positions_in_year(years: Seq<i32>, year: i32) -> Seq<usize>
    decreases years.len(),
{
    if years.len() == 0 {
        Seq::empty()
    } else if years.last() == year {
        positions_in_year(years.drop_last(), year).push((years.len() - 1) as usize)
    } else {
        positions_in_year(years.drop_last(), year)
    }
}

/// Every group is named by the numeral of its year and has a post.
pub open spec fn groups_are_years(groups: Seq<(Seq<char>, (i32, Seq<usize>))>) -> bool {
    forall|k: int|
        0 <= k < groups.len() ==> (#[trigger] groups[k]).0 == signed_decimal(groups[k].1.0 as int)
            && groups[k].1.1.len() > 0
}

/// What the groups hold for the year `year`.
pub open spec fn found_in_year(
    groups: Seq<(Seq<char>, (i32, Seq<usize>))>,
    year: i32,
) -> Option<(i32, Seq<usize>)> {
    lookup(groups, signed_decimal(year as int))
}

proof fn lemma_with_year(
    groups: Seq<(Seq<char>, (i32, Seq<usize>))>,
    added: i32,
    i: usize,
    year: i32,
)
    requires
        keys_are_distinct(groups),
        groups_are_years(groups),
    ensures
        keys_are_distinct(with_year(groups, added, i)),
        groups_are_years(with_year(groups, added, i)),
        year != added ==> found_in_year(with_year(groups, added, i), year) == found_in_year(
            groups,
            year,
        ),
        found_in_year(with_year(groups, added, i), added) == Some(
            (
                added,
                match found_in_year(groups, added) {
                    Some(group) => group.1.push(i),
                    None => seq![i],
                },
            ),
        ),
{
    let name = signed_decimal(added as int);
    let group = match lookup(groups, name) {
        Some(group) => (group.0, group.1.push(i)),
        None => (added, seq![i]),
    };
    lemma_put(groups, name, group);
    lemma_index_of_key(groups, name);
    let after = with_year(groups, added, i);
    match index_of_key(groups, name) {
        Some(k) => {
            assert(groups[k].0 == signed_decimal(groups[k].1.0 as int));
            lemma_signed_decimal_is_injective(groups[k].1.0 as int, added as int);
        },
        None => {},
    }
    assert forall|k: int| 0 <= k < after.len() implies (#[trigger] after[k]).0 == signed_decimal(
        after[k].1.0 as int,
    ) && after[k].1.1.len() > 0 by {
        if k < groups.len() && after[k] == groups[k] {
            assert(groups[k].1.1.len() > 0);
        }
    }
    if year != added {
        if signed_decimal(year as int) == name {
            lemma_signed_decimal_is_injective(year as int, added as int);
        }
    }
}

/// The index has one group for each year that has a post, named by the
/// numeral of the year, and it lists the positions of the posts of that
/// year in their order.
pub proof fn lemma_index_years(years: Seq<i32>, year: i32)
    ensures
        keys_are_distinct(index_years(years)),
        groups_are_years(index_years(years)),
        found_in_year(index_years(years), year) == if positions_in_year(years, year).len() == 0 {
            None
        } else {
            Some((year, positions_in_year(years, year)))
        },
    decreases years.len(),
{
    if years.len() > 0 {
        let before = index_years(years.drop_last());
        lemma_index_years(years.drop_last(), year);
        lemma_with_year(before, years.last(), (years.len() - 1) as usize, year);
        if years.last() == year {
            assert(seq![(years.len() - 1) as usize] =~= Seq::<usize>::empty().push(
                (years.len() - 1) as usize,
            ));
        }
    }
}

/// No two groups of the index have the same year.
pub proof fn lemma_group_years_are_distinct(posts: Seq<PostModel>)
    ensures
        forall|a: int, b: int|
            0 <= a < b < group_years(posts).len() ==> #[trigger] group_years(posts)[a]
                != #[trigger] group_years(posts)[b],
{
    let groups = index_years(years_of(posts));
    lemma_index_years(years_of(posts), 0);
    assert forall|a: int, b: int| 0 <= a < b < group_years(posts).len() implies #[trigger] group_years(
        posts,
    )[a] != #[trigger] group_years(posts)[b] by {
        assert(groups[a].0 == signed_decimal(groups[a].1.0 as int));
        assert(groups[b].0 == signed_decimal(groups[b].1.0 as int));
        assert(groups[a].0 != groups[b].0);
    }
}

/// The posts have one archive with the latest year first.
pub proof fn lemma_latest_year_first_is_unique(
    posts: Seq<PostModel>,
    first: Seq<ArchiveModel>,
    second: Seq<ArchiveModel>,
)
    requires
        latest_year_first(posts, first),
        latest_year_first(posts, second),
    ensures
        first == second,
{
    let a = choose|order: Seq<int>| #[trigger]
        is_descending_order(group_years(posts), order) && first == arranged(
            first_seen_years(posts),
            order,
        );
    let b = choose|order: Seq<int>| #[trigger]
        is_descending_order(group_years(posts), order) && second == arranged(
            first_seen_years(posts),
            order,
        );
    lemma_descending_order_is_unique(group_years(posts), a, b);
}

fn add_year(groups: &mut StrMap<(i32, Vec<usize>)>, year: i32, i: usize)
    ensures
        final(groups).entries() == with_year(old(groups).entries(), year, i),
{
    let name = signed_decimal_string(year as i64);
    let group = match groups.get(name.as_str()) {
        Some(group) => {
            let mut longer = copy_positions(&group.1);
            longer.push(i);
            assert(longer.deep_view() =~= group.1.deep_view().push(i));
            (group.0, longer)
        },
        None => {
            let mut first: Vec<usize> = Vec::new();
            first.push(i);
            assert(first.deep_view() =~= seq![i]);
            (year, first)
        },
    };
    groups.insert(name, group);
}

impl Archive {
    /// The years of `posts`, the latest first, each with the positions of
    /// its posts in their order.
    pub fn parse(posts: &[Post]) -> (archives: Vec<Archive>)
        requires
            forall|i: int| 0 <= i < posts@.len() ==> (#[trigger] posts@[i]).datetime is Some,
        ensures
            latest_year_first(posts.deep_view(), archives.deep_view()),
            forall|a: int, j: int|
                0 <= a < archives@.len() && 0 <= j < archives@[a].posts_index@.len()
                    ==> #[trigger] archives@[a].posts_index@[j] < posts@.len(),
    {
        let ghost years = years_of(posts.deep_view());
        let mut groups: StrMap<(i32, Vec<usize>)> = StrMap::new();
        let mut i: usize = 0;
        assert(years.take(0) =~= Seq::<i32>::empty());
        while i < posts.len()
            invariant
                i <= posts@.len(),
                years == years_of(posts.deep_view()),
                forall|i: int| 0 <= i < posts@.len() ==> (#[trigger] posts@[i]).datetime is Some,
                groups.entries() == index_years(years.take(i as int)),
            decreases posts@.len() - i,
        {
            match posts[i].datetime {
                Some(date) => {
                    add_year(&mut groups, date.year, i);
                    assert(years[i as int] == date.year);
                },
                None => {},
            }
            i += 1;
            proof {
                let now = years.take(i as int);
                assert(now.drop_last() =~= years.take(i - 1));
                assert(now.last() == years[i - 1]);
            }
        }
        assert(years.take(posts@.len() as int) =~= years);
        let ghost found = groups.entries();
        let ghost records = first_seen_years(posts.deep_view());
        let ghost numbers = group_years(posts.deep_view());
        let mut unsorted: Vec<Archive> = Vec::new();
        let mut keys: Vec<u128> = Vec::new();
        let mut k: usize = 0;
        while k < groups.len()
            invariant
                k <= found.len(),
                found == groups.entries(),
                found == index_years(years),
                years == years_of(posts.deep_view()),
                records == first_seen_years(posts.deep_view()),
                numbers == group_years(posts.deep_view()),
                unsorted@.len() == k,
                keys@.len() == k,
                forall|j: int| 0 <= j < k ==> (#[trigger] unsorted@[j])@ == records[j],
                forall|j: int| 0 <= j < k ==> #[trigger] keys@[j] == numbers[j] + 0x8000_0000,
            decreases found.len() - k,
        {
            let name = groups.key_at(k);
            let group = groups.value_at(k);
            assert(group.1.deep_view() =~= group.1@);
            unsorted.push(Archive { year: name.clone(), posts_index: copy_positions(&group.1) });
            keys.push((group.0 as i64 + 0x8000_0000i64) as u128);
            k += 1;
        }
        let order = descending_order(&keys);
        let ghost places = positions(order@);
        proof {
            assert(unsorted.deep_view() =~= records);
            assert(is_descending_order(numbers, places)) by {
                let shifted = key_values(keys@);
                assert forall|a: int, b: int| 0 <= a < b < places.len() implies numbers[#[trigger] places[a]]
                    > numbers[#[trigger] places[b]] || (numbers[places[a]] == numbers[places[b]]
                    && places[a] < places[b]) by {
                    assert(shifted[places[a]] == numbers[places[a]] + 0x8000_0000);
                    assert(shifted[places[b]] == numbers[places[b]] + 0x8000_0000);
                }
            }
            lemma_order_is_injective(numbers, places);
            assert forall|a: int| 0 <= a < order@.len() implies 0 <= #[trigger] order@[a]
                < unsorted@.len() by {
                assert(places[a] == order@[a]);
            }
            assert forall|a: int, b: int|
                0 <= a < order@.len() && 0 <= b < order@.len() && a != b implies #[trigger] order@[a]
                != #[trigger] order@[b] by {
                assert(places[a] == order@[a] && places[b] == order@[b]);
            }
        }
        let ghost before = unsorted@;
        let archives = arrange(unsorted, &order);
        proof {
            assert(archives.deep_view() =~= arranged(records, places));
            lemma_index_years_below(years);
            assert forall|a: int, j: int|
                0 <= a < archives@.len() && 0 <= j < archives@[a].posts_index@.len() implies #[trigger] archives@[a].posts_index@[j]
                < posts@.len() by {
                assert(before[places[a]]@ == records[places[a]]);
                assert(found[places[a]].1.1[j] < years.len());
            }
        }
        archives
    }
}

} // verus!
