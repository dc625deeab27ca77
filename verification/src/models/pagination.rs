//! Paging of a listing: how many pages a number of items takes, and the window
//! of items that each page shows.

use crate::models::tplvars::{PaginationVars, PaginationVarsModel};
use crate::utils::text::{decimal, decimal_string, replace, replace_all};
use vstd::prelude::*;

verus! {

/// The number of pages that `total` items take at `per_page` items a page:
/// the quotient, rounded up.
pub open spec fn page_count(total: nat, per_page: nat) -> nat
    recommends
        per_page > 0,
{
    if total % per_page == 0 {
        total / per_page
    } else {
        total / per_page + 1
    }
}

/// The page that a request for page `current` shows: `current` itself where
/// it is one of the pages `1..=total_pages`, else the first page.
pub open spec fn shown_page(current: nat, total_pages: nat) -> nat {
    if 1 <= current <= total_pages {
        current
    } else {
        1
    }
}

/// One page of a listing.
pub struct PageWindow {
    pub current: nat,
    pub start: nat,
    pub end: nat,
    pub has_previous: bool,
    pub has_next: bool,
    pub previous: nat,
    pub next: nat,
}

/// The window of page `current` over `total` items at `size` items a page.
/// The items of the page are those at positions `start..end`.
pub open spec fn window(current: nat, total: nat, size: nat) -> PageWindow
    recommends
        size > 0,
{
    let shown = shown_page(current, page_count(total, size));
    let start = ((shown - 1) * size) as nat;
    let end = if start + size > total {
        total
    } else {
        start + size
    };
    PageWindow {
        current: shown,
        start,
        end,
        has_previous: shown > 1,
        has_next: end < total,
        previous: if shown > 1 {
            (shown - 1) as nat
        } else {
            1
        },
        next: if end < total {
            shown + 1
        } else {
            shown
        },
    }
}

/// The address of page `page` under `layout`: the layout with `:page`
/// replaced by the page number.
pub open spec fn page_url(layout: Seq<char>, page: nat) -> Seq<char> {
    replace_all(layout, ":page"@, decimal(page))
}

/// `page_count` is the ceiling of `total / per_page`: the least number of
/// pages of `per_page` items that hold `total` items.
pub proof fn lemma_page_count_is_ceiling(total: nat, per_page: nat)
    requires
        per_page > 0,
    ensures
        page_count(total, per_page) * per_page >= total,
        total > 0 ==> (page_count(total, per_page) - 1) * per_page < total,
        total == 0 ==> page_count(total, per_page) == 0,
{
    let q = total / per_page;
    let r = total % per_page;
    assert(total == per_page * q + r && 0 <= r < per_page) by (nonlinear_arith)
        requires
            per_page > 0,
            q == total / per_page,
            r == total % per_page,
    ;
    if r == 0 {
        assert(q * per_page == total) by (nonlinear_arith)
            requires
                total == per_page * q + r,
                r == 0,
        ;
        assert((q - 1) * per_page == total - per_page) by (nonlinear_arith)
            requires
                q * per_page == total,
        ;
        if total == 0 {
            assert(q == 0) by (nonlinear_arith)
                requires
                    q * per_page == 0,
                    per_page > 0,
            ;
        }
    } else {
        assert((q + 1) * per_page == total - r + per_page) by (nonlinear_arith)
            requires
                total == per_page * q + r,
        ;
        assert(q * per_page == total - r) by (nonlinear_arith)
            requires
                total == per_page * q + r,
        ;
    }
}

/// Every window lies within the items: `0 <= start <= end <= total`, and a
/// next page exists exactly when items are left after the window.
pub proof fn lemma_window_in_bounds(current: nat, total: nat, size: nat)
    requires
        size > 0,
    ensures
        0 <= window(current, total, size).start <= window(current, total, size).end <= total,
        window(current, total, size).has_next <==> window(current, total, size).end < total,
        1 <= window(current, total, size).current,
        window(current, total, size).has_next ==> window(current, total, size).current
            < page_count(total, size),
        total > 0 ==> window(current, total, size).start < total,
{
    let pages = page_count(total, size);
    let shown = shown_page(current, pages);
    lemma_page_count_is_ceiling(total, size);
    assert((shown - 1) * size >= 0) by (nonlinear_arith)
        requires
            shown >= 1,
            size > 0,
    ;
    if pages >= 1 {
        assert((shown - 1) * size <= (pages - 1) * size) by (nonlinear_arith)
            requires
                1 <= shown <= pages,
                size > 0,
        ;
        if shown == pages {
            assert((shown - 1) * size + size >= total) by (nonlinear_arith)
                requires
                    shown * size >= total,
            ;
        }
    } else {
        assert((shown - 1) * size == 0) by (nonlinear_arith)
            requires
                shown == 1,
        ;
    }
}

/// The first page has no page before it, and the last page none after it.
pub proof fn lemma_first_and_last_window(total: nat, size: nat)
    requires
        size > 0,
    ensures
        !window(1, total, size).has_previous,
        !window(page_count(total, size), total, size).has_next,
{
    lemma_window_in_bounds(page_count(total, size), total, size);
}

/// One page of a listing, with the layout of its address.
#[derive(Debug)]
pub struct PaginationItem {
    pub current: usize,
    pub total: usize,
    pub total_pages: usize,
    pub size: usize,
    pub has_previous: bool,
    pub has_next: bool,
    pub previous: usize,
    pub next: usize,
    pub start: usize,
    pub end: usize,
    pub layout: String,
}

impl PaginationItem {
    /// The layout of the page's address, in which `:page` stands for a page number.
    pub open spec fn layout(&self) -> Seq<char> {
        self.layout@
    }

    /// The window that this page shows.
    pub open spec fn shown(&self) -> PageWindow {
        PageWindow {
            current: self.current as nat,
            start: self.start as nat,
            end: self.end as nat,
            has_previous: self.has_previous,
            has_next: self.has_next,
            previous: self.previous as nat,
            next: self.next as nat,
        }
    }

    /// Page `current` of `total` items at `size` items a page. A `current`
    /// outside `1..=total_pages` shows the first page.
    pub fn new(current: usize, total: usize, total_pages: usize, size: usize, link: &str) -> (item:
        PaginationItem)
        requires
            size > 0,
            total_pages == page_count(total as nat, size as nat),
        ensures
            item.total == total,
            item.total_pages == total_pages,
            item.size == size,
            item.layout() == link@,
            item.shown() == window(current as nat, total as nat, size as nat),
            item.start <= item.end <= item.total,
            item.has_next <==> item.end < item.total,
    {
        let shown: usize = if 1 <= current && current <= total_pages {
            current
        } else {
            1
        };
        proof {
            lemma_window_in_bounds(current as nat, total as nat, size as nat);
        }
        let start: usize = (shown - 1) * size;
        let end: usize = if total - start < size {
            total
        } else {
            start + size
        };
        let has_previous = shown > 1;
        let previous: usize = if has_previous {
            shown - 1
        } else {
            1
        };
        let has_next = end < total;
        let next: usize = if has_next {
            shown + 1
        } else {
            shown
        };
        PaginationItem {
            current: shown,
            total,
            total_pages,
            size,
            has_previous,
            has_next,
            previous,
            next,
            start,
            end,
            layout: String::from_str(link),
        }
    }

    fn build_url(&self, page: usize) -> (url: String)
        ensures
            url@ == page_url(self.layout(), page as nat),
    {
        let number = decimal_string(page as u64);
        replace(self.layout.as_str(), ":page", number.as_str())
    }

    /// The address of this page.
    pub fn current_url(&self) -> (url: String)
        ensures
            url@ == page_url(self.layout(), self.current as nat),
    {
        self.build_url(self.current)
    }

    /// The address of the page before this one.
    pub fn previous_url(&self) -> (url: String)
        ensures
            url@ == page_url(self.layout(), self.previous as nat),
    {
        self.build_url(self.previous)
    }

    /// The address of the page after this one.
    pub fn next_url(&self) -> (url: String)
        ensures
            url@ == page_url(self.layout(), self.next as nat),
    {
        self.build_url(self.next)
    }

    /// What a template sees of this page.
    pub open spec fn template_vars(&self) -> PaginationVarsModel {
        PaginationVarsModel {
            current: self.current as nat,
            prev: self.previous as nat,
            next: self.next as nat,
            total: self.total as nat,
            total_pages: self.total_pages as nat,
            has_next: self.has_next,
            has_prev: self.has_previous,
            current_url: page_url(self.layout(), self.current as nat),
            prev_url: page_url(self.layout(), self.previous as nat),
            next_url: page_url(self.layout(), self.next as nat),
        }
    }

    /// Projects this page into template variables.
    pub fn build_template_vars(&self) -> (vars: PaginationVars)
        ensures
            vars@ == self.template_vars(),
    {
        PaginationVars {
            current: self.current,
            prev: self.previous,
            next: self.next,
            total: self.total,
            total_pages: self.total_pages,
            has_prev: self.has_previous,
            has_next: self.has_next,
            current_url: self.current_url(),
            prev_url: self.previous_url(),
            next_url: self.next_url(),
        }
    }
}

/// A number of items and the size of a page.
#[derive(Debug)]
pub struct Pagination {
    pub total: usize,
    pub per_page: usize,
    pub total_pages: usize,
}

impl Pagination {
    /// The page size is positive and the number of pages is the one that the
    /// items take.
    pub open spec fn wf(&self) -> bool {
        &&& self.per_page > 0
        &&& self.total_pages == page_count(self.total as nat, self.per_page as nat)
    }

    /// The paging of `total` items at `per_page` items a page.
    pub fn new(total: usize, per_page: usize) -> (p: Pagination)
        requires
            per_page > 0,
        ensures
            p.total == total,
            p.per_page == per_page,
            p.total_pages == page_count(total as nat, per_page as nat),
            p.wf(),
    {
        let total_pages: usize = if total % per_page == 0 {
            total / per_page
        } else {
            proof {
                assert(total / per_page < total) by (nonlinear_arith)
                    requires
                        per_page > 0,
                        total % per_page != 0,
                ;
            }
            total / per_page + 1
        };
        Pagination { total, per_page, total_pages }
    }

    /// Page `page` of this paging, with `layout` for its addresses.
    pub fn build_each_page(&self, page: usize, layout: &str) -> (item: PaginationItem)
        requires
            self.wf(),
        ensures
            item.total == self.total,
            item.total_pages == self.total_pages,
            item.size == self.per_page,
            item.layout() == layout@,
            item.shown() == window(page as nat, self.total as nat, self.per_page as nat),
            item.start <= item.end <= item.total,
            item.has_next <==> item.end < item.total,
    {
        PaginationItem::new(page, self.total, self.total_pages, self.per_page, layout)
    }
}

} // verus!
