use pugo::models::{Pagination, PaginationItem};

#[test]
fn test_pagination() {
    let pagination = Pagination::new(99, 10);
    assert_eq!(pagination.total_pages, 10);

    let page = pagination.build_each_page(3, "/page/:page");
    assert_eq!(page.current, 3);
    assert_eq!(page.total, 99);
    assert_eq!(page.total_pages, 10);
    assert_eq!(page.size, 10);
    assert_eq!(page.has_previous, true);
    assert_eq!(page.has_next, true);
    assert_eq!(page.previous, 2);
    assert_eq!(page.next, 4);
    assert_eq!(page.start, 20);
    assert_eq!(page.end, 30);
    assert_eq!(page.current_url(), "/page/3");
    assert_eq!(page.previous_url(), "/page/2");
    assert_eq!(page.next_url(), "/page/4");
}

#[test]
fn test_page_count_rounds_up() {
    assert_eq!(Pagination::new(0, 10).total_pages, 0);
    assert_eq!(Pagination::new(1, 10).total_pages, 1);
    assert_eq!(Pagination::new(10, 10).total_pages, 1);
    assert_eq!(Pagination::new(11, 10).total_pages, 2);
    assert_eq!(Pagination::new(100, 10).total_pages, 10);
    assert_eq!(Pagination::new(7, 1).total_pages, 7);
}

#[test]
fn test_first_and_last_window() {
    let pagination = Pagination::new(99, 10);
    let first = pagination.build_each_page(1, "/page/:page");
    assert_eq!(first.has_previous, false);
    assert_eq!(first.previous, 1);
    assert_eq!(first.start, 0);
    assert_eq!(first.end, 10);
    let last = pagination.build_each_page(10, "/page/:page");
    assert_eq!(last.has_next, false);
    assert_eq!(last.next, 10);
    assert_eq!(last.start, 90);
    assert_eq!(last.end, 99);
}

#[test]
fn test_every_window_lies_within_the_items() {
    for total in 0..40usize {
        for size in 1..8usize {
            let pagination = Pagination::new(total, size);
            assert_eq!(pagination.total_pages, (total + size - 1) / size);
            for page in 0..(pagination.total_pages + 3) {
                let w = pagination.build_each_page(page, "/p/:page");
                assert!(w.start <= w.end && w.end <= total);
                assert_eq!(w.has_next, w.end < total);
                assert!(w.current >= 1);
            }
        }
    }
}

#[test]
fn test_page_out_of_range_shows_first_page() {
    let pagination = Pagination::new(25, 10);
    let zero = pagination.build_each_page(0, "/page/:page");
    assert_eq!(zero.current, 1);
    assert_eq!(zero.start, 0);
    assert_eq!(zero.end, 10);
    let beyond = pagination.build_each_page(4, "/page/:page");
    assert_eq!(beyond.current, 1);
    assert_eq!(beyond.end, 10);
    let empty = Pagination::new(0, 10).build_each_page(1, "/page/:page");
    assert_eq!(empty.current, 1);
    assert_eq!(empty.start, 0);
    assert_eq!(empty.end, 0);
    assert_eq!(empty.has_next, false);
}

#[test]
fn test_pagination_template_vars() {
    let item = PaginationItem::new(2, 25, 3, 10, "/tag/a/page/:page");
    let vars = item.build_template_vars();
    assert_eq!(vars.current, 2);
    assert_eq!(vars.prev, 1);
    assert_eq!(vars.next, 3);
    assert_eq!(vars.total, 25);
    assert_eq!(vars.total_pages, 3);
    assert!(vars.has_prev && vars.has_next);
    assert_eq!(vars.current_url, "/tag/a/page/2");
    assert_eq!(vars.prev_url, "/tag/a/page/1");
    assert_eq!(vars.next_url, "/tag/a/page/3");
}
