use localitysrv::paging::{paginate, pagination_info, total_pages};

#[test]
fn pages_partition_25_items_at_limit_10() {
    let items: Vec<u32> = (0..25).collect();
    let page1 = paginate(items.clone(), 1, 10);
    let page2 = paginate(items.clone(), 2, 10);
    let page3 = paginate(items.clone(), 3, 10);
    let page4 = paginate(items.clone(), 4, 10);

    assert_eq!(page1.len(), 10);
    assert_eq!(page2.len(), 10);
    assert_eq!(page3.len(), 5);
    assert_eq!(page4.len(), 0);

    // no overlap, no gap: the pages concatenated are the whole listing
    let mut joined = Vec::new();
    joined.extend(page1);
    joined.extend(page2);
    joined.extend(page3);
    assert_eq!(joined, items);

    assert_eq!(total_pages(25, 10), 3);
}

#[test]
fn every_item_lies_on_exactly_one_page() {
    let items: Vec<u32> = (0..25).collect();
    for k in 0..25u32 {
        let mut on_pages = 0;
        for page in 1..=4u32 {
            if paginate(items.clone(), page, 10).contains(&k) {
                on_pages += 1;
            }
        }
        assert_eq!(on_pages, 1);
    }
}

#[test]
fn page_count_rounds_up() {
    assert_eq!(total_pages(0, 10), 0);
    assert_eq!(total_pages(1, 10), 1);
    assert_eq!(total_pages(10, 10), 1);
    assert_eq!(total_pages(11, 10), 2);
    assert_eq!(total_pages(u32::MAX, 1), u32::MAX);
    // the degenerate limit of zero
    assert_eq!(total_pages(0, 0), 0);
    assert_eq!(total_pages(5, 0), u32::MAX);
}

#[test]
fn a_page_past_the_end_is_empty() {
    let items: Vec<u32> = (0..3).collect();
    assert_eq!(paginate(items.clone(), 2, 10).len(), 0);
    assert_eq!(paginate(items.clone(), 1, 0).len(), 0);
    let big = paginate(items, u32::MAX, u32::MAX);
    assert_eq!(big.len(), 0);
}

#[test]
fn pagination_info_carries_the_request_back() {
    let pi = pagination_info(2, 10, 25);
    assert_eq!(pi.page, 2);
    assert_eq!(pi.limit, 10);
    assert_eq!(pi.total, 25);
    assert_eq!(pi.total_pages, 3);
}
