use localitysrv::country::{sort_country_infos, CountryInfo, CountryService};
use localitysrv::response::{search_countries, search_localities, CountryQueryParams,
    LocalityQueryParams};

fn small_book() -> CountryService {
    CountryService::new(vec![
        ("US".to_string(), "United States".to_string()),
        ("DE".to_string(), "Germany".to_string()),
        ("CA".to_string(), "Canada".to_string()),
    ])
}

#[test]
fn all_countries_are_processed_unless_targets_narrow_them() {
    let service = small_book();
    let all = service.get_countries_to_process(&vec![]);
    assert_eq!(all, vec!["US".to_string(), "DE".to_string(), "CA".to_string()]);

    let all_again =
        service.get_countries_to_process(&vec!["DE".to_string(), "ALL".to_string()]);
    assert_eq!(all_again, vec!["US".to_string(), "DE".to_string(), "CA".to_string()]);

    // unknown targets are dropped, known ones keep their order
    let some = service.get_countries_to_process(&vec![
        "CA".to_string(),
        "XX".to_string(),
        "US".to_string(),
    ]);
    assert_eq!(some, vec!["CA".to_string(), "US".to_string()]);
}

#[test]
fn country_names_resolve_from_the_book() {
    let service = small_book();
    assert_eq!(service.get_country_name("DE").map(String::as_str), Some("Germany"));
    assert_eq!(service.get_country_name("XX"), None);
}

#[test]
fn the_default_book_holds_fourteen_countries() {
    let codes = CountryService::create_default_country_codes();
    assert_eq!(codes.len(), 14);
    assert_eq!(codes[0], ("US".to_string(), "United States".to_string()));
    assert_eq!(codes[13], ("RU".to_string(), "Russia".to_string()));
    let service = CountryService::new(codes);
    assert_eq!(service.get_country_name("JP").map(String::as_str), Some("Japan"));
}

#[test]
fn listing_rows_sort_by_folded_name() {
    let rows = vec![
        CountryInfo {
            country_code: "US".to_string(),
            country_name: "United States".to_string(),
            locality_count: 5,
        },
        CountryInfo {
            country_code: "DE".to_string(),
            country_name: "germany".to_string(),
            locality_count: 3,
        },
        CountryInfo {
            country_code: "CA".to_string(),
            country_name: "Canada".to_string(),
            locality_count: 2,
        },
    ];
    let sorted = sort_country_infos(rows);
    let codes: Vec<&str> = sorted.iter().map(|r| r.country_code.as_str()).collect();
    // case folding puts "germany" between "Canada" and "United States"
    assert_eq!(codes, vec!["CA", "DE", "US"]);
}

#[test]
fn the_region_listing_filters_joins_sorts_and_paginates() {
    let service = small_book();
    let counts = vec![("US".to_string(), 5u32), ("DE".to_string(), 0u32), ("CA".to_string(), 2u32)];

    let page = service.get_countries_paginated(&vec![], &counts, 1, 10, None);
    // Germany has no localities and is dropped; the rest sort by name
    assert_eq!(page.len(), 2);
    assert_eq!(page[0].country_code, "CA");
    assert_eq!(page[0].country_name, "Canada");
    assert_eq!(page[0].locality_count, 2);
    assert_eq!(page[1].country_code, "US");
    assert_eq!(page[1].locality_count, 5);

    assert_eq!(service.get_countries_count(&vec![], &counts, None), 2);

    // the second page of two rows at one row per page
    let second = service.get_countries_paginated(&vec![], &counts, 2, 1, None);
    assert_eq!(second.len(), 1);
    assert_eq!(second[0].country_code, "US");
}

#[test]
fn the_search_string_is_folded_before_matching() {
    let service = small_book();
    let counts = vec![("US".to_string(), 5u32), ("DE".to_string(), 4u32), ("CA".to_string(), 2u32)];

    // an upper-case query matches a mixed-case name only through folding
    let q = "STATE".to_string();
    let page = service.get_countries_paginated(&vec![], &counts, 1, 10, Some(&q));
    assert_eq!(page.len(), 1);
    assert_eq!(page[0].country_code, "US");
    assert_eq!(service.get_countries_count(&vec![], &counts, Some(&q)), 1);

    // a query can also match the code itself
    let q2 = "de".to_string();
    let page2 = service.get_countries_paginated(&vec![], &counts, 1, 10, Some(&q2));
    assert_eq!(page2.len(), 1);
    assert_eq!(page2[0].country_code, "DE");

    let q3 = "nothing".to_string();
    assert_eq!(service.get_countries_paginated(&vec![], &counts, 1, 10, Some(&q3)).len(), 0);
    assert_eq!(service.get_countries_count(&vec![], &counts, Some(&q3)), 0);
}

#[test]
fn the_countries_endpoint_wraps_its_page_in_an_envelope() {
    let service = small_book();
    let counts = vec![("US".to_string(), 5u32), ("CA".to_string(), 2u32)];

    let ok = search_countries(&service, &vec![], &counts, &CountryQueryParams {
        page: Some(1),
        limit: Some(10),
        q: None,
    });
    assert!(ok.success);
    assert!(ok.error.is_none());
    let data = ok.data.unwrap();
    assert_eq!(data.len(), 2);
    let pi = ok.pagination.unwrap();
    assert_eq!(pi.total, 2);
    assert_eq!(pi.total_pages, 1);

    // page zero is rejected with a structured error, never a crash
    let bad = search_countries(&service, &vec![], &counts, &CountryQueryParams {
        page: Some(0),
        limit: None,
        q: None,
    });
    assert!(!bad.success);
    assert!(bad.data.is_none());
    assert_eq!(bad.error.as_deref(), Some("Page must be a positive integer"));
}

#[test]
fn the_localities_endpoint_wraps_given_rows() {
    let ok = search_localities(vec![], 25, &LocalityQueryParams {
        page: None,
        limit: None,
        q: None,
    });
    assert!(ok.success);
    assert_eq!(ok.data.unwrap().len(), 0);
    let pi = ok.pagination.unwrap();
    assert_eq!(pi.page, 1);
    assert_eq!(pi.limit, 10);
    assert_eq!(pi.total, 25);
    assert_eq!(pi.total_pages, 3);

    let bad = search_localities(vec![], 25, &LocalityQueryParams {
        page: Some(0),
        limit: Some(10),
        q: None,
    });
    assert!(!bad.success);
    assert_eq!(bad.error.as_deref(), Some("Page must be a positive integer"));
}
