//! The HTTP surface's payloads and their assembly.
//!
//! Handlers never crash on malformed input: an invalid page yields a
//! structured error envelope, and a valid request yields a success envelope
//! carrying the data and its pagination block. The web framework, the
//! routing and the JSON encoding live outside this crate; these functions
//! build the values that are encoded.

use crate::country::{spec_is_countries_page, spec_opt_str, CountryInfo, CountryService};
use crate::locality::LocalityInfo;
use crate::paging::{pagination_info, spec_total_pages, PaginationInfo};
use vstd::prelude::*;

verus! {

/// The envelope every listing endpoint answers with.
#[derive(Debug, Clone)]
pub struct ApiResponse<T> {
    pub success: bool,
    pub data: Option<T>,
    pub error: Option<String>,
    pub pagination: Option<PaginationInfo>,
}

/// The query parameters of the region listing.
#[derive(Debug, Clone)]
pub struct CountryQueryParams {
    pub page: Option<u32>,
    pub limit: Option<u32>,
    pub q: Option<String>,
}

/// The query parameters of the per-region locality listing.
#[derive(Debug, Clone)]
pub struct LocalityQueryParams {
    pub page: Option<u32>,
    pub limit: Option<u32>,
    pub q: Option<String>,
}

/// A missing page parameter means the first page; a missing limit means
/// ten items per page.
pub fn effective_paging(page: Option<u32>, limit: Option<u32>) -> (r: (u32, u32))
    ensures
        r.0 == (match page {
            Some(p) => p,
            None => 1u32,
        }),
        r.1 == (match limit {
            Some(l) => l,
            None => 10u32,
        }),
{
    let p = match page {
        Some(p) => p,
        None => 1,
    };
    let l = match limit {
        Some(l) => l,
        None => 10,
    };
    (p, l)
}

/// The envelope of a rejected page parameter: pages are counted from one.
pub fn invalid_page_response<T>() -> (r: ApiResponse<T>)
    ensures
        !r.success,
        r.data is None,
        r.pagination is None,
        r.error matches Some(e) && e@ == "Page must be a positive integer"@,
{
    ApiResponse {
        success: false,
        data: None,
        error: Some(String::from_str("Page must be a positive integer")),
        pagination: None,
    }
}

/// The envelope of a failed lookup, carrying its reason.
pub fn error_response<T>(message: String) -> (r: ApiResponse<T>)
    ensures
        !r.success,
        r.data is None,
        r.pagination is None,
        r.error == Some(message),
{
    ApiResponse { success: false, data: None, error: Some(message), pagination: None }
}

/// The region listing endpoint's answer: a structured error for a page
/// below one, otherwise the filtered, ordered page of countries with its
/// pagination block.
pub fn search_countries(
    service: &CountryService,
    target_countries: &Vec<String>,
    counts: &Vec<(String, u32)>,
    params: &CountryQueryParams,
) -> (r: ApiResponse<Vec<CountryInfo>>)
    requires
        target_countries.deep_view().len() <= u32::MAX,
        service.book().len() <= u32::MAX,
    ensures
        ({
            let page = (match params.page {
                Some(p) => p,
                None => 1u32,
            });
            let limit = (match params.limit {
                Some(l) => l,
                None => 10u32,
            });
            let q = spec_opt_str(match params.q {
                Some(ref s) => Some(s),
                None => None,
            });
            &&& page < 1 ==> (!r.success && r.data is None && r.pagination is None && (
            r.error matches Some(e) && e@ == "Page must be a positive integer"@))
            &&& page >= 1 ==> {
                &&& r.success
                &&& r.error is None
                &&& (r.data matches Some(d) && spec_is_countries_page(
                    service.book(),
                    counts@,
                    target_countries.deep_view(),
                    q,
                    page,
                    limit,
                    d@,
                ))
                &&& (r.pagination matches Some(pi) && pi.page == page && pi.limit == limit
                    && pi.total == crate::country::spec_positive_count(
                    service.book(),
                    counts@,
                    crate::country::spec_filtered_codes(
                        service.book(),
                        crate::country::spec_selected_codes(
                            service.book(),
                            target_countries.deep_view(),
                        ),
                        q,
                    ),
                ) && pi.total_pages == spec_total_pages(pi.total, limit))
            }
        }),
{
    let (page, limit) = effective_paging(params.page, params.limit);
    if page < 1 {
        return invalid_page_response();
    }
    let query = match &params.q {
        Some(s) => Some(s),
        None => None,
    };
    let data = service.get_countries_paginated(target_countries, counts, page, limit, query);
    let total = service.get_countries_count(target_countries, counts, query);
    ApiResponse {
        success: true,
        data: Some(data),
        error: None,
        pagination: Some(pagination_info(page, limit, total)),
    }
}

/// The locality listing endpoint's answer for rows the index already
/// filtered and cut: a structured error for a page below one, otherwise
/// the rows with their pagination block.
pub fn search_localities(
    localities: Vec<LocalityInfo>,
    total: u32,
    params: &LocalityQueryParams,
) -> (r: ApiResponse<Vec<LocalityInfo>>)
    ensures
        ({
            let page = (match params.page {
                Some(p) => p,
                None => 1u32,
            });
            let limit = (match params.limit {
                Some(l) => l,
                None => 10u32,
            });
            &&& page < 1 ==> (!r.success && r.data is None && r.pagination is None && (
            r.error matches Some(e) && e@ == "Page must be a positive integer"@))
            &&& page >= 1 ==> {
                &&& r.success
                &&& r.error is None
                &&& r.data == Some(localities)
                &&& (r.pagination matches Some(pi) && pi.page == page && pi.limit == limit
                    && pi.total == total && pi.total_pages == spec_total_pages(total, limit))
            }
        }),
{
    let (page, limit) = effective_paging(params.page, params.limit);
    if page < 1 {
        return invalid_page_response();
    }
    ApiResponse {
        success: true,
        data: Some(localities),
        error: None,
        pagination: Some(pagination_info(page, limit, total)),
    }
}

/// What the liveness probe reports.
pub fn health_status() -> (r: String)
    ensures
        r@ == "healthy"@,
{
    String::from_str("healthy")
}

} // verus!
