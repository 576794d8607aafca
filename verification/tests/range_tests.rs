use localitysrv::range::{content_disposition_header, content_range_header, plan_range, RangePlan};

#[test]
fn first_hundred_bytes_of_a_file() {
    // for a file of size N, bytes=0-99 yields exactly 100 bytes
    let n: u64 = 1000;
    let plan = plan_range("bytes=0-99", n);
    assert_eq!(plan, RangePlan::Partial { start: 0, end: 99, content_length: 100 });
    assert_eq!(content_range_header(0, 99, n), "bytes 0-99/1000");
}

#[test]
fn out_of_bounds_or_backwards_ranges_fall_back_to_the_full_file() {
    let n: u64 = 1000;
    // start at or past the file
    assert_eq!(plan_range("bytes=1000-1010", n), RangePlan::Full);
    assert_eq!(plan_range("bytes=5000-", n), RangePlan::Full);
    // end before start
    assert_eq!(plan_range("bytes=5-2", n), RangePlan::Full);
    // end past the file
    assert_eq!(plan_range("bytes=0-1000", n), RangePlan::Full);
}

#[test]
fn open_ended_range_reaches_the_last_byte() {
    assert_eq!(plan_range("bytes=10-", 50), RangePlan::Partial {
        start: 10,
        end: 49,
        content_length: 40,
    });
    assert_eq!(plan_range("bytes=0-", 1), RangePlan::Partial {
        start: 0,
        end: 0,
        content_length: 1,
    });
}

#[test]
fn malformed_headers_fall_back_to_the_full_file() {
    let n: u64 = 100;
    assert_eq!(plan_range("", n), RangePlan::Full);
    assert_eq!(plan_range("bytes=", n), RangePlan::Full);
    assert_eq!(plan_range("bytes=-5", n), RangePlan::Full);
    assert_eq!(plan_range("bytes=a-5", n), RangePlan::Full);
    assert_eq!(plan_range("bytes 0-5", n), RangePlan::Full);
    // a digit run not followed by a dash never matches
    assert_eq!(plan_range("bytes=12x-3", n), RangePlan::Full);
}

#[test]
fn the_pattern_is_found_anywhere_in_the_header() {
    // the pattern is searched for, not anchored
    assert_eq!(plan_range("xxbytes=3-4yy", 10), RangePlan::Partial {
        start: 3,
        end: 4,
        content_length: 2,
    });
    // the leftmost occurrence wins
    assert_eq!(plan_range("bytes=x bytes=1-2", 10), RangePlan::Partial {
        start: 1,
        end: 2,
        content_length: 2,
    });
}

#[test]
fn an_empty_file_is_always_served_whole() {
    assert_eq!(plan_range("bytes=0-0", 0), RangePlan::Full);
    assert_eq!(plan_range("bytes=0-", 0), RangePlan::Full);
}

#[test]
fn an_oversized_start_bound_reads_as_zero() {
    // a start past u64 falls back to zero, as reading it into a u64 fails
    assert_eq!(plan_range("bytes=99999999999999999999-9", 100), RangePlan::Partial {
        start: 0,
        end: 9,
        content_length: 10,
    });
    // an unreadable end bound means the last byte
    assert_eq!(plan_range("bytes=1-99999999999999999999", 100), RangePlan::Partial {
        start: 1,
        end: 99,
        content_length: 99,
    });
}

#[test]
fn download_headers_are_assembled_exactly() {
    assert_eq!(content_range_header(200, 999, 4096), "bytes 200-999/4096");
    assert_eq!(content_disposition_header("42"), "attachment; filename=\"42.pmtiles\"");
}
