use localitysrv::report::{
    all_complete, check_upload_readiness, completion_report, missing_countries,
    print_upload_readiness,
};
use localitysrv::text::{join_comma, pad_left, pad_right, parse_u32, str_eq, u64_to_string};

#[test]
fn regions_are_complete_when_index_and_disk_agree() {
    let entries = vec![
        ("AE".to_string(), Some("United Arab Emirates".to_string()), 3u32, 3u32),
        ("US".to_string(), Some("United States".to_string()), 10u32, 4u32),
        ("ZZ".to_string(), None, 1u32, 0u32),
    ];
    let report = completion_report(&entries);
    assert_eq!(report.len(), 3);
    assert!(report[0].is_complete);
    assert!(!report[1].is_complete);
    // a nameless region is reported under its code
    assert_eq!(report[2].country_name, "ZZ");
    assert!(!all_complete(&report));

    // the incomplete regions drive the next extraction
    let missing = missing_countries(&report);
    assert_eq!(missing, vec!["US".to_string(), "ZZ".to_string()]);

    let done = completion_report(&vec![("AE".to_string(), None, 2u32, 2u32)]);
    assert!(all_complete(&done));
    assert_eq!(missing_countries(&done).len(), 0);
}

#[test]
fn readiness_counts_what_is_extracted_but_not_uploaded() {
    let rows = check_upload_readiness(&vec![
        ("AE".to_string(), 3u32, 3u32),
        ("US".to_string(), 10u32, 0u32),
    ]);
    assert_eq!(rows.len(), 2);
    assert_eq!(rows[0].0, "AE");
    assert_eq!(rows[0].1.total_localities, 3);
    assert_eq!(rows[0].1.extracted_files, 3);
    assert_eq!(rows[0].1.uploaded_files, 0);
    assert!(rows[0].1.ready_for_upload);
    assert!(!rows[1].1.ready_for_upload);
}

#[test]
fn the_readiness_table_lines_are_aligned() {
    let rows = check_upload_readiness(&vec![("AE".to_string(), 3u32, 3u32)]);
    let lines = print_upload_readiness(&rows);
    assert_eq!(lines.len(), 4);
    assert_eq!(lines[0], "Upload Readiness Status:");
    assert_eq!(lines[1], "Country Code | Total | Extracted | Uploaded | Ready");
    assert_eq!(lines[2], "-------------|-------|-----------|----------|-------");
    assert_eq!(lines[3], "AE           |     3 |         3 |        0 | \u{2713} Yes");
}

#[test]
fn numbers_render_in_decimal() {
    assert_eq!(u64_to_string(0), "0");
    assert_eq!(u64_to_string(7), "7");
    assert_eq!(u64_to_string(1024), "1024");
    assert_eq!(u64_to_string(u64::MAX), "18446744073709551615");
}

#[test]
fn padding_and_joining_build_table_text() {
    assert_eq!(pad_right("AE", 5), "AE   ");
    assert_eq!(pad_right("ABCDEF", 5), "ABCDEF");
    assert_eq!(pad_left("3", 4), "   3");
    assert_eq!(pad_left("12345", 4), "12345");
    assert_eq!(join_comma(&vec![]), "");
    assert_eq!(join_comma(&vec!["a".to_string()]), "a");
    assert_eq!(join_comma(&vec!["a".to_string(), "b".to_string(), "c".to_string()]), "a, b, c");
}

#[test]
fn numbers_parse_like_u32_from_str() {
    assert_eq!(parse_u32("0"), Some(0));
    assert_eq!(parse_u32("+41"), Some(41));
    assert_eq!(parse_u32("4294967295"), Some(u32::MAX));
    assert_eq!(parse_u32("4294967296"), None);
    assert_eq!(parse_u32(""), None);
    assert_eq!(parse_u32("+"), None);
    assert_eq!(parse_u32("-1"), None);
    assert_eq!(parse_u32("12a"), None);
}

#[test]
fn string_equality_is_by_characters() {
    assert!(str_eq("abc", "abc"));
    assert!(!str_eq("abc", "abd"));
    assert!(!str_eq("abc", "ab"));
    assert!(str_eq("", ""));
}
