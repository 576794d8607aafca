//! Run-preparation reports: which regions are fully extracted, and which
//! are ready to upload.
//!
//! The counts come from the geographic index and from the archive tree;
//! these functions only judge them. A region is complete when the index
//! and the disk agree on how many localities it has; the regions that are
//! not drive the next extraction. Upload readiness compares what was
//! extracted with what was already uploaded.

use crate::text::{spec_pad_left, spec_pad_right, dec_rep, pad_left, pad_right, u64_to_string};
use vstd::prelude::*;

verus! {

/// One region's extraction status: how many localities the index knows and
/// how many archives the disk holds.
#[derive(Debug, Clone)]
pub struct CountryStatus {
    pub country_code: String,
    pub country_name: String,
    pub db_count: u32,
    pub file_count: u32,
    pub is_complete: bool,
}

/// Judge each region: complete exactly when the index count and the file
/// count agree; a region without a known name is reported under its code.
pub fn completion_report(entries: &Vec<(String, Option<String>, u32, u32)>) -> (r: Vec<
    CountryStatus,
>)
    ensures
        r@.len() == entries@.len(),
        forall|i: int|
            0 <= i < entries@.len() ==> {
                let e = #[trigger] entries@[i];
                let s = #[trigger] r@[i];
                &&& s.country_code@ == e.0@
                &&& s.country_name@ == (match e.1 {
                    Some(n) => n@,
                    None => e.0@,
                })
                &&& s.db_count == e.2
                &&& s.file_count == e.3
                &&& s.is_complete == (e.2 == e.3)
            },
{
    let n = entries.len();
    let mut out: Vec<CountryStatus> = Vec::new();
    let mut i: usize = 0;
    while i < n
        invariant
            n == entries@.len(),
            i <= n,
            out@.len() == i,
            forall|k: int|
                0 <= k < i ==> {
                    let e = #[trigger] entries@[k];
                    let s = #[trigger] out@[k];
                    &&& s.country_code@ == e.0@
                    &&& s.country_name@ == (match e.1 {
                        Some(n) => n@,
                        None => e.0@,
                    })
                    &&& s.db_count == e.2
                    &&& s.file_count == e.3
                    &&& s.is_complete == (e.2 == e.3)
                },
        decreases n - i,
    {
        let e = &entries[i];
        let name = match &e.1 {
            Some(n) => n.clone(),
            None => e.0.clone(),
        };
        out.push(
            CountryStatus {
                country_code: e.0.clone(),
                country_name: name,
                db_count: e.2,
                file_count: e.3,
                is_complete: e.2 == e.3,
            },
        );
        i = i + 1;
    }
    out
}

/// Whether every region of a report is complete: nothing is left to
/// extract.
pub fn all_complete(report: &Vec<CountryStatus>) -> (r: bool)
    ensures
        r == (forall|i: int| 0 <= i < report@.len() ==> (#[trigger] report@[i]).is_complete),
{
    let n = report.len();
    let mut i: usize = 0;
    while i < n
        invariant
            n == report@.len(),
            i <= n,
            forall|k: int| 0 <= k < i ==> (#[trigger] report@[k]).is_complete,
        decreases n - i,
    {
        if !report[i].is_complete {
            return false;
        }
        i = i + 1;
    }
    true
}

/// The codes of the incomplete regions, in the report's order: the regions
/// the next extraction targets.
pub open spec fn spec_missing_countries(report: Seq<CountryStatus>) -> Seq<Seq<char>>
    decreases report.len(),
{
    if report.len() == 0 {
        Seq::empty()
    } else {
        let rest = spec_missing_countries(report.drop_last());
        if report.last().is_complete {
            rest
        } else {
            rest.push(report.last().country_code@)
        }
    }
}

pub fn missing_countries(report: &Vec<CountryStatus>) -> (r: Vec<String>)
    ensures
        r.deep_view() == spec_missing_countries(report@),
{
    let n = report.len();
    let mut out: Vec<String> = Vec::new();
    let mut i: usize = 0;
    proof {
        assert(report@.take(0) =~= Seq::<CountryStatus>::empty());
        assert(out.deep_view() =~~= spec_missing_countries(report@.take(0)));
    }
    while i < n
        invariant
            n == report@.len(),
            i <= n,
            out.deep_view() == spec_missing_countries(report@.take(i as int)),
        decreases n - i,
    {
        proof {
            assert(report@.take(i + 1).drop_last() =~= report@.take(i as int));
            assert(report@.take(i + 1).last() == report@[i as int]);
        }
        if !report[i].is_complete {
            proof {
                assert(spec_missing_countries(report@.take(i + 1)).len() == spec_missing_countries(
                    report@.take(i as int),
                ).len() + 1);
            }
            out.push(report[i].country_code.clone());
            proof {
                assert(out.deep_view() =~~= spec_missing_countries(report@.take(i + 1)));
            }
        }
        i = i + 1;
    }
    proof {
        assert(report@.take(n as int) =~= report@);
    }
    out
}

/// One region's upload readiness.
#[derive(Debug, Clone)]
pub struct UploadReadiness {
    pub total_localities: u32,
    pub extracted_files: u32,
    pub uploaded_files: u32,
    pub ready_for_upload: bool,
}

/// Judge each region's readiness from its index count and archive count.
/// Nothing is uploaded yet when this runs, so a region is ready exactly
/// when it has extracted archives at all.
pub fn check_upload_readiness(counts: &Vec<(String, u32, u32)>) -> (r: Vec<(
    String,
    UploadReadiness,
)>)
    ensures
        r@.len() == counts@.len(),
        forall|i: int|
            0 <= i < counts@.len() ==> {
                let e = #[trigger] counts@[i];
                let s = #[trigger] r@[i];
                &&& s.0@ == e.0@
                &&& s.1.total_localities == e.1
                &&& s.1.extracted_files == e.2
                &&& s.1.uploaded_files == 0
                &&& s.1.ready_for_upload == (e.2 > 0)
            },
{
    let n = counts.len();
    let mut out: Vec<(String, UploadReadiness)> = Vec::new();
    let mut i: usize = 0;
    while i < n
        invariant
            n == counts@.len(),
            i <= n,
            out@.len() == i,
            forall|k: int|
                0 <= k < i ==> {
                    let e = #[trigger] counts@[k];
                    let s = #[trigger] out@[k];
                    &&& s.0@ == e.0@
                    &&& s.1.total_localities == e.1
                    &&& s.1.extracted_files == e.2
                    &&& s.1.uploaded_files == 0
                    &&& s.1.ready_for_upload == (e.2 > 0)
                },
        decreases n - i,
    {
        let e = &counts[i];
        let uploaded: u32 = 0;
        out.push(
            (
                e.0.clone(),
                UploadReadiness {
                    total_localities: e.1,
                    extracted_files: e.2,
                    uploaded_files: uploaded,
                    ready_for_upload: e.2 > uploaded,
                },
            ),
        );
        i = i + 1;
    }
    out
}

/// One row of the readiness table.
pub open spec fn spec_readiness_row(code: Seq<char>, r: UploadReadiness) -> Seq<char> {
    spec_pad_right(code, 12) + " | "@ + spec_pad_left(dec_rep(r.total_localities as nat), 5)
        + " | "@ + spec_pad_left(dec_rep(r.extracted_files as nat), 9) + " | "@ + spec_pad_left(
        dec_rep(r.uploaded_files as nat),
        8,
    ) + " | "@ + (if r.ready_for_upload {
        "\u{2713} Yes"@
    } else {
        "\u{2717} No"@
    })
}

/// Lay the readiness report out as its table's lines: a title, a column
/// header, a rule, then one aligned row per region.
pub fn print_upload_readiness(readiness: &Vec<(String, UploadReadiness)>) -> (r: Vec<String>)
    ensures
        r@.len() == 3 + readiness@.len(),
        r@[0]@ == "Upload Readiness Status:"@,
        r@[1]@ == "Country Code | Total | Extracted | Uploaded | Ready"@,
        r@[2]@ == "-------------|-------|-----------|----------|-------"@,
        forall|i: int|
            0 <= i < readiness@.len() ==> (#[trigger] r@[3 + i])@ == spec_readiness_row(
                readiness@[i].0@,
                readiness@[i].1,
            ),
{
    let mut lines: Vec<String> = Vec::new();
    lines.push(String::from_str("Upload Readiness Status:"));
    lines.push(String::from_str("Country Code | Total | Extracted | Uploaded | Ready"));
    lines.push(String::from_str("-------------|-------|-----------|----------|-------"));
    let n = readiness.len();
    let mut i: usize = 0;
    while i < n
        invariant
            n == readiness@.len(),
            i <= n,
            lines@.len() == 3 + i,
            lines@[0]@ == "Upload Readiness Status:"@,
            lines@[1]@ == "Country Code | Total | Extracted | Uploaded | Ready"@,
            lines@[2]@ == "-------------|-------|-----------|----------|-------"@,
            forall|k: int|
                0 <= k < i ==> (#[trigger] lines@[3 + k])@ == spec_readiness_row(
                    readiness@[k].0@,
                    readiness@[k].1,
                ),
        decreases n - i,
    {
        let e = &readiness[i];
        let mut row = pad_right(e.0.as_str(), 12);
        row.append(" | ");
        row.append(pad_left(u64_to_string(e.1.total_localities as u64).as_str(), 5).as_str());
        row.append(" | ");
        row.append(pad_left(u64_to_string(e.1.extracted_files as u64).as_str(), 9).as_str());
        row.append(" | ");
        row.append(pad_left(u64_to_string(e.1.uploaded_files as u64).as_str(), 8).as_str());
        row.append(" | ");
        if e.1.ready_for_upload {
            row.append("\u{2713} Yes");
        } else {
            row.append("\u{2717} No");
        }
        proof {
            assert(row@ == spec_readiness_row(readiness@[i as int].0@, readiness@[i as int].1));
        }
        lines.push(row);
        i = i + 1;
    }
    lines
}

} // verus!
