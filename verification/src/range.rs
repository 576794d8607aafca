//! Byte-range planning for the archive file server.
//!
//! A request may carry a `Range: bytes=start-end` header. When the header
//! holds such a pattern and the bounds lie inside the file, the server
//! answers with exactly the requested slice (a partial-content response);
//! an absent, malformed or out-of-bounds range falls back to the whole
//! file. The pattern is searched for anywhere in the header value, start
//! is a digit run, and the end bound may be empty, meaning the last byte.

use crate::text::{
    all_digits, dec_rep, dec_val, is_digit_char, parse_digits_u64, str_eq, u64_to_string,
};
use vstd::prelude::*;

verus! {

/// How a request for an archive is to be answered: the whole file, or the
/// slice `start..=end` of it.
#[derive(Debug, PartialEq, Eq, Structural)]
pub enum RangePlan {
    Full,
    Partial { start: u64, end: u64, content_length: u64 },
}

/// Where the digit run beginning at `j` ends.
pub open spec fn digit_run_end(s: Seq<char>, j: int) -> int
    decreases s.len() - j when 0 <= j <= s.len()
{
    if j < s.len() && is_digit_char(s[j]) {
        digit_run_end(s, j + 1)
    } else {
        j
    }
}

proof fn lemma_digit_run_end_bounds(s: Seq<char>, j: int)
    requires
        0 <= j <= s.len(),
    ensures
        j <= digit_run_end(s, j) <= s.len(),
        all_digits(s.subrange(j, digit_run_end(s, j))),
    decreases s.len() - j,
{
    if j < s.len() && is_digit_char(s[j]) {
        lemma_digit_run_end_bounds(s, j + 1);
        let e = digit_run_end(s, j);
        assert forall|k: int| 0 <= k < e - j implies is_digit_char(
            #[trigger] s.subrange(j, e)[k],
        ) by {
            if k > 0 {
                assert(s.subrange(j + 1, e)[k - 1] == s.subrange(j, e)[k]);
            }
        }
    }
}

/// The range pattern matches at position `i`: the literal `bytes=`, then at
/// least one digit, and the digit run is followed by a dash. (A digit run
/// followed by anything else cannot match, no matter how few of its digits
/// are taken, since the character after a shorter run is again a digit.)
pub open spec fn spec_match_at(s: Seq<char>, i: int) -> bool {
    &&& 0 <= i
    &&& i + 6 <= s.len()
    &&& s.subrange(i, i + 6) == "bytes="@
    &&& digit_run_end(s, i + 6) > i + 6
    &&& digit_run_end(s, i + 6) < s.len()
    &&& s[digit_run_end(s, i + 6)] == '-'
}

/// The leftmost position where the range pattern matches, from `i` on.
pub open spec fn spec_find_match(s: Seq<char>, i: int) -> Option<int>
    decreases s.len() - i when 0 <= i
{
    if i + 6 > s.len() {
        None
    } else if spec_match_at(s, i) {
        Some(i)
    } else {
        spec_find_match(s, i + 1)
    }
}

/// The digits of the start bound of the match at `i`.
pub open spec fn spec_start_digits(s: Seq<char>, i: int) -> Seq<char> {
    s.subrange(i + 6, digit_run_end(s, i + 6))
}

/// The digits of the end bound of the match at `i` (possibly none).
pub open spec fn spec_end_digits(s: Seq<char>, i: int) -> Seq<char> {
    let dash = digit_run_end(s, i + 6);
    s.subrange(dash + 1, digit_run_end(s, dash + 1))
}

/// The start bound the digits denote; a value too large for `u64` falls
/// back to zero, as reading it into a `u64` fails.
pub open spec fn spec_start_value(sd: Seq<char>) -> int {
    if dec_val(sd) <= u64::MAX {
        dec_val(sd) as int
    } else {
        0
    }
}

/// The end bound the digits denote; absent or unreadable digits mean the
/// file's last byte.
pub open spec fn spec_end_value(ed: Seq<char>, file_size: int) -> int {
    if ed.len() == 0 || dec_val(ed) > u64::MAX {
        file_size - 1
    } else {
        dec_val(ed) as int
    }
}

/// The response plan for a file of `file_size` bytes under a `Range` header:
/// the requested slice when the pattern is found and `start <= end < file_size`,
/// the whole file otherwise (no pattern, an empty file, or bounds outside it).
pub open spec fn spec_plan(header: Seq<char>, file_size: int) -> RangePlan {
    if file_size > 0 && spec_find_match(header, 0) is Some {
        let i = spec_find_match(header, 0)->Some_0;
        let start = spec_start_value(spec_start_digits(header, i));
        let end = spec_end_value(spec_end_digits(header, i), file_size);
        if start < file_size && end < file_size && start <= end {
            RangePlan::Partial {
                start: start as u64,
                end: end as u64,
                content_length: (end - start + 1) as u64,
            }
        } else {
            RangePlan::Full
        }
    } else {
        RangePlan::Full
    }
}

/// Any in-bounds slice is served exactly, with `end - start + 1` bytes; a
/// start at or past the file, or an end before the start, falls back to the
/// whole file.
pub proof fn lemma_plan_serves_slice_or_full(header: Seq<char>, file_size: int)
    requires
        file_size > 0,
        spec_find_match(header, 0) is Some,
    ensures
        ({
            let i = spec_find_match(header, 0)->Some_0;
            let start = spec_start_value(spec_start_digits(header, i));
            let end = spec_end_value(spec_end_digits(header, i), file_size);
            &&& (start <= end < file_size ==> spec_plan(header, file_size) == (RangePlan::Partial {
                start: start as u64,
                end: end as u64,
                content_length: (end - start + 1) as u64,
            }))
            &&& (start >= file_size || end < start ==> spec_plan(header, file_size)
                == RangePlan::Full)
        }),
{
}

/// Decide how to answer: the requested slice for a well-formed in-bounds
/// range, the whole file otherwise.
pub fn plan_range(header: &str, file_size: u64) -> (r: RangePlan)
    ensures
        r == spec_plan(header@, file_size as int),
        r matches RangePlan::Partial { start, end, content_length } ==> start <= end < file_size
            && content_length == end - start + 1,
{
    proof {
        reveal_strlit("bytes=");
    }
    let len = header.unicode_len();
    if file_size == 0 {
        return RangePlan::Full;
    }
    if len < 6 {
        return RangePlan::Full;
    }
    let mut i: usize = 0;
    loop
        invariant
            len == header@.len(),
            file_size > 0,
            len >= 6,
            i + 6 <= len + 1,
            spec_find_match(header@, 0) == spec_find_match(header@, i as int),
        decreases len + 1 - i,
    {
        if i > len - 6 {
            return RangePlan::Full;
        }
        let lit = header.substring_char(i, i + 6);
        let mut matched = false;
        let mut dash: usize = 0;
        if str_eq(lit, "bytes=") {
            // scan the run of digits after the literal
            let mut j: usize = i + 6;
            loop
                invariant
                    len == header@.len(),
                    i + 6 <= j <= len,
                    digit_run_end(header@, i + 6) == digit_run_end(header@, j as int),
                ensures
                    i + 6 <= j <= len,
                    digit_run_end(header@, i + 6) == j,
                decreases len - j,
            {
                if j >= len {
                    break;
                }
                let c = header.get_char(j);
                if (c as u32) < ('0' as u32) || (c as u32) > ('9' as u32) {
                    break;
                }
                j = j + 1;
            }
            if j > i + 6 && j < len && header.get_char(j) == '-' {
                matched = true;
                dash = j;
            }
        }
        if matched {
            proof {
                assert(spec_match_at(header@, i as int));
                assert(spec_find_match(header@, i as int) == Some(i as int));
            }
            // the end bound's digit run
            let mut k: usize = dash + 1;
            loop
                invariant
                    len == header@.len(),
                    dash + 1 <= k <= len,
                    digit_run_end(header@, dash + 1) == digit_run_end(header@, k as int),
                ensures
                    dash + 1 <= k <= len,
                    digit_run_end(header@, dash + 1) == k,
                decreases len - k,
            {
                if k >= len {
                    break;
                }
                let c = header.get_char(k);
                if (c as u32) < ('0' as u32) || (c as u32) > ('9' as u32) {
                    break;
                }
                k = k + 1;
            }
            proof {
                lemma_digit_run_end_bounds(header@, i + 6);
                lemma_digit_run_end_bounds(header@, dash + 1);
            }
            let start: u64 = match parse_digits_u64(header, i + 6, dash) {
                Some(v) => v,
                None => 0,
            };
            let end: u64 = if k == dash + 1 {
                file_size - 1
            } else {
                match parse_digits_u64(header, dash + 1, k) {
                    Some(v) => v,
                    None => file_size - 1,
                }
            };
            proof {
                assert(spec_end_digits(header@, i as int).len() == 0 <==> k == dash + 1);
            }
            if start < file_size && end < file_size && start <= end {
                return RangePlan::Partial { start, end, content_length: end - start + 1 };
            }
            return RangePlan::Full;
        }
        proof {
            assert(!spec_match_at(header@, i as int));
        }
        i = i + 1;
    }
}

/// The `Content-Range` line of a partial response:
/// `bytes start-end/total`.
pub open spec fn spec_content_range(start: u64, end: u64, total: u64) -> Seq<char> {
    "bytes "@ + dec_rep(start as nat) + "-"@ + dec_rep(end as nat) + "/"@ + dec_rep(total as nat)
}

pub fn content_range_header(start: u64, end: u64, total: u64) -> (r: String)
    ensures
        r@ == spec_content_range(start, end, total),
{
    let mut r = String::from_str("bytes ");
    r.append(u64_to_string(start).as_str());
    r.append("-");
    r.append(u64_to_string(end).as_str());
    r.append("/");
    r.append(u64_to_string(total).as_str());
    r
}

/// The `Content-Disposition` line of a full response:
/// `attachment; filename="<id>.pmtiles"`.
pub open spec fn spec_content_disposition(id: Seq<char>) -> Seq<char> {
    "attachment; filename=\""@ + id + ".pmtiles\""@
}

pub fn content_disposition_header(id: &str) -> (r: String)
    ensures
        r@ == spec_content_disposition(id@),
{
    let mut r = String::from_str("attachment; filename=\"");
    r.append(id);
    r.append(".pmtiles\"");
    r
}

} // verus!
