//! Planning a region's archive extraction.
//!
//! For one region, extraction looks at which localities already have an
//! archive on disk and plans one extractor invocation for each of the
//! others: re-running over an unchanged region plans nothing, so the tool
//! is never re-invoked for an archive that is already present. The
//! invocations themselves run outside this crate, bounded by a concurrency
//! cap; an invocation counts as succeeded only when the tool exited
//! cleanly and the archive exists afterwards, and a region is reported
//! failed when any of its invocations failed, while every archive written
//! by the others remains.

use crate::cmd::{CmdError, CommandOutput};
use crate::locality::{spec_archive_filename, archive_filename, Locality};
use vstd::prelude::*;

verus! {

/// Why extraction could not proceed.
#[derive(Debug)]
pub enum ExtractionError {
    PlanetUrlFailed(String),
    ExtractionFailed(String),
    DatabaseError(String),
    IoError(String),
    CmdError(CmdError),
    FileError(String),
}

/// Resolve the planet archive that extraction clips from. There is no
/// fetching in decentralized mode: a configured local file is used when it
/// exists on disk, and anything else is a startup error saying what to set.
pub fn get_planet_pmtiles_source(configured_path: Option<String>, file_exists: bool) -> (r: Result<
    String,
    ExtractionError,
>)
    ensures
        configured_path matches Some(p) ==> {
            &&& file_exists ==> r == Ok::<String, ExtractionError>(p)
            &&& !file_exists ==> (r matches Err(ExtractionError::PlanetUrlFailed(m)) && m@
                == "Local planet pmtiles file not found: "@ + p@)
        },
        configured_path is None ==> (r matches Err(ExtractionError::PlanetUrlFailed(m)) && m@
            == "No local planet pmtiles file configured. Set PLANET_PMTILES_PATH environment variable."@),
{
    match configured_path {
        Some(p) => {
            if file_exists {
                Ok(p)
            } else {
                let mut msg = String::from_str("Local planet pmtiles file not found: ");
                msg.append(p.as_str());
                Err(ExtractionError::PlanetUrlFailed(msg))
            }
        },
        None => Err(
            ExtractionError::PlanetUrlFailed(
                String::from_str(
                    "No local planet pmtiles file configured. Set PLANET_PMTILES_PATH environment variable.",
                ),
            ),
        ),
    }
}

/// One planned extractor invocation: which locality, into which file, over
/// which bounding box.
#[derive(Debug, Clone)]
pub struct ExtractionJob {
    pub locality_id: u64,
    pub output_filename: String,
    pub bbox: String,
}

/// The plain values of a job.
pub open spec fn job_view(j: ExtractionJob) -> (u64, Seq<char>, Seq<char>) {
    (j.locality_id, j.output_filename@, j.bbox@)
}

/// The extractor's bounding-box argument: the locality's minimum corner,
/// then its maximum corner, comma separated.
pub open spec fn spec_bbox(loc: Locality) -> Seq<char> {
    loc.min_longitude@ + ","@ + loc.min_latitude@ + ","@ + loc.max_longitude@ + ","@
        + loc.max_latitude@
}

pub fn bbox_string(loc: &Locality) -> (r: String)
    ensures
        r@ == spec_bbox(*loc),
{
    let mut r = loc.min_longitude.clone();
    r.append(",");
    r.append(loc.min_latitude.as_str());
    r.append(",");
    r.append(loc.max_longitude.as_str());
    r.append(",");
    r.append(loc.max_latitude.as_str());
    r
}

/// The jobs a region needs: one per locality whose archive id is not among
/// those already on disk, in the localities' order.
pub open spec fn spec_jobs(locs: Seq<Locality>, existing: Seq<u64>) -> Seq<(u64, Seq<char>, Seq<
    char,
>)>
    decreases locs.len(),
{
    if locs.len() == 0 {
        Seq::empty()
    } else {
        let rest = spec_jobs(locs.drop_last(), existing);
        let loc = locs.last();
        if existing.contains(loc.id) {
            rest
        } else {
            rest.push((loc.id, spec_archive_filename(loc.id), spec_bbox(loc)))
        }
    }
}

/// Re-running extraction over an unchanged region re-invokes nothing: when
/// every locality's archive is already present, the plan is empty.
pub proof fn lemma_no_reextraction(locs: Seq<Locality>, existing: Seq<u64>)
    requires
        forall|i: int| 0 <= i < locs.len() ==> existing.contains((#[trigger] locs[i]).id),
    ensures
        spec_jobs(locs, existing).len() == 0,
    decreases locs.len(),
{
    if locs.len() > 0 {
        lemma_no_reextraction(locs.drop_last(), existing);
    }
}

fn contains_id(ids: &Vec<u64>, id: u64) -> (r: bool)
    ensures
        r == ids@.contains(id),
{
    let n = ids.len();
    let mut i: usize = 0;
    while i < n
        invariant
            n == ids@.len(),
            i <= n,
            forall|k: int| 0 <= k < i ==> ids@[k] != id,
        decreases n - i,
    {
        if ids[i] == id {
            return true;
        }
        i = i + 1;
    }
    false
}

/// Plan a region's extraction: skip every locality whose archive id is
/// already on disk, and emit one job for each of the rest, in order.
pub fn plan_extraction(localities: &Vec<Locality>, existing_ids: &Vec<u64>) -> (r: Vec<
    ExtractionJob,
>)
    ensures
        r@.map_values(|j: ExtractionJob| job_view(j)) == spec_jobs(localities@, existing_ids@),
{
    let n = localities.len();
    let mut jobs: Vec<ExtractionJob> = Vec::new();
    let mut i: usize = 0;
    proof {
        assert(localities@.take(0) =~= Seq::<Locality>::empty());
        assert(jobs@.map_values(|j: ExtractionJob| job_view(j)) =~~= spec_jobs(
            localities@.take(0),
            existing_ids@,
        ));
    }
    while i < n
        invariant
            n == localities@.len(),
            i <= n,
            jobs@.map_values(|j: ExtractionJob| job_view(j)) == spec_jobs(
                localities@.take(i as int),
                existing_ids@,
            ),
        decreases n - i,
    {
        proof {
            assert(localities@.take(i + 1).drop_last() =~= localities@.take(i as int));
            assert(localities@.take(i + 1).last() == localities@[i as int]);
        }
        let loc = &localities[i];
        if !contains_id(existing_ids, loc.id) {
            let job = ExtractionJob {
                locality_id: loc.id,
                output_filename: archive_filename(loc.id),
                bbox: bbox_string(loc),
            };
            proof {
                assert(job_view(job) == (
                    localities@[i as int].id,
                    spec_archive_filename(localities@[i as int].id),
                    spec_bbox(localities@[i as int]),
                ));
                assert(spec_jobs(localities@.take(i + 1), existing_ids@).len() == spec_jobs(
                    localities@.take(i as int),
                    existing_ids@,
                ).len() + 1);
            }
            jobs.push(job);
            proof {
                assert(jobs@.map_values(|j: ExtractionJob| job_view(j)) =~~= spec_jobs(
                    localities@.take(i + 1),
                    existing_ids@,
                ));
            }
        }
        i = i + 1;
    }
    proof {
        assert(localities@.take(n as int) =~= localities@);
    }
    jobs
}

/// The extractor's argument list for one job against a planet source.
pub fn extraction_args(planet_source: &str, output_path: &str, bbox: &str) -> (r: Vec<String>)
    ensures
        r@.len() == 4,
        r@[0]@ == "extract"@,
        r@[1]@ == planet_source@,
        r@[2]@ == output_path@,
        r@[3]@ == "--bbox="@ + bbox@,
{
    let mut args: Vec<String> = Vec::new();
    args.push(String::from_str("extract"));
    args.push(String::from_str(planet_source));
    args.push(String::from_str(output_path));
    let mut bbox_arg = String::from_str("--bbox=");
    bbox_arg.append(bbox);
    args.push(bbox_arg);
    args
}

/// Judge one invocation: it succeeded only when the tool ran to a clean
/// exit and the archive exists afterwards; a missing archive after a clean
/// exit is an extraction failure naming the locality.
pub fn extraction_outcome(
    locality_id: u64,
    cmd_result: Result<CommandOutput, CmdError>,
    output_exists: bool,
) -> (r: Result<(), ExtractionError>)
    ensures
        r is Ok <==> (cmd_result is Ok && output_exists),
        cmd_result matches Err(e) ==> (r matches Err(ExtractionError::CmdError(e2)) && e2 == e),
        cmd_result is Ok && !output_exists ==> (r matches Err(ExtractionError::ExtractionFailed(m))
            && m@ == "Failed to create PMTiles file for locality "@ + crate::text::dec_rep(
            locality_id as nat,
        )),
{
    match cmd_result {
        Err(e) => Err(ExtractionError::CmdError(e)),
        Ok(_) => {
            if output_exists {
                Ok(())
            } else {
                let mut msg = String::from_str("Failed to create PMTiles file for locality ");
                msg.append(crate::text::u64_to_string(locality_id).as_str());
                Err(ExtractionError::ExtractionFailed(msg))
            }
        },
    }
}

/// How many of a batch of invocation outcomes failed.
pub open spec fn spec_failed_jobs(results: Seq<bool>) -> int
    decreases results.len(),
{
    if results.len() == 0 {
        0
    } else {
        spec_failed_jobs(results.drop_last()) + (if results.last() {
            0int
        } else {
            1int
        })
    }
}

/// Judge a region after all its invocations have been joined: it succeeds
/// only when every one of them succeeded; otherwise it is reported failed,
/// naming the region — while every archive the successful invocations
/// wrote remains on disk.
pub fn summarize_region(country_code: &str, results: &Vec<bool>) -> (r: Result<
    (),
    ExtractionError,
>)
    ensures
        r is Ok <==> spec_failed_jobs(results@) == 0,
        r matches Err(e) ==> (e matches ExtractionError::ExtractionFailed(m) && m@
            == "Some extraction tasks failed for country: "@ + country_code@),
{
    let n = results.len();
    let mut has_errors = false;
    let mut i: usize = 0;
    proof {
        assert(results@.take(0) =~= Seq::<bool>::empty());
    }
    while i < n
        invariant
            n == results@.len(),
            i <= n,
            has_errors == (spec_failed_jobs(results@.take(i as int)) != 0),
            spec_failed_jobs(results@.take(i as int)) >= 0,
        decreases n - i,
    {
        proof {
            assert(results@.take(i + 1).drop_last() =~= results@.take(i as int));
            assert(results@.take(i + 1).last() == results@[i as int]);
        }
        if !results[i] {
            has_errors = true;
        }
        i = i + 1;
    }
    proof {
        assert(results@.take(n as int) =~= results@);
    }
    if has_errors {
        let mut msg = String::from_str("Some extraction tasks failed for country: ");
        msg.append(country_code);
        Err(ExtractionError::ExtractionFailed(msg))
    } else {
        Ok(())
    }
}

/// Whether a file name is a locality archive's.
pub fn is_archive_name(name: &str) -> (r: bool)
    ensures
        r == (name@.len() > 8 && name@.subrange(name@.len() - 8, name@.len() as int)
            == ".pmtiles"@),
{
    proof {
        reveal_strlit(".pmtiles");
    }
    let len = name.unicode_len();
    if len <= 8 {
        return false;
    }
    let suffix = name.substring_char(len - 8, len);
    crate::text::str_eq(suffix, ".pmtiles")
}

/// How many of the names in a directory are locality archives.
pub open spec fn spec_archive_count(names: Seq<Seq<char>>) -> int
    decreases names.len(),
{
    if names.len() == 0 {
        0
    } else {
        spec_archive_count(names.drop_last()) + (if names.last().len() > 8 && names.last().subrange(
            names.last().len() - 8,
            names.last().len() as int,
        ) == ".pmtiles"@ {
            1int
        } else {
            0int
        })
    }
}

/// Count a region's archives among its directory entries' names.
pub fn get_pmtiles_file_count(names: &Vec<String>) -> (r: u32)
    requires
        names@.len() <= u32::MAX,
    ensures
        r == spec_archive_count(names.deep_view()),
{
    let ghost ns = names.deep_view();
    let n = names.len();
    let mut count: u32 = 0;
    let mut i: usize = 0;
    proof {
        assert(ns.take(0) =~~= Seq::<Seq<char>>::empty());
    }
    while i < n
        invariant
            n == ns.len() <= u32::MAX,
            i <= n,
            ns == names.deep_view(),
            count == spec_archive_count(ns.take(i as int)),
            count <= i,
        decreases n - i,
    {
        proof {
            assert(ns.take(i + 1).drop_last() =~~= ns.take(i as int));
            assert(ns.take(i + 1).last() == ns[i as int]);
            assert(names@[i as int]@ == ns[i as int]);
        }
        if is_archive_name(names[i].as_str()) {
            count = count + 1;
        }
        i = i + 1;
    }
    proof {
        assert(ns.take(n as int) =~~= ns);
    }
    count
}

} // verus!
