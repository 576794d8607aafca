//! Localities and their archives on disk.
//!
//! A locality comes from the read-only geographic index: a named, bounded
//! area with a unique id. The index stores its centroid and bounding box;
//! this crate carries those coordinates as the decimal text the callers
//! hand over, since only their text ever matters here (they are pasted
//! into the extractor's bounding-box argument and into listings).

use crate::text::{dec_rep, u64_to_string};
use vstd::prelude::*;

verus! {

/// One locality of the geographic index.
#[derive(Debug, Clone)]
pub struct Locality {
    pub id: u64,
    pub name: String,
    pub country: String,
    pub placetype: String,
    pub latitude: String,
    pub longitude: String,
    pub min_longitude: String,
    pub min_latitude: String,
    pub max_longitude: String,
    pub max_latitude: String,
}

/// A listing row for one locality: the index's record plus the size of its
/// archive on disk (zero when absent).
#[derive(Debug, Clone)]
pub struct LocalityInfo {
    pub id: u64,
    pub name: String,
    pub country: String,
    pub placetype: String,
    pub latitude: String,
    pub longitude: String,
    pub min_longitude: String,
    pub min_latitude: String,
    pub max_longitude: String,
    pub max_latitude: String,
    pub file_size: u64,
    pub onion_link: Option<String>,
}

/// The name of a locality's archive file: its id and the archive suffix.
pub open spec fn spec_archive_filename(id: u64) -> Seq<char> {
    dec_rep(id as nat) + ".pmtiles"@
}

pub fn archive_filename(id: u64) -> (r: String)
    ensures
        r@ == spec_archive_filename(id),
{
    let mut r = u64_to_string(id);
    r.append(".pmtiles");
    r
}

/// Where a locality's archive lies under the assets directory:
/// `<assets>/localities/<country>/<id>.pmtiles`. The id arrives as text,
/// as a request path carries it.
pub open spec fn spec_archive_path(
    assets_dir: Seq<char>,
    country_code: Seq<char>,
    id: Seq<char>,
) -> Seq<char> {
    assets_dir + "/localities/"@ + country_code + "/"@ + id + ".pmtiles"@
}

pub fn archive_path(assets_dir: &str, country_code: &str, id: &str) -> (r: String)
    ensures
        r@ == spec_archive_path(assets_dir@, country_code@, id@),
{
    let mut r = String::from_str(assets_dir);
    r.append("/localities/");
    r.append(country_code);
    r.append("/");
    r.append(id);
    r.append(".pmtiles");
    r
}

/// The upload pipeline's fixed location for a locality's archive, relative
/// to the working directory.
pub fn get_locality_file_path(country_code: &str, locality_id: u32) -> (r: String)
    ensures
        r@ == spec_archive_path("assets"@, country_code@, dec_rep(locality_id as nat)),
{
    let id = u64_to_string(locality_id as u64);
    archive_path("assets", country_code, id.as_str())
}

} // verus!
