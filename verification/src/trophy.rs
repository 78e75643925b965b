//! Trophy hunting: the per-crate results of scanning crates from crates.io,
//! and the decisions made about them. Downloading and unpacking run around
//! these functions.

use crate::report::{Issue, Report};
use crate::text::{contains_seq, contains_str, push_decimal, to_chars, decimal};
use vstd::prelude::*;

verus! {

/// Result of scanning a single crate.
#[derive(Debug)]
pub struct TrophyEntry {
    pub crate_name: String,
    pub version: String,
    pub downloads: u64,
    pub description: String,
    pub errors: usize,
    pub warnings: usize,
    pub infos: usize,
    pub issues: Vec<Issue>,
    pub error: Option<String>,
}

/// The entry of a crate that was scanned, with the counts and findings of its report.
pub fn scanned_entry(
    crate_name: String,
    version: String,
    downloads: u64,
    description: String,
    report: Report,
) -> (e: TrophyEntry)
    ensures
        e.crate_name == crate_name,
        e.version == version,
        e.downloads == downloads,
        e.description == description,
        e.errors == report.stats.errors,
        e.warnings == report.stats.warnings,
        e.infos == report.stats.infos,
        e.issues == report.issues,
        e.error is None,
{
    TrophyEntry {
        crate_name,
        version,
        downloads,
        description,
        errors: report.stats.errors,
        warnings: report.stats.warnings,
        infos: report.stats.infos,
        issues: report.issues,
        error: None,
    }
}

/// The entry of a crate that has no FFI code, or that could not be scanned
/// (`error` says why): no counts, no findings.
pub fn empty_entry(
    crate_name: String,
    version: String,
    downloads: u64,
    description: String,
    error: Option<String>,
) -> (e: TrophyEntry)
    ensures
        e.crate_name == crate_name,
        e.version == version,
        e.downloads == downloads,
        e.description == description,
        e.errors == 0,
        e.warnings == 0,
        e.infos == 0,
        e.issues@.len() == 0,
        e.error == error,
{
    TrophyEntry {
        crate_name,
        version,
        downloads,
        description,
        errors: 0,
        warnings: 0,
        infos: 0,
        issues: Vec::new(),
        error,
    }
}

/// An entry is kept in the results: it has errors or warnings, or its scan failed.
pub open spec fn is_finding(e: TrophyEntry) -> bool {
    e.errors > 0 || e.warnings > 0 || e.error is Some
}

/// Whether the entry is kept in the results.
pub fn has_findings(e: &TrophyEntry) -> (r: bool)
    ensures
        r == is_finding(*e),
{
    e.errors > 0 || e.warnings > 0 || e.error.is_some()
}

/// The entries kept in the results of a hunt: those with findings, in order.
pub fn findings_only(entries: Vec<TrophyEntry>) -> (r: Vec<TrophyEntry>)
    ensures
        r@ == entries@.filter(|e: TrophyEntry| is_finding(e)),
{
    let ghost pred = |e: TrophyEntry| is_finding(e);
    let mut rest = entries;
    let mut out: Vec<TrophyEntry> = Vec::new();
    assert(rest@ == entries@);
    assert(out@ + rest@.filter(pred) =~= entries@.filter(pred));
    while rest.len() > 0
        invariant
            forall|x: TrophyEntry| #[trigger] pred(x) == is_finding(x),
            out@ + rest@.filter(pred) == entries@.filter(pred),
        decreases rest.len(),
    {
        let ghost before = rest@;
        let e = rest.remove(0);
        proof {
            assert(before =~= seq![e] + rest@);
            Seq::filter_distributes_over_add(seq![e], rest@, pred);
            reveal(Seq::filter);
            let single = seq![e];
            assert(single.drop_last() =~= Seq::<TrophyEntry>::empty());
            assert(Seq::<TrophyEntry>::empty().filter(pred) =~= Seq::<TrophyEntry>::empty());
            assert(single.last() == e);
            assert(pred(e) == is_finding(e));
            assert(single.filter(pred) =~= if is_finding(e) {
                seq![e]
            } else {
                Seq::<TrophyEntry>::empty()
            });
        }
        let ghost out_before = out@;
        if has_findings(&e) {
            out.push(e);
            assert(out@ + rest@.filter(pred) =~= out_before + (seq![e].filter(pred) + rest@.filter(pred)));
        } else {
            assert(out@ + rest@.filter(pred) =~= out_before + (seq![e].filter(pred) + rest@.filter(pred)));
        }
    }
    assert(rest@ =~= Seq::<TrophyEntry>::empty());
    reveal(Seq::filter);
    assert(out@ =~= out@ + rest@.filter(pred));
    out
}

/// A source text has FFI code: it mentions `extern "C"` or `extern "C++"`.
pub open spec fn has_ffi_text(content: Seq<char>) -> bool {
    contains_seq(content, "extern \"C\""@) || contains_seq(content, "extern \"C++\""@)
}

/// Whether a source text has FFI code.
pub fn mentions_ffi(content: &str) -> (r: bool)
    ensures
        r == has_ffi_text(content@),
{
    let chars = to_chars(content);
    contains_str(&chars, "extern \"C\"") || contains_str(&chars, "extern \"C++\"")
}

/// The crates.io search for the `count` most downloaded crates matching `keyword`.
pub open spec fn search_url_of(count: usize, keyword: Seq<char>) -> Seq<char> {
    "https://crates.io/api/v1/crates?page=1&per_page="@ + decimal(count as nat) + "&q="@ + keyword
        + "&sort=downloads"@
}

/// The crates.io search URL for the `count` most downloaded crates matching `keyword`.
pub fn search_url(count: usize, keyword: &str) -> (r: String)
    ensures
        r@ == search_url_of(count, keyword@),
{
    let mut url = String::new();
    url.append("https://crates.io/api/v1/crates?page=1&per_page=");
    push_decimal(&mut url, count);
    url.append("&q=");
    url.append(keyword);
    url.append("&sort=downloads");
    url
}

/// The crates.io download of version `version` of crate `name`.
pub open spec fn download_url_of(name: Seq<char>, version: Seq<char>) -> Seq<char> {
    "https://crates.io/api/v1/crates/"@ + name + "/"@ + version + "/download"@
}

/// The crates.io download URL of version `version` of crate `name`.
pub fn download_url(name: &str, version: &str) -> (r: String)
    ensures
        r@ == download_url_of(name@, version@),
{
    let mut url = String::new();
    url.append("https://crates.io/api/v1/crates/");
    url.append(name);
    url.append("/");
    url.append(version);
    url.append("/download");
    url
}

/// The directory name under which version `version` of crate `name` is unpacked.
pub fn crate_dir_name(name: &str, version: &str) -> (r: String)
    ensures
        r@ == name@ + "-"@ + version@,
{
    let mut dir = String::new();
    dir.append(name);
    dir.append("-");
    dir.append(version);
    dir
}

} // verus!
