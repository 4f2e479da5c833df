//! Detection of polyglot files: a ZIP local-file header embedded anywhere
//! past the start of another container marks a file that is two formats
//! at once.

use crate::threat_detect::ThreatMatch;
use vstd::prelude::*;

verus! {

/// A ZIP local-file header (`PK\x03\x04`) starts at offset `i`, and `i`
/// is past the beginning — a header at offset zero is just a ZIP file,
/// not an embedded one.
pub open spec fn spec_is_zip_site(d: Seq<u8>, i: int) -> bool {
    1 <= i && i + 4 <= d.len() && d[i] == 0x50 && d[i + 1] == 0x4B && d[i + 2] == 0x03 && d[i
        + 3] == 0x04
}

/// The embedded ZIP header offsets below `n`, in increasing order.
pub open spec fn spec_zip_sites(d: Seq<u8>, n: int) -> Seq<int>
    decreases n,
{
    if n <= 1 {
        Seq::empty()
    } else if spec_is_zip_site(d, n - 1) {
        spec_zip_sites(d, n - 1).push(n - 1)
    } else {
        spec_zip_sites(d, n - 1)
    }
}

/// Scan a buffer for embedded ZIP local-file headers and report each as a
/// polyglot finding, in offset order.
pub fn scan(data: &[u8]) -> (r: Vec<ThreatMatch>)
    ensures
        r@.len() == spec_zip_sites(data@, data@.len() as int).len(),
        forall|k: int|
            #![trigger r@[k]]
            0 <= k < r@.len() ==> {
                let sites = spec_zip_sites(data@, data@.len() as int);
                &&& r@[k].offset == sites[k]
                &&& r@[k].name@ == "Polyglot"@
                &&& r@[k].description@ == "ZIP Archive Header (PK) found embedded"@
                &&& r@[k].snippet@ == data@.subrange(sites[k], sites[k] + 4)
            },
{
    let mut matches: Vec<ThreatMatch> = Vec::new();
    if data.len() < 5 {
        proof {
            lemma_no_sites(data@, data@.len() as int);
        }
        return matches;
    }
    let mut i: usize = 1;
    let last: usize = data.len() - 4;
    while i <= last
        invariant
            1 <= i,
            last == data@.len() - 4,
            data@.len() <= usize::MAX,
            i <= last + 1,
            data@.len() >= 5,
            matches@.len() == spec_zip_sites(data@, i as int).len(),
            forall|k: int|
                #![trigger matches@[k]]
                0 <= k < matches@.len() ==> {
                    let sites = spec_zip_sites(data@, i as int);
                    &&& matches@[k].offset == sites[k]
                    &&& matches@[k].name@ == "Polyglot"@
                    &&& matches@[k].description@ == "ZIP Archive Header (PK) found embedded"@
                    &&& matches@[k].snippet@ == data@.subrange(sites[k], sites[k] + 4)
                },
        decreases data@.len() - i,
    {
        let b0 = *vstd::slice::slice_index_get(data, i);
        let b1 = *vstd::slice::slice_index_get(data, i + 1);
        let b2 = *vstd::slice::slice_index_get(data, i + 2);
        let b3 = *vstd::slice::slice_index_get(data, i + 3);
        if b0 == 0x50 && b1 == 0x4B && b2 == 0x03 && b3 == 0x04 {
            let mut snippet: Vec<u8> = Vec::new();
            snippet.push(b0);
            snippet.push(b1);
            snippet.push(b2);
            snippet.push(b3);
            proof {
                assert(snippet@ =~= data@.subrange(i as int, i + 4));
            }
            matches.push(
                ThreatMatch {
                    name: "Polyglot".to_owned(),
                    description: "ZIP Archive Header (PK) found embedded".to_owned(),
                    offset: i,
                    snippet,
                },
            );
        }
        i = i + 1;
    }
    proof {
        lemma_sites_frozen(data@, i as int, data@.len() as int);
    }
    matches
}

/// A buffer shorter than five bytes has no room for an embedded header.
proof fn lemma_no_sites(d: Seq<u8>, n: int)
    requires
        d.len() < 5,
        n <= d.len(),
    ensures
        spec_zip_sites(d, n).len() == 0,
    decreases n,
{
    if n > 1 {
        lemma_no_sites(d, n - 1);
    }
}

/// Past the last full window, no further sites appear.
proof fn lemma_sites_frozen(d: Seq<u8>, n1: int, n2: int)
    requires
        n1 <= n2,
        n1 + 4 > d.len(),
    ensures
        spec_zip_sites(d, n2) == spec_zip_sites(d, n1),
    decreases n2 - n1,
{
    if n1 < n2 {
        lemma_sites_frozen(d, n1, n2 - 1);
    }
}

/// The buffer starts with the JPEG start-of-image marker.
pub fn is_jpeg(data: &[u8]) -> (r: bool)
    ensures
        r == (data@.len() > 2 && data@[0] == 0xFF && data@[1] == 0xD8),
{
    data.len() > 2 && *vstd::slice::slice_index_get(data, 0) == 0xFF && *vstd::slice::slice_index_get(
        data,
        1,
    ) == 0xD8
}

} // verus!
