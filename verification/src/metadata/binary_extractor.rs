//! Carving embedded sub-files — thumbnails, previews, ICC profiles,
//! embedded audio — out of a container by their start and end markers.

use vstd::prelude::*;

verus! {

/// The kinds of sub-file the extractor knows how to locate.
#[derive(Debug, Clone, Copy)]
pub enum SubFileType {
    /// An embedded JPEG thumbnail.
    Thumbnail,
    /// An embedded JPEG preview image.
    PreviewImage,
    /// An ICC color profile.
    IccProfile,
    /// Embedded RIFF/WAVE audio.
    EmbeddedAudio,
}

/// Locates embedded sub-files between known byte markers.
pub struct BinaryExtractor;

/// The marker `m` occurs in `d` at offset `i`.
pub open spec fn spec_matches_at(d: Seq<u8>, m: Seq<u8>, i: int) -> bool {
    0 <= i && i + m.len() <= d.len() && d.subrange(i, i + m.len()) == m
}

/// The marker `m` occurs at `i` and nowhere earlier.
pub open spec fn spec_first_match(d: Seq<u8>, m: Seq<u8>, i: int) -> bool {
    spec_matches_at(d, m, i) && forall|j: int| 0 <= j < i ==> !spec_matches_at(d, m, j)
}

/// Find the first occurrence of a marker.
fn find_first(data: &[u8], m: &[u8]) -> (r: Option<usize>)
    requires
        m@.len() >= 1,
    ensures
        r is Some ==> spec_first_match(data@, m@, r->0 as int),
        r is None ==> forall|i: int| !spec_matches_at(data@, m@, i),
{
    let n: usize = data.len();
    let mlen: usize = m.len();
    if n < mlen {
        return None;
    }
    let mut i: usize = 0;
    while i <= n - mlen
        invariant
            n == data@.len(),
            mlen == m@.len(),
            mlen >= 1,
            mlen <= n,
            i <= n - mlen + 1,
            forall|j: int| 0 <= j < i ==> !spec_matches_at(data@, m@, j),
        decreases n - i,
    {
        let mut k: usize = 0;
        let mut matched: bool = true;
        while k < mlen
            invariant
                k <= mlen,
                i + mlen <= n,
                n == data@.len(),
                mlen == m@.len(),
                matched == (forall|j: int| 0 <= j < k ==> data@[i + j] == m@[j]),
            decreases mlen - k,
        {
            if *vstd::slice::slice_index_get(data, i + k) != *vstd::slice::slice_index_get(m, k) {
                matched = false;
                proof {
                    assert(!(forall|j: int| 0 <= j < k + 1 ==> data@[i + j] == m@[j]));
                }
            }
            k = k + 1;
        }
        if matched {
            proof {
                assert(data@.subrange(i as int, i + m@.len()) =~= m@);
            }
            return Some(i);
        }
        proof {
            assert(!spec_matches_at(data@, m@, i as int)) by {
                if spec_matches_at(data@, m@, i as int) {
                    assert(forall|j: int|
                        0 <= j < mlen ==> data@.subrange(i as int, i + m@.len())[j] == m@[j]);
                    assert(forall|j: int| 0 <= j < mlen ==> data@[i + j] == m@[j]);
                }
            }
        }
        i = i + 1;
    }
    proof {
        assert forall|j: int| !spec_matches_at(data@, m@, j) by {
            if spec_matches_at(data@, m@, j) {
                assert(0 <= j <= n - mlen);
            }
        }
    }
    None
}

impl BinaryExtractor {
    /// Extract the bytes from the first start marker through the first end
    /// marker that follows it, both markers included.
    pub fn find_marker_range(data: &[u8], start_marker: &[u8], end_marker: &[u8]) -> (r: Option<
        Vec<u8>,
    >)
        requires
            start_marker@.len() >= 1,
            end_marker@.len() >= 1,
        ensures
            r is Some ==> exists|s: int, e: int|
                #![trigger spec_first_match(data@.skip(s), end_marker@, e)]
                {
                    &&& spec_first_match(data@, start_marker@, s)
                    &&& spec_first_match(data@.skip(s), end_marker@, e)
                    &&& r->0@ == data@.skip(s).take(e + end_marker@.len())
                },
            r is None ==> (forall|i: int| !spec_matches_at(data@, start_marker@, i)) || exists|
                s: int,
            |
                #[trigger] spec_first_match(data@, start_marker@, s) && (forall|j: int|
                    !spec_matches_at(data@.skip(s), end_marker@, j)),
    {
        let start: usize = match find_first(data, start_marker) {
            Some(s) => s,
            None => {
                return None;
            },
        };
        let rest: &[u8] = vstd::slice::slice_subrange(data, start, data.len());
        proof {
            assert(rest@ =~= data@.skip(start as int));
        }
        let end: usize = match find_first(rest, end_marker) {
            Some(e) => e,
            None => {
                return None;
            },
        };
        let length: usize = end + end_marker.len();
        let out_slice: &[u8] = vstd::slice::slice_subrange(rest, 0, length);
        proof {
            assert(out_slice@ =~= data@.skip(start as int).take(length as int));
        }
        Some(vstd::slice::slice_to_vec(out_slice))
    }

    /// The start and end markers a sub-file kind is located between.
    pub open spec fn spec_markers(target: SubFileType) -> (Seq<u8>, Seq<u8>) {
        match target {
            SubFileType::Thumbnail => (seq![0xFFu8, 0xD8u8], seq![0xFFu8, 0xD9u8]),
            SubFileType::PreviewImage => (seq![0xFFu8, 0xD8u8], seq![0xFFu8, 0xD9u8]),
            SubFileType::IccProfile => (
                seq![0x61u8, 0x63u8, 0x73u8, 0x70u8],
                seq![0x00u8, 0x00u8, 0x00u8],
            ),
            SubFileType::EmbeddedAudio => (
                seq![0x52u8, 0x49u8, 0x46u8, 0x46u8],
                seq![0x57u8, 0x41u8, 0x56u8, 0x45u8],
            ),
        }
    }

    /// Carve the requested sub-file kind out of a buffer, using the
    /// marker pair that identifies it.
    pub fn carve(data: &[u8], target: SubFileType) -> (r: Option<Vec<u8>>)
        ensures
            r is Some ==> exists|s: int, e: int|
                #![trigger spec_first_match(data@.skip(s), BinaryExtractor::spec_markers(target).1, e)]
                {
                    let markers = BinaryExtractor::spec_markers(target);
                    &&& spec_first_match(data@, markers.0, s)
                    &&& spec_first_match(data@.skip(s), markers.1, e)
                    &&& r->0@ == data@.skip(s).take(e + markers.1.len())
                },
    {
        let mut sm: Vec<u8> = Vec::new();
        let mut em: Vec<u8> = Vec::new();
        match target {
            SubFileType::Thumbnail => {
                sm.push(0xFF);
                sm.push(0xD8);
                em.push(0xFF);
                em.push(0xD9);
            },
            SubFileType::PreviewImage => {
                sm.push(0xFF);
                sm.push(0xD8);
                em.push(0xFF);
                em.push(0xD9);
            },
            SubFileType::IccProfile => {
                sm.push(0x61);
                sm.push(0x63);
                sm.push(0x73);
                sm.push(0x70);
                em.push(0x00);
                em.push(0x00);
                em.push(0x00);
            },
            SubFileType::EmbeddedAudio => {
                sm.push(0x52);
                sm.push(0x49);
                sm.push(0x46);
                sm.push(0x46);
                em.push(0x57);
                em.push(0x41);
                em.push(0x56);
                em.push(0x45);
            },
        }
        proof {
            assert(sm@ =~= BinaryExtractor::spec_markers(target).0);
            assert(em@ =~= BinaryExtractor::spec_markers(target).1);
        }
        BinaryExtractor::find_marker_range(data, sm.as_slice(), em.as_slice())
    }
}

} // verus!
