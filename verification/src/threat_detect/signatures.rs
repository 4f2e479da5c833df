//! Signature scanning: a fixed set of byte patterns — web-shell markers,
//! executable and document magic — matched over the raw file bytes by a
//! regular-expression engine.

use crate::threat_detect::ThreatMatch;
use vstd::prelude::*;

verus! {

/// The non-overlapping, leftmost-first matches of a pattern in a byte
/// haystack: each an offset and the matched bytes. Deterministic in
/// pattern and haystack; which pairs the sequence holds is established
/// only by the engine itself.
pub uninterp spec fn spec_regex_matches(pattern: Seq<char>, data: Seq<u8>) -> Seq<
    (int, Seq<u8>),
>;

/// Relies on `regex::bytes::Regex::find_iter`: the non-overlapping
/// matches of the compiled pattern over the haystack, leftmost first,
/// each reported with its start offset and its bytes. A pattern that does
/// not compile yields no matches; every fixed pattern used here compiles.
#[verifier::external_body]
fn regex_find_all(pattern: &str, data: &[u8]) -> (r: Vec<(usize, Vec<u8>)>)
    ensures
        r@.len() == spec_regex_matches(pattern@, data@).len(),
        forall|k: int|
            0 <= k < r@.len() ==> r@[k].0 as int == spec_regex_matches(pattern@, data@)[k].0
                && r@[k].1@ == spec_regex_matches(pattern@, data@)[k].1,
{
    match regex::bytes::Regex::new(pattern) {
        Ok(re) => re.find_iter(data).map(|m| (m.start(), m.as_bytes().to_vec())).collect(),
        Err(_) => Vec::new(),
    }
}

/// The reported snippet of a match: its first bytes, at most sixteen.
pub open spec fn spec_snippet(bytes: Seq<u8>) -> Seq<u8> {
    if bytes.len() <= 16 {
        bytes
    } else {
        bytes.take(16)
    }
}

/// Append one pattern's matches to the findings, each described by the
/// same text and truncated to a sixteen-byte snippet.
fn append_matches(found: &mut Vec<ThreatMatch>, matches: &Vec<(usize, Vec<u8>)>, description: &str)
    ensures
        final(found)@.len() == old(found)@.len() + matches@.len(),
        (forall|k: int| 0 <= k < old(found)@.len() ==> old(found)@[k].name@ == "Signature"@)
            ==> forall|k: int|
                0 <= k < final(found)@.len() ==> final(found)@[k].name@ == "Signature"@,
        forall|k: int| 0 <= k < old(found)@.len() ==> final(found)@[k] == old(found)@[k],
        forall|k: int|
            #![trigger matches@[k]]
            0 <= k < matches@.len() ==> {
                let m = final(found)@[old(found)@.len() + k];
                &&& m.offset == matches@[k].0
                &&& m.name@ == "Signature"@
                &&& m.description@ == description@
                &&& m.snippet@ == spec_snippet(matches@[k].1@)
            },
{
    let ghost base = found@;
    let mut idx: usize = 0;
    while idx < matches.len()
        invariant
            idx <= matches@.len(),
            found@.len() == base.len() + idx,
            forall|k: int| 0 <= k < base.len() ==> found@[k] == base[k],
            (forall|k: int| 0 <= k < base.len() ==> base[k].name@ == "Signature"@) ==> forall|
                k: int,
            | 0 <= k < found@.len() ==> found@[k].name@ == "Signature"@,
            forall|k: int|
                #![trigger matches@[k]]
                0 <= k < idx ==> {
                    let m = found@[base.len() + k];
                    &&& m.offset == matches@[k].0
                    &&& m.name@ == "Signature"@
                    &&& m.description@ == description@
                    &&& m.snippet@ == spec_snippet(matches@[k].1@)
                },
        decreases matches@.len() - idx,
    {
        let offset: usize = matches[idx].0;
        let bytes: &Vec<u8> = &matches[idx].1;
        let take_n: usize = if bytes.len() <= 16 {
            bytes.len()
        } else {
            16
        };
        let mut snippet: Vec<u8> = Vec::new();
        let mut b: usize = 0;
        while b < take_n
            invariant
                b <= take_n,
                take_n <= bytes@.len(),
                snippet@ == bytes@.take(b as int),
            decreases take_n - b,
        {
            snippet.push(bytes[b]);
            proof {
                assert(bytes@.take(b + 1) =~= bytes@.take(b as int).push(bytes@[b as int]));
            }
            b = b + 1;
        }
        proof {
            assert(snippet@ =~= spec_snippet(bytes@));
        }
        found.push(
            ThreatMatch {
                name: "Signature".to_owned(),
                description: description.to_owned(),
                offset,
                snippet,
            },
        );
        idx = idx + 1;
    }
}

/// Scan a buffer against the fixed signature set: web-shell markers, ELF
/// binaries, PDF documents and PHP open tags. The findings are the
/// matches of the four patterns, in that order, each with its offset, a
/// fixed description, and the first bytes of the match.
pub fn scan(data: &[u8]) -> (r: Vec<ThreatMatch>)
    ensures
        ({
            let m1 = spec_regex_matches(spec_web_shell_pattern(), data@);
            let m2 = spec_regex_matches("\\x7FELF"@, data@);
            let m3 = spec_regex_matches("%PDF-"@, data@);
            let m4 = spec_regex_matches("<\\?php"@, data@);
            &&& r@.len() == m1.len() + m2.len() + m3.len() + m4.len()
            &&& forall|k: int|
                #![trigger m1[k]]
                0 <= k < m1.len() ==> r@[k].offset == m1[k].0 && r@[k].description@
                    == "Web Shell detected"@ && r@[k].snippet@ == spec_snippet(m1[k].1)
            &&& forall|k: int|
                #![trigger m2[k]]
                0 <= k < m2.len() ==> r@[m1.len() + k].offset == m2[k].0 && r@[m1.len()
                    + k].description@ == "ELF Binary detected"@ && r@[m1.len() + k].snippet@
                    == spec_snippet(m2[k].1)
            &&& forall|k: int|
                #![trigger m3[k]]
                0 <= k < m3.len() ==> r@[m1.len() + m2.len() + k].offset == m3[k].0 && r@[m1.len()
                    + m2.len() + k].description@ == "PDF Document detected"@ && r@[m1.len()
                    + m2.len() + k].snippet@ == spec_snippet(m3[k].1)
            &&& forall|k: int|
                #![trigger m4[k]]
                0 <= k < m4.len() ==> r@[m1.len() + m2.len() + m3.len() + k].offset == m4[k].0
                    && r@[m1.len() + m2.len() + m3.len() + k].description@
                    == "PHP Open Tag detected"@ && r@[m1.len() + m2.len() + m3.len() + k].snippet@
                    == spec_snippet(m4[k].1)
            &&& forall|k: int| 0 <= k < r@.len() ==> r@[k].name@ == "Signature"@
        }),
{
    let mut found: Vec<ThreatMatch> = Vec::new();
    let m1 = regex_find_all(
        "(?i)(<script>|eval\\(|base64_decode|javascript:|vbscript:|powershell|cmd\\.exe)",
        data,
    );
    append_matches(&mut found, &m1, "Web Shell detected");
    let ghost f1 = found@;
    let m2 = regex_find_all("\\x7FELF", data);
    append_matches(&mut found, &m2, "ELF Binary detected");
    let ghost f2 = found@;
    let m3 = regex_find_all("%PDF-", data);
    append_matches(&mut found, &m3, "PDF Document detected");
    let ghost f3 = found@;
    let m4 = regex_find_all("<\\?php", data);
    append_matches(&mut found, &m4, "PHP Open Tag detected");
    proof {
        assert forall|k: int| 0 <= k < f1.len() implies found@[k] == f1[k] by {
            assert(f2[k] == f1[k]);
            assert(f3[k] == f2[k]);
        }
        assert forall|k: int| 0 <= k < f2.len() implies found@[k] == f2[k] by {
            assert(f3[k] == f2[k]);
        }
        let s1 = spec_regex_matches(spec_web_shell_pattern(), data@);
        assert forall|k: int| #![trigger s1[k]] 0 <= k < s1.len() implies found@[k].offset
            == s1[k].0 && found@[k].description@ == "Web Shell detected"@ && found@[k].snippet@
            == spec_snippet(s1[k].1) && found@[k].name@ == "Signature"@ by {
            assert(found@[k] == f1[k]);
            assert(m1@[k].0 as int == s1[k].0 && m1@[k].1@ == s1[k].1);
        }
        let s2 = spec_regex_matches("\\x7FELF"@, data@);
        assert forall|k: int| #![trigger s2[k]] 0 <= k < s2.len() implies found@[f1.len() + k].offset
            == s2[k].0 && found@[f1.len() + k].description@ == "ELF Binary detected"@ && found@[f1.len()
            + k].snippet@ == spec_snippet(s2[k].1) && found@[f1.len() + k].name@ == "Signature"@ by {
            assert(found@[f1.len() + k] == f2[f1.len() + k]);
            assert(m2@[k].0 as int == s2[k].0 && m2@[k].1@ == s2[k].1);
        }
        let s3 = spec_regex_matches("%PDF-"@, data@);
        assert forall|k: int| #![trigger s3[k]] 0 <= k < s3.len() implies found@[f2.len() + k].offset
            == s3[k].0 && found@[f2.len() + k].description@ == "PDF Document detected"@ && found@[f2.len()
            + k].snippet@ == spec_snippet(s3[k].1) && found@[f2.len() + k].name@ == "Signature"@ by {
            assert(found@[f2.len() + k] == f3[f2.len() + k]);
            assert(m3@[k].0 as int == s3[k].0 && m3@[k].1@ == s3[k].1);
        }
        let s4 = spec_regex_matches("<\\?php"@, data@);
        assert forall|k: int| #![trigger s4[k]] 0 <= k < s4.len() implies found@[f3.len() + k].offset
            == s4[k].0 && found@[f3.len() + k].description@ == "PHP Open Tag detected"@ && found@[f3.len()
            + k].snippet@ == spec_snippet(s4[k].1) && found@[f3.len() + k].name@ == "Signature"@ by {
            assert(m4@[k].0 as int == s4[k].0 && m4@[k].1@ == s4[k].1);
        }
    }
    found
}

/// The web-shell pattern, as handed to the engine.
pub open spec fn spec_web_shell_pattern() -> Seq<char> {
    "(?i)(<script>|eval\\(|base64_decode|javascript:|vbscript:|powershell|cmd\\.exe)"@
}

} // verus!
