//! Decoding vendor maker notes: the EXIF container is parsed by an
//! outside reader, and its fields are handed on as plain tag records.

use vstd::prelude::*;

verus! {

/// One decoded tag: its numeric id, its name, and its rendered value.
#[derive(Debug, Clone)]
pub struct TagValue {
    /// The EXIF tag number.
    pub id: u16,
    /// The tag's name.
    pub name: String,
    /// The tag's value, rendered with its unit.
    pub value: String,
}

/// Decodes maker notes out of raw EXIF bytes.
pub struct MakerNoteDecoder;

/// The fields an EXIF container parses to: tag number, tag name, and
/// rendered value, in reader order; an unparseable buffer parses to
/// nothing. Deterministic in the bytes alone.
pub uninterp spec fn spec_exif_fields(data: Seq<u8>) -> Seq<(u16, Seq<char>, Seq<char>)>;

/// Relies on `exif::Reader::read_from_container` (kamadak-exif): the
/// fields of the EXIF data in the buffer, each with `Tag::number`, the
/// tag's display name, and `Field::display_value` with its unit; a buffer
/// that does not parse yields no fields.
#[verifier::external_body]
fn exif_parse_fields(data: &[u8]) -> (r: Vec<(u16, String, String)>)
    ensures
        r@.len() == spec_exif_fields(data@).len(),
        forall|k: int|
            0 <= k < r@.len() ==> r@[k].0 == spec_exif_fields(data@)[k].0 && r@[k].1@
                == spec_exif_fields(data@)[k].1 && r@[k].2@ == spec_exif_fields(data@)[k].2,
{
    let reader = exif::Reader::new();
    let mut tags: Vec<(u16, String, String)> = Vec::new();
    if let Ok(parsed) = reader.read_from_container(&mut std::io::Cursor::new(data)) {
        for field in parsed.fields() {
            let rendered = field.display_value().with_unit(&parsed).to_string();
            tags.push((field.tag.number(), field.tag.to_string(), rendered));
        }
    }
    tags
}

impl MakerNoteDecoder {
    /// A decoder; it keeps no state.
    pub fn new() -> (r: MakerNoteDecoder)
        ensures
            r == MakerNoteDecoder,
    {
        MakerNoteDecoder
    }

    /// Decode the EXIF fields in a maker-note buffer: `None` when the
    /// buffer holds no parseable fields, otherwise every field as a tag
    /// record in reader order. The vendor hint is accepted for interface
    /// compatibility and does not affect parsing.
    pub fn decode(&self, _vendor_hint: &str, data: &[u8]) -> (r: Option<Vec<TagValue>>)
        ensures
            r is Some <==> spec_exif_fields(data@).len() > 0,
            r is Some ==> {
                let fields = spec_exif_fields(data@);
                &&& r->0@.len() == fields.len()
                &&& forall|k: int|
                    #![trigger fields[k]]
                    0 <= k < fields.len() ==> r->0@[k].id == fields[k].0 && r->0@[k].name@
                        == fields[k].1 && r->0@[k].value@ == fields[k].2
            },
    {
        let raw = exif_parse_fields(data);
        if raw.len() == 0 {
            return None;
        }
        let mut tags: Vec<TagValue> = Vec::new();
        let mut i: usize = 0;
        while i < raw.len()
            invariant
                i <= raw@.len(),
                tags@.len() == i,
                raw@.len() == spec_exif_fields(data@).len(),
                forall|k: int|
                    0 <= k < raw@.len() ==> raw@[k].0 == spec_exif_fields(data@)[k].0 && raw@[k].1@
                        == spec_exif_fields(data@)[k].1 && raw@[k].2@ == spec_exif_fields(
                        data@,
                    )[k].2,
                forall|k: int|
                    #![trigger tags@[k]]
                    0 <= k < i ==> tags@[k].id == spec_exif_fields(data@)[k].0 && tags@[k].name@
                        == spec_exif_fields(data@)[k].1 && tags@[k].value@ == spec_exif_fields(
                        data@,
                    )[k].2,
            decreases raw@.len() - i,
        {
            let id: u16 = raw[i].0;
            let name: String = raw[i].1.clone();
            let value: String = raw[i].2.clone();
            tags.push(TagValue { id, name, value });
            i = i + 1;
        }
        Some(tags)
    }
}

} // verus!
