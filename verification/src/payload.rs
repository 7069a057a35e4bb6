//! Vector-store point construction.
//!
//! A point is a stable integer id, the embedding vector, and an attribute
//! payload of string/integer/double values. The payload is modelled as a
//! map from key to value; inserting an existing key overwrites it.

use crate::datetime::spec_api_datetime;
use crate::models::CctvImageData;
use vstd::prelude::*;

verus! {

/// One attribute value of a point.
pub enum AttrValue {
    Str(String),
    Int(i64),
    /// A double attribute, carried as the bit pattern of the 64-bit
    /// floating-point value.
    Double(u64),
}

/// An attribute value at the specification level: strings by their
/// character sequences.
pub enum SpecAttr {
    Str(Seq<char>),
    Int(i64),
    Double(u64),
}

/// The specification-level value of an attribute.
pub open spec fn attr_view(a: AttrValue) -> SpecAttr {
    match a {
        AttrValue::Str(s) => SpecAttr::Str(s@),
        AttrValue::Int(i) => SpecAttr::Int(i),
        AttrValue::Double(b) => SpecAttr::Double(b),
    }
}

/// The map an ordered list of payload entries denotes: a later entry for
/// the same key overwrites an earlier one.
pub open spec fn spec_payload_map(entries: Seq<(String, AttrValue)>) -> Map<Seq<char>, SpecAttr>
    decreases entries.len(),
{
    if entries.len() == 0 {
        Map::empty()
    } else {
        spec_payload_map(entries.drop_last()).insert(
            entries.last().0@,
            attr_view(entries.last().1),
        )
    }
}

/// Builds a point payload with a fluent interface; entries are kept in
/// insertion order and denote the map of [`spec_payload_map`].
pub struct PayloadBuilder {
    pub entries: Vec<(String, AttrValue)>,
}

impl PayloadBuilder {
    /// The map the payload built so far denotes.
    pub open spec fn view(&self) -> Map<Seq<char>, SpecAttr> {
        spec_payload_map(self.entries@)
    }

    /// An empty payload.
    pub fn new() -> (r: Self)
        ensures
            r@ == Map::<Seq<char>, SpecAttr>::empty(),
            r.entries@.len() == 0,
    {
        PayloadBuilder { entries: Vec::new() }
    }

    /// Adds a string value under `key`.
    pub fn string(self, key: &str, value: &str) -> (r: Self)
        ensures
            r@ == self@.insert(key@, SpecAttr::Str(value@)),
    {
        let ghost prior = self.entries@;
        let mut entries = self.entries;
        entries.push((key.to_owned(), AttrValue::Str(value.to_owned())));
        proof {
            assert(entries@.drop_last() =~= prior);
        }
        PayloadBuilder { entries }
    }

    /// Adds a string value under `key` when one is present.
    pub fn string_opt(self, key: &str, value: Option<&str>) -> (r: Self)
        ensures
            match value {
                Some(v) => r@ == self@.insert(key@, SpecAttr::Str(v@)),
                None => r@ == self@ && r.entries@ == self.entries@,
            },
    {
        match value {
            Some(v) => self.string(key, v),
            None => self,
        }
    }

    /// Adds an integer value under `key`.
    pub fn integer(self, key: &str, value: i64) -> (r: Self)
        ensures
            r@ == self@.insert(key@, SpecAttr::Int(value)),
    {
        let ghost prior = self.entries@;
        let mut entries = self.entries;
        entries.push((key.to_owned(), AttrValue::Int(value)));
        proof {
            assert(entries@.drop_last() =~= prior);
        }
        PayloadBuilder { entries }
    }

    /// Adds an integer value under `key` when one is present.
    pub fn integer_opt(self, key: &str, value: Option<i64>) -> (r: Self)
        ensures
            match value {
                Some(v) => r@ == self@.insert(key@, SpecAttr::Int(v)),
                None => r@ == self@ && r.entries@ == self.entries@,
            },
    {
        match value {
            Some(v) => self.integer(key, v),
            None => self,
        }
    }

    /// Adds a double value under `key`, given as the bit pattern of the
    /// 64-bit floating-point value.
    pub fn double(self, key: &str, value_bits: u64) -> (r: Self)
        ensures
            r@ == self@.insert(key@, SpecAttr::Double(value_bits)),
    {
        let ghost prior = self.entries@;
        let mut entries = self.entries;
        entries.push((key.to_owned(), AttrValue::Double(value_bits)));
        proof {
            assert(entries@.drop_last() =~= prior);
        }
        PayloadBuilder { entries }
    }

    /// The finished payload: the entries in insertion order.
    pub fn build(self) -> (r: Vec<(String, AttrValue)>)
        ensures
            spec_payload_map(r@) == self@,
            r@ == self.entries@,
    {
        self.entries
    }
}

proof fn lemma_payload_map_last(entries: Seq<(String, AttrValue)>, k: Seq<char>, i: int)
    requires
        0 <= i < entries.len(),
        entries[i].0@ == k,
        forall|j: int| i < j < entries.len() ==> entries[j].0@ != k,
    ensures
        spec_payload_map(entries).contains_key(k),
        spec_payload_map(entries)[k] == attr_view(entries[i].1),
    decreases entries.len(),
{
    if i == entries.len() - 1 {
    } else {
        assert(entries.drop_last()[i] == entries[i]);
        lemma_payload_map_last(entries.drop_last(), k, i);
    }
}

proof fn lemma_payload_map_absent(entries: Seq<(String, AttrValue)>, k: Seq<char>)
    requires
        forall|j: int| 0 <= j < entries.len() ==> entries[j].0@ != k,
    ensures
        !spec_payload_map(entries).contains_key(k),
    decreases entries.len(),
{
    if entries.len() > 0 {
        lemma_payload_map_absent(entries.drop_last(), k);
    }
}

/// The string value under `key` in `payload`, or the empty string when the
/// key is absent or holds a value of another kind.
pub fn extract_string(payload: &Vec<(String, AttrValue)>, key: &str) -> (r: String)
    ensures
        r@ == ({
            let m = spec_payload_map(payload@);
            if m.contains_key(key@) && m[key@] is Str {
                m[key@]->Str_0
            } else {
                Seq::<char>::empty()
            }
        }),
{
    let key_owned: String = key.to_owned();
    let n = payload.len();
    let mut i: usize = n;
    while i > 0
        invariant
            0 <= i <= n == payload@.len(),
            key_owned@ == key@,
            forall|j: int| i <= j < n ==> payload@[j].0@ != key@,
        decreases i,
    {
        i -= 1;
        if payload[i].0 == key_owned {
            proof {
                lemma_payload_map_last(payload@, key@, i as int);
            }
            match &payload[i].1 {
                AttrValue::Str(s) => {
                    return s.clone();
                },
                _ => {
                    return String::new();
                },
            }
        }
    }
    proof {
        lemma_payload_map_absent(payload@, key@);
    }
    String::new()
}

/// A vector-store write record: stable id, embedding vector (elements are
/// bit patterns of 32-bit floating-point values), and attribute payload.
pub struct VectorPoint {
    pub id: u64,
    pub vector: Vec<u32>,
    pub payload: Vec<(String, AttrValue)>,
}

/// The attribute payload written for a descriptor: the fixed keys, the
/// canonical datetime built from the descriptor's date and time, and the
/// classifier label when one is present. `created_at` falls back to
/// `now_rfc3339` when the source supplied none.
pub open spec fn spec_point_payload(img: CctvImageData, now_rfc3339: Seq<char>) -> Map<
    Seq<char>,
    SpecAttr,
> {
    let base = Map::<Seq<char>, SpecAttr>::empty().insert(
        "image"@,
        SpecAttr::Str(img.file_path@),
    ).insert("filename"@, SpecAttr::Str(img.filename@)).insert(
        "camera_id"@,
        SpecAttr::Str(img.cctv_id@),
    ).insert("datetime"@, SpecAttr::Str(spec_api_datetime(img.date@, img.time@))).insert(
        "frame"@,
        SpecAttr::Int(img.frame as i64),
    ).insert("vehicle_type"@, SpecAttr::Int(img.vehicle_type as i64)).insert(
        "yolo_id"@,
        SpecAttr::Int(img.yolo_id as i64),
    ).insert(
        "created_at"@,
        SpecAttr::Str(
            match img.created_at {
                Some(s) => s@,
                None => now_rfc3339,
            },
        ),
    );
    match img.ai_label {
        Some(l) => base.insert("vehicle_class"@, SpecAttr::Str(l.class_name@)).insert(
            "confidence"@,
            SpecAttr::Double(l.confidence),
        ),
        None => base,
    }
}

/// Builds the vector-store point for a descriptor and its embedding: the
/// point id is the descriptor's source-assigned id, the vector is taken as
/// handed in, and the payload is exactly [`spec_point_payload`].
pub fn build_point(image: &CctvImageData, vector: Vec<u32>, now_rfc3339: &str) -> (p: VectorPoint)
    ensures
        p.id == image.id as u64,
        p.vector == vector,
        spec_payload_map(p.payload@) == spec_point_payload(*image, now_rfc3339@),
{
    let datetime_rfc3339 = crate::datetime::api_datetime_to_rfc3339(
        image.date.as_str(),
        image.time.as_str(),
    );
    let created_at: &str = match &image.created_at {
        Some(s) => s.as_str(),
        None => now_rfc3339,
    };
    let mut builder = PayloadBuilder::new().string("image", image.file_path.as_str()).string(
        "filename",
        image.filename.as_str(),
    ).string("camera_id", image.cctv_id.as_str()).string(
        "datetime",
        datetime_rfc3339.as_str(),
    ).integer("frame", image.frame as i64).integer(
        "vehicle_type",
        image.vehicle_type as i64,
    ).integer("yolo_id", image.yolo_id as i64).string("created_at", created_at);
    match &image.ai_label {
        Some(label) => {
            builder = builder.string("vehicle_class", label.class_name.as_str()).double(
                "confidence",
                label.confidence,
            );
        },
        None => {},
    }
    VectorPoint { id: image.id as u64, vector, payload: builder.build() }
}

} // verus!
