//! The data the library works on: course identities, courses, the search box
//! and the normalised tee-time record.

use vstd::prelude::*;
use crate::text::{format_i64, signed_decimal};

verus! {

/// A course identity that carries the booking site's base URL and tenant alias.
#[derive(Clone, Debug)]
pub struct VerboseCourseId {
    pub id: i64,
    pub url: String,
    pub alias: String,
}

/// A course identity as the catalog spells it: a bare number, a bare string,
/// or the verbose object.
#[derive(Clone, Debug)]
pub enum CourseId {
    Number(i64),
    String(String),
    Verbose(VerboseCourseId),
}

/// A golf course of the catalog. Coordinates are in millionths of a degree.
#[derive(Clone, Debug)]
pub struct GolfCourse {
    pub id: CourseId,
    pub name: String,
    pub lat: i64,
    pub lon: i64,
    pub source: String,
}

/// An inclusive latitude/longitude box, in millionths of a degree.
#[derive(Clone, Debug)]
pub struct Coords {
    pub min_lat: i64,
    pub max_lat: i64,
    pub min_lon: i64,
    pub max_lon: i64,
}

/// A normalised tee time. `tee_time` is a UTC instant in seconds since the
/// Unix epoch, `price` is in cents, coordinates in millionths of a degree.
#[derive(Clone, Debug)]
pub struct TeeTime {
    pub course: String,
    pub tee_time: i64,
    pub price: i64,
    pub players: u32,
    pub holes: Option<u32>,
    pub lat: i64,
    pub lon: i64,
    pub book_url: String,
}

/// The mathematical content of a [`TeeTime`].
pub struct TeeTimeView {
    pub course: Seq<char>,
    pub tee_time: int,
    pub price: int,
    pub players: u32,
    pub holes: Option<u32>,
    pub lat: int,
    pub lon: int,
    pub book_url: Seq<char>,
}

impl View for TeeTime {
    type V = TeeTimeView;

    open spec fn view(&self) -> TeeTimeView {
        TeeTimeView {
            course: self.course@,
            tee_time: self.tee_time as int,
            price: self.price as int,
            players: self.players,
            holes: self.holes,
            lat: self.lat as int,
            lon: self.lon as int,
            book_url: self.book_url@,
        }
    }
}

/// The view of a record that may be missing.
pub open spec fn view_of(r: Option<TeeTime>) -> Option<TeeTimeView> {
    match r {
        Some(t) => Some(t@),
        None => None,
    }
}

/// The views of a sequence of records.
pub open spec fn views(s: Seq<TeeTime>) -> Seq<TeeTimeView> {
    s.map_values(|t: TeeTime| t@)
}

/// A value nested inside a JSON object, with arrays and objects left opaque.
pub enum JsonLeaf {
    Null,
    Bool(bool),
    Integer(i128),
    OtherNumber,
    Text(String),
    Array,
    Object,
}

/// One `key: value` member of a JSON object.
pub struct JsonField {
    pub key: String,
    pub value: JsonLeaf,
}

/// A JSON value, one level deep: an integer (any number that is not an
/// integer is `OtherNumber`), a string, or an object's members in order.
pub enum JsonValue {
    Null,
    Bool(bool),
    Integer(i128),
    OtherNumber,
    Text(String),
    Array,
    Object(Vec<JsonField>),
}

/// The first member of `fields` named `key`.
pub open spec fn field_of(fields: Seq<JsonField>, key: Seq<char>) -> Option<JsonLeaf>
    decreases fields.len(),
{
    if fields.len() == 0 {
        None
    } else if fields[0].key@ == key {
        Some(fields[0].value)
    } else {
        field_of(fields.drop_first(), key)
    }
}

pub open spec fn fits_i64(n: i128) -> bool {
    i64::MIN <= n <= i64::MAX
}

/// The verbose identity an object spells, when its `id` member is an
/// integer and its `url` and `alias` members are strings.
pub open spec fn verbose_of(fields: Seq<JsonField>) -> Option<VerboseCourseId> {
    match (field_of(fields, seq!['i', 'd']), field_of(fields, seq!['u', 'r', 'l']),
        field_of(fields, seq!['a', 'l', 'i', 'a', 's'])) {
        (Some(JsonLeaf::Integer(n)), Some(JsonLeaf::Text(u)), Some(JsonLeaf::Text(a))) => {
            if fits_i64(n) {
                Some(VerboseCourseId { id: n as i64, url: u, alias: a })
            } else {
                None
            }
        },
        _ => None,
    }
}

/// The identity a JSON value spells, trying the integer shape, then the
/// string shape, then the verbose object.
pub open spec fn course_id_of(v: JsonValue) -> Option<CourseId> {
    match v {
        JsonValue::Integer(n) => if fits_i64(n) { Some(CourseId::Number(n as i64)) } else { None },
        JsonValue::Text(s) => Some(CourseId::String(s)),
        JsonValue::Object(fields) => match verbose_of(fields@) {
            Some(vb) => Some(CourseId::Verbose(vb)),
            None => None,
        },
        _ => None,
    }
}

/// The identity as it appears in a provider's URL.
pub open spec fn id_text(id: CourseId) -> Seq<char> {
    match id {
        CourseId::Number(n) => signed_decimal(n as int),
        CourseId::String(s) => s@,
        CourseId::Verbose(v) => signed_decimal(v.id as int),
    }
}

fn find_field<'a>(fields: &'a Vec<JsonField>, key: &str) -> (r: Option<&'a JsonLeaf>)
    ensures
        match r {
            Some(l) => field_of(fields@, key@) == Some(*l),
            None => field_of(fields@, key@) is None,
        },
{
    let mut i: usize = 0;
    assert(fields@.subrange(0, fields@.len() as int) =~= fields@);
    while i < fields.len()
        invariant
            i <= fields@.len(),
            field_of(fields@, key@) == field_of(fields@.subrange(i as int, fields@.len() as int), key@),
        decreases fields@.len() - i,
    {
        let ghost rest = fields@.subrange(i as int, fields@.len() as int);
        assert(rest.drop_first() =~= fields@.subrange(i + 1, fields@.len() as int));
        if fields[i].key == key.to_owned() {
            return Some(&fields[i].value);
        }
        i = i + 1;
    }
    None
}

impl VerboseCourseId {
    fn copy(&self) -> (r: VerboseCourseId)
        ensures
            r == *self,
    {
        VerboseCourseId { id: self.id, url: self.url.clone(), alias: self.alias.clone() }
    }
}

impl CourseId {
    /// Reads a catalog identity: an integer, else a string, else an object
    /// with an integer `id` and string `url` and `alias`; anything else is
    /// refused.
    pub fn parse(v: &JsonValue) -> (r: Option<CourseId>)
        ensures
            r == course_id_of(*v),
    {
        match v {
            JsonValue::Integer(n) => {
                if i64::MIN as i128 <= *n && *n <= i64::MAX as i128 {
                    Some(CourseId::Number(*n as i64))
                } else {
                    None
                }
            },
            JsonValue::Text(s) => Some(CourseId::String(s.clone())),
            JsonValue::Object(fields) => {
                proof {
                    reveal_strlit("id");
                    reveal_strlit("url");
                    reveal_strlit("alias");
                    assert("id"@ =~= seq!['i', 'd']);
                    assert("url"@ =~= seq!['u', 'r', 'l']);
                    assert("alias"@ =~= seq!['a', 'l', 'i', 'a', 's']);
                }
                let id = find_field(fields, "id");
                let url = find_field(fields, "url");
                let alias = find_field(fields, "alias");
                match (id, url, alias) {
                    (Some(JsonLeaf::Integer(n)), Some(JsonLeaf::Text(u)), Some(JsonLeaf::Text(a))) => {
                        if i64::MIN as i128 <= *n && *n <= i64::MAX as i128 {
                            Some(CourseId::Verbose(VerboseCourseId { id: *n as i64, url: u.clone(), alias: a.clone() }))
                        } else {
                            None
                        }
                    },
                    _ => None,
                }
            },
            _ => None,
        }
    }

    /// The identity as it appears in a provider's URL: the number in decimal,
    /// the string itself, or the verbose form's number.
    pub fn text(&self) -> (r: String)
        ensures
            r@ == id_text(*self),
    {
        match self {
            CourseId::Number(n) => format_i64(*n),
            CourseId::String(s) => s.clone(),
            CourseId::Verbose(v) => format_i64(v.id),
        }
    }

    /// The verbose form, when the identity has it.
    pub fn verbose(&self) -> (r: Option<VerboseCourseId>)
        ensures
            r == (match *self {
                CourseId::Verbose(v) => Some(v),
                _ => None,
            }),
    {
        match self {
            CourseId::Verbose(v) => Some(v.copy()),
            _ => None,
        }
    }
}

} // verus!
