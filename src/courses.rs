//! Course selection: the geographic box filter over the catalog.

use vstd::prelude::*;
use crate::structs::{Coords, GolfCourse};

verus! {

/// The box used when a request gives none: the Kansas City metro region.
pub open spec fn default_box() -> Coords {
    Coords { min_lat: 38_757_000i64, max_lat: 39_427_000i64, min_lon: -94_908_000i64, max_lon: -94_235_000i64 }
}

/// The course lies in the box, bounds included.
pub open spec fn in_box(c: GolfCourse, b: Coords) -> bool {
    b.min_lat <= c.lat && c.lat <= b.max_lat && b.min_lon <= c.lon && c.lon <= b.max_lon
}

/// The courses of `courses` that lie in the box, in catalog order.
pub open spec fn courses_in(courses: Seq<GolfCourse>, b: Coords) -> Seq<GolfCourse> {
    courses.filter(|c: GolfCourse| in_box(c, b))
}

/// The box that stands in for a missing one.
pub fn default_coords() -> (r: Coords)
    ensures
        r == default_box(),
{
    Coords { min_lat: 38_757_000i64, max_lat: 39_427_000i64, min_lon: -94_908_000i64, max_lon: -94_235_000i64 }
}

/// The box a request is filtered by: the given one, else the default.
pub open spec fn box_or_default(coords: Option<Coords>) -> Coords {
    match coords {
        Some(b) => b,
        None => default_box(),
    }
}

/// The courses inside `coords` (the default box when it is `None`), in
/// catalog order.
pub fn get_courses<'a>(courses: &'a Vec<GolfCourse>, coords: Option<Coords>) -> (r: Vec<&'a GolfCourse>)
    ensures
        r@.map_values(|c: &GolfCourse| *c) == courses_in(courses@, box_or_default(coords)),
{
    let b = match coords {
        Some(b) => b,
        None => default_coords(),
    };
    let mut r: Vec<&'a GolfCourse> = Vec::new();
    let mut i: usize = 0;
    while i < courses.len()
        invariant
            i <= courses@.len(),
            r@.map_values(|c: &GolfCourse| *c) == courses_in(courses@.take(i as int), b),
        decreases courses@.len() - i,
    {
        let c = &courses[i];
        proof {
            reveal(Seq::filter);
            assert(courses@.take(i + 1).drop_last() =~= courses@.take(i as int));
            assert(courses@.take(i + 1).last() == courses@[i as int]);
        }
        let ghost before = r@.map_values(|c: &GolfCourse| *c);
        if b.min_lat <= c.lat && c.lat <= b.max_lat && b.min_lon <= c.lon && c.lon <= b.max_lon {
            r.push(c);
            assert(r@.map_values(|c: &GolfCourse| *c) =~= before.push(*c));
        }
        assert(r@.map_values(|c: &GolfCourse| *c) == courses_in(courses@.take(i + 1), b));
        i = i + 1;
    }
    assert(courses@.take(i as int) =~= courses@);
    r
}

/// Selecting without a box is selecting with the default box, and a course
/// is selected exactly when it lies in the box, with catalog order kept.
pub proof fn lemma_selection(courses: Seq<GolfCourse>, coords: Option<Coords>)
    ensures
        courses_in(courses, box_or_default(None)) == courses_in(courses, box_or_default(Some(default_box()))),
        forall|c: GolfCourse|
            courses_in(courses, box_or_default(coords)).contains(c)
                <==> (courses.contains(c) && in_box(c, box_or_default(coords))),
        courses_in(courses, box_or_default(coords)).len() <= courses.len(),
{
    let b = box_or_default(coords);
    let pred = |c: GolfCourse| in_box(c, b);
    broadcast use Seq::lemma_filter_contains_rev, Seq::lemma_filter_len;
    assert forall|c: GolfCourse| courses.contains(c) && in_box(c, b) implies courses_in(courses, b).contains(c) by {
        let i = choose|i: int| 0 <= i < courses.len() && courses[i] == c;
        courses.lemma_filter_contains(pred, i);
    }
}

} // verus!
