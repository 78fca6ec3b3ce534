use vstd::prelude::*;
use crate::app_state::MIN_POLYGON_POINTS;

verus! {

/// A boundary as kept after validation: discarded when too short to enclose an area.
pub open spec fn validated<P>(boundary: Seq<P>) -> Seq<P> {
    if boundary.len() < MIN_POLYGON_POINTS {
        Seq::empty()
    } else {
        boundary
    }
}

/// The polygon rendered for a configured boundary.
pub open spec fn chosen_polygon<P>(points: Seq<P>, fallback: Seq<P>) -> Seq<P> {
    if points.len() >= MIN_POLYGON_POINTS {
        points
    } else {
        fallback
    }
}

/// Discards a boundary too short to enclose an area (fewer than three
/// points); a longer one is kept as it is.
pub fn validate_boundary<P>(boundary: &mut Vec<P>)
    ensures
        final(boundary)@ == validated(old(boundary)@),
        old(boundary)@.len() >= MIN_POLYGON_POINTS ==> final(boundary)@ == old(boundary)@,
        old(boundary)@.len() < MIN_POLYGON_POINTS ==> final(boundary)@.len() == 0,
{
    if boundary.len() < MIN_POLYGON_POINTS {
        boundary.clear();
    }
}

/// The polygon to render: the configured `points` when there are at least
/// three, else `fallback` (a placeholder that is never shown).
pub fn boundary_polygon<P>(points: Vec<P>, fallback: Vec<P>) -> (res: Vec<P>)
    ensures
        res@ == chosen_polygon(points@, fallback@),
        points@.len() >= MIN_POLYGON_POINTS ==> res@ == points@,
        points@.len() < MIN_POLYGON_POINTS ==> res@ == fallback@,
{
    if points.len() >= MIN_POLYGON_POINTS {
        points
    } else {
        fallback
    }
}

/// A validated boundary is either empty or encloses an area, and with a
/// closed fallback the rendered polygon always encloses an area.
pub proof fn lemma_validated_boundary_is_usable<P>(boundary: Seq<P>, fallback: Seq<P>)
    requires
        fallback.len() >= MIN_POLYGON_POINTS,
    ensures
        validated(boundary).len() == 0 || validated(boundary).len() >= MIN_POLYGON_POINTS,
        chosen_polygon(validated(boundary), fallback).len() >= MIN_POLYGON_POINTS,
        validated(validated(boundary)) == validated(boundary),
{
}

/// Validation keeps every boundary that encloses an area exactly as it is,
/// and empties only those that do not.
pub proof fn lemma_validation_keeps_closed_boundaries<P>(boundary: Seq<P>)
    ensures
        boundary.len() >= MIN_POLYGON_POINTS ==> validated(boundary) == boundary,
        boundary.len() < MIN_POLYGON_POINTS ==> validated(boundary).len() == 0,
        validated(boundary).len() <= boundary.len(),
{
}

/// The configured boundary is rendered whenever it encloses an area; the
/// fallback only stands in for a boundary that does not.
pub proof fn lemma_configured_polygon_preferred<P>(points: Seq<P>, fallback: Seq<P>)
    ensures
        points.len() >= MIN_POLYGON_POINTS ==> chosen_polygon(points, fallback) == points,
        points.len() < MIN_POLYGON_POINTS ==> chosen_polygon(points, fallback) == fallback,
        chosen_polygon(validated(points), fallback) == chosen_polygon(points, fallback),
{
}

} // verus!
