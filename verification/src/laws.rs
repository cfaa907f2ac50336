//! General properties of the model, stated and proved once and for all.

use vstd::prelude::*;

use crate::model::fresh_handle;
use crate::model::spec_add_line;
use crate::model::spec_del_line;
use crate::model::spec_del_point;
use crate::model::with_incident;
use crate::model::ModelView;

verus! {

/// Handles issued in sequence strictly increase, and an empty map issues
/// handle 1: if `h1` is the fresh handle of `m` and `h2` the fresh handle of
/// `m` after `h1` was stored, then `1 <= h1 < h2`. Both point and line
/// handles are issued this way, each in its own namespace.
pub proof fn lemma_handles_strictly_increase<V>(m: Map<usize, V>, h1: usize, v: V, h2: usize)
    requires
        fresh_handle(m, h1),
        fresh_handle(m.insert(h1, v), h2),
    ensures
        1 <= h1 < h2,
        m == Map::<usize, V>::empty() ==> h1 == 1,
{
    assert(m.insert(h1, v).contains_key(h1));
}

/// After a line from `p1` to `p2` is added under handle `h`, the
/// incident-line list of each endpoint that exists contains `h`.
pub proof fn lemma_add_line_records_incidence(mv: ModelView, h: usize, p1: usize, p2: usize)
    ensures
        mv.points.contains_key(p1) ==> spec_add_line(mv, h, p1, p2).points[p1].lines.contains(h),
        mv.points.contains_key(p2) ==> spec_add_line(mv, h, p1, p2).points[p2].lines.contains(h),
{
    let once = with_incident(mv.points, p1, h);
    let twice = with_incident(once, p2, h);
    if mv.points.contains_key(p1) {
        let s = mv.points[p1].lines;
        assert(once[p1].lines[s.len() as int] == h);
        assert(once[p1].lines.contains(h));
        if p2 == p1 {
            assert(twice[p1].lines[s.len() as int] == h);
        }
    }
    if mv.points.contains_key(p2) {
        let t = once[p2].lines;
        assert(twice[p2].lines[t.len() as int] == h);
    }
}

/// After a line is deleted, the line map no longer contains its handle and
/// holds exactly one line fewer — or is unchanged when the handle was
/// absent. The point map is untouched either way.
pub proof fn lemma_del_line_removes(mv: ModelView, l: usize)
    requires
        mv.lines.dom().finite(),
    ensures
        !spec_del_line(mv, l).lines.contains_key(l),
        spec_del_line(mv, l).points == mv.points,
        mv.lines.contains_key(l) ==> spec_del_line(mv, l).lines.dom().len() == mv.lines.dom().len()
            - 1,
        !mv.lines.contains_key(l) ==> spec_del_line(mv, l).lines == mv.lines,
{
    if !mv.lines.contains_key(l) {
        assert(spec_del_line(mv, l).lines =~= mv.lines);
    }
}

/// When every line with endpoint `p` stands in `p`'s incident-line list,
/// deleting `p` removes `p` from the point map and leaves no line with
/// endpoint `p` in the line map.
pub proof fn lemma_del_point_cascades(mv: ModelView, p: usize)
    requires
        mv.points.contains_key(p),
        forall|l: usize|
            mv.lines.contains_key(l) && (mv.lines[l].p1 == p || mv.lines[l].p2 == p)
                ==> mv.points[p].lines.contains(l),
    ensures
        !spec_del_point(mv, p).points.contains_key(p),
        forall|l: usize| #[trigger]
            spec_del_point(mv, p).lines.contains_key(l) ==> spec_del_point(mv, p).lines[l].p1 != p
                && spec_del_point(mv, p).lines[l].p2 != p,
{
    let after = spec_del_point(mv, p);
    assert forall|l: usize| #[trigger] after.lines.contains_key(l) implies after.lines[l].p1 != p
        && after.lines[l].p2 != p by {
        assert(mv.lines.contains_key(l));
        assert(!mv.points[p].lines.to_set().contains(l));
        assert(after.lines[l] == mv.lines[l]);
    }
}

/// Deleting the same line handle twice has the effect of deleting it once:
/// the second deletion removes a handle that is already absent.
pub proof fn lemma_del_line_idempotent(mv: ModelView, l: usize)
    ensures
        spec_del_line(spec_del_line(mv, l), l) == spec_del_line(mv, l),
{
    assert(spec_del_line(spec_del_line(mv, l), l).lines =~= spec_del_line(mv, l).lines);
    assert(spec_del_line(spec_del_line(mv, l), l) =~= spec_del_line(mv, l));
}

/// Deleting the same point handle twice has the effect of deleting it once:
/// after the first deletion the handle is absent, and deleting an absent
/// handle leaves the model unchanged.
pub proof fn lemma_del_point_idempotent(mv: ModelView, p: usize)
    ensures
        spec_del_point(spec_del_point(mv, p), p) == spec_del_point(mv, p),
{
}

} // verus!
