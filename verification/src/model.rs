//! The model itself: points and lines in handle-keyed ordered maps.

use std::collections::BTreeMap;
use vstd::prelude::*;

verus! {

broadcast use vstd::laws_cmp::group_laws_cmp;

/// The homogeneous-coordinate representation of a point, together with the
/// handles of the lines currently recorded as incident to it.
#[derive(Hash, Eq, PartialEq, Debug)]
pub struct Point {
    pub x: i64,
    pub y: i64,
    pub z: i64,
    pub w: i64,
    pub lines: Vec<usize>,
}

/// A line segment, defined by the handles of its two endpoints.
#[derive(Eq, PartialEq, Structural, Debug)]
pub struct Line {
    pub p1: usize,
    pub p2: usize,
}

/// The mathematical value of a [`Point`]: its coordinates as unbounded
/// integers and its incident-line handles as a sequence.
#[verifier::ext_equal]
pub struct PointView {
    pub x: int,
    pub y: int,
    pub z: int,
    pub w: int,
    pub lines: Seq<usize>,
}

impl View for Point {
    type V = PointView;

    open spec fn view(&self) -> PointView {
        PointView {
            x: self.x as int,
            y: self.y as int,
            z: self.z as int,
            w: self.w as int,
            lines: self.lines@,
        }
    }
}

/// The mathematical value of a [`Model`]: two maps from handle to entity.
#[verifier::ext_equal]
pub struct ModelView {
    pub points: Map<usize, PointView>,
    pub lines: Map<usize, Line>,
}

/// A collection of points and lines that define a particular model.
///
/// Handles are issued per namespace (point handles and line handles are
/// independent sequences), starting at 1 on an empty map and continuing with
/// one more than the largest handle currently present.
pub struct Model {
    pub points: BTreeMap<usize, Point>,
    pub lines: BTreeMap<usize, Line>,
}

/// The view of a point map: each stored point replaced by its own view.
pub open spec fn point_views(m: Map<usize, Point>) -> Map<usize, PointView> {
    m.map_values(|p: Point| p@)
}

impl View for Model {
    type V = ModelView;

    open spec fn view(&self) -> ModelView {
        ModelView { points: point_views(self.points@), lines: self.lines@ }
    }
}

/// `h` is the handle a map `m` issues next: 1 on an empty map, otherwise one
/// more than the largest key. The three clauses pin `h` down uniquely: `h`
/// exceeds every key, and either `h` is 1 or `h - 1` is itself a key.
pub open spec fn fresh_handle<V>(m: Map<usize, V>, h: usize) -> bool {
    &&& 1 <= h
    &&& forall|j: usize| m.contains_key(j) ==> j < h
    &&& (h == 1 || m.contains_key((h - 1) as usize))
}

/// The effect of [`Model::add_point`]: the new point is stored under `h`
/// with the given coordinates and no incident lines.
pub open spec fn spec_add_point(mv: ModelView, h: usize, x: int, y: int, z: int, w: int) -> ModelView {
    ModelView {
        points: mv.points.insert(h, PointView { x, y, z, w, lines: Seq::empty() }),
        lines: mv.lines,
    }
}

/// Appends line handle `l` to the incident-line list of point `p`, when `p`
/// is present; an absent `p` leaves the map unchanged.
pub open spec fn with_incident(points: Map<usize, PointView>, p: usize, l: usize) -> Map<
    usize,
    PointView,
> {
    if points.contains_key(p) {
        points.insert(
            p,
            PointView {
                x: points[p].x,
                y: points[p].y,
                z: points[p].z,
                w: points[p].w,
                lines: points[p].lines.push(l),
            },
        )
    } else {
        points
    }
}

/// The effect of [`Model::add_line`]: the line is stored under `h`, and `h`
/// is appended to the incident-line list of each endpoint that exists.
pub open spec fn spec_add_line(mv: ModelView, h: usize, p1: usize, p2: usize) -> ModelView {
    ModelView {
        points: with_incident(with_incident(mv.points, p1, h), p2, h),
        lines: mv.lines.insert(h, Line { p1, p2 }),
    }
}

/// The effect of [`Model::del_line`]: the line is gone from the line map;
/// incident-line lists are left untouched, so a stale entry may remain.
pub open spec fn spec_del_line(mv: ModelView, l: usize) -> ModelView {
    ModelView { points: mv.points, lines: mv.lines.remove(l) }
}

/// The effect of [`Model::del_point`]: every line handle recorded as
/// incident to `p` is removed from the line map, then `p` itself is removed;
/// an absent `p` leaves the model unchanged.
pub open spec fn spec_del_point(mv: ModelView, p: usize) -> ModelView {
    if mv.points.contains_key(p) {
        ModelView {
            points: mv.points.remove(p),
            lines: mv.lines.remove_keys(mv.points[p].lines.to_set()),
        }
    } else {
        mv
    }
}

/// Relies on `BTreeMap::last_key_value`: the standard library documents that
/// the key of the returned pair is the maximum key of the map, and that
/// `None` is returned exactly when the map is empty.
#[verifier::external_body]
fn last_key<V>(m: &BTreeMap<usize, V>) -> (r: Option<usize>)
    ensures
        match r {
            Some(k) => m@.contains_key(k) && forall|j: usize| m@.contains_key(j) ==> j <= k,
            None => forall|j: usize| !m@.contains_key(j),
        },
{
    match m.last_key_value() {
        Some((k, _)) => Some(*k),
        None => None,
    }
}

impl Model {
    /// Creates a new, empty model.
    pub fn new() -> (m: Model)
        ensures
            m@.points == Map::<usize, PointView>::empty(),
            m@.lines == Map::<usize, Line>::empty(),
    {
        let m = Model { points: BTreeMap::new(), lines: BTreeMap::new() };
        proof {
            assert(m@.points =~= Map::<usize, PointView>::empty());
        }
        m
    }

    /// Stores a point with the given coordinates under a fresh handle and
    /// returns that handle.
    pub fn add_point(&mut self, x: i64, y: i64, z: i64, w: i64) -> (handle: usize)
        requires
            forall|j: usize| old(self)@.points.contains_key(j) ==> j < usize::MAX,
        ensures
            fresh_handle(old(self)@.points, handle),
            final(self)@ == spec_add_point(old(self)@, handle, x as int, y as int, z as int, w as int),
    {
        let handle: usize = match last_key(&self.points) {
            Some(k) => {
                proof {
                    assert(self@.points.contains_key(k));
                }
                k + 1
            },
            None => 1,
        };
        let p = Point { x, y, z, w, lines: Vec::new() };
        self.points.insert(handle, p);
        proof {
            assert(self@.points =~= spec_add_point(old(self)@, handle, x as int, y as int, z as int, w as int).points);
        }
        handle
    }

    /// Appends `line_handle` to the incident-line list of the point stored
    /// under `point_handle`; an absent point handle leaves the model as it
    /// was.
    fn add_line_to_point(&mut self, point_handle: usize, line_handle: usize)
        ensures
            final(self)@.points == with_incident(old(self)@.points, point_handle, line_handle),
            final(self)@.lines == old(self)@.lines,
    {
        match self.points.remove(&point_handle) {
            Some(mut p) => {
                p.lines.push(line_handle);
                self.points.insert(point_handle, p);
                proof {
                    assert(self@.points =~= with_incident(
                        old(self)@.points,
                        point_handle,
                        line_handle,
                    ));
                }
            },
            None => {
                proof {
                    assert(self@.points =~= with_incident(
                        old(self)@.points,
                        point_handle,
                        line_handle,
                    ));
                }
            },
        }
    }

    /// Stores a line from `p1` to `p2` under a fresh handle (line handles
    /// are numbered independently of point handles) and returns that handle.
    /// The handle is appended to the incident-line list of whichever of the
    /// two endpoints currently exist; an absent endpoint is skipped, and the
    /// line is stored referencing it all the same.
    pub fn add_line(&mut self, p1: usize, p2: usize) -> (handle: usize)
        requires
            forall|j: usize| old(self)@.lines.contains_key(j) ==> j < usize::MAX,
        ensures
            fresh_handle(old(self)@.lines, handle),
            final(self)@ == spec_add_line(old(self)@, handle, p1, p2),
    {
        let handle: usize = match last_key(&self.lines) {
            Some(k) => {
                proof {
                    assert(self@.lines.contains_key(k));
                }
                k + 1
            },
            None => 1,
        };
        self.lines.insert(handle, Line { p1, p2 });
        self.add_line_to_point(p1, handle);
        self.add_line_to_point(p2, handle);
        handle
    }

    /// Returns a copy of the incident-line list of the point stored under
    /// `handle`. The handle must name a currently stored point.
    pub fn get_point_lines(&self, handle: usize) -> (r: Vec<usize>)
        requires
            self@.points.contains_key(handle),
        ensures
            r@ == self@.points[handle].lines,
    {
        match self.points.get(&handle) {
            Some(p) => p.lines.clone(),
            None => vstd::pervasive::unreached(),
        }
    }

    /// Deletes the line stored under `handle`; an absent handle is a no-op.
    /// The handle is not purged from its endpoints' incident-line lists, so
    /// a stale entry may remain there.
    pub fn del_line(&mut self, handle: usize)
        ensures
            final(self)@ == spec_del_line(old(self)@, handle),
    {
        self.lines.remove(&handle);
    }

    /// Deletes the point stored under `handle`, first deleting every line
    /// currently recorded as incident to it. An absent handle leaves the
    /// model unchanged. The cascaded line handles are not purged from the
    /// incident-line lists of their other endpoints.
    pub fn del_point(&mut self, handle: usize)
        ensures
            final(self)@ == spec_del_point(old(self)@, handle),
    {
        let line_handles: Vec<usize> = match self.points.get(&handle) {
            Some(p) => p.lines.clone(),
            None => {
                return ;
            },
        };
        let ghost all_lines = self@.lines;
        let mut i: usize = 0;
        while i < line_handles.len()
            invariant
                i <= line_handles.len(),
                self.points == old(self).points,
                line_handles@ == old(self)@.points[handle].lines,
                self@.lines == all_lines.remove_keys(line_handles@.take(i as int).to_set()),
                all_lines == old(self)@.lines,
            decreases line_handles.len() - i,
        {
            self.lines.remove(&line_handles[i]);
            proof {
                lemma_remove_keys_step(all_lines, line_handles@, i as int);
            }
            i += 1;
        }
        self.points.remove(&handle);
        proof {
            assert(line_handles@.take(line_handles@.len() as int) =~= line_handles@);
            assert(self@.points =~= spec_del_point(old(self)@, handle).points);
        }
    }
}

impl Default for Model {
    /// Equivalent to [`Model::new`]: an empty model.
    fn default() -> (m: Model)
        ensures
            m@.points == Map::<usize, PointView>::empty(),
            m@.lines == Map::<usize, Line>::empty(),
    {
        Model::new()
    }
}

/// Removing the keys of `s.take(i)` and then the key `s[i]` is the same as
/// removing the keys of `s.take(i + 1)`.
proof fn lemma_remove_keys_step<V>(m: Map<usize, V>, s: Seq<usize>, i: int)
    requires
        0 <= i < s.len(),
    ensures
        m.remove_keys(s.take(i).to_set()).remove(s[i]) == m.remove_keys(s.take(i + 1).to_set()),
{
    assert(s.take(i + 1) =~= s.take(i).push(s[i]));
    assert forall|k: usize| s.take(i + 1).to_set().contains(k) implies s.take(i).to_set().contains(
        k,
    ) || k == s[i] by {
        let j = choose|j: int| 0 <= j < s.take(i + 1).len() && #[trigger] s.take(i + 1)[j] == k;
        if j < i {
            assert(s.take(i)[j] == k);
        }
    }
    assert forall|k: usize|
        s.take(i).to_set().contains(k) || k == s[i] implies s.take(i + 1).to_set().contains(k) by {
        if s.take(i).to_set().contains(k) {
            let j = choose|j: int| 0 <= j < s.take(i).len() && #[trigger] s.take(i)[j] == k;
            assert(s.take(i + 1)[j] == k);
        } else {
            assert(s.take(i + 1)[i] == k);
        }
    }
    assert(m.remove_keys(s.take(i).to_set()).remove(s[i]) =~= m.remove_keys(
        s.take(i + 1).to_set(),
    ));
}

} // verus!
