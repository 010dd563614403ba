//! The document: a set of paths and a selection of their points, with the
//! operations that edit them.
use crate::geom::{screen_dist_within, screen_within, DPoint, DVec2, ScreenPoint, ViewPort, MIN_POINT_DISTANCE};
use crate::path::{
    appended, delete_all, dragged, has_id, index_of_id, next_index, nudged, prev_index, IdGen,
    toggled, Path, PathModel, PathPoint, PointId, PointType,
};
use vstd::prelude::*;

verus! {

/// The order of point ids: by path, then by point.
pub open spec fn id_lt(a: PointId, b: PointId) -> bool {
    a.path < b.path || (a.path == b.path && a.point < b.point)
}

/// `s` is strictly increasing.
pub open spec fn sorted_ids(s: Seq<PointId>) -> bool {
    forall|i: int, j: int| 0 <= i < j < s.len() ==> id_lt(s[i], s[j])
}

/// With distinct ids, the id at position `i` is not among the earlier ones.
pub proof fn lemma_ids_take_push(s: Seq<PathPoint>, i: int)
    requires
        crate::path::ids_distinct(s),
        0 <= i < s.len(),
    ensures
        !ids_of(s.take(i)).contains(s[i].id),
        ids_of(s.take(i + 1)) == ids_of(s.take(i)).insert(s[i].id),
{
    if has_id(s.take(i), s[i].id) {
        let j = choose|j: int| 0 <= j < s.take(i).len() && (#[trigger] s.take(i)[j]).id == s[i].id;
        assert(s[j].id == s[i].id);
    }
    assert forall|x: PointId| #[trigger] ids_of(s.take(i + 1)).contains(x) == ids_of(s.take(i)).insert(s[i].id).contains(x) by {
        if has_id(s.take(i + 1), x) {
            let j = choose|j: int| 0 <= j < s.take(i + 1).len() && (#[trigger] s.take(i + 1)[j]).id == x;
            if j < i {
                assert(s.take(i)[j] == s.take(i + 1)[j]);
            }
        }
        if has_id(s.take(i), x) {
            let j = choose|j: int| 0 <= j < s.take(i).len() && (#[trigger] s.take(i)[j]).id == x;
            assert(s.take(i + 1)[j] == s.take(i)[j]);
        }
        if x == s[i].id {
            assert(s.take(i + 1)[i] == s[i]);
        }
    }
    assert(ids_of(s.take(i + 1)) =~= ids_of(s.take(i)).insert(s[i].id));
}

/// In a sorted sequence, an element does not occur before its position.
pub proof fn lemma_sorted_take_push(s: Seq<PointId>, i: int)
    requires
        sorted_ids(s),
        0 <= i < s.len(),
    ensures
        !s.take(i).contains(s[i]),
        s.take(i + 1) == s.take(i).push(s[i]),
        s.take(i + 1).to_set() == s.take(i).to_set().insert(s[i]),
{
    assert(s.take(i + 1) =~= s.take(i).push(s[i]));
    assert forall|x: PointId| #[trigger] s.take(i + 1).to_set().contains(x) == s.take(i).to_set().insert(s[i]).contains(x) by {
        if s.take(i + 1).contains(x) {
            let j = choose|j: int| 0 <= j < i + 1 && #[trigger] s.take(i + 1)[j] == x;
            if j < i {
                assert(s.take(i)[j] == x);
            }
        }
        if s.take(i).contains(x) {
            let j = choose|j: int| 0 <= j < i && #[trigger] s.take(i)[j] == x;
            assert(s.take(i + 1)[j] == x);
        }
        if x == s[i] {
            assert(s.take(i + 1)[i] == x);
        }
    }
    assert(s.take(i + 1).to_set() =~= s.take(i).to_set().insert(s[i]));
    if s.take(i).contains(s[i]) {
        let j = choose|j: int| 0 <= j < i && s.take(i)[j] == s[i];
        assert(id_lt(s[j], s[i]));
    }
}

fn id_less(a: PointId, b: PointId) -> (r: bool)
    ensures
        r == id_lt(a, b),
{
    a.path < b.path || (a.path == b.path && a.point < b.point)
}

/// A set of point ids, kept in increasing order.
#[derive(Debug, Clone)]
pub struct Selection {
    ids: Vec<PointId>,
}

impl View for Selection {
    type V = Seq<PointId>;

    closed spec fn view(&self) -> Seq<PointId> {
        self.ids@
    }
}

impl Selection {
    pub open spec fn wf(&self) -> bool {
        sorted_ids(self@)
    }

    /// The ids as a set.
    pub open spec fn set(&self) -> Set<PointId> {
        self@.to_set()
    }

    pub fn new() -> (r: Selection)
        ensures
            r@ == Seq::<PointId>::empty(),
            r.wf(),
    {
        Selection { ids: Vec::new() }
    }

    pub fn len(&self) -> (r: usize)
        ensures
            r == self@.len(),
    {
        self.ids.len()
    }

    pub fn as_slice(&self) -> (r: &[PointId])
        ensures
            r@ == self@,
    {
        self.ids.as_slice()
    }

    pub fn get(&self, i: usize) -> (r: PointId)
        requires
            i < self@.len(),
        ensures
            r == self@[i as int],
    {
        self.ids[i]
    }

    pub fn clear(&mut self)
        ensures
            final(self)@ == Seq::<PointId>::empty(),
            final(self).wf(),
    {
        self.ids.clear();
    }

    /// A copy of this selection.
    pub fn clone_selection(&self) -> (r: Selection)
        ensures
            r@ == self@,
    {
        let mut ids: Vec<PointId> = Vec::new();
        let mut i: usize = 0;
        while i < self.ids.len()
            invariant
                i <= self@.len(),
                ids@ == self@.take(i as int),
            decreases self@.len() - i,
        {
            ids.push(self.ids[i]);
            assert(self@.take(i + 1) =~= self@.take(i as int).push(self@[i as int]));
            i += 1;
        }
        assert(self@.take(self@.len() as int) =~= self@);
        Selection { ids }
    }

    /// Makes `id` the only selected id.
    pub fn select_only(&mut self, id: PointId)
        ensures
            final(self)@ == seq![id],
            final(self).wf(),
    {
        self.ids.clear();
        self.ids.push(id);
        assert(self@ =~= seq![id]);
    }

    /// The position where `id` is or would go.
    fn position(&self, id: PointId) -> (r: usize)
        requires
            self.wf(),
        ensures
            r <= self@.len(),
            forall|j: int| 0 <= j < r ==> id_lt(self@[j], id),
            forall|j: int| r <= j < self@.len() ==> !id_lt(self@[j], id),
    {
        let mut i: usize = 0;
        while i < self.ids.len() && id_less(self.ids[i], id)
            invariant
                self.wf(),
                i <= self@.len(),
                forall|j: int| 0 <= j < i ==> id_lt(self@[j], id),
            decreases self@.len() - i,
        {
            i += 1;
        }
        proof {
            assert forall|j: int| i <= j < self@.len() implies !id_lt(self@[j], id) by {
                if id_lt(self@[j], id) {
                    assert(!id_lt(self@[i as int], id));
                    assert(id_lt(self@[i as int], self@[j]) || i == j);
                }
            }
        }
        i
    }

    pub fn contains(&self, id: PointId) -> (r: bool)
        requires
            self.wf(),
        ensures
            r == self@.contains(id),
    {
        let i = self.position(id);
        if i < self.ids.len() && self.ids[i] == id {
            true
        } else {
            proof {
                assert forall|j: int| 0 <= j < self@.len() implies self@[j] != id by {
                    if j < i {
                        assert(id_lt(self@[j], id));
                    } else if j > i {
                        assert(id_lt(self@[i as int], self@[j]));
                        assert(!id_lt(self@[i as int], id));
                    }
                }
            }
            false
        }
    }

    /// Adds `id`; returns whether it was absent.
    pub fn insert(&mut self, id: PointId) -> (r: bool)
        requires
            old(self).wf(),
        ensures
            final(self).wf(),
            r == !old(self)@.contains(id),
            final(self).set() == old(self).set().insert(id),
    {
        let i = self.position(id);
        if i < self.ids.len() && self.ids[i] == id {
            proof {
                assert(self@.to_set() =~= old(self)@.to_set().insert(id));
            }
            false
        } else {
            let ghost s = self@;
            proof {
                assert forall|j: int| 0 <= j < s.len() implies s[j] != id by {
                    if j < i {
                        assert(id_lt(s[j], id));
                    } else if j > i {
                        assert(id_lt(s[i as int], s[j]));
                        assert(!id_lt(s[i as int], id));
                    }
                }
            }
            self.ids.insert(i, id);
            proof {
                assert(self@ =~= s.insert(i as int, id));
                assert forall|a: int, b: int| 0 <= a < b < self@.len() implies id_lt(self@[a], self@[b]) by {
                    if b < i {
                    } else if b == i {
                    } else if a < i {
                        assert(self@[b] == s[b - 1]);
                        if b - 1 >= i {
                            assert(!id_lt(s[b - 1], id));
                            assert(s[b - 1] != id);
                        }
                    } else if a == i {
                        assert(self@[b] == s[b - 1]);
                        assert(!id_lt(s[b - 1], id));
                        assert(s[b - 1] != id);
                    } else {
                        assert(self@[a] == s[a - 1]);
                        assert(self@[b] == s[b - 1]);
                    }
                }
                assert forall|x: PointId| self@.contains(x) <==> s.contains(x) || x == id by {
                    if self@.contains(x) {
                        let k = choose|k: int| 0 <= k < self@.len() && self@[k] == x;
                        if k < i {
                            assert(s[k] == x);
                        } else if k > i {
                            assert(s[k - 1] == x);
                        }
                    }
                    if s.contains(x) {
                        let k = choose|k: int| 0 <= k < s.len() && s[k] == x;
                        if k < i {
                            assert(self@[k] == x);
                        } else {
                            assert(self@[k + 1] == x);
                        }
                    }
                    if x == id {
                        assert(self@[i as int] == x);
                    }
                }
                assert forall|x: PointId| #[trigger] self@.to_set().contains(x) == s.to_set().insert(id).contains(x) by {
                    assert(self@.contains(x) <==> s.contains(x) || x == id);
                }
                assert(self@.to_set() =~= s.to_set().insert(id));
            }
            true
        }
    }

    /// Removes `id`; returns whether it was present.
    pub fn remove(&mut self, id: PointId) -> (r: bool)
        requires
            old(self).wf(),
        ensures
            final(self).wf(),
            r == old(self)@.contains(id),
            final(self).set() == old(self).set().remove(id),
    {
        let i = self.position(id);
        let ghost s = self@;
        if i < self.ids.len() && self.ids[i] == id {
            self.ids.remove(i);
            proof {
                assert(self@ =~= s.remove(i as int));
                assert forall|a: int, b: int| 0 <= a < b < self@.len() implies id_lt(self@[a], self@[b]) by {
                    let oa = if a < i { a } else { a + 1 };
                    let ob = if b < i { b } else { b + 1 };
                    assert(self@[a] == s[oa]);
                    assert(self@[b] == s[ob]);
                }
                assert forall|x: PointId| self@.contains(x) <==> s.contains(x) && x != id by {
                    if self@.contains(x) {
                        let k = choose|k: int| 0 <= k < self@.len() && self@[k] == x;
                        let ok = if k < i { k } else { k + 1 };
                        assert(s[ok] == x);
                        if ok != i {
                            assert(s[ok] != s[i as int]) by {
                                if ok < i {
                                    assert(id_lt(s[ok], s[i as int]));
                                } else {
                                    assert(id_lt(s[i as int], s[ok]));
                                }
                            }
                        }
                    }
                    if s.contains(x) && x != id {
                        let k = choose|k: int| 0 <= k < s.len() && s[k] == x;
                        if k < i {
                            assert(self@[k] == x);
                        } else {
                            assert(k != i);
                            assert(self@[k - 1] == x);
                        }
                    }
                }
                assert(self@.to_set() =~= s.to_set().remove(id));
            }
            true
        } else {
            proof {
                assert forall|j: int| 0 <= j < s.len() implies s[j] != id by {
                    if j < i {
                        assert(id_lt(s[j], id));
                    } else if j > i {
                        assert(id_lt(s[i as int], s[j]));
                        assert(!id_lt(s[i as int], id));
                    }
                }
                assert(s.to_set() =~= s.to_set().remove(id));
            }
            false
        }
    }
}

/// What a document is: its paths in order, its selection in increasing
/// order, the next free id number, and the viewport it is shown through.
pub ghost struct DocModel {
    pub paths: Seq<PathModel>,
    pub selection: Seq<PointId>,
    pub next: nat,
    pub vport: ViewPort,
}

/// The document with a new path started at `start`, its point selected.
pub open spec fn with_new_path(m: DocModel, start: DPoint) -> DocModel {
    if m.next + 2 < u64::MAX {
        let pid = PointId { path: m.next as u64, point: (m.next + 1) as u64 };
        DocModel {
            paths: m.paths.push(
                PathModel {
                    id: m.next as u64,
                    points: seq![PathPoint { id: pid, point: start, typ: PointType::OnCurve }],
                    trailing: None,
                    closed: false,
                },
            ),
            selection: seq![pid],
            next: m.next + 2,
            ..m
        }
    } else {
        m
    }
}

/// The document after a drag to `handle` on its active path.
pub open spec fn with_drag(m: DocModel, handle: DPoint) -> DocModel {
    match m.active() {
        Some(k) => if m.next + 2 < u64::MAX {
            let (pm, nx) = dragged(m.paths[k], m.next, handle);
            DocModel { paths: m.paths.update(k, pm), next: nx, ..m }
        } else {
            m
        },
        None => m,
    }
}

/// The document with the selected points nudged by `v`.
pub open spec fn with_nudge(m: DocModel, v: DVec2) -> DocModel {
    DocModel {
        paths: Seq::new(
            m.paths.len(),
            |k: int| PathModel { points: nudged(m.paths[k].points, m.selection, v), ..m.paths[k] },
        ),
        ..m
    }
}

/// The document with the active path's trailing handle dropped.
pub open spec fn with_trailing_cleared(m: DocModel) -> DocModel {
    match m.active() {
        Some(k) => DocModel {
            paths: m.paths.update(k, PathModel { trailing: None, ..m.paths[k] }),
            ..m
        },
        None => m,
    }
}

/// The first point, by path and then by point, drawn within the click
/// tolerance of `pos`.
pub open spec fn first_hit(m: DocModel, pos: ScreenPoint) -> Option<PathPoint> {
    if exists|a: int, b: int|
        0 <= a < m.paths.len() && 0 <= b < m.paths[a].points.len() && point_hit(m, pos, a, b) {
        let (a, b) = choose|a: int, b: int|
            0 <= a < m.paths.len() && 0 <= b < m.paths[a].points.len() && point_hit(m, pos, a, b)
                && forall|c: int, d: int|
                0 <= c < m.paths.len() && 0 <= d < m.paths[c].points.len() && before(c, d, a, b)
                    ==> !point_hit(m, pos, c, d);
        Some(m.paths[a].points[b])
    } else {
        None
    }
}

/// The point to select after `id` when stepping forward (`forward`) or back
/// along its path; `id` itself when it is on no path.
pub open spec fn step_target(m: DocModel, id: PointId, forward: bool) -> PointId {
    match m.active() {
        Some(k) => if has_id(m.paths[k].points, id) {
            let s = m.paths[k].points;
            let i = index_of_id(s, id);
            if forward {
                s[next_index(s.len() as int, i)].id
            } else {
                s[prev_index(s.len() as int, i)].id
            }
        } else {
            id
        },
        None => id,
    }
}

/// A rectangle in design space, edges included.
#[derive(Debug, Clone, Copy, PartialEq, Eq, Structural)]
pub struct DRect {
    pub x0: i64,
    pub y0: i64,
    pub x1: i64,
    pub y1: i64,
}

impl DRect {
    /// The rectangle with corners `a` and `b`.
    pub fn from_points(a: DPoint, b: DPoint) -> (r: DRect)
        ensures
            r.x0 == if a.x <= b.x { a.x } else { b.x },
            r.x1 == if a.x <= b.x { b.x } else { a.x },
            r.y0 == if a.y <= b.y { a.y } else { b.y },
            r.y1 == if a.y <= b.y { b.y } else { a.y },
    {
        DRect {
            x0: if a.x <= b.x { a.x } else { b.x },
            y0: if a.y <= b.y { a.y } else { b.y },
            x1: if a.x <= b.x { b.x } else { a.x },
            y1: if a.y <= b.y { b.y } else { a.y },
        }
    }

    pub open spec fn holds(self, p: DPoint) -> bool {
        self.x0 <= p.x <= self.x1 && self.y0 <= p.y <= self.y1
    }

    pub fn contains(&self, p: DPoint) -> (r: bool)
        ensures
            r == self.holds(p),
    {
        p.x >= self.x0 && p.x <= self.x1 && p.y >= self.y0 && p.y <= self.y1
    }
}

/// Whether point `b` of path `a` is drawn within the click tolerance of
/// screen position `pos`.
pub open spec fn point_hit(m: DocModel, pos: ScreenPoint, a: int, b: int) -> bool {
    screen_within(m.vport.to_screen_spec(m.paths[a].points[b].point), pos, MIN_POINT_DISTANCE as int)
}

/// A hit with no hit before it is the first hit.
pub proof fn lemma_first_hit_is(m: DocModel, pos: ScreenPoint, a: int, b: int)
    requires
        0 <= a < m.paths.len(),
        0 <= b < m.paths[a].points.len(),
        point_hit(m, pos, a, b),
        forall|c: int, d: int|
            0 <= c < m.paths.len() && 0 <= d < m.paths[c].points.len() && before(c, d, a, b)
                ==> !point_hit(m, pos, c, d),
    ensures
        first_hit(m, pos) == Some(m.paths[a].points[b]),
{
    let (a2, b2) = choose|a2: int, b2: int|
        0 <= a2 < m.paths.len() && 0 <= b2 < m.paths[a2].points.len() && point_hit(m, pos, a2, b2)
            && forall|c: int, d: int|
            0 <= c < m.paths.len() && 0 <= d < m.paths[c].points.len() && before(c, d, a2, b2)
                ==> !point_hit(m, pos, c, d);
    if before(a, b, a2, b2) {
    } else if before(a2, b2, a, b) {
    } else {
        assert(a == a2 && b == b2);
    }
}

/// Whether `(a, b)` comes before `(c, d)`: by path, then by point.
pub open spec fn before(a: int, b: int, c: int, d: int) -> bool {
    a < c || (a == c && b < d)
}

/// Whether one of the first `n` points of `s` has id `x` and lies in `rect`.
pub open spec fn id_in_rect(s: Seq<PathPoint>, n: int, rect: DRect, x: PointId) -> bool {
    exists|d: int| 0 <= d < n && d < s.len() && (#[trigger] s[d]).id == x && rect.holds(s[d].point)
}

/// Whether a point of one of the first `n` paths has id `x` and lies in `rect`.
pub open spec fn doc_in_rect(paths: Seq<PathModel>, n: int, rect: DRect, x: PointId) -> bool {
    exists|c: int|
        0 <= c < n && id_in_rect(#[trigger] paths[c].points, paths[c].points.len() as int, rect, x)
}

/// Whether path `k`'s curve passes within the click tolerance of screen
/// position `pos`.
pub open spec fn path_hit(m: DocModel, pos: ScreenPoint, k: int) -> bool {
    let d = m.vport.to_design_spec(pos);
    let els = m.paths[k].bezier();
    crate::hit::curve_near(
        els,
        els.len() as int,
        (d.x * 512, d.y * 512),
        m.vport.zoom_num as int,
        m.vport.zoom_den as int,
    )
}

/// What selecting the path under `pos` does: `r` says whether some path's
/// curve is near `pos`; if so, the first such path's points are added to the
/// selection (or, with `toggle`, flipped in it); if not, nothing changes.
pub open spec fn path_select_post(m0: DocModel, pos: ScreenPoint, toggle: bool, m1: DocModel, r: bool) -> bool {
    &&& m1.paths == m0.paths
    &&& m1.next == m0.next
    &&& m1.vport == m0.vport
    &&& r == exists|k: int| 0 <= k < m0.paths.len() && path_hit(m0, pos, k)
    &&& r ==> exists|k: int|
        0 <= k < m0.paths.len() && path_hit(m0, pos, k) && (forall|c: int|
            0 <= c < k ==> !path_hit(m0, pos, c)) && m1.selection.to_set() == if toggle {
            m0.selection.to_set().difference(ids_of(m0.paths[k].points)).union(
                ids_of(m0.paths[k].points).difference(m0.selection.to_set()),
            )
        } else {
            m0.selection.to_set().union(ids_of(m0.paths[k].points))
        }
    &&& !r ==> m1 == m0
}

/// The ids of the points of `s`, as a set.
pub open spec fn ids_of(s: Seq<PathPoint>) -> Set<PointId> {
    Set::new(|x: PointId| has_id(s, x))
}

/// Whether `id` is the id of some point of some path of `paths`.
pub open spec fn in_paths(paths: Seq<PathModel>, id: PointId) -> bool {
    exists|k: int| 0 <= k < paths.len() && has_id(#[trigger] paths[k].points, id)
}

impl DocModel {
    pub open spec fn wf(self) -> bool {
        &&& sorted_ids(self.selection)
        &&& self.vport.wf()
        &&& forall|k: int|
            0 <= k < self.paths.len() ==> {
                &&& (#[trigger] self.paths[k]).wf()
                &&& self.paths[k].ids_below(self.next)
                &&& self.paths[k].id < self.next
            }
        &&& forall|a: int, b: int|
            0 <= a < self.paths.len() && 0 <= b < self.paths.len() && a != b ==> self.paths[a].id
                != self.paths[b].id
    }

    /// The path holding the single selected point, when exactly one point
    /// is selected and its path exists.
    pub open spec fn active(self) -> Option<int> {
        if self.selection.len() == 1 && exists|k: int|
            0 <= k < self.paths.len() && self.paths[k].id == self.selection[0].path {
            Some(
                choose|k: int| 0 <= k < self.paths.len() && self.paths[k].id == self.selection[0].path,
            )
        } else {
            None
        }
    }
}

/// The document: paths, the selected points, and the id source.
#[derive(Debug)]
pub struct Contents {
    ids: IdGen,
    paths: Vec<Path>,
    selection: Selection,
    vport: ViewPort,
}

impl View for Contents {
    type V = DocModel;

    closed spec fn view(&self) -> DocModel {
        DocModel {
            paths: self.paths@.map_values(|p: Path| p@),
            selection: self.selection@,
            next: self.ids@,
            vport: self.vport,
        }
    }
}

impl Contents {
    pub open spec fn wf(&self) -> bool {
        self@.wf()
    }

    /// An empty document seen through `vport`.
    pub fn new(vport: ViewPort) -> (r: Contents)
        requires
            vport.wf(),
        ensures
            r.wf(),
            r@.paths.len() == 0,
            r@.selection.len() == 0,
            r@.vport == vport,
    {
        let r = Contents { ids: IdGen::new(), paths: Vec::new(), selection: Selection::new(), vport };
        assert(r@.paths =~= Seq::<PathModel>::empty());
        r
    }

    pub fn vport(&self) -> (r: ViewPort)
        ensures
            r == self@.vport,
    {
        self.vport
    }

    pub fn set_vport(&mut self, vport: ViewPort)
        requires
            old(self).wf(),
            vport.wf(),
        ensures
            final(self).wf(),
            final(self)@ == (DocModel { vport, ..old(self)@ }),
    {
        self.vport = vport;
    }

    pub fn paths(&self) -> (r: &[Path])
        ensures
            r@.map_values(|p: Path| p@) == self@.paths,
    {
        self.paths.as_slice()
    }

    pub fn selection(&self) -> (r: &Selection)
        ensures
            r@ == self@.selection,
    {
        &self.selection
    }

    /// Empties the selection.
    pub fn clear_selection(&mut self)
        requires
            old(self).wf(),
        ensures
            final(self).wf(),
            final(self)@ == (DocModel { selection: Seq::empty(), ..old(self)@ }),
    {
        self.selection.clear();
    }

    /// Makes `id` the only selected point.
    pub fn select_only(&mut self, id: PointId)
        requires
            old(self).wf(),
        ensures
            final(self).wf(),
            final(self)@ == (DocModel { selection: seq![id], ..old(self)@ }),
    {
        self.selection.select_only(id);
    }

    /// Replaces the selection.
    pub fn set_selection(&mut self, selection: Selection)
        requires
            old(self).wf(),
            selection.wf(),
        ensures
            final(self).wf(),
            final(self)@ == (DocModel { selection: selection@, ..old(self)@ }),
    {
        self.selection = selection;
    }

    /// Adds `id` to the selection, or, when `toggle` holds and it is already
    /// there, takes it out.
    pub fn toggle_selected(&mut self, id: PointId, toggle: bool)
        requires
            old(self).wf(),
        ensures
            final(self).wf(),
            final(self)@.paths == old(self)@.paths,
            final(self)@.next == old(self)@.next,
            final(self)@.vport == old(self)@.vport,
            final(self)@.selection.to_set() == if toggle && old(self)@.selection.contains(id) {
                old(self)@.selection.to_set().remove(id)
            } else {
                old(self)@.selection.to_set().insert(id)
            },
    {
        if !self.selection.insert(id) && toggle {
            self.selection.remove(id);
        }
    }

    /// The index of the path holding the single selected point.
    pub fn active_path_idx(&self) -> (r: Option<usize>)
        requires
            self.wf(),
        ensures
            match r {
                Some(k) => self@.active() == Some(k as int) && k < self@.paths.len(),
                None => self@.active() is None,
            },
    {
        if self.selection.len() != 1 {
            return None;
        }
        let sel = self.selection.get(0);
        let mut k: usize = 0;
        while k < self.paths.len()
            invariant
                self.wf(),
                self.selection@.len() == 1,
                sel == self@.selection[0],
                k <= self@.paths.len(),
                forall|j: int| 0 <= j < k ==> self@.paths[j].id != sel.path,
            decreases self@.paths.len() - k,
        {
            if self.paths[k].id() == sel.path {
                proof {
                    assert(self@.paths[k as int].id == sel.path);
                    let c = choose|c: int| 0 <= c < self@.paths.len() && self@.paths[c].id == sel.path;
                    assert(c == k);
                }
                return Some(k);
            }
            k += 1;
        }
        None
    }

    /// Starts a new path at `start` and selects its point. Does nothing when
    /// the ids are used up.
    pub fn new_path(&mut self, start: DPoint)
        requires
            old(self).wf(),
            start.wf(),
        ensures
            final(self).wf(),
            final(self)@ == with_new_path(old(self)@, start),
    {
        if !self.ids.has_room(2) {
            return;
        }
        let path_id = self.ids.fresh();
        let point_id = self.ids.fresh();
        let path = Path::new(path_id, point_id, start);
        let ghost before = self@.paths;
        self.paths.push(path);
        self.selection.select_only(PointId { path: path_id, point: point_id });
        proof {
            assert(self@.paths =~= before.push(path@));
            assert(self@ == with_new_path(old(self)@, start));
        }
    }

    /// Adds a point at `point`: to the active path when exactly one point is
    /// selected (possibly closing it), else as the start of a new path. The
    /// point affected becomes the only selected one. Does nothing when the
    /// ids are used up.
    pub fn add_point(&mut self, point: DPoint)
        requires
            old(self).wf(),
            point.wf(),
        ensures
            final(self).wf(),
            final(self)@ == match old(self)@.active() {
                None => with_new_path(old(self)@, point),
                Some(k) => if old(self)@.next + 2 < u64::MAX {
                    let (pm, id, nx) = appended(old(self)@.paths[k], old(self)@.next, point);
                    DocModel {
                        paths: old(self)@.paths.update(k, pm),
                        selection: seq![id],
                        next: nx,
                        ..old(self)@
                    }
                } else {
                    old(self)@
                },
            },
    {
        match self.active_path_idx() {
            None => self.new_path(point),
            Some(k) => {
                if !self.ids.has_room(2) {
                    return;
                }
                let ghost m = self@;
                assert(m.paths[k as int].wf());
                let mut p = self.paths.remove(k);
                assert(p@ == m.paths[k as int]);
                let id = p.append_point(&mut self.ids, point);
                self.paths.insert(k, p);
                self.selection.select_only(id);
                proof {
                    assert(self@.paths =~= m.paths.update(k as int, p@));
                    assert forall|j: int| 0 <= j < self@.paths.len() implies {
                        &&& (#[trigger] self@.paths[j]).wf()
                        &&& self@.paths[j].ids_below(self@.next)
                        &&& self@.paths[j].id < self@.next
                    } by {
                        if j != k {
                            assert(m.paths[j].ids_below(m.next));
                            assert forall|i: int| 0 <= i < self@.paths[j].points.len() implies
                                (#[trigger] self@.paths[j].points[i]).id.point < self@.next by {
                                assert(m.paths[j].points[i].id.point < m.next);
                            }
                        }
                    }
                }
            },
        }
    }

    /// Continues a drag to `handle` on the active path (see
    /// [`Path::update_for_drag`]). Does nothing without an active path, or
    /// when the ids are used up.
    pub fn update_for_drag(&mut self, handle: DPoint)
        requires
            old(self).wf(),
            handle.wf(),
        ensures
            final(self).wf(),
            final(self)@ == with_drag(old(self)@, handle),
    {
        match self.active_path_idx() {
            None => {},
            Some(k) => {
                if !self.ids.has_room(2) {
                    return;
                }
                let ghost m = self@;
                assert(m.paths[k as int].wf());
                let mut p = self.paths.remove(k);
                assert(p@ == m.paths[k as int]);
                p.update_for_drag(&mut self.ids, handle);
                self.paths.insert(k, p);
                proof {
                    assert(self@.paths =~= m.paths.update(k as int, p@));
                    assert forall|j: int| 0 <= j < self@.paths.len() implies {
                        &&& (#[trigger] self@.paths[j]).wf()
                        &&& self@.paths[j].ids_below(self@.next)
                        &&& self@.paths[j].id < self@.next
                    } by {
                        if j != k {
                            assert(m.paths[j].ids_below(m.next));
                            assert forall|i: int| 0 <= i < self@.paths[j].points.len() implies
                                (#[trigger] self@.paths[j].points[i]).id.point < self@.next by {
                                assert(m.paths[j].points[i].id.point < m.next);
                            }
                        }
                    }
                }
            },
        }
    }

    /// When a single point is selected, switches it between corner and
    /// smooth (see [`Path::toggle_on_curve_point_type`]).
    pub fn toggle_selected_on_curve_type(&mut self)
        requires
            old(self).wf(),
        ensures
            final(self).wf(),
            final(self)@ == match old(self)@.active() {
                Some(k) => if has_id(old(self)@.paths[k].points, old(self)@.selection[0]) {
                    DocModel {
                        paths: old(self)@.paths.update(k, toggled(old(self)@.paths[k], old(self)@.selection[0])),
                        ..old(self)@
                    }
                } else {
                    old(self)@
                },
                None => old(self)@,
            },
    {
        match self.active_path_idx() {
            None => {},
            Some(k) => {
                let id = self.selection.get(0);
                assert(self.paths@[k as int]@ == self@.paths[k as int]);
                if self.paths[k].idx_for_point(id).is_none() {
                    return;
                }
                let ghost m = self@;
                assert(m.paths[k as int].wf());
                let mut p = self.paths.remove(k);
                assert(p@ == m.paths[k as int]);
                p.toggle_on_curve_point_type(id);
                self.paths.insert(k, p);
                proof {
                    assert(self@.paths =~= m.paths.update(k as int, p@));
                    assert(p@.points.len() == m.paths[k as int].points.len());
                    assert forall|i: int| 0 <= i < p@.points.len() implies
                        (#[trigger] p@.points[i]).id.point < m.next by {
                        assert(p@.points[i].id == m.paths[k as int].points[i].id);
                        assert(m.paths[k as int].ids_below(m.next));
                    }
                }
            },
        }
    }

    /// Moves the selected points by `v`, each path moving its own (see
    /// [`Path::nudge_points`]).
    pub fn nudge_selection(&mut self, v: DVec2)
        requires
            old(self).wf(),
        ensures
            final(self).wf(),
            final(self)@ == with_nudge(old(self)@, v),
    {
        let ghost m = self@;
        let ghost target = Seq::new(
            m.paths.len(),
            |k: int| PathModel { points: nudged(m.paths[k].points, m.selection, v), ..m.paths[k] },
        );
        let n = self.paths.len();
        let mut k: usize = 0;
        while k < n
            invariant
                m.wf(),
                n == m.paths.len(),
                target.len() == n,
                forall|j: int| 0 <= j < n ==> #[trigger] target[j] == (PathModel { points: nudged(m.paths[j].points, m.selection, v), ..m.paths[j] }),
                k <= n,
                self@.paths.len() == n,
                self@.selection == m.selection,
                self@.next == m.next,
                self@.vport == m.vport,
                forall|j: int|
                    0 <= j < k ==> self@.paths[j] == target[j] && self@.paths[j].wf()
                        && self@.paths[j].ids_below(m.next),
                forall|j: int| k <= j < n ==> self@.paths[j] == m.paths[j],
            decreases n - k,
        {
            let ghost before = self@.paths;
            assert(m.paths[k as int].wf());
            let mut p = self.paths.remove(k);
            assert(p@ == m.paths[k as int]);
            p.nudge_points(self.selection.as_slice(), v);
            self.paths.insert(k, p);
            proof {
                assert(self@.paths =~= before.update(k as int, p@));
                assert(m.paths[k as int].ids_below(m.next));
                assert forall|i: int| 0 <= i < p@.points.len() implies
                    (#[trigger] p@.points[i]).id.point < m.next by {
                    assert(p@.points[i].id == m.paths[k as int].points[i].id);
                }
            }
            k += 1;
        }
        proof {
            assert(self@.paths =~= target);
            assert(self@ =~= with_nudge(m, v));
        }
    }

    /// Deletes the selected points from each path (see
    /// [`Path::delete_points`]) and removes the paths left empty. The
    /// selection ends up empty.
    pub fn delete_selection(&mut self)
        requires
            old(self).wf(),
        ensures
            final(self).wf(),
            final(self)@.selection.len() == 0,
            forall|x: PointId| final(self)@.selection.contains(x) ==> in_paths(final(self)@.paths, x),
            final(self)@.next == old(self)@.next,
            final(self)@.vport == old(self)@.vport,
            final(self)@.paths == old(self)@.paths.map_values(
                |m: PathModel| delete_all(m, old(self)@.selection),
            ).filter(|m: PathModel| m.points.len() > 0),
    {
        let ghost m = self@;
        let ghost mapped = m.paths.map_values(|pm: PathModel| delete_all(pm, m.selection));
        let ghost f = |pm: PathModel| pm.points.len() > 0;
        let mut kept: Vec<Path> = Vec::new();
        let n = self.paths.len();
        let mut k: usize = 0;
        proof {
            reveal(Seq::filter);
            assert(mapped.take(0).filter(f) =~= Seq::<PathModel>::empty());
        }
        while k < n
            invariant
                m.wf(),
                n == m.paths.len(),
                mapped.len() == n,
                mapped == m.paths.map_values(|pm: PathModel| delete_all(pm, m.selection)),
                f == (|pm: PathModel| pm.points.len() > 0),
                k <= n,
                self.selection@ == m.selection,
                self.ids@ == m.next,
                self.vport == m.vport,
                self.paths@.len() == n - k,
                forall|j: int| 0 <= j < n - k ==> self.paths@[j]@ == m.paths[j + k],
                kept@.map_values(|p: Path| p@) == mapped.take(k as int).filter(f),
                forall|j: int|
                    0 <= j < kept@.len() ==> {
                        &&& (#[trigger] kept@[j])@.wf()
                        &&& kept@[j]@.ids_below(m.next)
                        &&& kept@[j]@.id < m.next
                        &&& exists|i: int| 0 <= i < k && kept@[j]@.id == m.paths[i].id
                    },
                forall|a: int, b: int|
                    0 <= a < kept@.len() && 0 <= b < kept@.len() && a != b ==> kept@[a]@.id
                        != kept@[b]@.id,
            decreases n - k,
        {
            let ghost before = self.paths@;
            let mut p = self.paths.remove(0);
            proof {
                assert(p@ == m.paths[k as int]);
                assert(m.paths[k as int].wf());
            }
            p.delete_points(self.selection.as_slice());
            proof {
                assert(mapped[k as int] == delete_all(m.paths[k as int], m.selection));
                assert(p@ == mapped[k as int]);
                reveal(Seq::filter);
                assert(mapped.take(k + 1).drop_last() =~= mapped.take(k as int));
                assert forall|j: int| 0 <= j < n - (k + 1) implies self.paths@[j]@ == m.paths[j + k + 1] by {
                    assert(self.paths@[j] == before[j + 1]);
                }
            }
            if p.len() > 0 {
                let ghost kb = kept@;
                proof {
                    assert(m.paths[k as int].ids_below(m.next));
                    assert forall|i: int| 0 <= i < p@.points.len() implies
                        (#[trigger] p@.points[i]).id.point < m.next by {
                        assert(crate::path::has_point(m.paths[k as int].points, p@.points[i]));
                    }
                    assert forall|j: int| 0 <= j < kb.len() implies kb[j]@.id != p@.id by {
                        let i = choose|i: int| 0 <= i < k && kb[j]@.id == m.paths[i].id;
                        assert(m.paths[i].id != m.paths[k as int].id);
                    }
                }
                kept.push(p);
                proof {
                    assert(kept@.map_values(|q: Path| q@) =~= kb.map_values(|q: Path| q@).push(p@));
                    assert forall|j: int| 0 <= j < kept@.len() implies {
                        &&& (#[trigger] kept@[j])@.wf()
                        &&& kept@[j]@.ids_below(m.next)
                        &&& kept@[j]@.id < m.next
                        &&& exists|i: int| 0 <= i < k + 1 && kept@[j]@.id == m.paths[i].id
                    } by {
                        if j < kb.len() {
                            assert(kept@[j] == kb[j]);
                        } else {
                            assert(kept@[j] == p);
                            assert(kept@[j]@.id == m.paths[k as int].id);
                        }
                    }
                }
            }
            k += 1;
        }
        proof {
            assert(mapped.take(n as int) =~= mapped);
        }
        self.paths = kept;
        self.selection.clear();
    }

    /// Selects every point of every path.
    pub fn select_all(&mut self)
        requires
            old(self).wf(),
        ensures
            final(self).wf(),
            final(self)@.selection.to_set() == Set::new(|x: PointId| in_paths(old(self)@.paths, x)),
            final(self)@.paths == old(self)@.paths,
            final(self)@.next == old(self)@.next,
            final(self)@.vport == old(self)@.vport,
    {
        let ghost m = self@;
        let mut sel = Selection::new();
        let n = self.paths.len();
        let mut k: usize = 0;
        while k < n
            invariant
                self@ == m,
                n == m.paths.len(),
                k <= n,
                sel.wf(),
                sel.set() == Set::new(
                    |x: PointId| exists|a: int| 0 <= a < k && has_id(#[trigger] m.paths[a].points, x),
                ),
            decreases n - k,
        {
            let pts = self.paths[k].points();
            let ghost before = sel.set();
            let mut i: usize = 0;
            while i < pts.len()
                invariant
                    pts@ == m.paths[k as int].points,
                    i <= pts@.len(),
                    sel.wf(),
                    sel.set() == before.union(Set::new(|x: PointId| has_id(pts@.take(i as int), x))),
                decreases pts@.len() - i,
            {
                sel.insert(pts[i].id);
                proof {
                    assert forall|x: PointId| #[trigger] has_id(pts@.take(i + 1), x) == (has_id(
                        pts@.take(i as int),
                        x,
                    ) || x == pts@[i as int].id) by {
                        if has_id(pts@.take(i + 1), x) {
                            let b = choose|b: int| 0 <= b < i + 1 && (#[trigger] pts@.take(i + 1)[b]).id == x;
                            if b < i {
                                assert(pts@.take(i as int)[b] == pts@[b]);
                            }
                        }
                        if has_id(pts@.take(i as int), x) {
                            let b = choose|b: int| 0 <= b < i && (#[trigger] pts@.take(i as int)[b]).id == x;
                            assert(pts@.take(i + 1)[b] == pts@[b]);
                        }
                        if x == pts@[i as int].id {
                            assert(pts@.take(i + 1)[i as int] == pts@[i as int]);
                        }
                    }
                    assert(sel.set() =~= before.union(
                        Set::new(|x: PointId| has_id(pts@.take(i + 1), x)),
                    ));
                }
                i += 1;
            }
            proof {
                assert(pts@.take(pts@.len() as int) =~= pts@);
            }
            proof {
                assert(sel.set() =~= Set::new(
                    |x: PointId| exists|a: int| 0 <= a < k + 1 && has_id(#[trigger] m.paths[a].points, x),
                )) by {
                    assert forall|x: PointId| (exists|a: int| 0 <= a < k + 1 && has_id(#[trigger] m.paths[a].points, x))
                        <==> ((exists|a: int| 0 <= a < k && has_id(#[trigger] m.paths[a].points, x))
                            || has_id(pts@, x)) by {
                        if exists|a: int| 0 <= a < k + 1 && has_id(#[trigger] m.paths[a].points, x) {
                            let a = choose|a: int| 0 <= a < k + 1 && has_id(#[trigger] m.paths[a].points, x);
                        }
                        if has_id(pts@, x) {
                            assert(has_id(m.paths[k as int].points, x));
                        }
                    }
                }
            }
            k += 1;
        }
        proof {
            assert(sel.set() =~= Set::new(|x: PointId| in_paths(m.paths, x)));
        }
        self.selection = sel;
    }

    fn step_selection(&mut self, forward: bool)
        requires
            old(self).wf(),
        ensures
            final(self).wf(),
            final(self)@ == if old(self)@.selection.len() == 1 {
                DocModel {
                    selection: seq![step_target(old(self)@, old(self)@.selection[0], forward)],
                    ..old(self)@
                }
            } else {
                old(self)@
            },
    {
        if self.selection.len() != 1 {
            return;
        }
        let id = self.selection.get(0);
        let target = match self.active_path_idx() {
            Some(k) => {
                assert(self.paths@[k as int]@ == self@.paths[k as int]);
                if self.paths[k].idx_for_point(id).is_some() {
                    if forward {
                        self.paths[k].next_point(id).id
                    } else {
                        self.paths[k].prev_point(id).id
                    }
                } else {
                    id
                }
            },
            None => id,
        };
        self.selection.select_only(target);
    }

    /// When a single point is selected, selects the next point on its path
    /// instead, wrapping around.
    pub fn select_next(&mut self)
        requires
            old(self).wf(),
        ensures
            final(self).wf(),
            final(self)@ == if old(self)@.selection.len() == 1 {
                DocModel {
                    selection: seq![step_target(old(self)@, old(self)@.selection[0], true)],
                    ..old(self)@
                }
            } else {
                old(self)@
            },
    {
        self.step_selection(true);
    }

    /// When a single point is selected, selects the previous point on its
    /// path instead, wrapping around.
    pub fn select_prev(&mut self)
        requires
            old(self).wf(),
        ensures
            final(self).wf(),
            final(self)@ == if old(self)@.selection.len() == 1 {
                DocModel {
                    selection: seq![step_target(old(self)@, old(self)@.selection[0], false)],
                    ..old(self)@
                }
            } else {
                old(self)@
            },
    {
        self.step_selection(false);
    }

    /// The first point, by path and then by point, drawn within the click
    /// tolerance of `pos`.
    pub fn hit_point(&self, pos: ScreenPoint) -> (r: Option<PathPoint>)
        requires
            self.wf(),
            pos.wf(),
        ensures
            match r {
                Some(p) => exists|a: int, b: int|
                    0 <= a < self@.paths.len() && 0 <= b < self@.paths[a].points.len()
                        && self@.paths[a].points[b] == p && point_hit(self@, pos, a, b)
                        && forall|c: int, d: int|
                        0 <= c < self@.paths.len() && 0 <= d < self@.paths[c].points.len()
                            && before(c, d, a, b) ==> !point_hit(self@, pos, c, d),
                None => forall|c: int, d: int|
                    0 <= c < self@.paths.len() && 0 <= d < self@.paths[c].points.len()
                        ==> !point_hit(self@, pos, c, d),
            },
            r == first_hit(self@, pos),
    {
        let n = self.paths.len();
        let mut a: usize = 0;
        while a < n
            invariant
                self.wf(),
                pos.wf(),
                n == self@.paths.len(),
                a <= n,
                forall|c: int, d: int|
                    0 <= c < a && 0 <= d < self@.paths[c].points.len() ==> !point_hit(self@, pos, c, d),
            decreases n - a,
        {
            assert(self.paths@[a as int]@ == self@.paths[a as int]);
            assert(self@.paths[a as int].wf());
            let pts = self.paths[a].points();
            let mut b: usize = 0;
            while b < pts.len()
                invariant
                    self.wf(),
                    pos.wf(),
                    n == self@.paths.len(),
                    a < n,
                    pts@ == self@.paths[a as int].points,
                    self@.paths[a as int].wf(),
                    b <= pts@.len(),
                    forall|c: int, d: int|
                        0 <= c < a && 0 <= d < self@.paths[c].points.len() ==> !point_hit(self@, pos, c, d),
                    forall|d: int| 0 <= d < b ==> !point_hit(self@, pos, a as int, d),
                decreases pts@.len() - b,
            {
                assert(pts@[b as int].point.wf());
                let sp = self.vport.design_to_screen(pts[b].point);
                if screen_dist_within(sp, pos, MIN_POINT_DISTANCE) {
                    assert(point_hit(self@, pos, a as int, b as int));
                    proof {
                        lemma_first_hit_is(self@, pos, a as int, b as int);
                    }
                    return Some(pts[b]);
                }
                b += 1;
            }
            a += 1;
        }
        None
    }

    /// The ids of the points inside `rect`.
    pub fn points_in_rect(&self, rect: DRect) -> (r: Selection)
        requires
            self.wf(),
        ensures
            r.wf(),
            r.set() == Set::new(|x: PointId| doc_in_rect(self@.paths, self@.paths.len() as int, rect, x)),
    {
        let mut sel = Selection::new();
        let n = self.paths.len();
        let mut a: usize = 0;
        proof {
            assert(sel.set() =~= Set::new(|x: PointId| doc_in_rect(self@.paths, 0, rect, x)));
        }
        while a < n
            invariant
                n == self@.paths.len(),
                a <= n,
                sel.wf(),
                sel.set() == Set::new(|x: PointId| doc_in_rect(self@.paths, a as int, rect, x)),
            decreases n - a,
        {
            assert(self.paths@[a as int]@ == self@.paths[a as int]);
            let pts = self.paths[a].points();
            let ghost before_set = sel.set();
            let mut b: usize = 0;
            proof {
                assert(sel.set() =~= before_set.union(Set::new(|x: PointId| id_in_rect(pts@, 0, rect, x))));
            }
            while b < pts.len()
                invariant
                    n == self@.paths.len(),
                    a < n,
                    pts@ == self@.paths[a as int].points,
                    b <= pts@.len(),
                    sel.wf(),
                    sel.set() == before_set.union(Set::new(|x: PointId| id_in_rect(pts@, b as int, rect, x))),
                decreases pts@.len() - b,
            {
                if rect.contains(pts[b].point) {
                    sel.insert(pts[b].id);
                }
                proof {
                    assert forall|x: PointId| #[trigger] id_in_rect(pts@, b + 1, rect, x) == (id_in_rect(
                        pts@,
                        b as int,
                        rect,
                        x,
                    ) || (x == pts@[b as int].id && rect.holds(pts@[b as int].point))) by {
                        if id_in_rect(pts@, b + 1, rect, x) {
                            let d = choose|d: int|
                                0 <= d < b + 1 && d < pts@.len() && (#[trigger] pts@[d]).id == x && rect.holds(pts@[d].point);
                        }
                    }
                    assert(sel.set() =~= before_set.union(Set::new(|x: PointId| id_in_rect(pts@, b + 1, rect, x))));
                }
                b += 1;
            }
            proof {
                assert forall|x: PointId| #[trigger] doc_in_rect(self@.paths, a + 1, rect, x) == (doc_in_rect(
                    self@.paths,
                    a as int,
                    rect,
                    x,
                ) || id_in_rect(pts@, pts@.len() as int, rect, x)) by {
                    if doc_in_rect(self@.paths, a + 1, rect, x) {
                        let c = choose|c: int|
                            0 <= c < a + 1 && id_in_rect(#[trigger] self@.paths[c].points, self@.paths[c].points.len() as int, rect, x);
                    }
                    if id_in_rect(pts@, pts@.len() as int, rect, x) {
                        assert(id_in_rect(self@.paths[a as int].points, self@.paths[a as int].points.len() as int, rect, x));
                    }
                }
                assert(sel.set() =~= Set::new(|x: PointId| doc_in_rect(self@.paths, a + 1, rect, x)));
            }
            a += 1;
        }
        sel
    }

    /// The active path, when there is one.
    pub fn active_path(&self) -> (r: Option<&Path>)
        requires
            self.wf(),
        ensures
            match r {
                Some(p) => self@.active() is Some && p@ == self@.paths[self@.active().unwrap()],
                None => self@.active() is None,
            },
    {
        match self.active_path_idx() {
            Some(k) => Some(&self.paths[k]),
            None => None,
        }
    }

    /// Drops the trailing handle of the active path.
    pub fn clear_active_trailing(&mut self)
        requires
            old(self).wf(),
        ensures
            final(self).wf(),
            final(self)@ == with_trailing_cleared(old(self)@),
    {
        match self.active_path_idx() {
            None => {},
            Some(k) => {
                let ghost m = self@;
                let mut p = self.paths.remove(k);
                assert(p@ == m.paths[k as int]);
                p.clear_trailing();
                self.paths.insert(k, p);
                proof {
                    assert(self@.paths =~= m.paths.update(k as int, p@));
                    assert(m.paths[k as int].wf());
                    assert(m.paths[k as int].ids_below(m.next));
                }
            },
        }
    }

    /// Selects every point of the first path whose curve passes within the
    /// click tolerance of `pos`; with `toggle`, each of those points flips
    /// in or out of the selection instead. Returns whether a path was hit.
    pub fn select_path(&mut self, pos: ScreenPoint, toggle: bool) -> (r: bool)
        requires
            old(self).wf(),
            pos.wf(),
        ensures
            final(self).wf(),
            final(self)@.paths == old(self)@.paths,
            final(self)@.next == old(self)@.next,
            final(self)@.vport == old(self)@.vport,
            path_select_post(old(self)@, pos, toggle, final(self)@, r),
    {
        let ghost m = self@;
        let d = self.vport.screen_to_design(pos);
        let p: (i64, i64) = (d.x * 512, d.y * 512);
        let n = self.paths.len();
        let mut k: usize = 0;
        while k < n
            invariant
                self@ == m,
                m == old(self)@,
                m.wf(),
                pos.wf(),
                d == m.vport.to_design_spec(pos),
                p.0 == d.x * 512 && p.1 == d.y * 512,
                d.wf(),
                n == m.paths.len(),
                k <= n,
                forall|c: int| 0 <= c < k ==> !path_hit(m, pos, c),
            decreases n - k,
        {
            assert(self.paths@[k as int]@ == m.paths[k as int]);
            assert(m.paths[k as int].wf());
            let els = self.paths[k].bezier();
            if crate::hit::curve_hit(&els, p, self.vport.zoom_num, self.vport.zoom_den) {
                assert(path_hit(m, pos, k as int));
                let pts = self.paths[k].points();
                let ghost old_sel = m.selection.to_set();
                let mut i: usize = 0;
                while i < pts.len()
                    invariant
                        m == old(self)@,
                        k < m.paths.len(),
                        m.wf(),
                        self@ == (DocModel { selection: self@.selection, ..m }),
                        pts@ == m.paths[k as int].points,
                        crate::path::ids_distinct(pts@),
                        i <= pts@.len(),
                        self.selection.wf(),
                        old_sel == m.selection.to_set(),
                        self.selection.set() == if toggle {
                            old_sel.difference(ids_of(pts@.take(i as int))).union(
                                ids_of(pts@.take(i as int)).difference(old_sel),
                            )
                        } else {
                            old_sel.union(ids_of(pts@.take(i as int)))
                        },
                    decreases pts@.len() - i,
                {
                    let id = pts[i].id;
                    let ghost before = self.selection.set();
                    proof {
                        lemma_ids_take_push(pts@, i as int);
                    }
                    if !self.selection.insert(id) && toggle {
                        self.selection.remove(id);
                    }
                    proof {
                        assert(!ids_of(pts@.take(i as int)).contains(id));
                        if toggle {
                            assert(before.contains(id) == old_sel.contains(id));
                            assert(self.selection.set() =~= old_sel.difference(ids_of(pts@.take(i + 1))).union(
                                ids_of(pts@.take(i + 1)).difference(old_sel),
                            ));
                        } else {
                            assert(self.selection.set() =~= old_sel.union(ids_of(pts@.take(i + 1))));
                        }
                    }
                    i += 1;
                }
                proof {
                    assert(pts@.take(pts@.len() as int) =~= pts@);
                    assert(self@.paths == m.paths);
                }
                return true;
            }
            k += 1;
        }
        false
    }
}

} // verus!
