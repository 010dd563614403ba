//! The path model: an ordered sequence of identity-stable curve points that
//! forms one open or closed path.
use crate::geom::{tangent_partner, tangent_partner_of, DPoint, DVec2};
use vstd::prelude::*;

verus! {

/// A point's identity: the path it belongs to, and a number drawn once from
/// an [`IdGen`]. Ordering groups points by path, then by creation.
#[derive(Debug, Clone, Copy, PartialEq, Eq, PartialOrd, Ord, Hash, Structural)]
pub struct PointId {
    pub path: u64,
    pub point: u64,
}

#[derive(Debug, Clone, Copy, PartialEq, Eq, Structural)]
pub enum PointType {
    /// An on-curve corner.
    OnCurve,
    /// An on-curve point whose two handles are kept collinear.
    OnCurveSmooth,
    /// A control point.
    OffCurve,
}

impl PointType {
    pub open spec fn on_curve(self) -> bool {
        self != PointType::OffCurve
    }

    pub fn is_on_curve(self) -> (r: bool)
        ensures
            r == self.on_curve(),
    {
        match self {
            PointType::OnCurve | PointType::OnCurveSmooth => true,
            PointType::OffCurve => false,
        }
    }
}

#[derive(Debug, Clone, Copy, PartialEq, Eq, Structural)]
pub struct PathPoint {
    pub id: PointId,
    pub point: DPoint,
    pub typ: PointType,
}

impl PathPoint {
    pub open spec fn on_curve(self) -> bool {
        self.typ.on_curve()
    }

    pub fn is_on_curve(&self) -> (r: bool)
        ensures
            r == self.on_curve(),
    {
        self.typ.is_on_curve()
    }
}

/// The source of fresh identifiers: each number is handed out once.
#[derive(Debug)]
pub struct IdGen {
    next: u64,
}

impl View for IdGen {
    type V = nat;

    closed spec fn view(&self) -> nat {
        self.next as nat
    }
}

impl IdGen {
    pub fn new() -> (r: IdGen)
        ensures
            r@ == 0,
    {
        IdGen { next: 0 }
    }

    /// Whether `n` more identifiers can be handed out.
    pub fn has_room(&self, n: u64) -> (r: bool)
        ensures
            r == (self@ + n < u64::MAX),
    {
        self.next < u64::MAX - n
    }

    pub fn fresh(&mut self) -> (r: u64)
        requires
            old(self)@ < u64::MAX,
        ensures
            r == old(self)@,
            final(self)@ == old(self)@ + 1,
    {
        let r = self.next;
        self.next = self.next + 1;
        r
    }
}

/// One drawing command of a path's curve, in design space.
#[derive(Debug, Clone, Copy, PartialEq, Eq, Structural)]
pub enum PathEl {
    MoveTo(DPoint),
    LineTo(DPoint),
    CurveTo(DPoint, DPoint, DPoint),
    ClosePath,
}

impl PathEl {
    /// Every point the command names lies in the design range.
    pub open spec fn points_wf(self) -> bool {
        match self {
            PathEl::MoveTo(q) => q.wf(),
            PathEl::LineTo(q) => q.wf(),
            PathEl::CurveTo(a, b, q) => a.wf() && b.wf() && q.wf(),
            PathEl::ClosePath => true,
        }
    }
}

/// What a path is: its id, its points in order, the handle being dragged, and
/// whether it is closed.
pub ghost struct PathModel {
    pub id: u64,
    pub points: Seq<PathPoint>,
    pub trailing: Option<DPoint>,
    pub closed: bool,
}

#[derive(Debug, Clone)]
pub struct Path {
    id: u64,
    points: Vec<PathPoint>,
    trailing: Option<DPoint>,
    closed: bool,
}

impl View for Path {
    type V = PathModel;

    closed spec fn view(&self) -> PathModel {
        PathModel {
            id: self.id,
            points: self.points@,
            trailing: self.trailing,
            closed: self.closed,
        }
    }
}

/// The index before `i` in a cyclic sequence of length `n`.
pub open spec fn prev_index(n: int, i: int) -> int {
    if i == 0 {
        n - 1
    } else {
        i - 1
    }
}

/// The index after `i` in a cyclic sequence of length `n`.
pub open spec fn next_index(n: int, i: int) -> int {
    if i + 1 == n {
        0
    } else {
        i + 1
    }
}

/// No two points share an id.
pub open spec fn ids_distinct(s: Seq<PathPoint>) -> bool {
    forall|i: int, j: int| 0 <= i < s.len() && 0 <= j < s.len() && i != j ==> s[i].id != s[j].id
}

/// Whether `s` holds a point with id `id`.
pub open spec fn has_id(s: Seq<PathPoint>, id: PointId) -> bool {
    exists|i: int| 0 <= i < s.len() && s[i].id == id
}

/// The position of the point with id `id` in `s`, when there is one.
pub open spec fn index_of_id(s: Seq<PathPoint>, id: PointId) -> int {
    choose|i: int| 0 <= i < s.len() && s[i].id == id
}

impl PathModel {
    /// A path as it can exist: at least one point, every id distinct and
    /// belonging to this path, every position in range.
    pub open spec fn wf(self) -> bool {
        &&& self.points.len() >= 1
        &&& self.valid()
    }

    /// Every id distinct and belonging to this path, every position in range;
    /// an emptied path is valid too.
    pub open spec fn valid(self) -> bool {
        &&& ids_distinct(self.points)
        &&& forall|i: int|
            0 <= i < self.points.len() ==> {
                &&& (#[trigger] self.points[i]).id.path == self.id
                &&& self.points[i].point.wf()
            }
        &&& (self.trailing is Some ==> self.trailing.unwrap().wf())
    }

    /// Every point number is below `bound`.
    pub open spec fn ids_below(self, bound: nat) -> bool {
        forall|i: int| 0 <= i < self.points.len() ==> (#[trigger] self.points[i]).id.point < bound
    }

    pub open spec fn start(self) -> PathPoint {
        if self.closed {
            self.points.last()
        } else {
            self.points[0]
        }
    }

    pub open spec fn last_is_curve(self) -> bool {
        self.points.len() > 2 && !self.points[self.points.len() - 2].on_curve()
    }

    /// The curve commands from index `i` on.
    pub open spec fn segments_from(self, i: int) -> Seq<PathEl>
        decreases self.points.len() + 3 - i,
    {
        let s = self.points;
        let n = s.len() as int;
        if i < 0 || i >= n {
            Seq::empty()
        } else if s[i].on_curve() {
            seq![PathEl::LineTo(s[i].point)] + self.segments_from(i + 1)
        } else if i + 1 < n {
            seq![PathEl::CurveTo(s[i].point, s[i + 1].point, s[next_index(n, i + 1)].point)]
                + self.segments_from(i + 3)
        } else {
            Seq::empty()
        }
    }

    /// The curve: a move to the start point, a line for each on-curve point,
    /// a cubic for each pair of off-curve points, and a close when closed.
    /// In an open path the first point is only the move.
    pub open spec fn bezier(self) -> Seq<PathEl> {
        seq![PathEl::MoveTo(self.start().point)] + self.segments_from(
            if self.closed {
                0
            } else {
                1
            },
        ) + if self.closed {
            seq![PathEl::ClosePath]
        } else {
            Seq::empty()
        }
    }

    /// Whether the curve leaves from point `i` with a handle to draw: always
    /// for a lone point, else only when the last segment is a curve.
    pub open spec fn draws_trailing(self) -> bool {
        self.points.len() == 1 || self.last_is_curve()
    }
}

/// Whether point `k` of `s` is named in `ids`.
pub open spec fn selected(s: Seq<PathPoint>, ids: Seq<PointId>, k: int) -> bool {
    ids.contains(s[k].id)
}

/// Whether a nudge of `ids` moves point `k`: a named point moves, and so do
/// the off-curve neighbours of a named on-curve point.
pub open spec fn nudge_mask(s: Seq<PathPoint>, ids: Seq<PointId>, k: int) -> bool {
    let n = s.len() as int;
    let p = prev_index(n, k);
    let q = next_index(n, k);
    selected(s, ids, k) || (!s[k].on_curve() && ((s[p].on_curve() && selected(s, ids, p)) || (
    s[q].on_curve() && selected(s, ids, q))))
}

/// `s` with every point that a nudge of `ids` moves translated by `v`.
pub open spec fn translated_points(s: Seq<PathPoint>, ids: Seq<PointId>, v: DVec2) -> Seq<
    PathPoint,
> {
    Seq::new(
        s.len(),
        |k: int|
            if nudge_mask(s, ids, k) {
                PathPoint { point: s[k].point.translated(v), ..s[k] }
            } else {
                s[k]
            },
    )
}

/// For off-curve point `k`, the smooth point next to it and that point's
/// other handle, when there is one: the previous side is looked at first.
pub open spec fn tangent_of(s: Seq<PathPoint>, k: int) -> Option<(int, int)> {
    let n = s.len() as int;
    let p = prev_index(n, k);
    let q = next_index(n, k);
    if s[p].typ == PointType::OnCurveSmooth {
        let p2 = prev_index(n, p);
        if !s[p2].on_curve() {
            Some((p, p2))
        } else {
            None
        }
    } else if s[q].typ == PointType::OnCurveSmooth {
        let q2 = next_index(n, q);
        if !s[q2].on_curve() {
            Some((q, q2))
        } else {
            None
        }
    } else {
        None
    }
}

/// After the moved off-curve point `k`, re-aim the other handle of its
/// smooth neighbour when that handle did not move itself.
pub open spec fn adjust_step(cur: Seq<PathPoint>, s: Seq<PathPoint>, ids: Seq<PointId>, k: int) -> Seq<
    PathPoint,
> {
    if nudge_mask(s, ids, k) && !s[k].on_curve() {
        match tangent_of(s, k) {
            Some((o, h)) => if !nudge_mask(s, ids, h) {
                cur.update(
                    h,
                    PathPoint { point: tangent_partner(cur[o].point, cur[k].point, cur[h].point), ..cur[h] },
                )
            } else {
                cur
            },
            None => cur,
        }
    } else {
        cur
    }
}

/// The points after a nudge of `ids` by `v`, with the handles of points
/// before index `k` re-aimed.
pub open spec fn nudged_upto(s: Seq<PathPoint>, ids: Seq<PointId>, v: DVec2, k: int) -> Seq<PathPoint>
    decreases k,
{
    if k <= 0 {
        translated_points(s, ids, v)
    } else {
        adjust_step(nudged_upto(s, ids, v, k - 1), s, ids, k - 1)
    }
}

/// The points after a nudge of `ids` by `v`.
pub open spec fn nudged(s: Seq<PathPoint>, ids: Seq<PointId>, v: DVec2) -> Seq<PathPoint> {
    nudged_upto(s, ids, v, s.len() as int)
}

/// Whether `id` is among `ids`.
pub fn contains_id(ids: &[PointId], id: PointId) -> (r: bool)
    ensures
        r == ids@.contains(id),
{
    let mut i: usize = 0;
    while i < ids.len()
        invariant
            i <= ids@.len(),
            forall|j: int| 0 <= j < i ==> ids@[j] != id,
        decreases ids@.len() - i,
    {
        if ids[i] == id {
            return true;
        }
        i += 1;
    }
    false
}

/// The filter that drops the ids in `gone`, and, when `only_on` holds, every
/// off-curve point.
pub open spec fn keep_pred(gone: Seq<PointId>, only_on: bool) -> spec_fn(PathPoint) -> bool {
    |p: PathPoint| !gone.contains(p.id) && (!only_on || p.on_curve())
}

/// `s` with each smooth point whose neighbours are both on-curve made a corner.
pub open spec fn demoted(s: Seq<PathPoint>) -> Seq<PathPoint> {
    let n = s.len() as int;
    Seq::new(
        s.len(),
        |k: int|
            if s[k].typ == PointType::OnCurveSmooth && s[prev_index(n, k)].on_curve()
                && s[next_index(n, k)].on_curve() {
                PathPoint { typ: PointType::OnCurve, ..s[k] }
            } else {
                s[k]
            },
    )
}

/// `s` rotated by one when both ends are off-curve, so that no two handles
/// meet across the seam.
pub open spec fn normalized(s: Seq<PathPoint>) -> Seq<PathPoint> {
    if s.len() > 2 && !s[0].on_curve() && !s.last().on_curve() {
        s.skip(1).push(s[0])
    } else {
        s
    }
}

/// The points left when point `i` goes, before clean-up:
/// - an off-curve point goes with its sibling handle;
/// - a lone point leaves nothing;
/// - of four points only the other on-curve points stay;
/// - an on-curve point next to an on-curve point goes alone;
/// - an on-curve point between two handles goes with both, and if three
///   points are left, only the on-curve ones stay.
pub open spec fn after_removal(s: Seq<PathPoint>, i: int) -> Seq<PathPoint> {
    let n = s.len() as int;
    let p = prev_index(n, i);
    let q = next_index(n, i);
    let id = s[i].id;
    if !s[i].on_curve() {
        if !s[p].on_curve() {
            s.filter(keep_pred(seq![id, s[p].id], false))
        } else if !s[q].on_curve() {
            s.filter(keep_pred(seq![id, s[q].id], false))
        } else {
            s.filter(keep_pred(seq![id], false))
        }
    } else if n == 1 {
        Seq::empty()
    } else if n == 4 {
        s.filter(keep_pred(seq![id], true))
    } else if s[p].on_curve() || s[q].on_curve() {
        s.remove(i)
    } else {
        let t = s.filter(keep_pred(seq![s[p].id, s[q].id, id], false));
        if t.len() == 3 {
            t.filter(keep_pred(Seq::empty(), true))
        } else {
            t
        }
    }
}

/// The path after deleting point `id`; unchanged when `id` is not on it.
/// Fewer than three points leave the path open.
pub open spec fn delete_one(m: PathModel, id: PointId) -> PathModel {
    if !has_id(m.points, id) {
        m
    } else {
        let s3 = normalized(demoted(after_removal(m.points, index_of_id(m.points, id))));
        PathModel {
            points: s3,
            closed: if s3.len() < 3 {
                false
            } else {
                m.closed
            },
            ..m
        }
    }
}

/// The path after deleting `ids` one after the other.
pub open spec fn delete_all(m: PathModel, ids: Seq<PointId>) -> PathModel
    decreases ids.len(),
{
    if ids.len() == 0 {
        m
    } else {
        delete_one(delete_all(m, ids.drop_last()), ids.last())
    }
}

proof fn lemma_filter_step(s: Seq<PathPoint>, f: spec_fn(PathPoint) -> bool, i: int)
    requires
        0 <= i < s.len(),
    ensures
        s.take(i + 1).filter(f) == if f(s[i]) {
            s.take(i).filter(f).push(s[i])
        } else {
            s.take(i).filter(f)
        },
{
    reveal(Seq::filter);
    assert(s.take(i + 1).drop_last() =~= s.take(i));
}

proof fn lemma_filter_keeps(s: Seq<PathPoint>, f: spec_fn(PathPoint) -> bool)
    requires
        ids_distinct(s),
    ensures
        ids_distinct(s.filter(f)),
        forall|i: int|
            0 <= i < s.filter(f).len() ==> exists|j: int|
                0 <= j < s.len() && s[j] == #[trigger] s.filter(f)[i],
    decreases s.len(),
{
    reveal(Seq::filter);
    if s.len() > 0 {
        let t = s.drop_last();
        lemma_filter_keeps(t, f);
        let ft = t.filter(f);
        assert forall|i: int| 0 <= i < ft.len() implies ft[i].id != s.last().id by {
            let j = choose|j: int| 0 <= j < t.len() && t[j] == ft[i];
            assert(s[j] == t[j]);
        }
        assert forall|i: int|
            0 <= i < s.filter(f).len() implies exists|j: int|
                0 <= j < s.len() && s[j] == #[trigger] s.filter(f)[i] by {
            if i < ft.len() {
                let j = choose|j: int| 0 <= j < t.len() && t[j] == ft[i];
                assert(s[j] == t[j]);
            } else {
                assert(s[s.len() - 1] == s.filter(f)[i]);
            }
        }
    }
}

/// Some point of `s` has the id and position of `p`.
pub open spec fn has_point(s: Seq<PathPoint>, p: PathPoint) -> bool {
    exists|j: int| 0 <= j < s.len() && (#[trigger] s[j]).id == p.id && s[j].point == p.point
}

/// Each point of `t` has the id and position of some point of `s`.
pub open spec fn drawn_from(t: Seq<PathPoint>, s: Seq<PathPoint>) -> bool {
    forall|i: int| 0 <= i < t.len() ==> has_point(s, #[trigger] t[i])
}

proof fn lemma_drawn_from_filter(s: Seq<PathPoint>, f: spec_fn(PathPoint) -> bool)
    requires
        ids_distinct(s),
    ensures
        ids_distinct(s.filter(f)),
        drawn_from(s.filter(f), s),
{
    lemma_filter_keeps(s, f);
    assert forall|i: int| 0 <= i < s.filter(f).len() implies has_point(s, #[trigger] s.filter(f)[i]) by {
        let j = choose|j: int| 0 <= j < s.len() && s[j] == #[trigger] s.filter(f)[i];
        assert(s[j].id == s.filter(f)[i].id);
    }
}

proof fn lemma_drawn_from_trans(u: Seq<PathPoint>, t: Seq<PathPoint>, s: Seq<PathPoint>)
    requires
        drawn_from(u, t),
        drawn_from(t, s),
    ensures
        drawn_from(u, s),
{
    assert forall|i: int| 0 <= i < u.len() implies has_point(s, #[trigger] u[i]) by {
        assert(has_point(t, u[i]));
        let k = choose|k: int| 0 <= k < t.len() && (#[trigger] t[k]).id == u[i].id && t[k].point == u[i].point;
        assert(has_point(s, t[k]));
        let j = choose|j: int| 0 <= j < s.len() && (#[trigger] s[j]).id == t[k].id && s[j].point == t[k].point;
        assert(s[j].id == u[i].id);
    }
}

proof fn lemma_demoted_keeps(s: Seq<PathPoint>)
    requires
        ids_distinct(s),
    ensures
        ids_distinct(demoted(s)),
        drawn_from(demoted(s), s),
        demoted(s).len() == s.len(),
{
    let t = demoted(s);
    assert forall|i: int| 0 <= i < t.len() implies has_point(s, #[trigger] t[i]) by {
        assert(s[i].id == t[i].id);
    }
    assert forall|i: int, j: int| 0 <= i < t.len() && 0 <= j < t.len() && i != j implies t[i].id != t[j].id by {
        assert(s[i].id == t[i].id);
        assert(s[j].id == t[j].id);
    }
}

proof fn lemma_normalized_keeps(s: Seq<PathPoint>)
    requires
        ids_distinct(s),
    ensures
        ids_distinct(normalized(s)),
        drawn_from(normalized(s), s),
        normalized(s).len() == s.len(),
{
    let t = normalized(s);
    if s.len() > 2 && !s[0].on_curve() && !s.last().on_curve() {
        assert forall|i: int| 0 <= i < t.len() implies has_point(s, #[trigger] t[i]) by {
            let oi = if i + 1 == s.len() { 0 } else { i + 1 };
            assert(t[i] == s[oi]);
        }
        assert forall|i: int, j: int| 0 <= i < t.len() && 0 <= j < t.len() && i != j implies t[i].id != t[j].id by {
            let oi = if i + 1 == s.len() { 0 } else { i + 1 };
            let oj = if j + 1 == s.len() { 0 } else { j + 1 };
            assert(t[i] == s[oi]);
            assert(t[j] == s[oj]);
        }
    } else {
        assert forall|i: int| 0 <= i < t.len() implies has_point(s, #[trigger] t[i]) by {
            assert(t[i] == s[i]);
        }
    }
}

/// What is drawn from a valid path's points, with distinct ids, is valid.
proof fn lemma_valid_drawn(m: PathModel, t: Seq<PathPoint>)
    requires
        m.valid(),
        ids_distinct(t),
        drawn_from(t, m.points),
    ensures
        (PathModel { points: t, ..m }).valid(),
        forall|b: nat| m.ids_below(b) ==> (PathModel { points: t, ..m }).ids_below(b),
{
    assert forall|i: int| 0 <= i < t.len() implies {
        &&& (#[trigger] t[i]).id.path == m.id
        &&& t[i].point.wf()
    } by {
        assert(has_point(m.points, t[i]));
        let j = choose|j: int| 0 <= j < m.points.len() && (#[trigger] m.points[j]).id == t[i].id && m.points[j].point == t[i].point;
        assert(m.points[j].id.path == m.id);
    }
    assert forall|b: nat| m.ids_below(b) implies (PathModel { points: t, ..m }).ids_below(b) by {
        assert forall|i: int| 0 <= i < t.len() implies (#[trigger] t[i]).id.point < b by {
            assert(has_point(m.points, t[i]));
        let j = choose|j: int| 0 <= j < m.points.len() && (#[trigger] m.points[j]).id == t[i].id && m.points[j].point == t[i].point;
            assert(m.points[j].id.point < b);
        }
    }
}

proof fn lemma_remove_keeps(s: Seq<PathPoint>, i: int)
    requires
        ids_distinct(s),
        0 <= i < s.len(),
    ensures
        ids_distinct(s.remove(i)),
        drawn_from(s.remove(i), s),
{
    let t = s.remove(i);
    assert forall|a: int| 0 <= a < t.len() implies has_point(s, #[trigger] t[a]) by {
        if a < i {
            assert(t[a] == s[a]);
        } else {
            assert(t[a] == s[a + 1]);
        }
    }
    assert forall|a: int, b: int| 0 <= a < t.len() && 0 <= b < t.len() && a != b implies t[a].id != t[b].id by {
        let oa = if a < i { a } else { a + 1 };
        let ob = if b < i { b } else { b + 1 };
        assert(t[a] == s[oa]);
        assert(t[b] == s[ob]);
    }
}

proof fn lemma_drawn_from_self(s: Seq<PathPoint>)
    ensures
        drawn_from(s, s),
{
    assert forall|i: int| 0 <= i < s.len() implies has_point(s, #[trigger] s[i]) by {
        assert(s[i].id == s[i].id);
    }
}

proof fn lemma_removal_keeps(s: Seq<PathPoint>, i: int)
    requires
        ids_distinct(s),
        0 <= i < s.len(),
    ensures
        ids_distinct(after_removal(s, i)),
        drawn_from(after_removal(s, i), s),
{
    let n = s.len() as int;
    let p = prev_index(n, i);
    let q = next_index(n, i);
    let r = after_removal(s, i);
    if !s[i].on_curve() {
        if !s[p].on_curve() {
            let f = keep_pred(seq![s[i].id, s[p].id], false);
            lemma_drawn_from_filter(s, f);
            assert(r == s.filter(f));
        } else if !s[q].on_curve() {
            let f = keep_pred(seq![s[i].id, s[q].id], false);
            lemma_drawn_from_filter(s, f);
            assert(r == s.filter(f));
        } else {
            let f = keep_pred(seq![s[i].id], false);
            lemma_drawn_from_filter(s, f);
            assert(r == s.filter(f));
        }
    } else if n == 1 {
        assert(r == Seq::<PathPoint>::empty());
    } else if n == 4 {
        let f = keep_pred(seq![s[i].id], true);
        lemma_drawn_from_filter(s, f);
        assert(r == s.filter(f));
    } else if s[p].on_curve() || s[q].on_curve() {
        lemma_remove_keeps(s, i);
        assert(r == s.remove(i));
    } else {
        let f = keep_pred(seq![s[p].id, s[q].id, s[i].id], false);
        lemma_drawn_from_filter(s, f);
        let t = s.filter(f);
        if t.len() == 3 {
            let g = keep_pred(Seq::empty(), true);
            lemma_drawn_from_filter(t, g);
            lemma_drawn_from_trans(t.filter(g), t, s);
            assert(r == t.filter(g));
        } else {
            assert(r == t);
        }
    }
}

proof fn lemma_filter_drops(s: Seq<PathPoint>, gone: Seq<PointId>, only_on: bool, x: PointId)
    requires
        gone.contains(x),
    ensures
        !has_id(s.filter(keep_pred(gone, only_on)), x),
{
    let f = keep_pred(gone, only_on);
    let t = s.filter(f);
    assert forall|k: int| 0 <= k < t.len() implies t[k].id != x by {
        s.lemma_filter_pred(f, k);
    }
}

proof fn lemma_removal_drops(s: Seq<PathPoint>, i: int)
    requires
        ids_distinct(s),
        0 <= i < s.len(),
    ensures
        !has_id(after_removal(s, i), s[i].id),
{
    let n = s.len() as int;
    let p = prev_index(n, i);
    let q = next_index(n, i);
    let x = s[i].id;
    let r = after_removal(s, i);
    if !s[i].on_curve() {
        if !s[p].on_curve() {
            lemma_filter_drops(s, seq![x, s[p].id], false, x);
        } else if !s[q].on_curve() {
            lemma_filter_drops(s, seq![x, s[q].id], false, x);
        } else {
            assert(seq![x][0] == x);
            lemma_filter_drops(s, seq![x], false, x);
        }
    } else if n == 1 {
    } else if n == 4 {
        assert(seq![x][0] == x);
        lemma_filter_drops(s, seq![x], true, x);
    } else if s[p].on_curve() || s[q].on_curve() {
        let t = s.remove(i);
        assert forall|k: int| 0 <= k < t.len() implies t[k].id != x by {
            if k < i {
                assert(t[k] == s[k]);
            } else {
                assert(t[k] == s[k + 1]);
            }
        }
    } else {
        let gone = seq![s[p].id, s[q].id, x];
        assert(gone[2] == x);
        lemma_filter_drops(s, gone, false, x);
        lemma_drawn_from_filter(s, keep_pred(gone, false));
        let t = s.filter(keep_pred(gone, false));
        if t.len() == 3 {
            let g = keep_pred(Seq::empty(), true);
            lemma_drawn_from_filter(t, g);
            lemma_absent_drawn(t.filter(g), t, x);
        }
    }
}

proof fn lemma_absent_drawn(t: Seq<PathPoint>, s: Seq<PathPoint>, x: PointId)
    requires
        drawn_from(t, s),
        !has_id(s, x),
    ensures
        !has_id(t, x),
{
    assert forall|k: int| 0 <= k < t.len() implies t[k].id != x by {
        assert(has_point(s, t[k]));
    }
}

/// A click at `point`: a new corner with number `next`, or, on an open path
/// whose start is at `point`, closing the path. Gives the new path, the id
/// of the point clicked, and the next free number.
pub open spec fn appended(m: PathModel, next: nat, point: DPoint) -> (PathModel, PointId, nat) {
    if !m.closed && point == m.points[0].point {
        (
            PathModel { points: m.points.skip(1).push(m.points[0]), closed: true, ..m },
            m.points[0].id,
            next,
        )
    } else {
        let id = PointId { path: m.id, point: next as u64 };
        (
            PathModel {
                points: m.points.push(PathPoint { id, point, typ: PointType::OnCurve }),
                ..m
            },
            id,
            next + 1,
        )
    }
}

/// A drag to `handle` after a click: the new path and next free number.
pub open spec fn dragged(m: PathModel, next: nat, handle: DPoint) -> (PathModel, nat) {
    let s = m.points;
    let n = s.len() as int;
    if !m.last_is_curve() {
        if n > 1 {
            let p1 = match m.trailing {
                Some(t) => t,
                None => s[n - 2].point,
            };
            (
                PathModel {
                    points: s.drop_last() + seq![
                        PathPoint { id: PointId { path: m.id, point: next as u64 }, point: p1, typ: PointType::OffCurve },
                        PathPoint { id: PointId { path: m.id, point: (next + 1) as u64 }, point: s[n - 1].point.mirrored(handle), typ: PointType::OffCurve },
                        PathPoint { typ: PointType::OnCurveSmooth, ..s[n - 1] },
                    ],
                    trailing: Some(handle),
                    ..m
                },
                next + 2,
            )
        } else {
            (PathModel { trailing: Some(handle), ..m }, next)
        }
    } else {
        (
            PathModel {
                points: s.update(n - 2, PathPoint { point: s[n - 1].point.mirrored(handle), ..s[n - 2] }),
                trailing: Some(handle),
                ..m
            },
            next,
        )
    }
}

/// The path with on-curve point `id` switched between corner and smooth; a
/// corner only becomes smooth when a neighbour is off-curve.
pub open spec fn toggled(m: PathModel, id: PointId) -> PathModel {
    let s = m.points;
    let n = s.len() as int;
    let i = index_of_id(s, id);
    let has_ctrl = !s[prev_index(n, i)].on_curve() || !s[next_index(n, i)].on_curve();
    let typ = match s[i].typ {
        PointType::OnCurve => if has_ctrl {
            PointType::OnCurveSmooth
        } else {
            PointType::OnCurve
        },
        PointType::OnCurveSmooth => PointType::OnCurve,
        PointType::OffCurve => PointType::OffCurve,
    };
    PathModel { points: s.update(i, PathPoint { typ, ..s[i] }), ..m }
}

/// The number of on-curve points in `s`.
pub open spec fn on_curve_count(s: Seq<PathPoint>) -> nat
    decreases s.len(),
{
    if s.len() == 0 {
        0
    } else {
        on_curve_count(s.drop_last()) + if s.last().on_curve() {
            1nat
        } else {
            0nat
        }
    }
}

proof fn lemma_count_concat(a: Seq<PathPoint>, b: Seq<PathPoint>)
    ensures
        on_curve_count(a + b) == on_curve_count(a) + on_curve_count(b),
    decreases b.len(),
{
    if b.len() == 0 {
        assert(a + b =~= a);
    } else {
        lemma_count_concat(a, b.drop_last());
        assert((a + b).drop_last() =~= a + b.drop_last());
    }
}

/// A click on the start point of an open path closes it, and leaves the
/// same points, on-curve ones included, in the path.
pub proof fn lemma_click_start_closes(m: PathModel, next: nat)
    requires
        m.wf(),
        !m.closed,
    ensures
        appended(m, next, m.points[0].point).0.closed,
        appended(m, next, m.points[0].point).0.points.len() == m.points.len(),
        on_curve_count(appended(m, next, m.points[0].point).0.points) == on_curve_count(m.points),
{
    let s = m.points;
    let head = seq![s[0]];
    let tail = s.skip(1);
    assert(s =~= head + tail);
    assert(s.skip(1).push(s[0]) =~= tail + head);
    lemma_count_concat(head, tail);
    lemma_count_concat(tail, head);
}

/// Deleting a handle deletes its sibling handle with it: the off-curve
/// neighbour before it, or else the one after it.
pub proof fn lemma_handle_goes_with_sibling(m: PathModel, id: PointId)
    requires
        m.valid(),
        has_id(m.points, id),
        !m.points[index_of_id(m.points, id)].on_curve(),
    ensures
        ({
            let s = m.points;
            let n = s.len() as int;
            let i = index_of_id(s, id);
            let p = prev_index(n, i);
            let q = next_index(n, i);
            &&& !has_id(delete_one(m, id).points, id)
            &&& !s[p].on_curve() ==> !has_id(delete_one(m, id).points, s[p].id)
            &&& (s[p].on_curve() && !s[q].on_curve()) ==> !has_id(delete_one(m, id).points, s[q].id)
        }),
{
    let s = m.points;
    let n = s.len() as int;
    let i = index_of_id(s, id);
    let p = prev_index(n, i);
    let q = next_index(n, i);
    let t = after_removal(s, i);
    lemma_removal_keeps(s, i);
    lemma_removal_drops(s, i);
    lemma_demoted_keeps(t);
    lemma_normalized_keeps(demoted(t));
    lemma_drawn_from_trans(normalized(demoted(t)), demoted(t), t);
    lemma_absent_drawn(normalized(demoted(t)), t, id);
    if !s[p].on_curve() {
        let gone = seq![id, s[p].id];
        assert(gone[1] == s[p].id);
        lemma_filter_drops(s, gone, false, s[p].id);
        lemma_absent_drawn(normalized(demoted(t)), t, s[p].id);
    } else if !s[q].on_curve() {
        let gone = seq![id, s[q].id];
        assert(gone[1] == s[q].id);
        lemma_filter_drops(s, gone, false, s[q].id);
        lemma_absent_drawn(normalized(demoted(t)), t, s[q].id);
    }
}

proof fn lemma_mask_only(s: Seq<PathPoint>, a: int)
    requires
        ids_distinct(s),
        0 <= a < s.len(),
        !s[a].on_curve(),
    ensures
        forall|k: int| 0 <= k < s.len() ==> (nudge_mask(s, seq![s[a].id], k) <==> k == a),
{
    let ids = seq![s[a].id];
    assert forall|k: int| 0 <= k < s.len() implies (selected(s, ids, k) <==> k == a) by {
        if selected(s, ids, k) {
            let j = choose|j: int| 0 <= j < ids.len() && ids[j] == s[k].id;
            assert(ids[j] == s[a].id);
        }
        if k == a {
            assert(ids[0] == s[a].id);
        }
    }
}

proof fn lemma_nudged_one_handle(s: Seq<PathPoint>, o: int, v: DVec2, k: int)
    requires
        ids_distinct(s),
        s.len() >= 3,
        0 <= o < s.len(),
        s[o].typ == PointType::OnCurveSmooth,
        !s[next_index(s.len() as int, o)].on_curve(),
        !s[prev_index(s.len() as int, o)].on_curve(),
        0 <= k <= s.len(),
    ensures
        ({
            let n = s.len() as int;
            let a = next_index(n, o);
            let b = prev_index(n, o);
            let ids = seq![s[a].id];
            let t = translated_points(s, ids, v);
            nudged_upto(s, ids, v, k) == if k <= a {
                t
            } else {
                t.update(b, PathPoint { point: tangent_partner(t[o].point, t[a].point, t[b].point), ..t[b] })
            }
        }),
    decreases k,
{
    let n = s.len() as int;
    let a = next_index(n, o);
    let b = prev_index(n, o);
    let ids = seq![s[a].id];
    lemma_mask_only(s, a);
    if k > 0 {
        lemma_nudged_one_handle(s, o, v, k - 1);
        if k - 1 == a {
            assert(prev_index(n, a) == o);
            assert(tangent_of(s, a) == Some((o, b)));
            assert(b != a);
        }
    }
}

/// Moving only the handle after a smooth point re-aims the handle before it
/// through the point, opposite the moved handle and at its former distance
/// (see [`tangent_partner`]); the moved handle is translated and every other
/// point stays.
pub proof fn lemma_nudge_mirrors_partner(s: Seq<PathPoint>, o: int, v: DVec2)
    requires
        ids_distinct(s),
        s.len() >= 3,
        0 <= o < s.len(),
        s[o].typ == PointType::OnCurveSmooth,
        !s[next_index(s.len() as int, o)].on_curve(),
        !s[prev_index(s.len() as int, o)].on_curve(),
    ensures
        ({
            let n = s.len() as int;
            let a = next_index(n, o);
            let b = prev_index(n, o);
            let r = nudged(s, seq![s[a].id], v);
            &&& r.len() == n
            &&& r[a] == PathPoint { point: s[a].point.translated(v), ..s[a] }
            &&& r[b] == PathPoint {
                point: tangent_partner(s[o].point, s[a].point.translated(v), s[b].point),
                ..s[b]
            }
            &&& forall|j: int| 0 <= j < n && j != a && j != b ==> r[j] == s[j]
        }),
{
    let n = s.len() as int;
    let a = next_index(n, o);
    lemma_mask_only(s, a);
    lemma_nudged_one_handle(s, o, v, n);
}

/// When, after moving only the handle after a smooth point, the handle
/// before it lies a whole `m` times as far from the point as the moved one,
/// the re-aimed handle sits exactly at `point + m * (point - moved)`: at
/// its former distance, in the direction opposite the moved handle.
pub proof fn lemma_nudge_mirrors_exactly(s: Seq<PathPoint>, o: int, v: DVec2, m: nat)
    requires
        ids_distinct(s),
        forall|i: int| 0 <= i < s.len() ==> (#[trigger] s[i]).point.wf(),
        s.len() >= 3,
        0 <= o < s.len(),
        s[o].typ == PointType::OnCurveSmooth,
        !s[next_index(s.len() as int, o)].on_curve(),
        !s[prev_index(s.len() as int, o)].on_curve(),
        ({
            let on = s[o].point;
            let moved = s[next_index(s.len() as int, o)].point.translated(v);
            &&& crate::geom::dist2(moved, on) > 0
            &&& crate::geom::dist2(on, s[prev_index(s.len() as int, o)].point) == m * m
                * crate::geom::dist2(moved, on)
            &&& crate::geom::in_design_range(on.x + m * (on.x - moved.x))
            &&& crate::geom::in_design_range(on.y + m * (on.y - moved.y))
        }),
    ensures
        ({
            let n = s.len() as int;
            let on = s[o].point;
            let moved = s[next_index(n, o)].point.translated(v);
            let r = nudged(s, seq![s[next_index(n, o)].id], v);
            &&& r[prev_index(n, o)].point.x - on.x == m * (on.x - moved.x)
            &&& r[prev_index(n, o)].point.y - on.y == m * (on.y - moved.y)
            &&& crate::geom::dist2(on, r[prev_index(n, o)].point) == crate::geom::dist2(
                on,
                s[prev_index(n, o)].point,
            )
        }),
{
    let n = s.len() as int;
    lemma_nudge_mirrors_partner(s, o, v);
    let a = next_index(n, o);
    let b = prev_index(n, o);
    crate::geom::lemma_tangent_partner_mirrors(s[o].point, s[a].point.translated(v), s[b].point, m);
}

impl Path {
    pub open spec fn wf(&self) -> bool {
        self@.wf()
    }

    /// A new open path of one corner point, with id `point_id`.
    pub fn new(id: u64, point_id: u64, point: DPoint) -> (r: Path)
        requires
            point.wf(),
        ensures
            r@.id == id,
            r@.points == seq![PathPoint { id: PointId { path: id, point: point_id }, point, typ: PointType::OnCurve }],
            r@.trailing is None,
            !r@.closed,
            r.wf(),
    {
        let start = PathPoint { id: PointId { path: id, point: point_id }, point, typ: PointType::OnCurve };
        let mut points: Vec<PathPoint> = Vec::new();
        points.push(start);
        Path { id, points, trailing: None, closed: false }
    }

    pub fn id(&self) -> (r: u64)
        ensures
            r == self@.id,
    {
        self.id
    }

    pub fn is_closed(&self) -> (r: bool)
        ensures
            r == self@.closed,
    {
        self.closed
    }

    pub fn points(&self) -> (r: &[PathPoint])
        ensures
            r@ == self@.points,
    {
        self.points.as_slice()
    }

    pub fn len(&self) -> (r: usize)
        ensures
            r == self@.points.len(),
    {
        self.points.len()
    }

    pub fn trailing(&self) -> (r: Option<DPoint>)
        ensures
            r == self@.trailing,
    {
        self.trailing
    }

    pub fn clear_trailing(&mut self)
        ensures
            final(self)@ == (PathModel { trailing: None, ..old(self)@ }),
    {
        self.trailing = None;
    }

    /// Whether the trailing handle should be drawn.
    pub fn should_draw_trailing(&self) -> (r: bool)
        ensures
            r == self@.draws_trailing(),
    {
        self.points.len() == 1 || self.last_segment_is_curve()
    }

    /// Whether the last segment is a cubic curve.
    pub fn last_segment_is_curve(&self) -> (r: bool)
        ensures
            r == self@.last_is_curve(),
    {
        let len = self.points.len();
        len > 2 && !self.points[len - 2].is_on_curve()
    }

    /// The point the path starts from: the first, or, once closed, the last.
    pub fn start_point(&self) -> (r: PathPoint)
        requires
            self.wf(),
        ensures
            r == self@.start(),
    {
        if self.closed {
            self.points[self.points.len() - 1]
        } else {
            self.points[0]
        }
    }

    /// Whether point `i` is an endpoint of an open path, drawn with a cap.
    pub fn is_terminal(&self, i: usize) -> (r: bool)
        requires
            i < self@.points.len(),
        ensures
            r == (!self@.closed && self@.points[i as int].on_curve() && (i == 0 || i + 1
                == self@.points.len())),
    {
        !self.closed && self.points[i].is_on_curve() && (i == 0 || i == self.points.len() - 1)
    }

    /// The curve through the points.
    pub fn bezier(&self) -> (r: Vec<PathEl>)
        requires
            self.wf(),
        ensures
            r@ == self@.bezier(),
            forall|i: int| 0 <= i < r@.len() ==> (#[trigger] r@[i]).points_wf(),
    {
        let ghost m = self@;
        let n = self.points.len();
        let mut out: Vec<PathEl> = Vec::new();
        out.push(PathEl::MoveTo(self.start_point().point));
        let mut i: usize = if self.closed {
            0
        } else {
            1
        };
        let ghost i0 = i as int;
        while i < n
            invariant
                m == self@,
                n == m.points.len(),
                n >= 1,
                i <= n,
                out@ + m.segments_from(i as int) == seq![PathEl::MoveTo(m.start().point)]
                    + m.segments_from(i0),
                m.wf(),
                forall|j: int| 0 <= j < out@.len() ==> (#[trigger] out@[j]).points_wf(),
            decreases n - i,
        {
            let p = self.points[i];
            if p.is_on_curve() {
                let ghost before = out@;
                out.push(PathEl::LineTo(p.point));
                assert(out@ + m.segments_from(i + 1) =~= before + m.segments_from(i as int));
                i = i + 1;
            } else if i + 1 < n {
                let j = if i + 2 == n {
                    0
                } else {
                    i + 2
                };
                let ghost before = out@;
                out.push(PathEl::CurveTo(p.point, self.points[i + 1].point, self.points[j].point));
                assert(out@ + m.segments_from(i + 3) =~= before + m.segments_from(i as int));
                if i + 2 < n {
                    i = i + 3;
                } else {
                    assert(m.segments_from(i + 3) =~= Seq::<PathEl>::empty());
                    assert(m.segments_from(n as int) =~= Seq::<PathEl>::empty());
                    i = n;
                }
            } else {
                assert(m.segments_from(i as int) =~= Seq::<PathEl>::empty());
                assert(out@ =~= out@ + m.segments_from(i as int));
                i = n;
            }
        }
        assert(m.segments_from(i as int) =~= Seq::<PathEl>::empty());
        if self.closed {
            let ghost before = out@;
            out.push(PathEl::ClosePath);
            assert(out@ =~= m.bezier());
        } else {
            assert(out@ =~= m.bezier());
        }
        out
    }

    /// Appends a corner at `point`, or, when the path is open and `point` is
    /// its start, closes it instead: the start moves to the end of the
    /// sequence. Returns the id of the new point, or of the start point.
    ///
    /// The click tolerance is applied by the caller: a click drawn within the
    /// minimum distance of the start is first snapped onto the start point
    /// (see `tools::pen_point`), so that this comparison is exact.
    pub fn append_point(&mut self, ids: &mut IdGen, point: DPoint) -> (r: PointId)
        requires
            old(self).wf(),
            old(self)@.ids_below(old(ids)@),
            old(ids)@ < u64::MAX,
            point.wf(),
        ensures
            final(self).wf(),
            final(self)@.ids_below(final(ids)@),
            (final(self)@, r, final(ids)@) == appended(old(self)@, old(ids)@, point),
    {
        if !self.closed && point == self.points[0].point {
            return self.close();
        }
        let id = PointId { path: self.id, point: ids.fresh() };
        let new = PathPoint { id, point, typ: PointType::OnCurve };
        self.points.push(new);
        id
    }

    /// Closes an open path: the start point moves to the end.
    fn close(&mut self) -> (r: PointId)
        requires
            old(self).wf(),
        ensures
            final(self).wf(),
            final(self)@ == (PathModel {
                points: old(self)@.points.skip(1).push(old(self)@.points[0]),
                closed: true,
                ..old(self)@
            }),
            r == old(self)@.points[0].id,
    {
        let ghost s = self.points@;
        let first = self.points.remove(0);
        self.points.push(first);
        self.closed = true;
        assert(self.points@ =~= s.skip(1).push(s[0]));
        assert forall|i: int, j: int|
            0 <= i < self.points@.len() && 0 <= j < self.points@.len() && i != j
                implies self.points@[i].id != self.points@[j].id by {
            let oi = if i + 1 == s.len() { 0 } else { i + 1 };
            let oj = if j + 1 == s.len() { 0 } else { j + 1 };
            assert(self.points@[i] == s[oi]);
            assert(self.points@[j] == s[oj]);
        }
        assert forall|i: int| 0 <= i < self.points@.len() implies {
            &&& (#[trigger] self.points@[i]).id.path == self.id
            &&& self.points@[i].point.wf()
        } by {
            let oi = if i + 1 == s.len() { 0 } else { i + 1 };
            assert(self.points@[i] == s[oi]);
        }
        first.id
    }

    /// The position of the point with id `id`, if it is on this path.
    pub fn idx_for_point(&self, id: PointId) -> (r: Option<usize>)
        ensures
            match r {
                Some(i) => i < self@.points.len() && self@.points[i as int].id == id,
                None => !has_id(self@.points, id),
            },
    {
        let mut i: usize = 0;
        while i < self.points.len()
            invariant
                i <= self.points@.len(),
                forall|j: int| 0 <= j < i ==> self.points@[j].id != id,
            decreases self.points@.len() - i,
        {
            if self.points[i].id == id {
                return Some(i);
            }
            i += 1;
        }
        None
    }

    fn prev_idx(&self, idx: usize) -> (r: usize)
        requires
            idx < self@.points.len(),
        ensures
            r == prev_index(self@.points.len() as int, idx as int),
            r < self@.points.len(),
    {
        if idx == 0 {
            self.points.len() - 1
        } else {
            idx - 1
        }
    }

    fn next_idx(&self, idx: usize) -> (r: usize)
        requires
            idx < self@.points.len(),
        ensures
            r == next_index(self@.points.len() as int, idx as int),
            r < self@.points.len(),
    {
        if idx == self.points.len() - 1 {
            0
        } else {
            idx + 1
        }
    }

    /// The point with id `id`, if it is on this path.
    pub fn path_point_for_id(&self, id: PointId) -> (r: Option<PathPoint>)
        ensures
            match r {
                Some(p) => has_id(self@.points, id) && p.id == id && self@.points.contains(p),
                None => !has_id(self@.points, id),
            },
    {
        match self.idx_for_point(id) {
            Some(i) => Some(self.points[i]),
            None => None,
        }
    }

    /// The point before the one with id `id`, cyclically.
    pub fn prev_point(&self, id: PointId) -> (r: PathPoint)
        requires
            self.wf(),
            has_id(self@.points, id),
        ensures
            r == self@.points[prev_index(
                self@.points.len() as int,
                index_of_id(self@.points, id),
            )],
    {
        let i = self.idx_for_point(id).unwrap();
        assert(i == index_of_id(self@.points, id));
        self.points[self.prev_idx(i)]
    }

    /// The point after the one with id `id`, cyclically.
    pub fn next_point(&self, id: PointId) -> (r: PathPoint)
        requires
            self.wf(),
            has_id(self@.points, id),
        ensures
            r == self@.points[next_index(
                self@.points.len() as int,
                index_of_id(self@.points, id),
            )],
    {
        let i = self.idx_for_point(id).unwrap();
        assert(i == index_of_id(self@.points, id));
        self.points[self.next_idx(i)]
    }

    /// Switches the on-curve point `id` between corner and smooth. A corner
    /// only becomes smooth when one of its neighbours is off-curve.
    pub fn toggle_on_curve_point_type(&mut self, id: PointId)
        requires
            old(self).wf(),
            has_id(old(self)@.points, id),
        ensures
            final(self).wf(),
            final(self)@ == toggled(old(self)@, id),
    {
        let idx = self.idx_for_point(id).unwrap();
        assert(idx == index_of_id(self@.points, id));
        let has_ctrl = !self.points[self.prev_idx(idx)].is_on_curve()
            || !self.points[self.next_idx(idx)].is_on_curve();
        let p = self.points[idx];
        let typ = match p.typ {
            PointType::OnCurve => if has_ctrl {
                PointType::OnCurveSmooth
            } else {
                PointType::OnCurve
            },
            PointType::OnCurveSmooth => PointType::OnCurve,
            PointType::OffCurve => PointType::OffCurve,
        };
        self.points.set(idx, PathPoint { typ, ..p });
    }

    /// Called while the user drags after placing a point. If the last
    /// segment is not yet a curve, its end point becomes smooth and gains
    /// two handles: one at the previous trailing handle (or the previous
    /// point), one at the reflection of `handle` through the end point.
    /// Otherwise the handle before the end point is moved to that
    /// reflection. Either way `handle` becomes the trailing handle.
    pub fn update_for_drag(&mut self, ids: &mut IdGen, handle: DPoint)
        requires
            old(self).wf(),
            old(self)@.ids_below(old(ids)@),
            old(ids)@ + 2 < u64::MAX,
            handle.wf(),
        ensures
            final(self).wf(),
            final(self)@.ids_below(final(ids)@),
            (final(self)@, final(ids)@) == dragged(old(self)@, old(ids)@, handle),
    {
        if !self.last_segment_is_curve() {
            self.convert_last_to_curve(ids, handle);
        } else {
            self.update_trailing(handle);
        }
    }

    fn convert_last_to_curve(&mut self, ids: &mut IdGen, handle: DPoint)
        requires
            old(self).wf(),
            old(self)@.ids_below(old(ids)@),
            old(ids)@ + 2 < u64::MAX,
            handle.wf(),
        ensures
            final(self).wf(),
            final(self)@.ids_below(final(ids)@),
            final(self)@.id == old(self)@.id,
            final(self)@.closed == old(self)@.closed,
            final(self)@.trailing == Some(handle),
            ({
                let s = old(self)@.points;
                let n = s.len() as int;
                let next = old(ids)@;
                if n > 1 {
                    let p1 = match old(self)@.trailing {
                        Some(t) => t,
                        None => s[n - 2].point,
                    };
                    &&& final(self)@.points == s.drop_last() + seq![
                        PathPoint { id: PointId { path: old(self)@.id, point: next as u64 }, point: p1, typ: PointType::OffCurve },
                        PathPoint { id: PointId { path: old(self)@.id, point: (next + 1) as u64 }, point: s[n - 1].point.mirrored(handle), typ: PointType::OffCurve },
                        PathPoint { typ: PointType::OnCurveSmooth, ..s[n - 1] },
                    ]
                    &&& final(ids)@ == next + 2
                } else {
                    &&& final(self)@.points == s
                    &&& final(ids)@ == next
                }
            }),
    {
        let ghost s = self.points@;
        if self.points.len() > 1 {
            let last = self.points.pop().unwrap();
            let prev = PathPoint { typ: PointType::OnCurveSmooth, ..last };
            let p1 = match self.trailing {
                Some(t) => t,
                None => self.points[self.points.len() - 1].point,
            };
            let p2 = last.point.mirror(handle);
            let a = PathPoint { id: PointId { path: self.id, point: ids.fresh() }, point: p1, typ: PointType::OffCurve };
            let b = PathPoint { id: PointId { path: self.id, point: ids.fresh() }, point: p2, typ: PointType::OffCurve };
            self.points.push(a);
            self.points.push(b);
            self.points.push(prev);
            assert(self.points@ =~= s.drop_last() + seq![a, b, prev]);
            assert forall|i: int, j: int|
                0 <= i < self.points@.len() && 0 <= j < self.points@.len() && i != j
                    implies self.points@[i].id != self.points@[j].id by {
                if i < s.len() - 1 {
                    assert(self.points@[i] == s[i]);
                } else if i == s.len() + 1 {
                    assert(self.points@[i].id == s[s.len() - 1].id);
                }
                if j < s.len() - 1 {
                    assert(self.points@[j] == s[j]);
                } else if j == s.len() + 1 {
                    assert(self.points@[j].id == s[s.len() - 1].id);
                }
            }
            assert forall|i: int| 0 <= i < self.points@.len() implies {
                &&& (#[trigger] self.points@[i]).id.path == self.id
                &&& self.points@[i].point.wf()
                &&& self.points@[i].id.point < ids@
            } by {
                if i < s.len() - 1 {
                    assert(self.points@[i] == s[i]);
                } else if i == s.len() + 1 {
                    assert(self.points@[i].id == s[s.len() - 1].id);
                    assert(self.points@[i].point == s[s.len() - 1].point);
                }
            }
        }
        self.trailing = Some(handle);
    }

    fn update_trailing(&mut self, handle: DPoint)
        requires
            old(self).wf(),
            old(self)@.last_is_curve(),
            handle.wf(),
        ensures
            final(self).wf(),
            final(self)@.trailing == Some(handle),
            ({
                let s = old(self)@.points;
                let n = s.len() as int;
                final(self)@ == (PathModel {
                    points: s.update(
                        n - 2,
                        PathPoint { point: s[n - 1].point.mirrored(handle), ..s[n - 2] },
                    ),
                    trailing: Some(handle),
                    ..old(self)@
                })
            }),
    {
        let len = self.points.len();
        let on_curve_pt = self.points[len - 1].point;
        let p = self.points[len - 2];
        self.points.set(len - 2, PathPoint { point: on_curve_pt.mirror(handle), ..p });
        self.trailing = Some(handle);
        assert forall|i: int, j: int|
            0 <= i < self.points@.len() && 0 <= j < self.points@.len() && i != j
                implies self.points@[i].id != self.points@[j].id by {
            assert(self.points@[i].id == old(self).points@[i].id);
            assert(self.points@[j].id == old(self).points@[j].id);
        }
        assert forall|i: int| 0 <= i < self.points@.len() implies {
            &&& (#[trigger] self.points@[i]).id.path == self.id
            &&& self.points@[i].point.wf()
        } by {
            assert(self.points@[i].id == old(self).points@[i].id);
        }
    }

    fn mask_at(&self, ids: &[PointId], k: usize) -> (r: bool)
        requires
            k < self@.points.len(),
        ensures
            r == nudge_mask(self@.points, ids@, k as int),
    {
        let p = self.prev_idx(k);
        let q = self.next_idx(k);
        contains_id(ids, self.points[k].id) || (!self.points[k].is_on_curve() && ((
        self.points[p].is_on_curve() && contains_id(ids, self.points[p].id)) || (
        self.points[q].is_on_curve() && contains_id(ids, self.points[q].id))))
    }

    fn tangent_handle(&self, k: usize) -> (r: Option<(usize, usize)>)
        requires
            k < self@.points.len(),
        ensures
            match r {
                Some((o, h)) => tangent_of(self@.points, k as int) == Some((o as int, h as int))
                    && o < self@.points.len() && h < self@.points.len(),
                None => tangent_of(self@.points, k as int) is None,
            },
    {
        let p = self.prev_idx(k);
        let q = self.next_idx(k);
        if self.points[p].typ == PointType::OnCurveSmooth {
            let p2 = self.prev_idx(p);
            if !self.points[p2].is_on_curve() {
                Some((p, p2))
            } else {
                None
            }
        } else if self.points[q].typ == PointType::OnCurveSmooth {
            let q2 = self.next_idx(q);
            if !self.points[q2].is_on_curve() {
                Some((q, q2))
            } else {
                None
            }
        } else {
            None
        }
    }

    /// Moves the points `ids` by `v`. An on-curve point takes its off-curve
    /// neighbours along. When a handle of a smooth point moves and the other
    /// handle does not, the other is re-aimed to stay opposite, at its former
    /// distance. Ids not on this path are ignored.
    pub fn nudge_points(&mut self, ids: &[PointId], v: DVec2)
        requires
            old(self).wf(),
        ensures
            final(self).wf(),
            final(self)@ == (PathModel { points: nudged(old(self)@.points, ids@, v), ..old(self)@ }),
            final(self)@.points.len() == old(self)@.points.len(),
            forall|i: int|
                0 <= i < old(self)@.points.len() ==> (#[trigger] final(self)@.points[i]).id
                    == old(self)@.points[i].id,
    {
        let ghost s = self.points@;
        let n = self.points.len();
        let mut mask: Vec<bool> = Vec::new();
        let mut k: usize = 0;
        while k < n
            invariant
                self.points@ == s,
                n == s.len(),
                k <= n,
                mask@.len() == k,
                forall|j: int| 0 <= j < k ==> mask@[j] == nudge_mask(s, ids@, j),
            decreases n - k,
        {
            mask.push(self.mask_at(ids, k));
            k += 1;
        }
        k = 0;
        while k < n
            invariant
                old(self).wf(),
                s == old(self)@.points,
                self@ == (PathModel { points: self.points@, ..old(self)@ }),
                n == s.len(),
                self.points@.len() == n,
                k <= n,
                mask@.len() == n,
                forall|j: int| 0 <= j < n ==> mask@[j] == nudge_mask(s, ids@, j),
                forall|j: int| 0 <= j < k ==> self.points@[j] == translated_points(s, ids@, v)[j],
                forall|j: int| k <= j < n ==> self.points@[j] == s[j],
            decreases n - k,
        {
            if mask[k] {
                let p = self.points[k];
                self.points.set(k, PathPoint { point: p.point.translate(v), ..p });
            }
            k += 1;
        }
        assert(self.points@ =~= nudged_upto(s, ids@, v, 0));
        k = 0;
        while k < n
            invariant
                old(self).wf(),
                s == old(self)@.points,
                self@ == (PathModel { points: self.points@, ..old(self)@ }),
                n == s.len(),
                self.points@.len() == n,
                k <= n,
                mask@.len() == n,
                forall|j: int| 0 <= j < n ==> mask@[j] == nudge_mask(s, ids@, j),
                self.points@ == nudged_upto(s, ids@, v, k as int),
                forall|j: int|
                    0 <= j < n ==> {
                        &&& (#[trigger] self.points@[j]).id == s[j].id
                        &&& self.points@[j].typ == s[j].typ
                        &&& self.points@[j].point.wf()
                    },
            decreases n - k,
        {
            let ghost cur = self.points@;
            if mask[k] && !self.points[k].is_on_curve() {
                assert(tangent_of(cur, k as int) == tangent_of(s, k as int));
                match self.tangent_handle(k) {
                    Some((o, h)) => {
                        if !mask[h] {
                            let ph = self.points[h];
                            let np = tangent_partner_of(self.points[o].point, self.points[k].point, ph.point);
                            self.points.set(h, PathPoint { point: np, ..ph });
                        }
                    },
                    None => {},
                }
            }
            assert(self.points@ =~= adjust_step(cur, s, ids@, k as int));
            k += 1;
        }
    }

    /// The points of `v` that `keep_pred(gone, only_on)` keeps, in order.
    fn kept_points(v: &Vec<PathPoint>, gone: &[PointId], only_on: bool) -> (r: Vec<PathPoint>)
        ensures
            r@ == v@.filter(keep_pred(gone@, only_on)),
    {
        let ghost f = keep_pred(gone@, only_on);
        let mut out: Vec<PathPoint> = Vec::new();
        let mut i: usize = 0;
        assert(v@.take(0).filter(f) =~= Seq::<PathPoint>::empty()) by {
            reveal(Seq::filter);
        }
        while i < v.len()
            invariant
                i <= v@.len(),
                f == keep_pred(gone@, only_on),
                out@ == v@.take(i as int).filter(f),
            decreases v@.len() - i,
        {
            proof {
                lemma_filter_step(v@, f, i as int);
            }
            let p = v[i];
            if !contains_id(gone, p.id) && (!only_on || p.is_on_curve()) {
                out.push(p);
            }
            i += 1;
        }
        assert(v@.take(v@.len() as int) =~= v@);
        out
    }

    fn id_list(a: PointId, b: Option<PointId>, c: Option<PointId>) -> (r: Vec<PointId>)
        ensures
            r@ == match (b, c) {
                (Some(b), Some(c)) => seq![a, b, c],
                (Some(b), None) => seq![a, b],
                (None, Some(c)) => seq![a, c],
                (None, None) => seq![a],
            },
    {
        let mut v: Vec<PointId> = Vec::new();
        v.push(a);
        match b {
            Some(b) => v.push(b),
            None => {},
        }
        match c {
            Some(c) => v.push(c),
            None => {},
        }
        assert(v@ =~= match (b, c) {
            (Some(b), Some(c)) => seq![a, b, c],
            (Some(b), None) => seq![a, b],
            (None, Some(c)) => seq![a, c],
            (None, None) => seq![a],
        });
        v
    }

    fn removal(&self, i: usize) -> (r: Vec<PathPoint>)
        requires
            i < self@.points.len(),
            self@.valid(),
        ensures
            r@ == after_removal(self@.points, i as int),
    {
        let ghost s = self.points@;
        let n = self.points.len();
        let p = self.prev_idx(i);
        let q = self.next_idx(i);
        let id = self.points[i].id;
        if !self.points[i].is_on_curve() {
            if !self.points[p].is_on_curve() {
                let gone = Path::id_list(id, Some(self.points[p].id), None);
                Path::kept_points(&self.points, gone.as_slice(), false)
            } else if !self.points[q].is_on_curve() {
                let gone = Path::id_list(id, Some(self.points[q].id), None);
                Path::kept_points(&self.points, gone.as_slice(), false)
            } else {
                let gone = Path::id_list(id, None, None);
                Path::kept_points(&self.points, gone.as_slice(), false)
            }
        } else if n == 1 {
            Vec::new()
        } else if n == 4 {
            let gone = Path::id_list(id, None, None);
            Path::kept_points(&self.points, gone.as_slice(), true)
        } else if self.points[p].is_on_curve() || self.points[q].is_on_curve() {
            let mut t: Vec<PathPoint> = Vec::new();
            let mut k: usize = 0;
            while k < n
                invariant
                    self.points@ == s,
                    n == s.len(),
                    i < n,
                    k <= n,
                    t@ == if k <= i { s.take(k as int) } else { s.take(k as int).remove(i as int) },
                decreases n - k,
            {
                if k != i {
                    t.push(self.points[k]);
                }
                proof {
                    assert(s.take(k + 1) =~= s.take(k as int).push(s[k as int]));
                    if k > i {
                        assert(s.take(k + 1).remove(i as int) =~= s.take(k as int).remove(i as int).push(s[k as int]));
                    }
                }
                k += 1;
            }
            assert(s.take(n as int) =~= s);
            t
        } else {
            let gone = Path::id_list(self.points[p].id, Some(self.points[q].id), Some(id));
            let t = Path::kept_points(&self.points, gone.as_slice(), false);
            if t.len() == 3 {
                let keep_all: Vec<PointId> = Vec::new();
                Path::kept_points(&t, keep_all.as_slice(), true)
            } else {
                t
            }
        }
    }

    /// Deletes point `id`, keeping the curve's shape as far as it can (see
    /// [`after_removal`]). Smooth points left between on-curve points become
    /// corners, the sequence is rotated so that no two handles meet across
    /// the seam, and fewer than three points leave the path open. An emptied
    /// path is left for its owner to remove.
    pub fn delete_point(&mut self, id: PointId)
        requires
            old(self)@.valid(),
        ensures
            final(self)@ == delete_one(old(self)@, id),
            final(self)@.valid(),
            drawn_from(final(self)@.points, old(self)@.points),
            !has_id(final(self)@.points, id),
    {
        let ghost m = self@;
        let idx = match self.idx_for_point(id) {
            Some(i) => i,
            None => {
                proof {
                    lemma_drawn_from_self(m.points);
                }
                return;
            },
        };
        assert(idx == index_of_id(m.points, id));
        let s1 = self.removal(idx);
        proof {
            lemma_removal_keeps(m.points, idx as int);
            lemma_removal_drops(m.points, idx as int);
        }
        let ghost g1 = s1@;
        let mut s2 = Path::demote_points(&s1);
        let len = s2.len();
        if len > 2 && !s2[0].is_on_curve() && !s2[len - 1].is_on_curve() {
            let ghost g2 = s2@;
            let first = s2.remove(0);
            s2.push(first);
            assert(s2@ =~= normalized(g2));
        }
        proof {
            lemma_demoted_keeps(g1);
            lemma_normalized_keeps(demoted(g1));
            lemma_drawn_from_trans(normalized(demoted(g1)), demoted(g1), g1);
            lemma_drawn_from_trans(normalized(demoted(g1)), g1, m.points);
            lemma_valid_drawn(m, normalized(demoted(g1)));
            lemma_absent_drawn(normalized(demoted(g1)), g1, id);
        }
        self.points = s2;
        if self.points.len() < 3 {
            self.closed = false;
        }
    }

    fn demote_points(s1: &Vec<PathPoint>) -> (r: Vec<PathPoint>)
        ensures
            r@ == demoted(s1@),
    {
        let ghost g1 = s1@;
        let n1 = s1.len();
        let mut s2: Vec<PathPoint> = Vec::new();
        let mut k: usize = 0;
        while k < n1
            invariant
                n1 == g1.len(),
                s1@ == g1,
                k <= n1,
                s2@.len() == k,
                forall|j: int| 0 <= j < k ==> s2@[j] == demoted(g1)[j],
            decreases n1 - k,
        {
            let pk = if k == 0 {
                n1 - 1
            } else {
                k - 1
            };
            let nk = if k == n1 - 1 {
                0
            } else {
                k + 1
            };
            let pt = s1[k];
            if pt.typ == PointType::OnCurveSmooth && s1[pk].is_on_curve() && s1[nk].is_on_curve() {
                s2.push(PathPoint { typ: PointType::OnCurve, ..pt });
            } else {
                s2.push(pt);
            }
            k += 1;
        }
        assert(s2@ =~= demoted(g1));
        s2
    }

    /// Deletes the points `ids`, one after the other (see
    /// [`Path::delete_point`]). Once any point has gone, a closed path has at
    /// least three points.
    pub fn delete_points(&mut self, ids: &[PointId])
        requires
            old(self)@.valid(),
        ensures
            final(self)@ == delete_all(old(self)@, ids@),
            final(self)@.id == old(self)@.id,
            final(self)@.valid(),
            drawn_from(final(self)@.points, old(self)@.points),
            forall|j: int| 0 <= j < ids@.len() ==> !has_id(final(self)@.points, #[trigger] ids@[j]),
            (exists|j: int| 0 <= j < ids@.len() && has_id(old(self)@.points, #[trigger] ids@[j]))
                ==> (final(self)@.closed ==> final(self)@.points.len() >= 3),
    {
        let ghost m = self@;
        let ghost mut any = false;
        proof {
            lemma_drawn_from_self(m.points);
        }
        let mut j: usize = 0;
        while j < ids.len()
            invariant
                j <= ids@.len(),
                self@ == delete_all(m, ids@.take(j as int)),
                self@.id == m.id,
                self@.valid(),
                drawn_from(self@.points, m.points),
                forall|k: int| 0 <= k < j ==> !has_id(self@.points, #[trigger] ids@[k]),
                !any ==> self@ == m,
                any ==> (self@.closed ==> self@.points.len() >= 3),
            decreases ids@.len() - j,
        {
            let ghost before = self@;
            let ghost found = has_id(before.points, ids@[j as int]);
            self.delete_point(ids[j]);
            proof {
                assert(ids@.take(j + 1).drop_last() =~= ids@.take(j as int));
                lemma_drawn_from_trans(self@.points, before.points, m.points);
                assert forall|k: int| 0 <= k < j + 1 implies !has_id(self@.points, #[trigger] ids@[k]) by {
                    if k < j {
                        lemma_absent_drawn(self@.points, before.points, ids@[k]);
                    }
                }
                if found {
                    any = true;
                }
            }
            j += 1;
        }
        proof {
            assert(ids@.take(ids@.len() as int) =~= ids@);
        }
    }
}

} // verus!
